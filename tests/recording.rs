use autocast::event::Event;
use autocast::recording::{File, Header};

fn header() -> Header {
    Header {
        width: 80,
        height: 24,
        timestamp: None,
        duration: None,
        idle_time_limit: None,
        command: None,
        title: None,
        env: Vec::new(),
    }
}

#[test]
fn header_without_optionals() {
    assert_eq!(header().to_json(), r#"{"version": 2, "width": 80, "height": 24}"#);
}

#[test]
fn header_without_title_has_no_title_key() {
    let mut h = header();
    h.command = Some(String::from("bash"));
    let json = h.to_json();
    assert!(!json.contains("\"title\""));
    assert!(!json.contains("null"));
    h.title = Some(String::from("demo"));
    assert!(h.to_json().contains(r#""title": "demo""#));
}

#[test]
fn header_field_order() {
    let h = Header {
        width: 100,
        height: 30,
        timestamp: Some(1_700_000_000),
        duration: Some(1_500_000),
        idle_time_limit: Some(2_000_000),
        command: Some(String::from("sh")),
        title: Some(String::from("say \"hi\"")),
        env: vec![
            (String::from("SHELL"), String::from("/bin/bash")),
            (String::from("TERM"), String::from("xterm")),
        ],
    };
    assert_eq!(
        h.to_json(),
        [
            r#"{"version": 2, "width": 100, "height": 30, "timestamp": 1700000000, "#,
            r#""duration": 1.500000, "idle_time_limit": 2.000000, "command": "sh", "#,
            r#""title": "say \"hi\"", "env": {"SHELL": "/bin/bash", "TERM": "xterm"}}"#
        ]
        .concat()
    );
}

#[test]
fn event_lines() {
    assert_eq!(
        Event::output(123_000, String::from("hi\r\n")).to_json(),
        r#"[0.123000, "o", "hi\r\n"]"#
    );
    assert_eq!(
        Event::marker(61_000_007, String::from("x")).to_json(),
        r#"[61.000007, "m", "x"]"#
    );
    assert_eq!(
        Event::input(0, String::from("\u{1b}\t")).to_json(),
        r#"[0.000000, "i", "\u001b\t"]"#
    );
}

#[test]
fn file_duration_is_sum_of_delays() {
    let events = vec![
        Event::output(0, String::from("$ ")),
        Event::output(250_000, String::from("a")),
        Event::output(100_000, String::from("\r\n")),
    ];
    let f = File::new(80, 24, Some(5), None, Vec::new(), events);
    assert_eq!(f.header.duration, Some(350_000));
    assert_eq!(
        f.to_text(),
        [
            "{\"version\": 2, \"width\": 80, \"height\": 24, \"timestamp\": 5, \"duration\": 0.350000}\n",
            "[0.000000, \"o\", \"$ \"]\n",
            "[0.250000, \"o\", \"a\"]\n",
            "[0.100000, \"o\", \"\\r\\n\"]\n"
        ]
        .concat()
    );
}
