use autocast::encode::{type_line, Command, Control, Key};
use autocast::event::{Event, EventType};

fn out(time: u64, data: &str) -> Event {
    Event::output(time, String::from(data))
}

#[test]
fn type_line_types_each_char_then_newline() {
    assert_eq!(
        type_line(5, "ab"),
        vec![out(5, "a"), out(5, "b"), out(5, "\r\n")]
    );
    assert_eq!(type_line(5, ""), vec![out(5, "\r\n")]);
}

#[test]
fn single_line_events_and_input() {
    let c = Command::SingleLine(String::from("echo hi"));
    let events = c.events(100, "> ", " \\");
    assert_eq!(events.len(), 8);
    let typed: String = events[..7].iter().map(|e| e.data.as_str()).collect();
    assert_eq!(typed, "echo hi");
    assert!(events.iter().all(|e| e.time == 100 && e.event_type == EventType::Output));
    assert_eq!(events[7].data, "\r\n");
    assert_eq!(c.input(), "echo hi\n");
}

#[test]
fn multi_line_encoding() {
    let c = Command::MultiLine(vec![String::from("a"), String::from("b")]);
    assert_eq!(
        c.events(10, "> ", " \\"),
        vec![
            out(10, "a"),
            out(10, " "),
            out(10, "\\"),
            out(10, "\r\n"),
            out(10, "> "),
            out(10, "b"),
            out(10, "\r\n"),
        ]
    );
    assert_eq!(c.input(), "a b\n");
}

#[test]
fn control_command() {
    let ctrl = Control::from_char('c').unwrap();
    assert_eq!(ctrl.byte(), 3);
    assert_eq!(ctrl.text(), "^C");
    let c = Command::Control(Control::from_char('m').unwrap());
    assert_eq!(
        c.events(1, "> ", " \\"),
        vec![out(1, "^"), out(1, "M"), out(1, "\r\n")]
    );
    assert_eq!(c.input(), "\r");
}

#[test]
fn control_codes() {
    assert_eq!(Control::from_char('@').unwrap().byte(), 0);
    assert_eq!(Control::from_char('[').unwrap().byte(), 27);
    assert_eq!(Control::from_char('?').unwrap().byte(), 127);
    assert_eq!(Control::from_char('?').unwrap().text(), "^?");
    assert_eq!(Control::from_char(' ').unwrap().text(), " ");
    assert!(Control::from_char('1').is_none());
    assert!(Control::from_char('!').is_none());
}

#[test]
fn key_input() {
    assert_eq!(Key::Char('t').input(), vec![b't']);
    assert_eq!(Key::String(String::from("ls")).input(), vec![b'l', b's']);
    assert_eq!(Key::Control(Control::from_char('d').unwrap()).input(), vec![4]);
    assert_eq!(Key::Wait(1_000_000).input(), Vec::<u8>::new());
}
