use autocast::event::{Event, EventType};
use autocast::session::{line_input, ReadState, ShellSession};

const TEST: &str = "test";

fn session(prompt: &str) -> ShellSession {
    ShellSession::new(String::from(prompt), None, 0, 0)
}

#[test]
fn new_event() {
    let mut shell_session = session("");
    let start = shell_session.last_event;
    let event = shell_session.new_event(7, String::from(TEST));

    assert!(shell_session.last_event > start);
    assert!(event.time != 0);
    assert_eq!(event.data, TEST);
}

#[test]
fn read_empty() {
    let mut shell_session = session("");
    assert_eq!(shell_session.read(String::new(), 3), (None, false));
}

#[test]
fn read_no_prompt() {
    let mut shell_session = session("PROMPT");
    let (event, prompt) = shell_session.read(String::from(TEST), 3);
    let event = event.unwrap();
    assert!(event.time != 0);
    assert_eq!(event.data, TEST);
    assert!(!prompt);
}

#[test]
fn read_prompt_only() {
    let mut shell_session = session(TEST);
    assert_eq!(shell_session.read(String::from(TEST), 3), (None, true));
}

#[test]
fn read_output_and_prompt() {
    let output = "output";
    let bytes = format!("{output}{TEST}");
    let mut shell_session = session(TEST);
    let (event, prompt) = shell_session.read(bytes, 3);
    let event = event.unwrap();
    assert!(event.time != 0);
    assert_eq!(event.data, output);
    assert!(prompt);
}

#[test]
fn prompt_suffix_is_cut_off() {
    let mut s = session("<PROMPT>");
    let (event, seen) = s.read(String::from("hello<PROMPT>"), 10);
    assert_eq!(event, Some(Event::output(10, String::from("hello"))));
    assert!(seen);
    assert_eq!(s.last_event, 10);

    let mut s = session("<PROMPT>");
    assert_eq!(s.read(String::from("<PROMPT>"), 10), (None, true));
    assert_eq!(s.last_event, 0);
}

#[test]
fn prompt_only_counts_at_the_end() {
    let mut s = session("$ ");
    let (event, seen) = s.read(String::from("a$ b"), 4);
    assert!(!seen);
    assert_eq!(event.unwrap().data, "a$ b");
}

#[test]
fn delays_count_from_the_last_event() {
    let mut s = session("$ ");
    s.reset(100);
    let (first, _) = s.read(String::from("one"), 150);
    let (second, _) = s.read(String::from("two"), 400);
    assert_eq!(first.unwrap().time, 50);
    let second = second.unwrap();
    assert_eq!(second.time, 250);
    assert_eq!(second.event_type, EventType::Output);
}

#[test]
fn poll_reports_timeout() {
    let mut s = ShellSession::new(String::from("$ "), None, 1000, 0);
    assert_eq!(s.poll(String::new(), 500, 0).1, ReadState::Pending);
    assert_eq!(s.poll(String::from("x"), 1000, 0).1, ReadState::Pending);
    assert_eq!(s.poll(String::new(), 1001, 0).1, ReadState::TimedOut);
    let (event, state) = s.poll(String::from("done$ "), 5000, 0);
    assert_eq!(state, ReadState::Prompt);
    assert_eq!(event.unwrap().data, "done");
}

#[test]
fn quit_line() {
    let s = ShellSession::new(String::from("$ "), Some(String::from("exit")), 0, 0);
    assert_eq!(s.quit_input(), Some(String::from("exit\n")));
    assert_eq!(session("$ ").quit_input(), None);
    assert_eq!(line_input("ls"), "ls\n");
}

#[test]
fn output_bytes_become_text() {
    assert_eq!(autocast::session::output_text(b"outputtest"), "outputtest");
    assert_eq!(autocast::session::output_text(b""), "");
    assert_eq!(autocast::session::output_text(b"a\xffb"), "a\u{fffd}b");
    let mut s = session(TEST);
    let text = autocast::session::output_text(b"outputtest");
    assert_eq!(s.read(text, 1).0.unwrap().data, "output");
}

#[test]
fn stream_read_to_string() {
    assert_eq!(autocast::session::output_text(TEST.as_bytes()), TEST);
}
