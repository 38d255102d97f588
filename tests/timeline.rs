use autocast::encode::Command;
use autocast::event::{Event, EventType};
use autocast::instruction::{Instruction, KeyPacer, KeyStep};
use autocast::encode::Key;
use autocast::session::ShellSession;
use autocast::timeline::{assemble, Events};

fn out(time: u64, data: &str) -> Event {
    Event::output(time, String::from(data))
}

fn fragment(i: &Instruction, output: Vec<Event>) -> Events {
    i.fragment("$ ", "> ", 100, " \\", output)
}

#[test]
fn waits_carry_to_the_next_event() {
    let script = [
        Instruction::Wait(2_000_000),
        Instruction::Wait(500_000),
        Instruction::Marker(String::from("x")),
    ];
    let fragments: Vec<Events> = script.iter().map(|i| fragment(i, Vec::new())).collect();
    let events = assemble(&fragments, "$ ", 100);
    assert_eq!(
        events,
        vec![
            out(0, "$ "),
            Event::marker(2_500_000, String::from("x")),
            out(100, "\r\n"),
        ]
    );
}

#[test]
fn trailing_wait_goes_to_the_last_event() {
    let fragments = vec![Events::once(out(3, "a")), Events::Wait(40)];
    let events = assemble(&fragments, "$ ", 100);
    assert_eq!(events, vec![out(0, "$ "), out(3, "a"), out(140, "\r\n")]);
}

#[test]
fn hidden_command_adds_no_events() {
    let hidden = Instruction::Command {
        command: Command::SingleLine(String::from("cd /tmp")),
        hidden: true,
        type_speed: None,
    };
    let f = fragment(&hidden, vec![out(9, "ignored")]);
    assert!(matches!(f, Events::Empty));
    let with = assemble(
        &vec![Events::Wait(5), f, Events::once(out(1, "a"))],
        "$ ",
        100,
    );
    let without = assemble(&vec![Events::Wait(5), Events::once(out(1, "a"))], "$ ", 100);
    assert_eq!(with, without);
    assert_eq!(with[1], out(6, "a"));
}

#[test]
fn empty_script_has_prompt_and_terminator() {
    assert_eq!(
        assemble(&Vec::new(), "$ ", 100),
        vec![out(0, "$ "), out(100, "\r\n")]
    );
}

#[test]
fn cumulative_time_never_decreases() {
    let fragments = vec![
        Events::Command(vec![out(10, "a"), out(0, "b"), out(7, "c")]),
        Events::Wait(3),
        Events::Clear(vec![out(1, "x")]),
    ];
    let events = assemble(&fragments, "$ ", 100);
    let mut total = 0;
    for e in &events {
        let next = total + e.time;
        assert!(next >= total);
        total = next;
    }
    assert_eq!(total, 10 + 0 + 7 + 3 + 1 + 100);
}

#[test]
fn clear_and_marker_fragments() {
    let clear = fragment(&Instruction::Clear, Vec::new());
    assert_eq!(
        clear.events(),
        vec![out(100, "\r\x1b[H\x1b[2J\x1b[3J"), out(100, "$ ")]
    );
    let marker = fragment(&Instruction::Marker(String::from("m")), Vec::new());
    assert_eq!(marker.events(), vec![Event::marker(0, String::from("m"))]);
    assert!(matches!(fragment(&Instruction::Wait(8), Vec::new()), Events::Wait(8)));
}

#[test]
fn command_fragment_types_then_shows_output() {
    let i = Instruction::Command {
        command: Command::SingleLine(String::from("ls")),
        hidden: false,
        type_speed: Some(20),
    };
    assert_eq!(i.input(), Some(String::from("ls\n")));
    let f = fragment(&i, vec![out(4, "file\r\n"), out(1, "$ ")]);
    assert_eq!(
        f.events(),
        vec![out(20, "l"), out(20, "s"), out(20, "\r\n"), out(4, "file\r\n"), out(1, "$ ")]
    );
    assert_eq!(Instruction::Wait(1).input(), None);
}

#[test]
fn interactive_fragment_uses_its_speed() {
    let i = Instruction::Interactive {
        command: Command::SingleLine(String::from("x")),
        keys: vec![Key::Char('q')],
        type_speed: None,
    };
    assert_eq!(i.type_speed(100), 100);
    let f = fragment(&i, vec![out(2, "$ ")]);
    assert_eq!(f.events(), vec![out(100, "x"), out(100, "\r\n"), out(2, "$ ")]);
}

#[test]
fn key_pacer_presses_keys_in_time() {
    let keys = vec![Key::Char('a'), Key::Wait(50), Key::Char('b')];
    let mut p = KeyPacer::new(0, 10);
    assert_eq!(p.step(&keys, 5, 10), KeyStep::Idle);
    assert_eq!(p.step(&keys, 10, 10), KeyStep::Press(0));
    assert_eq!(p.next_time, 20);
    assert_eq!(p.step(&keys, 20, 10), KeyStep::Press(1));
    assert_eq!(p.next_time, 80);
    assert_eq!(p.step(&keys, 79, 10), KeyStep::Idle);
    assert_eq!(p.step(&keys, 80, 10), KeyStep::Press(2));
    assert_eq!(p.step(&keys, 1000, 10), KeyStep::Drain);
}

#[test]
fn end_to_end_scenario() {
    let type_speed = 100_000;
    let instructions = vec![Instruction::Command {
        command: Command::SingleLine(String::from("echo hi")),
        hidden: false,
        type_speed: None,
    }];
    let mut session = ShellSession::new(String::from("$ "), None, 30_000_000, 0);
    let mut fragments = Vec::new();
    for i in &instructions {
        let mut output = Vec::new();
        if let Some(_input) = i.input() {
            session.reset(1_000);
            let (event, seen) = session.read(String::from("hi\r\n$ "), 3_000);
            output.extend(event);
            assert!(seen);
            output.push(session.new_event(3_000, String::from("$ ")));
        }
        fragments.push(i.fragment("$ ", "> ", type_speed, " \\", output));
    }
    let events = assemble(&fragments, "$ ", type_speed);
    let mut expected = vec![out(0, "$ ")];
    for c in "echo hi".chars() {
        expected.push(out(type_speed, &c.to_string()));
    }
    expected.push(out(type_speed, "\r\n"));
    expected.push(out(2_000, "hi\r\n"));
    expected.push(out(0, "$ "));
    expected.push(out(type_speed, "\r\n"));
    assert_eq!(events, expected);
    assert!(events.iter().all(|e| e.event_type == EventType::Output));
}
