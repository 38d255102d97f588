use autocast::encode::{Command, Key};
use autocast::event::Event;
use autocast::instruction::Instruction;
use autocast::interpreter::{Action, InstructionRun, Phase};
use autocast::recording::File;
use autocast::session::ShellSession;
use autocast::timeline::{assemble_checked, checked_total_time, Events};

fn out(time: u64, data: &str) -> Event {
    Event::output(time, String::from(data))
}

fn session() -> ShellSession {
    ShellSession::new(String::from("PROMPT"), None, 1_000, 0)
}

fn start(i: &Instruction, s: &mut ShellSession, now: u64) -> (InstructionRun, Action) {
    InstructionRun::start(i, s, now, "$ ", "> ", 10, " \\")
}

fn read(run: &mut InstructionRun, i: &Instruction, s: &mut ShellSession, data: &str, now: u64) -> Action {
    run.on_read(i, s, String::from(data), now, "$ ", "> ", 10, " \\")
}

#[test]
fn instruction_without_shell_finishes_at_once() {
    let mut s = session();
    let (run, action) = start(&Instruction::Wait(7), &mut s, 5);
    assert_eq!(run.phase, Phase::Finished);
    assert!(matches!(action, Action::Finish(Events::Wait(7))));
    assert_eq!(s.last_event, 0);
}

#[test]
fn command_runs_until_prompt() {
    let mut s = session();
    let i = Instruction::Command {
        command: Command::SingleLine(String::from("ls")),
        hidden: false,
        type_speed: None,
    };
    let (mut run, action) = start(&i, &mut s, 100);
    assert!(matches!(action, Action::SendText(ref t) if t == "ls\n"));
    assert_eq!(s.last_event, 100);
    assert!(matches!(read(&mut run, &i, &mut s, "a\r\n", 130), Action::Read));
    match read(&mut run, &i, &mut s, "b\r\nPROMPT", 150) {
        Action::Finish(f) => assert_eq!(
            f.events(),
            vec![
                out(10, "l"),
                out(10, "s"),
                out(10, "\r\n"),
                out(30, "a\r\n"),
                out(20, "b\r\n"),
                out(0, "$ "),
            ]
        ),
        other => panic!("unexpected {other:?}"),
    }
    assert_eq!(run.phase, Phase::Finished);
}

#[test]
fn command_times_out_without_prompt() {
    let mut s = session();
    let i = Instruction::Command {
        command: Command::SingleLine(String::from("sleep 9")),
        hidden: true,
        type_speed: None,
    };
    let (mut run, _) = start(&i, &mut s, 0);
    assert!(matches!(read(&mut run, &i, &mut s, "", 1_000), Action::Read));
    assert!(matches!(read(&mut run, &i, &mut s, "", 1_001), Action::TimedOut));
}

#[test]
fn interactive_presses_keys_then_drains() {
    let mut s = session();
    let i = Instruction::Interactive {
        command: Command::SingleLine(String::from("vi")),
        keys: vec![Key::Char('i'), Key::Wait(50)],
        type_speed: Some(5),
    };
    let (mut run, action) = start(&i, &mut s, 0);
    assert!(matches!(action, Action::SendText(ref t) if t == "vi\n"));
    assert!(matches!(read(&mut run, &i, &mut s, "", 4), Action::Read));
    assert!(matches!(read(&mut run, &i, &mut s, "~", 5), Action::SendBytes(ref b) if b == b"i"));
    assert!(matches!(read(&mut run, &i, &mut s, "", 10), Action::SendBytes(ref b) if b.is_empty()));
    assert!(matches!(read(&mut run, &i, &mut s, "", 64), Action::Read));
    assert!(matches!(read(&mut run, &i, &mut s, "", 65), Action::Read));
    assert_eq!(run.phase, Phase::Reading { start: 65 });
    match read(&mut run, &i, &mut s, "PROMPT", 70) {
        Action::Finish(f) => assert_eq!(
            f.events(),
            vec![out(5, "v"), out(5, "i"), out(5, "\r\n"), out(5, "~"), out(65, "$ ")]
        ),
        other => panic!("unexpected {other:?}"),
    }
}

#[test]
fn totals_are_checked() {
    let fragments = vec![Events::Wait(u64::MAX - 5), Events::once(out(5, "a"))];
    assert_eq!(checked_total_time(&fragments, 0), Some(u64::MAX));
    assert_eq!(checked_total_time(&fragments, 1), None);
    assert!(assemble_checked(&fragments, "$ ", 1).is_none());
    assert!(File::from_fragments(80, 24, None, None, Vec::new(), &fragments, "$ ", 1).is_none());
    let f = File::from_fragments(80, 24, None, None, Vec::new(), &fragments, "$ ", 0).unwrap();
    assert_eq!(f.header.duration, Some(u64::MAX));
    assert_eq!(f.events[1], out(u64::MAX, "a"));
}
