use autocast::duration::{parse, ParseError};
use autocast::settings::{
    default_prompt, default_secondary_prompt, default_timeout, default_type_speed, header_env,
    terminal_size, EnvVar, Settings, Shell,
};

#[test]
fn parse_units() {
    assert_eq!(parse("1s").unwrap(), 1_000_000);
    assert_eq!(parse("150ms").unwrap(), 150_000);
    assert_eq!(parse("900us").unwrap(), 900);
    assert_eq!(parse("  2s\n").unwrap(), 2_000_000);
    assert_eq!(parse("+3ms").unwrap(), 3_000);
    assert_eq!(parse("0s").unwrap(), 0);
}

#[test]
fn parse_errors() {
    assert!(matches!(parse("1 s"), Err(ParseError::ContainsWhitespace)));
    assert!(matches!(parse("10m"), Err(ParseError::UnknownUnit)));
    assert!(matches!(parse(""), Err(ParseError::UnknownUnit)));
    assert!(matches!(parse("ms"), Err(ParseError::InvalidInt(_))));
    assert!(matches!(parse("-1s"), Err(ParseError::InvalidInt(_))));
    assert!(matches!(parse("1.5s"), Err(ParseError::InvalidInt(_))));
    assert!(matches!(parse("18446744073709551616us"), Err(ParseError::InvalidInt(_))));
    assert!(matches!(parse("18446744073709551615s"), Err(ParseError::TooLarge)));
    assert_eq!(parse("18446744073709551615us").unwrap(), u64::MAX);
}

#[test]
fn defaults() {
    assert_eq!(default_type_speed(), 100_000);
    assert_eq!(default_timeout(), 30_000_000);
    assert_eq!(default_prompt(), "$ ");
    assert_eq!(default_secondary_prompt(), "> ");
    let s = Settings::default();
    assert!(matches!(s.shell, Shell::Bash));
    assert_eq!(s.type_speed, 100_000);
    assert_eq!(s.prompt, "$ ");
}

#[test]
fn merge_prefers_other_but_not_its_defaults() {
    let mut s = Settings::default();
    s.width = Some(100);
    s.prompt = String::from("% ");
    s.environment_capture.push(String::from("TERM"));
    let mut other = Settings::default();
    other.height = Some(40);
    other.timeout = 5;
    other.environment_capture.push(String::from("LANG"));
    other.shell = Shell::Python;
    s.merge(other);
    assert_eq!(s.width, Some(100));
    assert_eq!(s.height, Some(40));
    assert_eq!(s.prompt, "% ");
    assert_eq!(s.timeout, 5);
    assert_eq!(s.type_speed, 100_000);
    assert_eq!(s.environment_capture, vec!["TERM", "LANG"]);
    assert!(matches!(s.shell, Shell::Python));
    s.merge(Settings::default());
    assert!(matches!(s.shell, Shell::Python));
}

#[test]
fn env_var_from() {
    let v = EnvVar::from("A=b=c");
    assert_eq!((v.name.as_str(), v.value.as_str()), ("A", "b=c"));
    let v = EnvVar::from("NAME");
    assert_eq!((v.name.as_str(), v.value.as_str()), ("NAME", ""));
    assert_eq!(EnvVar::from("X=").pair(), (String::from("X"), String::new()));
}

#[test]
fn terminal_size_falls_back() {
    assert_eq!(terminal_size(Some(1), Some(2), None), Some((1, 2)));
    assert_eq!(terminal_size(None, Some(2), Some((30, 90))), Some((90, 2)));
    assert_eq!(terminal_size(Some(1), None, Some((30, 90))), Some((1, 30)));
    assert_eq!(terminal_size(None, None, None), None);
}

#[test]
fn header_environment() {
    let environment = vec![EnvVar::from("A=1"), EnvVar::from("B=2"), EnvVar::from("A=3")];
    let captured = vec![
        (String::from("B"), String::from("x")),
        (String::from("TERM"), String::from("xterm")),
    ];
    assert_eq!(
        header_env(&environment, &captured, "/bin/bash"),
        vec![
            (String::from("A"), String::from("3")),
            (String::from("B"), String::from("2")),
            (String::from("TERM"), String::from("xterm")),
            (String::from("SHELL"), String::from("/bin/bash")),
        ]
    );
}

#[test]
fn shells() {
    assert_eq!(Shell::Bash.line_split(), " \\");
    assert_eq!(Shell::Python.program(), "python");
    assert_eq!(Shell::Bash.display(), "bash");
    let custom = Shell::Custom {
        program: String::from("my shell"),
        args: vec![String::from("-i"), String::from("a b")],
        prompt: String::from("> "),
        line_split: String::from("\\"),
        quit_command: None,
    };
    assert_eq!(custom.display(), "\"my shell\" -i \"a b\"");
    assert_eq!(custom.line_split(), "\\");
    let launch = custom.launch(vec![(String::from("K"), String::from("V"))]);
    assert_eq!(launch.program, "my shell");
    assert_eq!(launch.args, vec!["-i", "a b"]);
    assert_eq!(launch.quit_command, None);
    let bash = Shell::Bash.launch(Vec::new());
    assert_eq!(bash.prompt, "AUTOCAST_PROMPT");
    assert_eq!(bash.quit_command, Some(String::from("exit")));
    assert_eq!(bash.env[0], (String::from("PS1"), String::from("AUTOCAST_PROMPT")));
    assert_eq!(Shell::Python.launch(Vec::new()).prompt, ">>> ");
}
