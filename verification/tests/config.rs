use minigrep::{run, Argument, Config, ConfigError, IoCause, Mode, RuntimeError};

fn args(words: &[&str]) -> Vec<String> {
    words.iter().map(|word| word.to_string()).collect()
}

#[test]
fn program_name_alone_is_a_missing_argument() {
    let made = Config::new(&args(&["minigrep"]), None);
    assert_eq!(made, Err(ConfigError::MissingArgument(Argument::Query)));
    assert!(matches!(made, Err(ConfigError::MissingArgument(_))));
}

#[test]
fn empty_command_line_is_a_missing_query() {
    assert_eq!(
        Config::new(&args(&[]), Some("1")),
        Err(ConfigError::MissingArgument(Argument::Query))
    );
}

#[test]
fn query_without_path_is_a_missing_filename() {
    assert_eq!(
        Config::new(&args(&["minigrep", "needle"]), None),
        Err(ConfigError::MissingArgument(Argument::Filename))
    );
}

#[test]
fn two_arguments_make_a_configuration() {
    let made = Config::new(&args(&["minigrep", "needle", "hay.txt"]), None).unwrap();
    assert_eq!(made.query, "needle");
    assert_eq!(made.filename, "hay.txt");
    assert!(made.case_sensitive);
    assert_eq!(made.mode(), Mode::Sensitive);
}

#[test]
fn arguments_are_taken_as_they_are() {
    let made = Config::new(&args(&["minigrep", "", "--flag", "extra", "more"]), None).unwrap();
    assert_eq!(
        made,
        Config { filename: String::from("--flag"), query: String::new(), case_sensitive: true }
    );
}

#[test]
fn flag_of_any_value_turns_case_off() {
    let line = args(&["minigrep", "needle", "hay.txt"]);
    for value in ["", "0", "1", "false", "anything"] {
        let made = Config::new(&line, Some(value)).unwrap();
        assert!(!made.case_sensitive);
        assert_eq!(made.mode(), Mode::Insensitive);
        assert_eq!(made.query, "needle");
        assert_eq!(made.filename, "hay.txt");
    }
}

#[test]
fn messages_name_the_missing_argument() {
    assert_eq!(ConfigError::MissingArgument(Argument::Query).message(), "need query arg");
    assert_eq!(ConfigError::MissingArgument(Argument::Filename).message(), "need filename arg");
}

#[test]
fn run_with_flag_finds_every_spelling() {
    let config = Config::new(&args(&["minigrep", "WORLD", "poem.txt"]), Some("")).unwrap();
    let out = run(&config, Ok("world\nWORLD\nWorLD"));
    assert_eq!(out, Ok(vec!["world", "WORLD", "WorLD"]));
}

#[test]
fn run_without_flag_regards_case() {
    let config = Config::new(&args(&["minigrep", "WORLD", "poem.txt"]), None).unwrap();
    let out = run(&config, Ok("world\nWORLD\nWorLD\n"));
    assert_eq!(out, Ok(vec!["WORLD"]));
}

#[test]
fn run_without_match_succeeds_with_no_line() {
    let config = Config::new(&args(&["minigrep", "moon", "poem.txt"]), None).unwrap();
    assert_eq!(run(&config, Ok("sun\nstars")), Ok(Vec::new()));
}

#[test]
fn failed_read_is_an_io_failure_without_lines() {
    let config = Config::new(&args(&["minigrep", "needle", "no/such/file"]), None).unwrap();
    assert_eq!(
        run(&config, Err(IoCause::NotFound)),
        Err(RuntimeError::IoFailure(IoCause::NotFound))
    );
    for cause in [IoCause::PermissionDenied, IoCause::InvalidEncoding, IoCause::Other] {
        assert_eq!(run(&config, Err(cause)), Err(RuntimeError::IoFailure(cause)));
    }
}
