use carta_launcher::options::{option_arity, option_table, suggest_option, validate_backend_args, Arity, OptionError};

fn args(list: &[&str]) -> Vec<String> {
    list.iter().map(|s| s.to_string()).collect()
}

fn message(list: &[&str]) -> String {
    validate_backend_args(&args(list)).expect_err("refused").message()
}

#[test]
fn unambiguous_abbreviation_gets_suggestion() {
    match validate_backend_args(&args(&["--verb", "3"])) {
        Err(OptionError::Unknown { name, suggestion }) => {
            assert_eq!(name, "--verb");
            assert_eq!(suggestion.as_deref(), Some("--verbosity"));
        }
        other => panic!("unexpected {:?}", other),
    }
    let m = message(&["--verb", "3"]);
    assert!(m.contains("did you mean --verbosity?"));
    assert_eq!(m, "unknown option --verb; did you mean --verbosity?");
}

#[test]
fn ambiguous_abbreviation_points_to_help() {
    let m = message(&["--log"]);
    assert_eq!(m, "unknown option --log; see --help for the supported options");
    match validate_backend_args(&args(&["--no_"])) {
        Err(OptionError::Unknown { suggestion, .. }) => assert_eq!(suggestion, None),
        other => panic!("unexpected {:?}", other),
    }
}

#[test]
fn unknown_short_option_has_no_suggestion() {
    match validate_backend_args(&args(&["-x"])) {
        Err(OptionError::Unknown { name, suggestion }) => {
            assert_eq!(name, "-x");
            assert_eq!(suggestion, None);
        }
        other => panic!("unexpected {:?}", other),
    }
}

#[test]
fn unknown_option_with_inline_value_is_named_without_it() {
    match validate_backend_args(&args(&["--hots=1"])) {
        Err(OptionError::Unknown { name, .. }) => assert_eq!(name, "--hots"),
        other => panic!("unexpected {:?}", other),
    }
}

#[test]
fn value_option_at_end_requires_a_value() {
    let m = message(&["--host"]);
    assert!(m.contains("requires a value"));
    assert_eq!(m, "option --host requires a value");
}

#[test]
fn value_option_before_flag_requires_a_value() {
    match validate_backend_args(&args(&["--omp_threads", "--no_log"])) {
        Err(OptionError::MissingValue { name }) => assert_eq!(name, "--omp_threads"),
        other => panic!("unexpected {:?}", other),
    }
}

#[test]
fn flag_option_refuses_inline_value() {
    let m = message(&["--no_log=yes"]);
    assert!(m.contains("does not take a value"));
    assert_eq!(m, "option --no_log does not take a value");
}

#[test]
fn accepted_argument_lists() {
    assert!(validate_backend_args(&args(&[])).is_ok());
    assert!(validate_backend_args(&args(&["--verbosity", "5", "--no_log", "image.fits"])).is_ok());
    assert!(validate_backend_args(&args(&["--host=0.0.0.0", "-t", "4", "--read_only_mode"])).is_ok());
    assert!(validate_backend_args(&args(&["--", "--anything", "-x"])).is_ok());
    assert!(validate_backend_args(&args(&["positional", "--exit_timeout", "10"])).is_ok());
}

#[test]
fn consumed_value_is_not_checked_again() {
    assert!(validate_backend_args(&args(&["--browser", "firefox"])).is_ok());
    assert!(validate_backend_args(&args(&["--no_log", "--bogus"])).is_err());
}

#[test]
fn table_lookups() {
    let t = option_table();
    assert_eq!(option_arity(&t, "--help"), Some(Arity::Flag));
    assert_eq!(option_arity(&t, "-p"), Some(Arity::Value));
    assert_eq!(option_arity(&t, "--top_level_folder"), Some(Arity::Value));
    assert_eq!(option_arity(&t, "--nope"), None);
    assert_eq!(suggest_option(&t, "--top").as_deref(), Some("--top_level_folder"));
    assert_eq!(suggest_option(&t, "--i"), None);
    assert_eq!(suggest_option(&t, "-t"), None);
}
