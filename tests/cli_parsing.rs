use carta_launcher::cli::{parse_cli_args, parse_port, CliArgs};

fn args(list: &[&str]) -> Vec<String> {
    list.iter().map(|s| s.to_string()).collect()
}

fn parse(list: &[&str]) -> CliArgs {
    parse_cli_args(&args(list))
}

#[test]
fn separator_passes_rest_verbatim() {
    let r = parse(&["--", "--inspect", "-weird"]);
    assert_eq!(r.input_path.as_deref(), Some("--inspect"));
    assert_eq!(r.extra_args, args(&["-weird"]));
    assert!(!r.inspect);
    assert!(!r.help);
    assert!(!r.version);
    assert_eq!(r.explicit_port, None);
}

#[test]
fn separator_after_input_path_passes_everything_on() {
    let r = parse(&["image.fits", "--", "--help", "x"]);
    assert_eq!(r.input_path.as_deref(), Some("image.fits"));
    assert_eq!(r.extra_args, args(&["--help", "x"]));
    assert!(!r.help);
}

#[test]
fn unknown_flag_takes_following_value() {
    let r = parse(&["--foo", "bar", "file"]);
    assert_eq!(r.input_path.as_deref(), Some("file"));
    assert_eq!(r.extra_args, args(&["--foo", "bar"]));
}

#[test]
fn unknown_flag_with_inline_value_stands_alone() {
    let r = parse(&["--foo=1", "file", "more"]);
    assert_eq!(r.input_path.as_deref(), Some("file"));
    assert_eq!(r.extra_args, args(&["--foo=1", "more"]));
}

#[test]
fn unknown_flag_before_flag_stands_alone() {
    let r = parse(&["--no_log", "--verbosity", "5"]);
    assert_eq!(r.input_path, None);
    assert_eq!(r.extra_args, args(&["--no_log", "--verbosity", "5"]));
}

#[test]
fn launcher_flags_are_recognised() {
    let r = parse(&["--inspect", "-h", "-v"]);
    assert!(r.inspect);
    assert!(r.help);
    assert!(r.version);
    assert!(r.extra_args.is_empty());
    let r = parse(&["--help", "--version"]);
    assert!(r.help && r.version && !r.inspect);
}

#[test]
fn port_with_separate_value() {
    let r = parse(&["--port", "3003"]);
    assert_eq!(r.explicit_port, Some(3003));
    assert_eq!(r.port_error, None);
    assert!(r.extra_args.is_empty());
}

#[test]
fn port_with_inline_value() {
    let r = parse(&["--port=3003"]);
    assert_eq!(r.explicit_port, Some(3003));
    assert_eq!(r.port_error, None);
}

#[test]
fn port_short_alias() {
    let r = parse(&["-p", "8080", "dir"]);
    assert_eq!(r.explicit_port, Some(8080));
    assert_eq!(r.input_path.as_deref(), Some("dir"));
}

#[test]
fn port_not_a_number() {
    let r = parse(&["--port", "not-a-number"]);
    assert_eq!(r.explicit_port, None);
    let e = r.port_error.expect("a port error");
    assert!(e.contains("not-a-number"));
    assert_eq!(e, "invalid port value 'not-a-number'");
}

#[test]
fn port_out_of_range() {
    let r = parse(&["--port=65536"]);
    assert_eq!(r.explicit_port, None);
    assert_eq!(r.port_error.as_deref(), Some("invalid port value '65536'"));
    let r = parse(&["--port=65535"]);
    assert_eq!(r.explicit_port, Some(65535));
    let r = parse(&["--port=0"]);
    assert_eq!(r.explicit_port, Some(0));
}

#[test]
fn port_empty_and_missing() {
    let r = parse(&["--port="]);
    assert_eq!(r.port_error.as_deref(), Some("invalid port value ''"));
    let r = parse(&["--port"]);
    assert_eq!(r.explicit_port, None);
    assert_eq!(r.port_error.as_deref(), Some("missing value for --port"));
}

#[test]
fn port_error_is_kept_over_later_ports() {
    let r = parse(&["--port", "x1", "--port", "3003", "file"]);
    assert_eq!(r.explicit_port, None);
    assert_eq!(r.port_error.as_deref(), Some("invalid port value 'x1'"));
    assert_eq!(r.input_path.as_deref(), Some("file"));
}

#[test]
fn later_port_wins() {
    let r = parse(&["--port=1", "-p", "2"]);
    assert_eq!(r.explicit_port, Some(2));
}

#[test]
fn desktop_shell_token_is_dropped() {
    let r = parse(&["-psn_0_12345", "file"]);
    assert_eq!(r.input_path.as_deref(), Some("file"));
    assert!(r.extra_args.is_empty());
}

#[test]
fn second_positional_is_passed_on() {
    let r = parse(&["a", "b", "c"]);
    assert_eq!(r.input_path.as_deref(), Some("a"));
    assert_eq!(r.extra_args, args(&["b", "c"]));
}

#[test]
fn empty_command_line() {
    let r = parse(&[]);
    assert_eq!(r.input_path, None);
    assert!(r.extra_args.is_empty());
    assert!(!r.inspect && !r.help && !r.version);
    assert_eq!(r.explicit_port, None);
    assert_eq!(r.port_error, None);
}

#[test]
fn parse_port_reads_digits_only() {
    let v: Vec<char> = "--port=123".chars().collect();
    assert_eq!(parse_port(&v, 7), Some(123));
    assert_eq!(parse_port(&v, 10), None);
    let v: Vec<char> = "+12".chars().collect();
    assert_eq!(parse_port(&v, 0), None);
    let v: Vec<char> = "99999999999999999999999".chars().collect();
    assert_eq!(parse_port(&v, 0), None);
    let v: Vec<char> = "00080".chars().collect();
    assert_eq!(parse_port(&v, 0), Some(80));
}

#[test]
fn separator_wins_over_port_option() {
    let r = parse(&["--port", "--", "--inspect"]);
    assert!(!r.inspect);
    assert_eq!(r.input_path.as_deref(), Some("--inspect"));
    assert!(r.extra_args.is_empty());
    assert_eq!(r.explicit_port, None);
    assert_eq!(r.port_error.as_deref(), Some("missing value for --port"));
    let r = parse(&["-p", "--", "a", "-h"]);
    assert!(!r.help);
    assert_eq!(r.input_path.as_deref(), Some("a"));
    assert_eq!(r.extra_args, args(&["-h"]));
}

#[test]
fn flags_before_separator_are_kept() {
    let r = parse(&["--inspect", "--foo", "v", "--", "--help", "x"]);
    assert!(r.inspect);
    assert!(!r.help);
    assert_eq!(r.input_path.as_deref(), Some("--help"));
    assert_eq!(r.extra_args, args(&["--foo", "v", "x"]));
}

#[test]
fn unknown_option_pairs_in_the_middle() {
    let r = parse(&["in", "--inspect", "--bar", "val", "--baz=1", "tail"]);
    assert_eq!(r.input_path.as_deref(), Some("in"));
    assert_eq!(r.extra_args, args(&["--bar", "val", "--baz=1", "tail"]));
}
