use carta_launcher::cli::parse_cli_args;
use carta_launcher::error::LaunchError;
use carta_launcher::launch::{
    backend_arguments, backend_environment, choose_backend_port, help_flag, new_auth_token, new_window_label,
    wsl_arguments, wsl_distro_name,
    port_from_choice, window_url, wsl_help_command, wsl_launch_command,
};

fn args(list: &[&str]) -> Vec<String> {
    list.iter().map(|s| s.to_string()).collect()
}

fn is_uuid(s: &str) -> bool {
    s.len() == 36
        && s.char_indices().all(|(i, c)| {
            if [8, 13, 18, 23].contains(&i) {
                c == '-'
            } else {
                c.is_ascii_digit() || ('a'..='f').contains(&c)
            }
        })
        && s.as_bytes()[14] == b'4'
}

#[test]
fn arguments_in_fixed_order() {
    let r = backend_arguments("/data", 3003, "/opt/carta/frontend", &args(&["--verbosity", "5"]));
    assert_eq!(
        r,
        args(&["/data", "--port=3003", "--frontend_folder=/opt/carta/frontend", "--no_browser", "--verbosity", "5"])
    );
    let r = backend_arguments("/", 0, "", &args(&[]));
    assert_eq!(r, args(&["/", "--port=0", "--frontend_folder=", "--no_browser"]));
}

#[test]
fn environment_for_backend() {
    let env = backend_environment("tok", "../../../../../etc linux");
    assert_eq!(
        env,
        vec![
            ("CARTA_AUTH_TOKEN".to_string(), "tok".to_string()),
            ("CASAPATH".to_string(), "../../../../../etc linux".to_string())
        ]
    );
}

#[test]
fn bridge_line_quotes_every_value() {
    let line = wsl_launch_command(
        "/mnt/c/carta/backend/bin/carta_backend",
        "/mnt/c/carta/frontend",
        "/mnt/c/Users/o'neil",
        "abc",
        Some("/mnt/c/carta/backend/libs"),
        "/tmp/carta-etc",
        3003,
        &args(&["--verbosity", "5 6"]),
    );
    assert_eq!(
        line,
        "export LD_LIBRARY_PATH='/mnt/c/carta/backend/libs':\"$LD_LIBRARY_PATH\"; \
export CARTA_AUTH_TOKEN='abc'; export CASAPATH='/tmp/carta-etc'; \
exec '/mnt/c/carta/backend/bin/carta_backend' '/mnt/c/Users/o'\"'\"'neil' --port=3003 \
--frontend_folder='/mnt/c/carta/frontend' --no_browser '--verbosity' '5 6'"
    );
}

#[test]
fn bridge_line_without_libraries() {
    let line = wsl_launch_command("/b", "/f", "/d", "t", None, "c", 7, &args(&[]));
    assert_eq!(
        line,
        "export CARTA_AUTH_TOKEN='t'; export CASAPATH='c'; exec '/b' '/d' --port=7 --frontend_folder='/f' --no_browser"
    );
}

#[test]
fn help_commands() {
    assert_eq!(help_flag(true), "--version");
    assert_eq!(help_flag(false), "--help");
    assert_eq!(wsl_help_command("/mnt/c/x y/carta_backend", false), "exec '/mnt/c/x y/carta_backend' '--help'");
    assert_eq!(wsl_help_command("/b", true), "exec '/b' '--version'");
}

#[test]
fn url_for_window() {
    assert_eq!(window_url(3003, "abc-def"), "http://localhost:3003/?token=abc-def");
    assert_eq!(window_url(65535, ""), "http://localhost:65535/?token=");
}

#[test]
fn port_choice_rules() {
    let cli = parse_cli_args(&args(&["--port", "3003"]));
    assert_eq!(port_from_choice(&cli, Some(15000)).unwrap(), 3003);
    assert_eq!(choose_backend_port(&cli).unwrap(), 3003);
    let cli = parse_cli_args(&args(&[]));
    assert_eq!(port_from_choice(&cli, Some(15000)).unwrap(), 15000);
    match port_from_choice(&cli, None) {
        Err(e @ LaunchError::NoFreePort) => assert_eq!(e.message(), "Error: No free port available."),
        other => panic!("unexpected {:?}", other),
    }
    let cli = parse_cli_args(&args(&["--port=abc"]));
    match choose_backend_port(&cli) {
        Err(e @ LaunchError::PortInvalid(_)) => assert_eq!(e.message(), "invalid port value 'abc'"),
        other => panic!("unexpected {:?}", other),
    }
}

#[test]
fn picked_port_is_nonzero() {
    let cli = parse_cli_args(&args(&[]));
    if let Ok(p) = choose_backend_port(&cli) {
        assert_ne!(p, 0);
    }
}

#[test]
fn fresh_tokens_and_labels() {
    let a = new_auth_token();
    let b = new_auth_token();
    assert!(is_uuid(&a), "{}", a);
    assert_ne!(a, b);
    let label = new_window_label();
    assert!(label.starts_with("carta-"));
    assert!(is_uuid(&label[6..]));
}

#[test]
fn distro_name_is_trimmed() {
    assert_eq!(wsl_distro_name("  Ubuntu-22.04 \n").as_deref(), Some("Ubuntu-22.04"));
    assert_eq!(wsl_distro_name("   "), None);
    assert_eq!(wsl_distro_name(""), None);
}

#[test]
fn bridge_arguments() {
    let cmd = args(&["bash", "-lc", "exec x"]);
    assert_eq!(wsl_arguments(Some("Ubuntu"), &cmd), args(&["-d", "Ubuntu", "--", "bash", "-lc", "exec x"]));
    assert_eq!(wsl_arguments(None, &cmd), args(&["--", "bash", "-lc", "exec x"]));
}
