use carta_launcher::paths::{bash_escape, drive_path_to_wsl, resolve_casa_path, win_to_wsl_path};

#[test]
fn escape_plain_and_empty() {
    assert_eq!(bash_escape(""), "''");
    assert_eq!(bash_escape("abc"), "'abc'");
    assert_eq!(bash_escape("a b$c"), "'a b$c'");
}

#[test]
fn escape_single_quote() {
    assert_eq!(bash_escape("it's"), "'it'\"'\"'s'");
    assert_eq!(bash_escape("'"), "''\"'\"''");
}

#[test]
fn drive_path_becomes_mount_path() {
    assert_eq!(win_to_wsl_path(r"C:\Users\me\data").as_deref(), Some("/mnt/c/Users/me/data"));
    assert_eq!(win_to_wsl_path(r"d:\x y\z").as_deref(), Some("/mnt/d/x y/z"));
    assert_eq!(win_to_wsl_path("E:").as_deref(), Some("/mnt/e"));
}

#[test]
fn extended_length_prefix_is_stripped() {
    assert_eq!(win_to_wsl_path(r"\\?\C:\Program Files\app").as_deref(), Some("/mnt/c/Program Files/app"));
}

#[test]
fn surrounding_whitespace_is_trimmed() {
    assert_eq!(win_to_wsl_path("  C:\\a\\b \n").as_deref(), Some("/mnt/c/a/b"));
    assert_eq!(drive_path_to_wsl("  C:\\a"), None);
}

#[test]
fn other_shapes_are_refused() {
    assert_eq!(win_to_wsl_path(""), None);
    assert_eq!(win_to_wsl_path("C"), None);
    assert_eq!(win_to_wsl_path("relative\\path"), None);
    assert_eq!(win_to_wsl_path("/already/posix"), None);
    assert_eq!(win_to_wsl_path("1:\\x"), None);
    assert_eq!(win_to_wsl_path(r"\\server\share\x"), None);
}

#[test]
fn casa_override_value() {
    assert_eq!(resolve_casa_path("/opt/carta/etc"), "../../../../..//opt/carta/etc linux");
    assert_eq!(resolve_casa_path("etc"), "../../../../../etc linux");
    assert_eq!(resolve_casa_path("/tmp/carta-etc"), "../../../../..//tmp/carta-etc linux");
}

#[test]
fn unicode_white_space_is_trimmed() {
    assert_eq!(win_to_wsl_path("\u{3000}\u{a0}C:\\a\u{2029}").as_deref(), Some("/mnt/c/a"));
}
