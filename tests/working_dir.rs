use carta_launcher::error::{LaunchError, PathRole};
use carta_launcher::scope::{
    base_directory_source, confine_base_directory, confine_bridged_base, find_option_value, is_within,
    translate_folder_args, translate_optional, translate_required, BaseSource, EntryKind,
};

fn args(list: &[&str]) -> Vec<String> {
    list.iter().map(|s| s.to_string()).collect()
}

#[test]
fn base_source_from_input_kind() {
    assert_eq!(base_directory_source(Some(EntryKind::File), true).unwrap(), BaseSource::InputParent);
    assert_eq!(base_directory_source(Some(EntryKind::Directory), false).unwrap(), BaseSource::Input);
    assert_eq!(base_directory_source(None, true).unwrap(), BaseSource::Home);
    assert_eq!(base_directory_source(None, false).unwrap(), BaseSource::WorkingDir);
    match base_directory_source(Some(EntryKind::Missing), false) {
        Err(e @ LaunchError::InputPathMissing) => {
            assert_eq!(e.message(), "Requested file or directory does not exist")
        }
        other => panic!("unexpected {:?}", other),
    }
    assert!(matches!(base_directory_source(Some(EntryKind::Other), false), Err(LaunchError::InputPathUnusable)));
}

#[test]
fn containment_is_by_component() {
    assert!(is_within("/data/images", "/data"));
    assert!(is_within("/data", "/data"));
    assert!(is_within("/data", "/data/"));
    assert!(is_within("/data/x", "/"));
    assert!(!is_within("/database", "/data"));
    assert!(!is_within("/other", "/data"));
}

#[test]
fn outside_base_is_replaced_by_root() {
    assert_eq!(confine_base_directory("/home/me", Some("/data")), "/data");
    assert_eq!(confine_base_directory("/data/sub", Some("/data")), "/data/sub");
    assert_eq!(confine_base_directory("/home/me", None), "/home/me");
}

#[test]
fn bridged_confinement_compares_translated_paths() {
    assert_eq!(confine_bridged_base(r"C:\Users\me", Some(r"D:\data")).unwrap(), "/mnt/d/data");
    assert_eq!(confine_bridged_base(r"D:\data\x", Some(r"D:\data")).unwrap(), "/mnt/d/data/x");
    assert_eq!(confine_bridged_base(r"C:\a", None).unwrap(), "/mnt/c/a");
    assert!(matches!(
        confine_bridged_base("relative", None),
        Err(LaunchError::PathTranslationFailed(PathRole::Base))
    ));
    assert!(matches!(
        confine_bridged_base(r"C:\a", Some("/posix")),
        Err(LaunchError::PathTranslationFailed(PathRole::Folder))
    ));
}

#[test]
fn option_value_lookup() {
    let a = args(&["--verbosity", "5", "--top_level_folder", "/data", "x"]);
    assert_eq!(find_option_value(&a, "--top_level_folder").as_deref(), Some("/data"));
    let a = args(&["--top_level_folder=/srv/images"]);
    assert_eq!(find_option_value(&a, "--top_level_folder").as_deref(), Some("/srv/images"));
    let a = args(&["--top_level_folder", "--no_log"]);
    assert_eq!(find_option_value(&a, "--top_level_folder"), None);
    let a = args(&["--", "--top_level_folder=/x"]);
    assert_eq!(find_option_value(&a, "--top_level_folder"), None);
    let a = args(&["--top_level_folderX=/x"]);
    assert_eq!(find_option_value(&a, "--top_level_folder"), None);
}

#[test]
fn folder_options_are_translated() {
    let a = args(&["--top_level_folder", r"C:\data", "--frontend_folder=D:\\web", "--verbosity", "5", "--", r"E:\x"]);
    assert_eq!(
        translate_folder_args(&a).unwrap(),
        args(&["--top_level_folder", "/mnt/c/data", "--frontend_folder=/mnt/d/web", "--verbosity", "5", "--", r"E:\x"])
    );
    let bad = args(&["--top_level_folder=not-a-drive"]);
    match translate_folder_args(&bad) {
        Err(e) => assert_eq!(e.message(), "Failed to convert folder option path to WSL format"),
        Ok(v) => panic!("unexpected {:?}", v),
    }
}

#[test]
fn required_and_optional_translation() {
    assert_eq!(translate_required(r"C:\carta\backend", PathRole::Backend).unwrap(), "/mnt/c/carta/backend");
    match translate_required("nowhere", PathRole::Frontend) {
        Err(e) => assert_eq!(e.message(), "Failed to convert frontend path to WSL format"),
        Ok(v) => panic!("unexpected {}", v),
    }
    assert_eq!(translate_optional(Some(r"C:\libs")).as_deref(), Some("/mnt/c/libs"));
    assert_eq!(translate_optional(Some("libs")), None);
    assert_eq!(translate_optional(None), None);
}
