use carta_launcher::config_dir::{config_dir_value, plan_config_link, LinkPlan, LinkState, LINK_PATH};
use carta_launcher::error::LaunchError;
use carta_launcher::paths::resolve_casa_path;

const SPACED: &str = "/Applications/My Apps/carta/etc";

#[test]
fn path_without_space_is_used_directly() {
    let plan = plan_config_link("/opt/carta/etc", &LinkState::Occupied);
    assert_eq!(plan, LinkPlan::UseDirect);
    assert_eq!(config_dir_value("/opt/carta/etc", &LinkState::Occupied, false).unwrap(), "/opt/carta/etc");
}

#[test]
fn second_resolution_reuses_link() {
    let first = plan_config_link(SPACED, &LinkState::Absent);
    assert_eq!(first, LinkPlan::Create);
    let v1 = config_dir_value(SPACED, &LinkState::Absent, true).unwrap();
    assert_eq!(v1, LINK_PATH);
    let after = LinkState::Symlink { target: SPACED.to_string() };
    let second = plan_config_link(SPACED, &after);
    assert_eq!(second, LinkPlan::Reuse);
    let v2 = config_dir_value(SPACED, &after, true).unwrap();
    assert_eq!(v2, v1);
}

#[test]
fn link_to_elsewhere_is_replaced() {
    let old = LinkState::Symlink { target: "/old/etc".to_string() };
    assert_eq!(plan_config_link(SPACED, &old), LinkPlan::Replace);
    assert_eq!(config_dir_value(SPACED, &old, true).unwrap(), "/tmp/carta-etc");
}

#[test]
fn failed_link_is_an_error() {
    match config_dir_value(SPACED, &LinkState::Absent, false) {
        Err(e @ LaunchError::SymlinkFailed) => assert_eq!(
            e.message(),
            "Failed to create symlink /tmp/carta-etc to the configuration directory, whose path holds a space"
        ),
        other => panic!("unexpected {:?}", other),
    }
    let old = LinkState::Symlink { target: "/old/etc".to_string() };
    assert!(matches!(config_dir_value(SPACED, &old, false), Err(LaunchError::SymlinkFailed)));
}

#[test]
fn override_has_one_space() {
    let v = config_dir_value(SPACED, &LinkState::Absent, true).unwrap();
    let casa = resolve_casa_path(&v);
    assert_eq!(casa, "../../../../..//tmp/carta-etc linux");
    assert_eq!(casa.matches(' ').count(), 1);
}

#[test]
fn occupied_place_fails_every_time() {
    for _ in 0..2 {
        let plan = plan_config_link(SPACED, &LinkState::Occupied);
        assert_eq!(plan, LinkPlan::Conflict);
        match config_dir_value(SPACED, &LinkState::Occupied, true) {
            Err(e @ LaunchError::SymlinkConflict) => assert_eq!(e.message(), "symlink path already exists"),
            other => panic!("unexpected {:?}", other),
        }
    }
}
