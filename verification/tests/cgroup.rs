use app_nap::cgroup::{is_app_unit, CgroupPath, UnitName, UnitPath};

const KONSOLE: &str = "0::/user.slice/user-1000.slice/user@1000.service/app.slice/app-org.kde.konsole-39967.scope/main.scope\n";
const KONSOLE_TAB: &str = "0::/user.slice/user-1000.slice/user@1000.service/app.slice/app-org.kde.konsole-39967.scope/tab(9).scope\n";
const KONSOLE_UNIT: &str =
    "/user.slice/user-1000.slice/user@1000.service/app.slice/app-org.kde.konsole-39967.scope";
const FIREFOX: &str =
    "0::/user.slice/user-1000.slice/user@1000.service/app.slice/app-firefox-42.scope\n";
const ZED_IN_TAB: &str = "0::/user.slice/user-1000.slice/user@1000.service/app.slice/app-konsole.scope/tab(9).scope/app-zed.service\n";

/// Runs both resolution steps. Panics when the contents do not parse, so
/// the refusal tests below exercise the fence and not the `0::` split.
fn resolve_unit(contents: &str) -> Option<UnitPath> {
    let full = CgroupPath::from_cgroup_full(contents).expect("test input must parse");
    UnitPath::from_cgroup_path(full)
}

#[test]
fn parses_the_full_path_from_proc_cgroup() {
    assert_eq!(
        CgroupPath::from_cgroup_full(KONSOLE).unwrap(),
        "/user.slice/user-1000.slice/user@1000.service/app.slice/app-org.kde.konsole-39967.scope/main.scope"
    );
}

#[test]
fn refuses_a_line_without_the_unified_hierarchy() {
    assert!(CgroupPath::from_cgroup_full("2:cpu:/user.slice\n").is_none());
}

#[test]
fn resolves_the_unit_path() {
    assert_eq!(resolve_unit(KONSOLE).unwrap(), KONSOLE_UNIT);
}

#[test]
fn the_unit_name_is_the_last_component_of_the_unit_path() {
    let unit_path = resolve_unit(KONSOLE).unwrap();

    assert_eq!(
        UnitName::from(&unit_path),
        "app-org.kde.konsole-39967.scope"
    );
}

#[test]
fn a_leaf_app_unit_truncates_to_itself() {
    let unit_path = resolve_unit(FIREFOX).unwrap();

    assert_eq!(
        unit_path,
        "/user.slice/user-1000.slice/user@1000.service/app.slice/app-firefox-42.scope"
    );
    assert_eq!(UnitName::from(&unit_path), "app-firefox-42.scope");
}

#[test]
fn fine_cgroups_under_one_unit_resolve_to_the_same_unit() {
    let main = resolve_unit(KONSOLE).unwrap();
    let tab = resolve_unit(KONSOLE_TAB).unwrap();

    assert_eq!(main, KONSOLE_UNIT);
    assert_eq!(main, tab);
}

#[test]
fn nearest_app_unit_wins_over_the_fence_owner() {
    // zed launched from a konsole tab: the foreign app-zed.service is the
    // nearest app-* unit, not konsole's own scope.
    let unit_path = resolve_unit(ZED_IN_TAB).unwrap();

    assert_eq!(
        unit_path,
        "/user.slice/user-1000.slice/user@1000.service/app.slice/app-konsole.scope/tab(9).scope/app-zed.service"
    );
    assert_eq!(UnitName::from(&unit_path), "app-zed.service");
}

#[test]
fn session_slice_is_not_an_app_slice() {
    // The fence matches the `/app.slice/` component, not the substring
    // "app.slice" inside "session.slice".
    assert!(resolve_unit(
        "0::/user.slice/user-1000.slice/user@1000.service/session.slice/app-foo.service\n"
    )
    .is_none());
}

#[test]
fn refuses_app_unit_outside_the_fence() {
    assert!(
        resolve_unit("0::/system.slice/app-foo.service\n").is_none(),
        "an app-* unit outside /app.slice/ must be refused"
    );
}

#[test]
fn refuses_non_app_unit_under_the_fence() {
    assert!(
        resolve_unit(
            "0::/user.slice/user-1000.slice/user@1000.service/app.slice/pipewire.service\n"
        )
        .is_none(),
        "a non-app-* unit under /app.slice/ must be refused"
    );
}

#[test]
fn refuses_a_plain_cgroup() {
    assert!(resolve_unit("0::/some/plain/cgroup\n").is_none());
}

#[test]
fn app_unit_components_need_the_prefix_and_a_unit_suffix() {
    assert!(is_app_unit("app-firefox-42.scope"));
    assert!(is_app_unit("app-zed.service"));
    assert!(is_app_unit("app-gnome.slice"));
    assert!(!is_app_unit("app-firefox-42.socket"));
    assert!(!is_app_unit("pipewire.service"));
    assert!(!is_app_unit("main.scope"));
}

#[test]
fn surrounding_white_space_is_trimmed_before_the_split() {
    let full = CgroupPath::from_cgroup_full("  0::/a/b \t\n").unwrap();
    assert_eq!(full, "/a/b");
    assert_eq!(full.to_string(), "/a/b".to_string());
}

#[test]
fn the_nearest_app_unit_is_searched_under_the_whole_fence() {
    // Everything after the first `/app.slice/` is searched, a second fence
    // included.
    let unit = resolve_unit("0::/u/app.slice/app-a.scope/app.slice/app-b.scope\n").unwrap();
    assert_eq!(unit, "/u/app.slice/app-a.scope/app.slice/app-b.scope");
    let unit = resolve_unit("0::/a/app.slice/x/app.slice/app-b.scope\n").unwrap();
    assert_eq!(unit, "/a/app.slice/x/app.slice/app-b.scope");
}

#[test]
fn a_unit_name_without_a_separator_is_the_whole_path() {
    let unit = resolve_unit("0::/app.slice/app-x.scope\n").unwrap();
    assert_eq!(unit.as_str(), "/app.slice/app-x.scope");
    assert_eq!(UnitName::from(&unit).as_str(), "app-x.scope");
}
