use yal::apps::{get_app_info, pick_app_name, sort_apps_by_name};
use yal::command::{collect_system_preferences, AppInfo};

fn app(name: &str, path: &str) -> AppInfo {
    AppInfo { name: name.to_string(), path: path.to_string() }
}

#[test]
fn sort_ignores_case_and_is_stable() {
    let apps = vec![app("b", "1"), app("A", "2"), app("a", "3"), app("C", "4"), app("B", "5")];
    let sorted = sort_apps_by_name(apps);
    let got: Vec<(&str, &str)> = sorted.iter().map(|a| (a.name.as_str(), a.path.as_str())).collect();
    assert_eq!(got, vec![("A", "2"), ("a", "3"), ("b", "1"), ("B", "5"), ("C", "4")]);
}

#[test]
fn sort_of_nothing() {
    assert!(sort_apps_by_name(vec![]).is_empty());
}

#[test]
fn app_list_merges_sources_and_panes() {
    let list = get_app_info(
        vec![app("Zed", "/Applications/Zed.app")],
        vec![app("Calendar", "/System/Applications/Calendar.app")],
        Some(vec![app("alpha", "/Users/u/Applications/alpha.app")]),
    );
    assert_eq!(list.len(), 3 + 13);
    assert_eq!(list[0].name, "alpha");
    assert_eq!(list[1].name, "Calendar");
    assert_eq!(list.last().unwrap().name, "Zed");
    assert!(list.iter().any(|a| a.name == "system preferences - Wi-Fi"
        && a.path == "x-apple.systempreferences:com.apple.WiFiSettings"));
    let without_home = get_app_info(vec![], vec![], None);
    assert_eq!(without_home.len(), 13);
}

#[test]
fn preference_panes() {
    let prefs = collect_system_preferences();
    assert_eq!(prefs.len(), 13);
    assert_eq!(prefs[0].name, "system preferences - Bluetooth");
    assert_eq!(prefs[0].path, "x-apple.systempreferences:com.apple.Bluetooth");
    assert_eq!(prefs[9].name, "system preferences - Battery / Energy Saver");
}

#[test]
fn bundle_names() {
    let s = |x: &str| Some(x.to_string());
    assert_eq!(pick_app_name(s("Display"), s("Bundle"), s("Legacy"), s("stem")), "Display");
    assert_eq!(pick_app_name(None, s("Bundle"), s("Legacy"), s("stem")), "Bundle");
    assert_eq!(pick_app_name(None, None, s("Legacy"), s("stem")), "Legacy");
    assert_eq!(pick_app_name(None, None, None, s("stem")), "stem");
    assert_eq!(pick_app_name(None, None, None, None), "");
}
