use yal::paths::{
    config_base_path, config_path, db_path_for, env_path, fallback_home, home_dir, join_path, plugins_config_path,
    plugins_dir, socket_path, themes_path, xdg_config_home, xdg_state_home, PathEnv,
};
use yal::prompt::{Field, Form, Node, Prompt, PromptAnswer, PromptHandle, PromptResponse, TextField};
use yal::settings::{is_relevant, reload_on_change, DisplayManager, PermissionStage, PermissionWarning, PermissionsManager};
use yal::shortcut::{Shortcut, ShortcutCommand, ShortcutError};
use yal::sky::DisplayId;

fn env(home: Option<&str>, state: Option<&str>, config: Option<&str>) -> PathEnv {
    PathEnv {
        home: home.map(|s| s.to_string()),
        xdg_state_home: state.map(|s| s.to_string()),
        xdg_config_home: config.map(|s| s.to_string()),
    }
}

#[test]
fn store_locations() {
    assert_eq!(db_path_for("ns", &env(Some("/h"), Some("/s"), Some("/c"))), "/s/yal/plugins/ns.json");
    assert_eq!(db_path_for("ns", &env(Some("/h"), None, Some("/c"))), "/h/.local/state/yal/plugins/ns.json");
    assert_eq!(db_path_for("ns", &env(None, None, Some("/c"))), "/c/yal/plugins/ns.json");
    assert_eq!(db_path_for("ns", &env(Some("/h"), Some(""), None)), "/h/.local/state/yal/plugins/ns.json");
    assert_eq!(db_path_for("ns", &env(None, None, None)), "plugins/ns.json");
    assert_eq!(home_dir(&env(Some(""), None, None)), None);
    assert_eq!(xdg_state_home(&env(Some("/h"), None, None)).as_deref(), Some("/h/.local/state"));
    assert_eq!(xdg_config_home(&env(Some("/h"), None, None)).as_deref(), Some("/h/.config"));
    assert_eq!(fallback_home(&env(Some("/h/"), None, None)).as_deref(), Some("/h/.yal"));
    assert_eq!(env_path(&Some(String::new())), None);
    assert_eq!(join_path("/a", "/b"), "/b");
    assert_eq!(join_path("", "b"), "b");
}

#[test]
fn config_locations() {
    let none: Option<String> = None;
    let home = Some("/Users/me".to_string());
    assert_eq!(config_base_path(&none, &home), "/Users/me/.config/yal");
    assert_eq!(config_path(&Some("/x".to_string()), &home), "/x/yal/config.lua");
    assert_eq!(themes_path(&none, &none), "./yal/themes.lua");
    assert_eq!(socket_path(), "/tmp/yal_ipc.sock");
    assert_eq!(plugins_config_path("/Users/me"), "/Users/me/.config/yal/plugins.lua");
    assert_eq!(plugins_dir("/Users/me"), "/Users/me/.local/share/yal/plugins");
}

#[test]
fn watched_files() {
    assert!(is_relevant("/c/yal/config.lua", "/c/yal/config.lua"));
    assert!(is_relevant("/c//yal/config.lua", "/c/yal/config.lua"));
    assert!(!is_relevant("/c/yal/themes.lua", "/c/yal/config.lua"));
    assert!(!is_relevant("/c/yal/other.toml", "/c/yal/other.toml"));
}

#[test]
fn permission_warnings() {
    let pm = PermissionsManager::new();
    assert!(pm.ensure(true, true).is_empty());
    assert_eq!(pm.ensure(false, true), vec![PermissionWarning::Accessibility]);
    assert_eq!(pm.ensure(false, false), vec![PermissionWarning::Accessibility, PermissionWarning::ScreenRecording]);
    assert!(PermissionWarning::ScreenRecording.message().starts_with("Screen Recording permission not granted."));
    assert!(PermissionWarning::Accessibility.message().contains("Privacy & Security \u{2192} Accessibility"));
}

#[test]
fn displays_by_uuid() {
    let dm = DisplayManager::new();
    let active = vec![(1u32, None), (2, Some("U-2".to_string())), (3, Some("U-3".to_string()))];
    assert_eq!(dm.display_for_uuid(&active, &DisplayId("U-3".to_string())), Some(3));
    assert_eq!(dm.display_for_uuid(&active, &DisplayId("U-9".to_string())), None);
    let main = Some(DisplayId("M".to_string()));
    assert_eq!(dm.active_display_id(main, Some(DisplayId("P".to_string()))), Some(DisplayId("M".to_string())));
    assert_eq!(dm.active_display_id(None, Some(DisplayId("P".to_string()))), Some(DisplayId("P".to_string())));
}

#[test]
fn shortcut_maps() {
    let entries = vec![
        ("plugin".to_string(), Some("p".to_string())),
        ("command".to_string(), Some("c".to_string())),
    ];
    let c = ShortcutCommand::from_entries(&entries).unwrap();
    assert_eq!(c, ShortcutCommand { plugin: "p".to_string(), command: "c".to_string() });
    assert_eq!(ShortcutCommand::from_entries(&c.to_entries()), Ok(c));
    assert_eq!(
        ShortcutCommand::from_entries(&vec![("command".to_string(), Some("c".to_string()))]),
        Err(ShortcutError::MissingPlugin)
    );
    assert_eq!(
        ShortcutCommand::from_entries(&vec![("plugin".to_string(), None)]),
        Err(ShortcutError::PluginNotAString)
    );
    let s = Shortcut::from_entries(&vec![("cmd+k".to_string(), Some(entries.clone()))]).unwrap();
    assert_eq!(s.combination, "cmd+k");
    assert_eq!(Shortcut::from_entries(&s.to_entries()), Ok(s));
    assert_eq!(Shortcut::from_entries(&vec![]), Err(ShortcutError::Empty));
    assert_eq!(Shortcut::from_entries(&vec![("k".to_string(), None)]), Err(ShortcutError::CommandNotAMap));
    assert_eq!(
        Shortcut::from_entries(&vec![("a".to_string(), Some(entries.clone())), ("b".to_string(), Some(entries))]),
        Err(ShortcutError::MultipleEntries)
    );
}

#[test]
fn prompt_inputs() {
    let text = Node::Text { text: "hi".to_string(), variant: None };
    let form = Node::Form(Form {
        name: None,
        fields: vec![Field::Text(TextField { name: "n".to_string(), label: None, placeholder: None, max_length: None })],
    });
    let nested = Node::VStack { gap: None, children: vec![Node::HStack { gap: None, children: vec![form] }] };
    let p = Prompt { title: None, width: None, height: None, content: vec![text, nested], ui_schema_version: None, hotkeys: None };
    assert!(p.contains_input_fields());
    let q = Prompt { title: None, width: None, height: None, content: vec![Node::Form(Form { name: None, fields: vec![] })], ui_schema_version: None, hotkeys: None };
    assert!(!q.contains_input_fields());
}

#[test]
fn prompt_handle_answers() {
    let mut h = PromptHandle::new("req-1".to_string());
    let v = serde_json::Value::Bool(true);
    assert_eq!(h.on_state(Ok(PromptResponse::State { values: v.clone() })), PromptAnswer::Values(v.clone()));
    assert!(h.kept_submission().is_none());
    assert_eq!(h.on_state(Ok(PromptResponse::Submit { values: v.clone() })), PromptAnswer::Nothing);
    assert_eq!(h.kept_submission(), Some(&v));
    let failed = h.on_state(Err("gone".to_string()));
    assert_eq!(failed, PromptAnswer::Failed("Failed to receive prompt state: gone".to_string()));
    assert!(failed.cancels());
    assert_eq!(h.on_submission(Ok(PromptResponse::Cancel)), PromptAnswer::Cancelled);
    assert_eq!(PromptAnswer::Cancelled.error_message().as_deref(), Some("Prompt was cancelled by user"));
    assert_eq!(
        h.on_submission(Err("x".to_string())),
        PromptAnswer::Failed("Failed to receive prompt submission: x".to_string())
    );
    assert!(!PromptAnswer::Nothing.cancels());
    assert_eq!(PromptAnswer::Nothing.error_message(), None);
}

#[test]
fn submission_asks_again_while_the_form_is_open() {
    let h = PromptHandle::new("req-2".to_string());
    let v = serde_json::Value::Bool(false);
    let again = h.on_submission(Ok(PromptResponse::State { values: v.clone() }));
    assert_eq!(again, PromptAnswer::AskAgain);
    assert!(!again.cancels());
    assert_eq!(again.error_message(), None);
    assert_eq!(h.on_submission(Ok(PromptResponse::Submit { values: v.clone() })), PromptAnswer::Values(v));
}

#[test]
fn state_polls_are_spaced_by_100_ms() {
    let mut h = PromptHandle::new("req-3".to_string());
    assert_eq!(h.poll_delay(5_000), 0);
    h.record_poll(5_000);
    assert_eq!(h.last_poll_ms, Some(5_000));
    assert_eq!(h.poll_delay(5_000), 100);
    assert_eq!(h.poll_delay(5_030), 70);
    assert_eq!(h.poll_delay(5_100), 0);
    assert_eq!(h.poll_delay(9_000), 0);
    assert_eq!(h.poll_delay(4_000), 100);
}

#[test]
fn config_changes() {
    let cfg = "/c/yal/config.lua";
    assert_eq!(reload_on_change(&vec!["/c/yal/config.lua".to_string()], cfg, 500), Some(50));
    assert_eq!(reload_on_change(&vec!["/c/yal/config.lua".to_string()], cfg, 100), None);
    assert_eq!(reload_on_change(&vec!["/c/yal/themes.lua".to_string()], cfg, 500), None);
    assert_eq!(reload_on_change(&vec!["/x".to_string(), "/c/./yal/config.lua".to_string()], cfg, 120), Some(50));
    assert_eq!(reload_on_change(&vec![], cfg, 500), None);
}

#[test]
fn permission_check_requests_what_is_missing() {
    let pm = PermissionsManager::new();
    let s0 = pm.first_stage();
    assert_eq!(s0, PermissionStage::CheckAccessibility);
    assert_eq!(pm.step(s0, true), (PermissionStage::CheckScreenRecording, None));
    assert_eq!(pm.step(s0, false), (PermissionStage::PromptAccessibility, None));
    assert_eq!(
        pm.step(PermissionStage::PromptAccessibility, false),
        (PermissionStage::CheckScreenRecording, Some(PermissionWarning::Accessibility))
    );
    assert_eq!(pm.step(PermissionStage::PromptAccessibility, true), (PermissionStage::CheckScreenRecording, None));
    assert_eq!(pm.step(PermissionStage::CheckScreenRecording, true), (PermissionStage::Finished, None));
    assert_eq!(pm.step(PermissionStage::CheckScreenRecording, false), (PermissionStage::RequestScreenRecording, None));
    assert_eq!(
        pm.step(PermissionStage::RequestScreenRecording, false),
        (PermissionStage::Finished, Some(PermissionWarning::ScreenRecording))
    );
    assert_eq!(pm.step(PermissionStage::Finished, false), (PermissionStage::Finished, None));
}
