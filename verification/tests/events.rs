use yal::events::{palette_actions, PaletteAction, PaletteEvent};
use yal::sky::WindowId;
use yal::events::{configured_theme, is_launcher_name, route, schedule_refresh, Events, RefreshSchedule, RouterStep};

#[test]
fn routing() {
    assert_eq!(route(Events::ReloadPlugins), vec![RouterStep::InstallPlugins]);
    let reload = route(Events::ReloadConfig);
    assert_eq!(reload.len(), 6);
    assert_eq!(reload[0], RouterStep::ReloadConfig);
    assert_eq!(reload[2], RouterStep::ApplyTheme);
    assert_eq!(route(Events::RefreshTree).last(), Some(&RouterStep::UpdatePluginContext));
    assert_eq!(configured_theme(&Some("nord".to_string())), "nord");
    assert_eq!(configured_theme(&None), "");
}

#[test]
fn debounce() {
    assert_eq!(schedule_refresh(0), RefreshSchedule { wait_ms: 220, restarts_period: false });
    assert_eq!(schedule_refresh(199), RefreshSchedule { wait_ms: 220, restarts_period: false });
    assert_eq!(schedule_refresh(200), RefreshSchedule { wait_ms: 1000, restarts_period: true });
}

#[test]
fn launcher_names() {
    assert!(is_launcher_name("yal"));
    assert!(is_launcher_name("YaL"));
    assert!(!is_launcher_name("yal "));
    assert!(!is_launcher_name("ya"));
    assert!(!is_launcher_name("y\u{c1}l"));
}

#[test]
fn palette_hotkey_toggles() {
    assert_eq!(palette_actions(PaletteEvent::HotkeyPressed { visible: true }), vec![PaletteAction::Hide]);
    assert_eq!(
        palette_actions(PaletteEvent::HotkeyPressed { visible: false }),
        vec![PaletteAction::RefreshTree, PaletteAction::PublishCommands, PaletteAction::Reveal]
    );
    assert!(palette_actions(PaletteEvent::HotkeyReleased).is_empty());
}

#[test]
fn palette_blur_close_and_second_launch() {
    assert_eq!(
        palette_actions(PaletteEvent::FocusLost { focused: Some(WindowId(42)) }),
        vec![PaletteAction::FocusWindow(WindowId(42)), PaletteAction::Hide]
    );
    assert_eq!(palette_actions(PaletteEvent::FocusLost { focused: None }), vec![PaletteAction::Hide]);
    assert_eq!(palette_actions(PaletteEvent::CloseRequested), vec![PaletteAction::PreventClose, PaletteAction::Hide]);
    assert_eq!(palette_actions(PaletteEvent::SecondInstance), vec![PaletteAction::Show, PaletteAction::Focus]);
}
