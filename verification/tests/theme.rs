use yal::theme::{
    all, by_name, find_theme, get_theme, list_owned, load_themes, monokai, select_themes, Theme, ThemeManager, ThemeRef,
};

fn named(name: Option<&str>, fg: &str) -> Theme {
    Theme {
        name: name.map(|n| n.to_string()),
        bg_color: Some("#000000".to_string()),
        fg_color: Some(fg.to_string()),
        bg_font_color: Some("#00ff00".to_string()),
        fg_font_color: Some("#ff0000".to_string()),
    }
}

#[test]
fn from_ref_to_owned() {
    let t: Theme = monokai().into();
    assert_eq!(t.name.as_deref(), Some("monokai"));
    assert_eq!(t.bg_color.as_deref(), Some("#272822"));
    assert_eq!(t.fg_color.as_deref(), Some("#49483E"));
}

#[test]
fn lookup_aliases() {
    assert_eq!(by_name("OneDark").unwrap().name, "one-dark");
    assert_eq!(by_name("catppuccin").unwrap().name, "catppuccin-mocha");
    assert_eq!(by_name("tokyonight-storm").unwrap().name, "tokyo-night-storm");
}

#[test]
fn lookup_trims_and_ignores_case() {
    assert_eq!(by_name("  DRACULA \n").unwrap().name, "dracula");
    assert_eq!(by_name("Nord").unwrap().name, "nord");
    assert!(by_name("no-such-theme").is_none());
    assert!(by_name("").is_none());
}

#[test]
fn theme_ref_new_keeps_fields() {
    let r = ThemeRef::new("x", "#1", "#2", "#3", "#4");
    let t = r.to_owned();
    assert_eq!(t.name.as_deref(), Some("x"));
    assert_eq!(t.bg_color.as_deref(), Some("#1"));
    assert_eq!(t.fg_color.as_deref(), Some("#2"));
    assert_eq!(t.bg_font_color.as_deref(), Some("#3"));
    assert_eq!(t.fg_font_color.as_deref(), Some("#4"));
}

#[test]
fn list_owned_has_every_builtin() {
    let all = list_owned();
    assert_eq!(all.len(), 19);
    assert_eq!(all[0].name.as_deref(), Some("monokai"));
    assert!(all.iter().all(|t| t.name.is_some() && t.fg_font_color.is_some()));
}

#[test]
fn parse_theme_named() {
    // [themes.custom] with no name inside: the key names the theme
    let themes = select_themes(None, None, Some(vec![("custom".to_string(), named(None, "#ffffff"))]), None, None);
    assert_eq!(themes.len(), 1);
    let theme = &themes[0];
    assert_eq!(theme.name.as_deref(), Some("custom"));
    assert_eq!(theme.fg_color.as_deref(), Some("#ffffff"));
    assert_eq!(theme.bg_color.as_deref(), Some("#000000"));
    assert_eq!(theme.fg_font_color.as_deref(), Some("#ff0000"));
    assert_eq!(theme.bg_font_color.as_deref(), Some("#00ff00"));
}

#[test]
fn parse_theme_array() {
    // [[theme]] with name = "custom"
    let themes = select_themes(Some(vec![named(Some("custom"), "#ffffff")]), None, None, None, None);
    assert_eq!(themes.len(), 1);
    let theme = &themes[0];
    assert_eq!(theme.name.as_deref(), Some("custom"));
    assert_eq!(theme.fg_color.as_deref(), Some("#ffffff"));
    assert_eq!(theme.bg_color.as_deref(), Some("#000000"));
    assert_eq!(theme.fg_font_color.as_deref(), Some("#ff0000"));
    assert_eq!(theme.bg_font_color.as_deref(), Some("#00ff00"));
}

#[test]
fn parse_theme_inline_array() {
    // themes = [ { name = "custom", ... } ]
    let themes = select_themes(None, Some(vec![named(Some("custom"), "#ffffff")]), None, None, None);
    assert_eq!(themes.len(), 1);
    let theme = &themes[0];
    assert_eq!(theme.name.as_deref(), Some("custom"));
    assert_eq!(theme.fg_color.as_deref(), Some("#ffffff"));
    assert_eq!(theme.bg_color.as_deref(), Some("#000000"));
    assert_eq!(theme.fg_font_color.as_deref(), Some("#ff0000"));
    assert_eq!(theme.bg_font_color.as_deref(), Some("#00ff00"));
}

#[test]
fn select_keeps_own_name_and_falls_through_empty_layouts() {
    let keyed = vec![
        ("a".to_string(), named(Some("alpha"), "#1")),
        ("b".to_string(), named(None, "#2")),
    ];
    let themes = select_themes(Some(vec![]), Some(vec![]), Some(vec![]), Some(keyed), None);
    assert_eq!(themes.len(), 2);
    assert_eq!(themes[0].name.as_deref(), Some("alpha"));
    assert_eq!(themes[1].name.as_deref(), Some("b"));
    assert!(select_themes(None, None, None, None, None).is_empty());
}

#[test]
fn user_themes_come_first_and_apply_finds_first() {
    let user = vec![named(Some("monokai"), "#custom")];
    let all = load_themes(user);
    assert_eq!(all.len(), 20);
    assert_eq!(all[0].fg_color.as_deref(), Some("#custom"));
    assert_eq!(all[1].name.as_deref(), Some("monokai"));
    assert_eq!(find_theme(&all, "monokai"), Some(0));
    assert_eq!(find_theme(&all, "nord").map(|i| all[i].name.clone()), Some(Some("nord".to_string())));
    let mut mgr = ThemeManager::new();
    assert_eq!(mgr.current, None);
    assert_eq!(mgr.apply_theme(&all, "nowhere"), None);
    assert_eq!(mgr.current.as_deref(), Some("nowhere"));
    assert_eq!(mgr.apply_theme(&all, "dracula"), Some(2));
    assert_eq!(mgr.current.as_deref(), Some("dracula"));
}

#[test]
fn configured_theme() {
    let all = load_themes(vec![]);
    assert_eq!(get_theme(&all, &Some("nord".to_string())).and_then(|t| t.name), Some("nord".to_string()));
    assert!(get_theme(&all, &Some("missing".to_string())).is_none());
    assert!(get_theme(&all, &None).is_none());
}

#[test]
fn lookup_same_for_case_and_space_variants() {
    for name in ["  Nord ", "Tokyo-Night", "\tcatppuccin\n", "yalRed", "solarized"] {
        let a = by_name(name).map(|t| t.name);
        let b = by_name(&name.trim().to_ascii_lowercase()).map(|t| t.name);
        let c = by_name(&name.to_ascii_uppercase()).map(|t| t.name);
        assert_eq!(a, b);
        assert_eq!(a, c);
    }
    assert!(by_name("solarized").is_none());
}

#[test]
fn every_builtin_is_found_by_its_name() {
    for t in all() {
        let found = by_name(t.name).unwrap();
        assert_eq!(found, t);
    }
}
