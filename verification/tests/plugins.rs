use yal::focus::DisplaySpace;
use yal::plugin::{
    clone_url, execute_context, execution_failure, lua_string_literal, plugin_bootstrap, plugin_chunk_name,
    expand_tilde, install_plan, vendor_searcher_script, InstallStep, StdModule, LoadedPlugin, PluginCommand, PluginConfigEntry, PluginError, PluginExecuteContext,
    PluginManager,
};
use yal::sky::{DisplayId, SpaceId, WindowId};
use yal::tree::SearchResult;

fn cmd(name: &str) -> PluginCommand {
    PluginCommand { name: name.to_string(), description: None, hidden: false }
}

fn empty_context() -> PluginExecuteContext {
    execute_context(vec![], &DisplaySpace { display_id: DisplayId("D".to_string()), space_id: SpaceId(1) })
}

#[test]
fn clone_urls() {
    assert_eq!(clone_url("owner/repo"), "https://github.com/owner/repo.git");
    assert_eq!(clone_url("https://example.com/x.git"), "https://example.com/x.git");
    assert_eq!(clone_url("http://example.com/x"), "http://example.com/x");
    assert_eq!(clone_url("git@github.com:o/r.git"), "git@github.com:o/r.git");
    assert_eq!(clone_url("httpx"), "https://github.com/httpx.git");
}

#[test]
fn lua_literals() {
    assert_eq!(lua_string_literal(r#"a\b"c"#), r#"a\\b\"c"#);
    assert_eq!(lua_string_literal("plain"), "plain");
    assert_eq!(lua_string_literal(""), "");
}

#[test]
fn bootstrap_chunk() {
    let s = plugin_bootstrap("/p/my \"plugin\"");
    assert!(s.starts_with("\n-- Prepend our plugin dir to the module search path\n"));
    assert!(s.contains(r#"package.path = "/p/my \"plugin\"/?.lua;/p/my \"plugin\"/?/init.lua;" .. package.path"#));
    assert!(s.contains(r#"local ok, mod = pcall(require, "init")"#));
    assert!(s.ends_with("if not ok then error(mod, 0) end\nreturn mod\n"));
    assert_eq!(plugin_chunk_name("weather"), "plugin://weather/init");
}

#[test]
fn vendor_chunk() {
    let s = vendor_searcher_script(r"C:\vendor");
    assert!(s.starts_with("\nlocal vendor = \"C:\\\\vendor\"\ntable.insert(package.searchers, 2, function(modname)\n"));
    assert!(s.contains("  local tried = {\n"));
    assert!(s.ends_with("end)\n"));
}

#[test]
fn resolving_commands() {
    let mut m = PluginManager::new();
    m.set_plugins(vec![
        LoadedPlugin { name: "a".to_string(), commands: vec![cmd("one")] },
        LoadedPlugin { name: "b".to_string(), commands: vec![cmd("two"), cmd("three")] },
        LoadedPlugin { name: "b".to_string(), commands: vec![cmd("four")] },
    ]);
    let e = m.resolve_command("zz", "one").unwrap_err();
    assert_eq!(e, PluginError::PluginNotFound { plugin_name: "zz".to_string() });
    assert_eq!(e.message(), "Plugin 'zz' not found");
    let e = m.resolve_command("b", "four").unwrap_err();
    assert_eq!(e.message(), "Command 'four' not found in plugin 'b'");
    let e = m.resolve_command("b", "three").unwrap_err();
    assert_eq!(e, PluginError::NoContext);
    assert_eq!(e.message(), "No execution context set for plugin command");
    m.set_execution_context(empty_context());
    assert_eq!(m.resolve_command("b", "three"), Ok(1));
    assert_eq!(m.resolve_command("a", "one"), Ok(0));
    let manifests = m.commands();
    assert_eq!(manifests.len(), 3);
    assert_eq!(manifests[1].plugin_name, "b");
    assert_eq!(manifests[1].commands, vec![cmd("two"), cmd("three")]);
    assert_eq!(execution_failure("a", "one", "boom"), "Failed to execute command 'a::one': boom");
}

#[test]
fn install_only_missing_plugins() {
    let mut m = PluginManager::new();
    m.config = vec![
        PluginConfigEntry { name: "x".to_string(), git: Some("o/x".to_string()), path: None, config: None },
        PluginConfigEntry { name: "y".to_string(), git: Some("https://h/y.git".to_string()), path: None, config: None },
        PluginConfigEntry { name: "z".to_string(), git: Some("o/z".to_string()), path: None, config: None },
    ];
    let jobs = m.install_jobs(&vec![false, false, true]);
    assert_eq!(jobs.len(), 2);
    assert_eq!((jobs[0].name.as_str(), jobs[0].url.as_str()), ("x", "https://github.com/o/x.git"));
    assert_eq!((jobs[1].name.as_str(), jobs[1].url.as_str()), ("y", "https://h/y.git"));
}

#[test]
fn context_from_tree() {
    let results = vec![SearchResult {
        display_id: DisplayId("D1".to_string()),
        space_id: SpaceId(9),
        space_index: 2,
        window_id: WindowId(77),
        title: Some("t".to_string()),
        pid: 12,
        app_name: "App".to_string(),
        is_focused: true,
    }];
    let ctx = execute_context(results, &DisplaySpace { display_id: DisplayId("D0".to_string()), space_id: SpaceId(4) });
    assert_eq!(ctx.windows.len(), 1);
    let w = &ctx.windows[0];
    assert_eq!((w.display_id.as_str(), w.space_id, w.space_index, w.window_id), ("D1", 9, 2, 77));
    assert_eq!((w.title.as_deref(), w.pid, w.app_name.as_str(), w.is_focused), (Some("t"), 12, "App", true));
    assert!(ctx.displays.is_empty());
    assert_eq!((ctx.current_display.display_id.as_str(), ctx.current_display.current_space_id), ("D0", 4));
}

#[test]
fn load_only_installed_plugins() {
    let mut m = PluginManager::new();
    m.config = vec![
        PluginConfigEntry { name: "x".to_string(), git: Some("o/x".to_string()), path: None, config: None },
        PluginConfigEntry { name: "y".to_string(), git: Some("o/y".to_string()), path: None, config: None },
        PluginConfigEntry { name: "z".to_string(), git: Some("o/z".to_string()), path: None, config: None },
    ];
    assert_eq!(m.load_order(&vec![true, false, true]), vec![0, 2]);
    assert!(m.load_order(&vec![false, false, false]).is_empty());
}

fn git_entry(name: &str, git: &str) -> PluginConfigEntry {
    PluginConfigEntry { name: name.to_string(), git: Some(git.to_string()), path: None, config: None }
}

fn path_entry(name: &str, path: &str) -> PluginConfigEntry {
    PluginConfigEntry { name: name.to_string(), git: None, path: Some(path.to_string()), config: None }
}

#[test]
fn tilde_expands_to_home() {
    assert_eq!(expand_tilde("~", "/Users/me"), "/Users/me");
    assert_eq!(expand_tilde("~/dev/p", "/Users/me"), "/Users/me/dev/p");
    assert_eq!(expand_tilde("/abs/p", "/Users/me"), "/abs/p");
    assert_eq!(expand_tilde("~other/p", "/Users/me"), "~other/p");
}

#[test]
fn path_plugins_load_from_their_path_and_are_never_cloned() {
    let mut m = PluginManager::new();
    m.config = vec![
        git_entry("spotify", "klaatu01/yal-spotify-plugin"),
        path_entry("bluetooth", "~/.local/share/yal/plugins/bluetooth"),
        path_entry("dev", "/Users/me/dev/my-plugin"),
        PluginConfigEntry { name: "both".to_string(), git: Some("o/b".to_string()), path: Some("/b".to_string()), config: None },
        PluginConfigEntry { name: "none".to_string(), git: None, path: None, config: None },
    ];
    let dirs = m.plugin_dirs("/Users/me/.local/share/yal/plugins", "/Users/me");
    assert_eq!(
        dirs,
        vec![
            Some("/Users/me/.local/share/yal/plugins/spotify".to_string()),
            Some("/Users/me/.local/share/yal/plugins/bluetooth".to_string()),
            Some("/Users/me/dev/my-plugin".to_string()),
            None,
            None,
        ]
    );
    let jobs = m.install_jobs(&vec![false, false, false, false, false]);
    assert_eq!(jobs.len(), 1);
    assert_eq!((jobs[0].name.as_str(), jobs[0].url.as_str()), ("spotify", "https://github.com/klaatu01/yal-spotify-plugin.git"));
    assert_eq!(m.load_order(&vec![true, true, true, false, false]), vec![0, 1, 2]);
}

#[test]
fn standard_library_is_required_under_yal() {
    let plan = install_plan(false);
    let paths: Vec<String> = plan
        .iter()
        .map(|s| match s {
            InstallStep::Preload(m) => m.require_path(),
            InstallStep::AddVendorSearcher => panic!("no vendor directory was given"),
        })
        .collect();
    assert_eq!(paths, vec!["yal.json", "yal.http", "yal.socket", "yal.base64", "yal.log", "yal.ui", "yal.db"]);
    assert_eq!(StdModule::Base64.require_path(), "yal.base64");
    let with_vendor = install_plan(true);
    assert_eq!(with_vendor.len(), 8);
    assert_eq!(with_vendor[7], InstallStep::AddVendorSearcher);
}
