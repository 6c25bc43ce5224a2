//! The commands offered in the palette: launching an application, switching
//! to a window, applying a theme or running a plugin command.

use vstd::prelude::*;

use crate::text::owned;
use crate::theme::Theme;
use crate::tree::{ApplicationTree, SearchResult};

verus! {

/// An application (or a System Settings pane) that can be launched.
#[derive(Debug, PartialEq, Eq)]
pub struct AppInfo {
    pub name: String,
    pub path: String,
}

/// A window that the palette can switch to.
#[derive(Debug, PartialEq, Eq)]
pub struct WindowTarget {
    pub app_name: String,
    pub title: Option<String>,
    pub pid: i32,
    pub window_id: u32,
}

/// A palette command.
#[derive(Debug, PartialEq, Eq)]
pub enum Command {
    App(AppInfo),
    Switch(WindowTarget),
    Theme(String),
    Plugin { plugin_name: String, command_name: String, args: Option<serde_json::Value> },
}

/// The kind of a palette command.
#[derive(Debug, Clone, Copy, PartialEq, Eq, Structural)]
pub enum CommandKind {
    App,
    Switch,
    Theme,
    Plugin,
}

/// The name a command is shown under: the application's name; the window's
/// application name, followed by " - " and its title when it has one; the
/// theme's name; or the plugin's name, " - " and the command's name.
pub open spec fn command_name(c: Command) -> Seq<char> {
    match c {
        Command::App(a) => a.name@,
        Command::Switch(t) => match t.title {
            Some(title) => t.app_name@ + " - "@ + title@,
            None => t.app_name@,
        },
        Command::Theme(n) => n@,
        Command::Plugin { plugin_name, command_name, .. } => plugin_name@ + " - "@ + command_name@,
    }
}

/// The prefix naming a command's kind.
pub open spec fn command_prefix(c: Command) -> Seq<char> {
    match c {
        Command::App(_) => "app"@,
        Command::Switch(_) => "switch"@,
        Command::Theme(_) => "theme"@,
        Command::Plugin { .. } => "plugin"@,
    }
}

/// Whether a command is of a kind.
pub open spec fn command_is_kind(k: CommandKind, c: Command) -> bool {
    match (k, c) {
        (CommandKind::App, Command::App(_)) => true,
        (CommandKind::Switch, Command::Switch(_)) => true,
        (CommandKind::Theme, Command::Theme(_)) => true,
        (CommandKind::Plugin, Command::Plugin { .. }) => true,
        _ => false,
    }
}

/// `a`, then " - ", then `b`.
fn dash_joined(a: &str, b: &str) -> (r: String)
    ensures
        r@ == a@ + " - "@ + b@,
{
    let mut s = owned(a);
    s.append(" - ");
    s.append(b);
    s
}

/// Whether two commands are of the same kind.
pub open spec fn same_kind(c: Command, d: Command) -> bool {
    ||| c is App && d is App
    ||| c is Switch && d is Switch
    ||| c is Theme && d is Theme
    ||| c is Plugin && d is Plugin
}

/// Each kind of command has its own prefix: `app` for applications,
/// `switch` for windows, `theme` for themes and `plugin` for plugin
/// commands. Commands of different kinds have different prefixes and, as no
/// prefix holds a colon, different display strings, whatever their names.
pub proof fn law_prefix_names_the_kind(c: Command, d: Command)
    ensures
        c is App ==> command_prefix(c) == "app"@,
        c is Switch ==> command_prefix(c) == "switch"@,
        c is Theme ==> command_prefix(c) == "theme"@,
        c is Plugin ==> command_prefix(c) == "plugin"@,
        !same_kind(c, d) ==> command_prefix(c) != command_prefix(d),
        !same_kind(c, d) ==> command_prefix(c) + ":"@ + command_name(c) != command_prefix(d) + ":"@ + command_name(d),
{
    reveal_strlit("app");
    reveal_strlit("switch");
    reveal_strlit("theme");
    reveal_strlit("plugin");
    reveal_strlit(":");
    let pc = command_prefix(c);
    let pd = command_prefix(d);
    assert(forall|i: int| 0 <= i < pc.len() ==> pc[i] != ':');
    assert(forall|i: int| 0 <= i < pd.len() ==> pd[i] != ':');
    if !same_kind(c, d) {
        assert(pc.len() != pd.len() || pc[0] != pd[0]);
        let x = pc + ":"@ + command_name(c);
        let y = pd + ":"@ + command_name(d);
        if pc.len() < pd.len() {
            assert(x[pc.len() as int] == ':');
            assert(y[pc.len() as int] == pd[pc.len() as int]);
        } else if pd.len() < pc.len() {
            assert(y[pd.len() as int] == ':');
            assert(x[pd.len() as int] == pc[pd.len() as int]);
        } else {
            assert(x[0] == pc[0] && y[0] == pd[0]);
        }
    }
}

/// A command is shown under its subject's name: an application's name; a
/// theme's name; a window's application name, followed by ` - ` and the
/// window's title when it has one; a plugin's name, ` - ` and the command's
/// name. Two windows of one application with different titles are shown
/// under different names.
pub proof fn law_command_names(c: Command, t1: WindowTarget, t2: WindowTarget)
    ensures
        c matches Command::App(a) ==> command_name(c) == a.name@,
        c matches Command::Theme(n) ==> command_name(c) == n@,
        c matches Command::Switch(t) ==> (t.title is None ==> command_name(c) == t.app_name@) && (t.title is Some
            ==> command_name(c) == t.app_name@ + " - "@ + t.title.unwrap()@),
        c matches Command::Plugin { plugin_name, command_name: cn, .. } ==> command_name(c) == plugin_name@ + " - "@
            + cn@,
        (t1.app_name@ == t2.app_name@ && t1.title is Some && t2.title is Some && t1.title.unwrap()@
            != t2.title.unwrap()@) ==> command_name(Command::Switch(t1)) != command_name(Command::Switch(t2)),
{
    if t1.app_name@ == t2.app_name@ && t1.title is Some && t2.title is Some && t1.title.unwrap()@ != t2.title.unwrap()@ {
        let p = t1.app_name@ + " - "@;
        let x = p + t1.title.unwrap()@;
        let y = t2.app_name@ + " - "@ + t2.title.unwrap()@;
        if x == y {
            assert(x.subrange(p.len() as int, x.len() as int) =~= t1.title.unwrap()@);
            assert(y.subrange(p.len() as int, y.len() as int) =~= t2.title.unwrap()@);
        }
    }
}

impl Command {
    /// The name the command is shown under.
    pub fn name(&self) -> (r: String)
        ensures
            r@ == command_name(*self),
    {
        match self {
            Command::App(app) => app.name.clone(),
            Command::Switch(t) => match &t.title {
                Some(title) => dash_joined(t.app_name.as_str(), title.as_str()),
                None => t.app_name.clone(),
            },
            Command::Theme(name) => name.clone(),
            Command::Plugin { plugin_name, command_name, .. } => dash_joined(
                plugin_name.as_str(),
                command_name.as_str(),
            ),
        }
    }

    /// The prefix naming the command's kind.
    pub fn prefix(&self) -> (r: &'static str)
        ensures
            r@ == command_prefix(*self),
    {
        match self {
            Command::App(_) => "app",
            Command::Switch(_) => "switch",
            Command::Theme(_) => "theme",
            Command::Plugin { .. } => "plugin",
        }
    }

    /// The command as displayed: its prefix, a colon, and its name.
    pub fn to_display_string(&self) -> (r: String)
        ensures
            r@ == command_prefix(*self) + ":"@ + command_name(*self),
    {
        let mut s = owned(self.prefix());
        s.append(":");
        let n = self.name();
        s.append(n.as_str());
        s
    }
}

impl CommandKind {
    /// Whether the command is of this kind.
    pub fn is_kind(&self, cmd: &Command) -> (r: bool)
        ensures
            r == command_is_kind(*self, *cmd),
    {
        match (self, cmd) {
            (CommandKind::App, Command::App(_)) => true,
            (CommandKind::Switch, Command::Switch(_)) => true,
            (CommandKind::Theme, Command::Theme(_)) => true,
            (CommandKind::Plugin, Command::Plugin { .. }) => true,
            _ => false,
        }
    }
}

/* --------------------------- building the list --------------------------- */

/// The switch target of a window found in the application tree; the window
/// id is truncated to 32 bits.
pub open spec fn target_of(r: SearchResult) -> WindowTarget {
    WindowTarget { app_name: r.app_name, title: r.title, pid: r.pid, window_id: r.window_id.0 as u32 }
}

/// The theme commands of a theme list: one per named theme, in order.
pub open spec fn theme_commands(ts: Seq<Theme>) -> Seq<Command>
    decreases ts.len(),
{
    if ts.len() == 0 {
        Seq::empty()
    } else {
        let rest = theme_commands(ts.drop_last());
        match ts.last().name {
            Some(n) => rest.push(Command::Theme(n)),
            None => rest,
        }
    }
}

/// The palette's command list: every application, then every window, then
/// every named theme, each group in its given order.
pub open spec fn palette_commands(apps: Seq<AppInfo>, windows: Seq<SearchResult>, themes: Seq<Theme>) -> Seq<
    Command,
> {
    apps.map_values(|a: AppInfo| Command::App(a)) + windows.map_values(
        |r: SearchResult| Command::Switch(target_of(r)),
    ) + theme_commands(themes)
}

proof fn lemma_theme_commands(ts: Seq<Theme>)
    ensures
        forall|k: int|
            0 <= k < theme_commands(ts).len() ==> (#[trigger] theme_commands(ts)[k] matches Command::Theme(n) && exists|j: int|
                0 <= j < ts.len() && ts[j].name == Some(n)),
        forall|j: int|
            0 <= j < ts.len() && (#[trigger] ts[j]).name is Some ==> theme_commands(ts).contains(
                Command::Theme(ts[j].name.unwrap()),
            ),
        theme_commands(ts).len() <= ts.len(),
    decreases ts.len(),
{
    if ts.len() > 0 {
        let rest = ts.drop_last();
        lemma_theme_commands(rest);
        let tc = theme_commands(ts);
        let rc = theme_commands(rest);
        assert forall|k: int| 0 <= k < tc.len() implies (#[trigger] tc[k] matches Command::Theme(n) && exists|j: int|
            0 <= j < ts.len() && ts[j].name == Some(n)) by {
            if k < rc.len() {
                assert(tc[k] == rc[k]);
                let n = rc[k]->Theme_0;
                let j = choose|j: int| 0 <= j < rest.len() && rest[j].name == Some(n);
                assert(ts[j] == rest[j]);
            } else {
                assert(ts[ts.len() - 1] == ts.last());
            }
        }
        assert forall|j: int| 0 <= j < ts.len() && (#[trigger] ts[j]).name is Some implies tc.contains(
            Command::Theme(ts[j].name.unwrap()),
        ) by {
            if j < ts.len() - 1 {
                assert(rest[j] == ts[j]);
                let m = choose|m: int| 0 <= m < rc.len() && rc[m] == Command::Theme(ts[j].name.unwrap());
                assert(tc[m] == rc[m]);
            } else {
                assert(tc[tc.len() - 1] == Command::Theme(ts[j].name.unwrap()));
            }
        }
    }
}

/// The palette's list: first one command per application, launching it;
/// then one per window, switching to it (its process, title, application
/// name and id, truncated to 32 bits); then only theme commands, one for
/// each named theme, each naming a theme of the list.
pub proof fn law_palette_list_order(apps: Seq<AppInfo>, windows: Seq<SearchResult>, themes: Seq<Theme>)
    ensures
        palette_commands(apps, windows, themes).len() >= apps.len() + windows.len(),
        palette_commands(apps, windows, themes).len() <= apps.len() + windows.len() + themes.len(),
        forall|i: int| 0 <= i < apps.len() ==> #[trigger] palette_commands(apps, windows, themes)[i] == Command::App(apps[i]),
        forall|i: int|
            0 <= i < windows.len() ==> (#[trigger] palette_commands(apps, windows, themes)[apps.len() + i] matches Command::Switch(
                t,
            ) && t.pid == windows[i].pid && t.title == windows[i].title && t.app_name == windows[i].app_name
                && t.window_id == windows[i].window_id.0 as u32),
        forall|k: int|
            apps.len() + windows.len() <= k < palette_commands(apps, windows, themes).len() ==> (
            #[trigger] palette_commands(apps, windows, themes)[k] matches Command::Theme(n) && exists|j: int|
                0 <= j < themes.len() && themes[j].name == Some(n)),
        forall|j: int|
            0 <= j < themes.len() && (#[trigger] themes[j]).name is Some ==> palette_commands(apps, windows, themes).contains(
                Command::Theme(themes[j].name.unwrap()),
            ),
{
    lemma_theme_commands(themes);
    let a = apps.map_values(|x: AppInfo| Command::App(x));
    let w = windows.map_values(|r: SearchResult| Command::Switch(target_of(r)));
    let t = theme_commands(themes);
    let all = palette_commands(apps, windows, themes);
    assert(all == a + w + t);
    assert forall|i: int| 0 <= i < windows.len() implies (#[trigger] all[apps.len() + i] matches Command::Switch(tg)
        && tg.pid == windows[i].pid && tg.title == windows[i].title && tg.app_name == windows[i].app_name
        && tg.window_id == windows[i].window_id.0 as u32) by {
        assert(all[apps.len() + i] == w[i]);
    }
    assert forall|k: int| apps.len() + windows.len() <= k < all.len() implies (#[trigger] all[k] matches Command::Theme(
        n,
    ) && exists|j: int| 0 <= j < themes.len() && themes[j].name == Some(n)) by {
        assert(all[k] == t[k - apps.len() - windows.len()]);
    }
    assert forall|j: int| 0 <= j < themes.len() && (#[trigger] themes[j]).name is Some implies all.contains(
        Command::Theme(themes[j].name.unwrap()),
    ) by {
        let m = choose|m: int| 0 <= m < t.len() && t[m] == Command::Theme(themes[j].name.unwrap());
        assert(all[apps.len() + windows.len() + m] == t[m]);
    }
}

/// Builds the palette's command list from the launchable applications, the
/// windows of the application tree and the known themes.
pub fn collect_commands(apps: &Vec<AppInfo>, windows: &Vec<SearchResult>, themes: &Vec<Theme>) -> (r: Vec<
    Command,
>)
    ensures
        r@ == palette_commands(apps@, windows@, themes@),
{
    let mut out: Vec<Command> = Vec::new();
    let mut i: usize = 0;
    while i < apps.len()
        invariant
            i <= apps@.len(),
            out@ == apps@.subrange(0, i as int).map_values(|a: AppInfo| Command::App(a)),
        decreases apps@.len() - i,
    {
        let a = &apps[i];
        out.push(Command::App(AppInfo { name: a.name.clone(), path: a.path.clone() }));
        assert(apps@.subrange(0, i + 1).map_values(|a: AppInfo| Command::App(a)) =~= apps@.subrange(
            0,
            i as int,
        ).map_values(|a: AppInfo| Command::App(a)).push(Command::App(apps@[i as int])));
        i = i + 1;
    }
    assert(apps@.subrange(0, apps@.len() as int) =~= apps@);
    let ghost first = out@;
    let mut j: usize = 0;
    assert(out@ =~= first + windows@.subrange(0, 0).map_values(|r: SearchResult| Command::Switch(target_of(r))));
    while j < windows.len()
        invariant
            j <= windows@.len(),
            out@ == first + windows@.subrange(0, j as int).map_values(
                |r: SearchResult| Command::Switch(target_of(r)),
            ),
        decreases windows@.len() - j,
    {
        let w = &windows[j];
        let t = WindowTarget {
            app_name: w.app_name.clone(),
            title: w.title.clone(),
            pid: w.pid,
            window_id: w.window_id.0 as u32,
        };
        out.push(Command::Switch(t));
        assert(windows@.subrange(0, j + 1).map_values(|r: SearchResult| Command::Switch(target_of(r)))
            =~= windows@.subrange(0, j as int).map_values(|r: SearchResult| Command::Switch(target_of(r))).push(
            Command::Switch(target_of(windows@[j as int])),
        ));
        j = j + 1;
    }
    assert(windows@.subrange(0, windows@.len() as int) =~= windows@);
    let ghost second = out@;
    let mut k: usize = 0;
    assert(themes@.subrange(0, 0) =~= Seq::<Theme>::empty());
    assert(out@ =~= second + theme_commands(themes@.subrange(0, 0)));
    while k < themes.len()
        invariant
            k <= themes@.len(),
            out@ == second + theme_commands(themes@.subrange(0, k as int)),
        decreases themes@.len() - k,
    {
        assert(themes@.subrange(0, k + 1).drop_last() =~= themes@.subrange(0, k as int));
        assert(themes@.subrange(0, k + 1).last() == themes@[k as int]);
        match &themes[k].name {
            Some(n) => {
                out.push(Command::Theme(n.clone()));
            },
            None => {},
        }
        assert(out@ =~= second + theme_commands(themes@.subrange(0, k + 1)));
        k = k + 1;
    }
    assert(themes@.subrange(0, themes@.len() as int) =~= themes@);
    out
}

/// The windows of the application tree as switch targets, in the tree's
/// flattened order.
pub fn list_switch_targets(tree: &ApplicationTree) -> (r: Vec<WindowTarget>)
    ensures
        r@ == tree.results().map_values(|x: SearchResult| target_of(x)),
{
    let results = tree.flatten();
    let mut out: Vec<WindowTarget> = Vec::new();
    let mut i: usize = 0;
    while i < results.len()
        invariant
            i <= results@.len(),
            results@ == tree.results(),
            out@ == results@.subrange(0, i as int).map_values(|x: SearchResult| target_of(x)),
        decreases results@.len() - i,
    {
        let w = &results[i];
        out.push(
            WindowTarget {
                app_name: w.app_name.clone(),
                title: w.title.clone(),
                pid: w.pid,
                window_id: w.window_id.0 as u32,
            },
        );
        assert(results@.subrange(0, i + 1).map_values(|x: SearchResult| target_of(x)) =~= results@.subrange(
            0,
            i as int,
        ).map_values(|x: SearchResult| target_of(x)).push(target_of(results@[i as int])));
        i = i + 1;
    }
    assert(results@.subrange(0, results@.len() as int) =~= results@);
    out
}

/* ------------------------------ launching apps ------------------------------ */

/// One step of launching an application from the palette.
#[derive(Debug, PartialEq, Eq)]
pub enum LaunchStep {
    /// Open the application (or URL) at this path; a failure ends the launch
    /// with its message.
    Open(String),
    /// Wait this many milliseconds.
    Pause(u64),
    /// Rebuild the application tree.
    RefreshTree,
    /// Bring forward a window of the application with this name.
    FocusApp(String),
    /// Hide the launcher.
    HideLauncher,
}

/// The view of a launch step.
pub open spec fn step_view(s: LaunchStep) -> (int, Seq<char>, u64) {
    match s {
        LaunchStep::Open(p) => (0, p@, 0),
        LaunchStep::Pause(ms) => (1, Seq::empty(), ms),
        LaunchStep::RefreshTree => (2, Seq::empty(), 0),
        LaunchStep::FocusApp(n) => (3, n@, 0),
        LaunchStep::HideLauncher => (4, Seq::empty(), 0),
    }
}

/// Launching an application: open it, wait half a second, refresh the
/// tree, bring the application forward, and, for the Screenshot app, hide
/// the launcher.
pub open spec fn launch_plan(app: AppInfo) -> Seq<(int, Seq<char>, u64)> {
    seq![(0, app.path@, 0u64), (1, Seq::empty(), 500u64), (2, Seq::empty(), 0u64), (3, app.name@, 0u64)] + if app.name@
        == "Screenshot"@ {
        seq![(4, Seq::<char>::empty(), 0u64)]
    } else {
        Seq::empty()
    }
}

/// The steps of launching an application.
pub fn launch_steps(app: &AppInfo) -> (r: Vec<LaunchStep>)
    ensures
        r@.map_values(|s: LaunchStep| step_view(s)) == launch_plan(*app),
{
    let mut v: Vec<LaunchStep> = Vec::new();
    v.push(LaunchStep::Open(app.path.clone()));
    v.push(LaunchStep::Pause(500));
    v.push(LaunchStep::RefreshTree);
    v.push(LaunchStep::FocusApp(app.name.clone()));
    if crate::text::str_eq(app.name.as_str(), "Screenshot") {
        v.push(LaunchStep::HideLauncher);
    }
    assert(v@.map_values(|s: LaunchStep| step_view(s)) =~= launch_plan(*app));
    v
}

/* ----------------------- System Settings shortcuts ----------------------- */

/// The System Settings panes offered as applications: label and URL.
pub open spec fn system_preference_panes() -> Seq<(&'static str, &'static str)> {
    seq![
        ("Bluetooth", "x-apple.systempreferences:com.apple.Bluetooth"),
        ("Network", "x-apple.systempreferences:com.apple.preference.network"),
        ("Privacy & Security", "x-apple.systempreferences:com.apple.preference.security"),
        ("Notifications", "x-apple.systempreferences:com.apple.preference.notifications"),
        ("Sound", "x-apple.systempreferences:com.apple.preference.sound"),
        ("Displays", "x-apple.systempreferences:com.apple.preference.displays"),
        ("Keyboard", "x-apple.systempreferences:com.apple.preference.keyboard"),
        ("Mouse", "x-apple.systempreferences:com.apple.preference.mouse"),
        ("Trackpad", "x-apple.systempreferences:com.apple.preference.trackpad"),
        ("Battery / Energy Saver", "x-apple.systempreferences:com.apple.preference.energysaver"),
        ("Date & Time", "x-apple.systempreferences:com.apple.preference.datetime"),
        ("Accessibility", "x-apple.systempreferences:com.apple.preference.universalaccess"),
        ("Wi-Fi", "x-apple.systempreferences:com.apple.WiFiSettings"),
    ]
}

fn preference_panes() -> (r: Vec<(&'static str, &'static str)>)
    ensures
        r@ == system_preference_panes(),
{
    let mut v: Vec<(&'static str, &'static str)> = Vec::new();
    v.push(("Bluetooth", "x-apple.systempreferences:com.apple.Bluetooth"));
    v.push(("Network", "x-apple.systempreferences:com.apple.preference.network"));
    v.push(("Privacy & Security", "x-apple.systempreferences:com.apple.preference.security"));
    v.push(("Notifications", "x-apple.systempreferences:com.apple.preference.notifications"));
    v.push(("Sound", "x-apple.systempreferences:com.apple.preference.sound"));
    v.push(("Displays", "x-apple.systempreferences:com.apple.preference.displays"));
    v.push(("Keyboard", "x-apple.systempreferences:com.apple.preference.keyboard"));
    v.push(("Mouse", "x-apple.systempreferences:com.apple.preference.mouse"));
    v.push(("Trackpad", "x-apple.systempreferences:com.apple.preference.trackpad"));
    v.push(("Battery / Energy Saver", "x-apple.systempreferences:com.apple.preference.energysaver"));
    v.push(("Date & Time", "x-apple.systempreferences:com.apple.preference.datetime"));
    v.push(("Accessibility", "x-apple.systempreferences:com.apple.preference.universalaccess"));
    v.push(("Wi-Fi", "x-apple.systempreferences:com.apple.WiFiSettings"));
    assert(v@ =~= system_preference_panes());
    v
}

/// The System Settings panes as launchable entries: each is named
/// "system preferences - " followed by its label, and opens its URL.
pub fn collect_system_preferences() -> (r: Vec<AppInfo>)
    ensures
        r@.len() == system_preference_panes().len(),
        forall|i: int|
            0 <= i < r@.len() ==> (#[trigger] r@[i]).name@ == "system preferences - "@
                + system_preference_panes()[i].0@ && r@[i].path@ == system_preference_panes()[i].1@,
{
    let panes = preference_panes();
    let mut out: Vec<AppInfo> = Vec::new();
    let mut i: usize = 0;
    while i < panes.len()
        invariant
            panes@ == system_preference_panes(),
            i <= panes@.len(),
            out@.len() == i,
            forall|k: int|
                0 <= k < i ==> (#[trigger] out@[k]).name@ == "system preferences - "@
                    + system_preference_panes()[k].0@ && out@[k].path@ == system_preference_panes()[k].1@,
        decreases panes@.len() - i,
    {
        let (label, uri) = panes[i];
        let mut name = owned("system preferences - ");
        name.append(label);
        out.push(AppInfo { name, path: owned(uri) });
        i = i + 1;
    }
    out
}

} // verus!
