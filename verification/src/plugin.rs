//! Plugins: what they declare, the context their commands run in, where
//! they are fetched from, how a command is resolved to the plugin that runs
//! it, and the Lua text that boots a plugin.
//!
//! Running Lua and cloning repositories are the caller's part; the library
//! decides what to clone, what to load and which plugin runs a command.

use vstd::prelude::*;

use crate::focus::DisplaySpace;
use crate::prompt::Prompt;
use crate::paths::{join_path, path_join, view_opt};
use crate::text::{is_prefix, owned, push_char, starts_with, str_eq};
use crate::theme::{clone_opt_string, opt_view};
use crate::tree::SearchResult;

verus! {

/// A command that a plugin offers.
#[derive(Debug, PartialEq, Eq)]
pub struct PluginCommand {
    pub name: String,
    pub description: Option<String>,
    pub hidden: bool,
}

impl PluginCommand {
    /// A copy of the command.
    pub fn duplicate(&self) -> (r: PluginCommand)
        ensures
            r@ == self@,
    {
        PluginCommand {
            name: self.name.clone(),
            description: clone_opt_string(&self.description),
            hidden: self.hidden,
        }
    }
}

impl View for PluginCommand {
    type V = (Seq<char>, Option<Seq<char>>, bool);

    open spec fn view(&self) -> (Seq<char>, Option<Seq<char>>, bool) {
        (self.name@, opt_view(self.description), self.hidden)
    }
}

/// What a plugin's `init` returns.
#[derive(Debug, PartialEq, Eq)]
pub struct PluginInitResponse {
    pub name: String,
    pub description: Option<String>,
    pub version: String,
    pub author: Option<String>,
    pub commands: Vec<PluginCommand>,
}

/// What a plugin's `execute` returns: whether to hide the palette, and a
/// prompt to show.
#[derive(Debug, PartialEq, Eq)]
pub struct PluginExecuteResponse {
    pub hide: bool,
    pub popup: Option<Prompt>,
}

/// A display, as a plugin sees it.
#[derive(Debug, PartialEq, Eq)]
pub struct Display {
    pub display_id: String,
    pub current_space_id: u64,
}

/// A window, as a plugin sees it.
#[derive(Debug, PartialEq, Eq)]
pub struct Window {
    pub display_id: String,
    pub space_id: u64,
    pub space_index: usize,
    pub window_id: u32,
    pub title: Option<String>,
    pub pid: i32,
    pub app_name: String,
    pub is_focused: bool,
}

/// What a plugin command is run against.
#[derive(Debug, PartialEq, Eq)]
pub struct PluginExecuteContext {
    pub windows: Vec<Window>,
    pub displays: Vec<Display>,
    pub current_display: Display,
}

/// A request that a plugin makes of the application.
#[derive(Debug, PartialEq, Eq)]
pub enum PluginAPIEvent {
    Prompt(Prompt),
}

/// One plugin of the user's plugin list. It names exactly one source:
/// `git` or `path`.
#[derive(Debug, PartialEq, Eq)]
pub struct PluginConfigEntry {
    /// The plugin's name; a git plugin is installed in a directory of that
    /// name.
    pub name: String,
    /// A git URL, or the shorthand `owner/repo` for a GitHub repository.
    pub git: Option<String>,
    /// A local directory the plugin is loaded from, never cloned; a leading
    /// `~` stands for the home directory.
    pub path: Option<String>,
    /// Free-form configuration handed to the plugin.
    pub config: Option<serde_json::Value>,
}

/// A plugin's name and the commands it offers.
#[derive(Debug, PartialEq, Eq)]
pub struct PluginManifest {
    pub plugin_name: String,
    pub commands: Vec<PluginCommand>,
}

/// A plugin that has been loaded and initialised.
#[derive(Debug, PartialEq, Eq)]
pub struct LoadedPlugin {
    pub name: String,
    pub commands: Vec<PluginCommand>,
}

/* --------------------------------- context --------------------------------- */

/// The plugin's view of a window of the tree.
pub open spec fn window_matches(w: Window, r: SearchResult) -> bool {
    &&& w.display_id@ == r.display_id.0@
    &&& w.space_id == r.space_id.0
    &&& w.space_index == r.space_index
    &&& w.window_id == r.window_id.0 as u32
    &&& opt_view(w.title) == opt_view(r.title)
    &&& w.pid == r.pid
    &&& w.app_name@ == r.app_name@
    &&& w.is_focused == r.is_focused
}

/// The context for plugin commands: every window of the tree, in order; no
/// display list; and the current display with its current space.
pub fn execute_context(results: Vec<SearchResult>, current: &DisplaySpace) -> (r: PluginExecuteContext)
    ensures
        r.windows@.len() == results@.len(),
        forall|i: int| 0 <= i < results@.len() ==> window_matches(#[trigger] r.windows@[i], results@[i]),
        r.displays@.len() == 0,
        r.current_display.display_id@ == current.display_id.0@,
        r.current_display.current_space_id == current.space_id.0,
{
    let mut windows: Vec<Window> = Vec::new();
    let mut i: usize = 0;
    while i < results.len()
        invariant
            i <= results@.len(),
            windows@.len() == i,
            forall|j: int| 0 <= j < i ==> window_matches(#[trigger] windows@[j], results@[j]),
        decreases results@.len() - i,
    {
        let res = &results[i];
        windows.push(
            Window {
                display_id: res.display_id.0.clone(),
                space_id: res.space_id.0,
                space_index: res.space_index,
                window_id: res.window_id.0 as u32,
                title: clone_opt_string(&res.title),
                pid: res.pid,
                app_name: res.app_name.clone(),
                is_focused: res.is_focused,
            },
        );
        i = i + 1;
    }
    PluginExecuteContext {
        windows,
        displays: Vec::new(),
        current_display: Display {
            display_id: current.display_id.0.clone(),
            current_space_id: current.space_id.0,
        },
    }
}

/* ------------------------------ fetching plugins ------------------------------ */

/// The URL a plugin is cloned from: its `git` as given when that starts
/// with `http://`, `https://` or `git@`; otherwise the GitHub repository
/// `https://github.com/<git>.git`.
pub open spec fn clone_url_of(git: Seq<char>) -> Seq<char> {
    if is_prefix("http://"@, git) || is_prefix("https://"@, git) || is_prefix("git@"@, git) {
        git
    } else {
        "https://github.com/"@ + git + ".git"@
    }
}

/// The URL a plugin is cloned from.
pub fn clone_url(git: &str) -> (r: String)
    ensures
        r@ == clone_url_of(git@),
{
    if starts_with(git, "http://") || starts_with(git, "https://") || starts_with(git, "git@") {
        owned(git)
    } else {
        let mut url = owned("https://github.com/");
        url.append(git);
        url.append(".git");
        url
    }
}

/// A plugin to clone: its name (the directory it goes to) and its URL.
#[derive(Debug, PartialEq, Eq)]
pub struct CloneJob {
    pub name: String,
    pub url: String,
}

/// The name and URL of each job.
pub open spec fn job_views(jobs: Seq<CloneJob>) -> Seq<(Seq<char>, Seq<char>)> {
    jobs.map_values(|j: CloneJob| (j.name@, j.url@))
}

/// The git plugins of the list (a `git` source and no `path`) whose
/// directory does not exist, in list order, each with the URL it is cloned
/// from.
pub open spec fn jobs_for(config: Seq<PluginConfigEntry>, installed: Seq<bool>) -> Seq<(Seq<char>, Seq<char>)>
    decreases config.len(),
{
    if config.len() == 0 || installed.len() != config.len() {
        Seq::empty()
    } else {
        let rest = jobs_for(config.drop_last(), installed.drop_last());
        let e = config.last();
        match (e.git, e.path) {
            (Some(g), None) => if installed.last() {
                rest
            } else {
                rest.push((e.name@, clone_url_of(g@)))
            },
            _ => rest,
        }
    }
}

/// A local plugin path with `~` expanded: `~` alone is the home directory,
/// `~/rest` is `rest` under it, and any other path is kept.
pub open spec fn expand_tilde_of(p: Seq<char>, home: Seq<char>) -> Seq<char> {
    if p == "~"@ {
        home
    } else if is_prefix("~/"@, p) {
        path_join(home, p.subrange(2, p.len() as int))
    } else {
        p
    }
}

/// Expands a leading `~` of a local plugin path to the home directory.
pub fn expand_tilde(p: &str, home: &str) -> (r: String)
    ensures
        r@ == expand_tilde_of(p@, home@),
{
    proof {
        reveal_strlit("~");
        reveal_strlit("~/");
    }
    if str_eq(p, "~") {
        owned(home)
    } else if starts_with(p, "~/") {
        let rest = p.substring_char(2, p.unicode_len());
        join_path(home, rest)
    } else {
        owned(p)
    }
}

/// The directory a plugin is loaded from: for a `path` plugin that path
/// with `~` expanded; for a `git` plugin its directory, named after it,
/// under the plugins directory; none for an entry that names both sources
/// or neither.
pub open spec fn plugin_dir_of(e: PluginConfigEntry, plugins_dir: Seq<char>, home: Seq<char>) -> Option<
    Seq<char>,
> {
    match (e.git, e.path) {
        (None, Some(p)) => Some(expand_tilde_of(p@, home)),
        (Some(_), None) => Some(path_join(plugins_dir, e.name@)),
        _ => None,
    }
}

/* ---------------------------- the standard library ---------------------------- */

/// A module of the plugin standard library.
#[derive(Debug, Clone, Copy, PartialEq, Eq, Structural)]
pub enum StdModule {
    Json,
    Http,
    Socket,
    Base64,
    Log,
    Ui,
    Db,
}

/// The path a plugin requires a module by.
pub open spec fn require_path_of(m: StdModule) -> Seq<char> {
    match m {
        StdModule::Json => "yal.json"@,
        StdModule::Http => "yal.http"@,
        StdModule::Socket => "yal.socket"@,
        StdModule::Base64 => "yal.base64"@,
        StdModule::Log => "yal.log"@,
        StdModule::Ui => "yal.ui"@,
        StdModule::Db => "yal.db"@,
    }
}

impl StdModule {
    /// The path a plugin requires the module by.
    pub fn require_path(&self) -> (r: String)
        ensures
            r@ == require_path_of(*self),
    {
        match self {
            StdModule::Json => owned("yal.json"),
            StdModule::Http => owned("yal.http"),
            StdModule::Socket => owned("yal.socket"),
            StdModule::Base64 => owned("yal.base64"),
            StdModule::Log => owned("yal.log"),
            StdModule::Ui => owned("yal.ui"),
            StdModule::Db => owned("yal.db"),
        }
    }
}

/// One step of setting up a plugin's Lua state.
#[derive(Debug, Clone, Copy, PartialEq, Eq, Structural)]
pub enum InstallStep {
    /// Register the module's loader under its require path.
    Preload(StdModule),
    /// Let `require` also search the vendor directory.
    AddVendorSearcher,
}

/// The set-up of a plugin's Lua state: every module of the standard
/// library, in this order, then the vendor searcher when a vendor directory
/// is given.
pub open spec fn install_steps_for(has_vendor_dir: bool) -> Seq<InstallStep> {
    seq![
        InstallStep::Preload(StdModule::Json),
        InstallStep::Preload(StdModule::Http),
        InstallStep::Preload(StdModule::Socket),
        InstallStep::Preload(StdModule::Base64),
        InstallStep::Preload(StdModule::Log),
        InstallStep::Preload(StdModule::Ui),
        InstallStep::Preload(StdModule::Db),
    ] + if has_vendor_dir {
        seq![InstallStep::AddVendorSearcher]
    } else {
        Seq::empty()
    }
}

/// The steps of setting up a plugin's Lua state.
pub fn install_plan(has_vendor_dir: bool) -> (r: Vec<InstallStep>)
    ensures
        r@ == install_steps_for(has_vendor_dir),
{
    let mut out: Vec<InstallStep> = Vec::new();
    out.push(InstallStep::Preload(StdModule::Json));
    out.push(InstallStep::Preload(StdModule::Http));
    out.push(InstallStep::Preload(StdModule::Socket));
    out.push(InstallStep::Preload(StdModule::Base64));
    out.push(InstallStep::Preload(StdModule::Log));
    out.push(InstallStep::Preload(StdModule::Ui));
    out.push(InstallStep::Preload(StdModule::Db));
    if has_vendor_dir {
        out.push(InstallStep::AddVendorSearcher);
    }
    assert(out@ =~= install_steps_for(has_vendor_dir));
    out
}

/// Every module of the standard library is required as `yal.<name>`, and
/// no two modules share a path.
pub proof fn law_std_modules_under_yal(m: StdModule, n: StdModule)
    ensures
        is_prefix("yal."@, require_path_of(m)),
        m != n ==> require_path_of(m) != require_path_of(n),
{
    reveal_strlit("yal.");
    reveal_strlit("yal.json");
    reveal_strlit("yal.http");
    reveal_strlit("yal.socket");
    reveal_strlit("yal.base64");
    reveal_strlit("yal.log");
    reveal_strlit("yal.ui");
    reveal_strlit("yal.db");
    assert(require_path_of(m).subrange(0, 4) =~= "yal."@);
    if m != n {
        assert(require_path_of(m).len() != require_path_of(n).len() || require_path_of(m)[4] != require_path_of(n)[4]
            || require_path_of(m)[5] != require_path_of(n)[5]);
    }
}

/* --------------------------------- resolving --------------------------------- */

/// Why a plugin command could not be run.
#[derive(Debug, PartialEq, Eq)]
pub enum PluginError {
    /// No loaded plugin has this name.
    PluginNotFound { plugin_name: String },
    /// The plugin offers no command of this name.
    CommandNotFound { plugin_name: String, command_name: String },
    /// No execution context has been set yet.
    NoContext,
}

impl PluginError {
    /// The message of the error.
    pub fn message(&self) -> (r: String)
        ensures
            r@ == match self {
                PluginError::PluginNotFound { plugin_name } => "Plugin '"@ + plugin_name@ + "' not found"@,
                PluginError::CommandNotFound { plugin_name, command_name } => "Command '"@ + command_name@
                    + "' not found in plugin '"@ + plugin_name@ + "'"@,
                PluginError::NoContext => "No execution context set for plugin command"@,
            },
    {
        match self {
            PluginError::PluginNotFound { plugin_name } => {
                let mut m = owned("Plugin '");
                m.append(plugin_name.as_str());
                m.append("' not found");
                m
            },
            PluginError::CommandNotFound { plugin_name, command_name } => {
                let mut m = owned("Command '");
                m.append(command_name.as_str());
                m.append("' not found in plugin '");
                m.append(plugin_name.as_str());
                m.append("'");
                m
            },
            PluginError::NoContext => owned("No execution context set for plugin command"),
        }
    }
}

/// The position of the first plugin with this name.
pub open spec fn first_plugin_named(ps: Seq<LoadedPlugin>, name: Seq<char>) -> Option<int>
    decreases ps.len(),
{
    if ps.len() == 0 {
        None
    } else if ps[0].name@ == name {
        Some(0)
    } else {
        match first_plugin_named(ps.drop_first(), name) {
            Some(i) => Some(i + 1),
            None => None,
        }
    }
}

/// Whether the plugin offers a command of this name.
pub open spec fn offers_command(p: LoadedPlugin, command: Seq<char>) -> bool {
    exists|j: int| 0 <= j < p.commands@.len() && (#[trigger] p.commands@[j]).name@ == command
}

/// What running `command` of `plugin` comes to: the position of the plugin
/// that runs it, or why it cannot run. The plugin is the first of that
/// name; it must offer the command; and an execution context must be set.
pub open spec fn resolution(
    ps: Seq<LoadedPlugin>,
    has_context: bool,
    plugin: Seq<char>,
    command: Seq<char>,
) -> Result<int, (int, Seq<char>, Seq<char>)> {
    match first_plugin_named(ps, plugin) {
        None => Err((0, plugin, Seq::empty())),
        Some(i) => if !offers_command(ps[i], command) {
            Err((1, plugin, command))
        } else if !has_context {
            Err((2, Seq::empty(), Seq::empty()))
        } else {
            Ok(i)
        },
    }
}

/// The error's content: which error, and the names it carries.
pub open spec fn error_model(e: PluginError) -> (int, Seq<char>, Seq<char>) {
    match e {
        PluginError::PluginNotFound { plugin_name } => (0, plugin_name@, Seq::empty()),
        PluginError::CommandNotFound { plugin_name, command_name } => (1, plugin_name@, command_name@),
        PluginError::NoContext => (2, Seq::empty(), Seq::empty()),
    }
}

/// The plugins, the user's plugin list, and the context that commands run in.
pub struct PluginManager {
    pub config: Vec<PluginConfigEntry>,
    pub plugins: Vec<LoadedPlugin>,
    pub execution_context: Option<PluginExecuteContext>,
}

impl PluginManager {
    /// A manager with no plugin, an empty plugin list and no context.
    pub fn new() -> (r: PluginManager)
        ensures
            r.config@.len() == 0,
            r.plugins@.len() == 0,
            r.execution_context is None,
    {
        PluginManager { config: Vec::new(), plugins: Vec::new(), execution_context: None }
    }

    /// Sets the context that commands run in.
    pub fn set_execution_context(&mut self, context: PluginExecuteContext)
        ensures
            final(self).execution_context == Some(context),
            final(self).config == old(self).config,
            final(self).plugins == old(self).plugins,
    {
        self.execution_context = Some(context);
    }

    /// The git plugins of the list that are not installed yet, in list
    /// order, each with the URL it is cloned from; `path` plugins are never
    /// cloned. `installed[i]` tells whether the directory of the `i`-th
    /// plugin exists.
    pub fn install_jobs(&self, installed: &Vec<bool>) -> (r: Vec<CloneJob>)
        requires
            installed@.len() == self.config@.len(),
        ensures
            job_views(r@) == jobs_for(self.config@, installed@),
    {
        let mut jobs: Vec<CloneJob> = Vec::new();
        let mut i: usize = 0;
        while i < self.config.len()
            invariant
                installed@.len() == self.config@.len(),
                i <= self.config@.len(),
                job_views(jobs@) == jobs_for(self.config@.subrange(0, i as int), installed@.subrange(0, i as int)),
            decreases self.config@.len() - i,
        {
            assert(self.config@.subrange(0, i + 1).drop_last() =~= self.config@.subrange(0, i as int));
            assert(installed@.subrange(0, i + 1).drop_last() =~= installed@.subrange(0, i as int));
            let e = &self.config[i];
            if !installed[i] && e.path.is_none() {
                if let Some(g) = &e.git {
                    let ghost before = jobs@;
                    jobs.push(CloneJob { name: e.name.clone(), url: clone_url(g.as_str()) });
                    assert(job_views(jobs@) =~= job_views(before).push((e.name@, clone_url_of(g@))));
                }
            }
            i = i + 1;
        }
        assert(self.config@.subrange(0, self.config@.len() as int) =~= self.config@);
        assert(installed@.subrange(0, installed@.len() as int) =~= installed@);
        jobs
    }

    /// The directory each plugin of the list is loaded from (see
    /// `plugin_dir_of`), given the plugins directory and the home directory.
    pub fn plugin_dirs(&self, plugins_dir: &str, home: &str) -> (r: Vec<Option<String>>)
        ensures
            r@.len() == self.config@.len(),
            forall|i: int|
                0 <= i < r@.len() ==> view_opt(#[trigger] r@[i]) == plugin_dir_of(self.config@[i], plugins_dir@, home@),
    {
        let mut out: Vec<Option<String>> = Vec::new();
        let mut i: usize = 0;
        while i < self.config.len()
            invariant
                i <= self.config@.len(),
                out@.len() == i,
                forall|k: int|
                    0 <= k < i ==> view_opt(#[trigger] out@[k]) == plugin_dir_of(self.config@[k], plugins_dir@, home@),
            decreases self.config@.len() - i,
        {
            let e = &self.config[i];
            let d = match (&e.git, &e.path) {
                (None, Some(p)) => Some(expand_tilde(p.as_str(), home)),
                (Some(_), None) => Some(join_path(plugins_dir, e.name.as_str())),
                _ => None,
            };
            out.push(d);
            i = i + 1;
        }
        out
    }

    /// The plugins of the list to load, by position, in list order: those
    /// whose directory (see `plugin_dirs`) exists (`installed[i]`); the
    /// others are skipped.
    pub fn load_order(&self, installed: &Vec<bool>) -> (r: Vec<usize>)
        requires
            installed@.len() == self.config@.len(),
        ensures
            forall|k: int| 0 <= k < r@.len() ==> (#[trigger] r@[k]) < installed@.len() && installed@[r@[k] as int],
            forall|k: int, m: int| 0 <= k < m < r@.len() ==> #[trigger] r@[k] < #[trigger] r@[m],
            forall|i: int| 0 <= i < installed@.len() && installed@[i] ==> r@.contains(i as usize),
    {
        let mut out: Vec<usize> = Vec::new();
        let mut i: usize = 0;
        while i < installed.len()
            invariant
                i <= installed@.len(),
                forall|k: int| 0 <= k < out@.len() ==> (#[trigger] out@[k]) < i && installed@[out@[k] as int],
                forall|k: int, m: int| 0 <= k < m < out@.len() ==> #[trigger] out@[k] < #[trigger] out@[m],
                forall|j: int| 0 <= j < i && installed@[j] ==> out@.contains(j as usize),
            decreases installed@.len() - i,
        {
            if installed[i] {
                let ghost before = out@;
                out.push(i);
                assert forall|j: int| 0 <= j < i + 1 && installed@[j] implies out@.contains(j as usize) by {
                    if j < i {
                        let k = choose|k: int| 0 <= k < before.len() && before[k] == j as usize;
                        assert(out@[k] == j as usize);
                    } else {
                        assert(out@[out@.len() - 1] == i);
                    }
                }
            }
            i = i + 1;
        }
        out
    }

    /// Replaces the loaded plugins.
    pub fn set_plugins(&mut self, plugins: Vec<LoadedPlugin>)
        ensures
            final(self).plugins == plugins,
            final(self).config == old(self).config,
            final(self).execution_context == old(self).execution_context,
    {
        self.plugins = plugins;
    }

    /// Each loaded plugin's name and commands, in order.
    pub fn commands(&self) -> (r: Vec<PluginManifest>)
        ensures
            r@.len() == self.plugins@.len(),
            forall|i: int|
                0 <= i < r@.len() ==> (#[trigger] r@[i]).plugin_name@ == self.plugins@[i].name@
                    && r@[i].commands@.len() == self.plugins@[i].commands@.len() && forall|j: int|
                    0 <= j < r@[i].commands@.len() ==> (#[trigger] r@[i].commands@[j])@
                        == self.plugins@[i].commands@[j]@,
    {
        let mut out: Vec<PluginManifest> = Vec::new();
        let mut i: usize = 0;
        while i < self.plugins.len()
            invariant
                i <= self.plugins@.len(),
                out@.len() == i,
                forall|k: int|
                    0 <= k < i ==> (#[trigger] out@[k]).plugin_name@ == self.plugins@[k].name@
                        && out@[k].commands@.len() == self.plugins@[k].commands@.len() && forall|j: int|
                        0 <= j < out@[k].commands@.len() ==> (#[trigger] out@[k].commands@[j])@
                            == self.plugins@[k].commands@[j]@,
            decreases self.plugins@.len() - i,
        {
            let p = &self.plugins[i];
            let mut cmds: Vec<PluginCommand> = Vec::new();
            let mut j: usize = 0;
            while j < p.commands.len()
                invariant
                    j <= p.commands@.len(),
                    cmds@.len() == j,
                    forall|m: int| 0 <= m < j ==> (#[trigger] cmds@[m])@ == p.commands@[m]@,
                decreases p.commands@.len() - j,
            {
                cmds.push(p.commands[j].duplicate());
                j = j + 1;
            }
            out.push(PluginManifest { plugin_name: p.name.clone(), commands: cmds });
            i = i + 1;
        }
        out
    }

    /// Finds the plugin that runs `command_name` of `plugin_name`.
    pub fn resolve_command(&self, plugin_name: &str, command_name: &str) -> (r: Result<usize, PluginError>)
        ensures
            match r {
                Ok(i) => resolution(self.plugins@, self.execution_context is Some, plugin_name@, command_name@)
                    == Ok::<int, (int, Seq<char>, Seq<char>)>(i as int),
                Err(e) => resolution(self.plugins@, self.execution_context is Some, plugin_name@, command_name@)
                    == Err::<int, (int, Seq<char>, Seq<char>)>(error_model(e)),
            },
    {
        let ghost ps = self.plugins@;
        let mut i: usize = 0;
        assert(ps.subrange(0, ps.len() as int) =~= ps);
        while i < self.plugins.len()
            invariant
                ps == self.plugins@,
                i <= ps.len(),
                first_plugin_named(ps, plugin_name@) == (match first_plugin_named(
                    ps.subrange(i as int, ps.len() as int),
                    plugin_name@,
                ) {
                    Some(m) => Some(m + i),
                    None => None::<int>,
                }),
            decreases ps.len() - i,
        {
            let ghost rest = ps.subrange(i as int, ps.len() as int);
            assert(rest[0] == ps[i as int]);
            assert(rest.drop_first() =~= ps.subrange(i + 1, ps.len() as int));
            if crate::text::str_eq(self.plugins[i].name.as_str(), plugin_name) {
                assert(first_plugin_named(ps, plugin_name@) == Some(i as int));
                let p = &self.plugins[i];
                let mut j: usize = 0;
                while j < p.commands.len()
                    invariant
                        ps == self.plugins@,
                        i < ps.len(),
                        *p == ps[i as int],
                        first_plugin_named(ps, plugin_name@) == Some(i as int),
                        j <= p.commands@.len(),
                        forall|m: int| 0 <= m < j ==> (#[trigger] p.commands@[m]).name@ != command_name@,
                    decreases p.commands@.len() - j,
                {
                    if crate::text::str_eq(p.commands[j].name.as_str(), command_name) {
                        assert(offers_command(*p, command_name@));
                        return match &self.execution_context {
                            Some(_) => Ok(i),
                            None => Err(PluginError::NoContext),
                        };
                    }
                    j = j + 1;
                }
                return Err(
                    PluginError::CommandNotFound { plugin_name: owned(plugin_name), command_name: owned(command_name) },
                );
            }
            i = i + 1;
        }
        Err(PluginError::PluginNotFound { plugin_name: owned(plugin_name) })
    }
}

/// The message when running a plugin command fails:
/// `Failed to execute command '<plugin>::<command>': <reason>`.
pub fn execution_failure(plugin_name: &str, command_name: &str, reason: &str) -> (r: String)
    ensures
        r@ == "Failed to execute command '"@ + plugin_name@ + "::"@ + command_name@ + "': "@ + reason@,
{
    let mut m = owned("Failed to execute command '");
    m.append(plugin_name);
    m.append("::");
    m.append(command_name);
    m.append("': ");
    m.append(reason);
    m
}

/* ------------------------------- booting Lua ------------------------------- */

/// A character as it is written inside a double-quoted Lua string literal:
/// a backslash and a double quote are escaped with a backslash.
pub open spec fn lua_escaped_char(c: char) -> Seq<char> {
    if c == '\\' {
        seq!['\\', '\\']
    } else if c == '"' {
        seq!['\\', '"']
    } else {
        seq![c]
    }
}

/// A text as it is written inside a double-quoted Lua string literal.
pub open spec fn lua_escaped(s: Seq<char>) -> Seq<char>
    decreases s.len(),
{
    if s.len() == 0 {
        Seq::empty()
    } else {
        lua_escaped(s.drop_last()) + lua_escaped_char(s.last())
    }
}

/// A text with each backslash doubled.
pub open spec fn backslashes_doubled(s: Seq<char>) -> Seq<char>
    decreases s.len(),
{
    if s.len() == 0 {
        Seq::empty()
    } else {
        backslashes_doubled(s.drop_last()) + if s.last() == '\\' {
            seq!['\\', '\\']
        } else {
            seq![s.last()]
        }
    }
}

/// Escapes a text for a double-quoted Lua string literal.
pub fn lua_string_literal(s: &str) -> (r: String)
    ensures
        r@ == lua_escaped(s@),
{
    let n = s.unicode_len();
    let mut out = String::new();
    let mut i: usize = 0;
    while i < n
        invariant
            n == s@.len(),
            i <= n,
            out@ == lua_escaped(s@.subrange(0, i as int)),
        decreases n - i,
    {
        let c = s.get_char(i);
        assert(s@.subrange(0, i + 1).drop_last() =~= s@.subrange(0, i as int));
        let ghost before = out@;
        if c == '\\' {
            push_char(&mut out, '\\');
            push_char(&mut out, '\\');
        } else if c == '"' {
            push_char(&mut out, '\\');
            push_char(&mut out, '"');
        } else {
            push_char(&mut out, c);
        }
        assert(out@ =~= before + lua_escaped_char(c));
        i = i + 1;
    }
    assert(s@.subrange(0, n as int) =~= s@);
    out
}

/// Doubles each backslash of a text.
pub fn double_backslashes(s: &str) -> (r: String)
    ensures
        r@ == backslashes_doubled(s@),
{
    let n = s.unicode_len();
    let mut out = String::new();
    let mut i: usize = 0;
    while i < n
        invariant
            n == s@.len(),
            i <= n,
            out@ == backslashes_doubled(s@.subrange(0, i as int)),
        decreases n - i,
    {
        let c = s.get_char(i);
        assert(s@.subrange(0, i + 1).drop_last() =~= s@.subrange(0, i as int));
        let ghost before = out@;
        push_char(&mut out, c);
        if c == '\\' {
            push_char(&mut out, '\\');
        }
        assert(out@ =~= before + if c == '\\' {
            seq!['\\', '\\']
        } else {
            seq![c]
        });
        i = i + 1;
    }
    assert(s@.subrange(0, n as int) =~= s@);
    out
}

/// The Lua chunk that loads a plugin from its directory: it puts the
/// directory first on `package.path`, requires the entry module `init`,
/// raises its error if that fails, and returns the module.
pub open spec fn bootstrap_text(dir: Seq<char>) -> Seq<char> {
    let d = lua_escaped(dir);
    "\n-- Prepend our plugin dir to the module search path\npackage.path = \""@ + d + "/?.lua;"@ + d
        + "/?/init.lua;\" .. package.path\n\n-- Load the entry module\nlocal ok, mod = pcall(require, \""@
        + lua_escaped("init"@) + "\")\nif not ok then error(mod, 0) end\nreturn mod\n"@
}

/// Writes the chunk that loads the plugin in `dir`.
pub fn plugin_bootstrap(dir: &str) -> (r: String)
    ensures
        r@ == bootstrap_text(dir@),
{
    let d = lua_string_literal(dir);
    let entry = lua_string_literal("init");
    let mut s = owned("\n-- Prepend our plugin dir to the module search path\npackage.path = \"");
    s.append(d.as_str());
    s.append("/?.lua;");
    s.append(d.as_str());
    s.append("/?/init.lua;\" .. package.path\n\n-- Load the entry module\nlocal ok, mod = pcall(require, \"");
    s.append(entry.as_str());
    s.append("\")\nif not ok then error(mod, 0) end\nreturn mod\n");
    s
}

/// The name the plugin's chunk is loaded under: `plugin://<name>/init`.
pub fn plugin_chunk_name(name: &str) -> (r: String)
    ensures
        r@ == "plugin://"@ + name@ + "/init"@,
{
    let mut s = owned("plugin://");
    s.append(name);
    s.append("/init");
    s
}

/// The Lua chunk that adds a module searcher for pure-Lua files under the
/// vendor directory: `require("a.b")` tries `<vendor>/a/b.lua`, then
/// `<vendor>/a/b/init.lua`. The directory is spliced in with its
/// backslashes doubled.
pub open spec fn vendor_searcher_text(vendor_dir: Seq<char>) -> Seq<char> {
    "\nlocal vendor = \""@ + backslashes_doubled(vendor_dir)
        + "\"\ntable.insert(package.searchers, 2, function(modname)\n  local rel = (modname:gsub('%.','/'))\n  local tried = {\n    vendor .. \"/\" .. rel .. \".lua\",\n    vendor .. \"/\" .. rel .. \"/init.lua\",\n  }\n  for _, p in ipairs(tried) do\n    local f = io.open(p, \"r\")\n    if f then\n      local src = f:read(\"*a\"); f:close()\n      local chunk, err = load(src, \"@\"..p)\n      if not chunk then return (\"\\nerror loading %s: %s\"):format(p, err) end\n      return chunk\n    end\n  end\n  return \"\\nno module '\"..modname..\"' in vendor (\"..table.concat(tried, \", \")..\")\"\nend)\n"@
}

/// Writes the chunk that adds the vendor module searcher.
pub fn vendor_searcher_script(vendor_dir: &str) -> (r: String)
    ensures
        r@ == vendor_searcher_text(vendor_dir@),
{
    let vendor = double_backslashes(vendor_dir);
    let mut s = owned("\nlocal vendor = \"");
    s.append(vendor.as_str());
    s.append(
        "\"\ntable.insert(package.searchers, 2, function(modname)\n  local rel = (modname:gsub('%.','/'))\n  local tried = {\n    vendor .. \"/\" .. rel .. \".lua\",\n    vendor .. \"/\" .. rel .. \"/init.lua\",\n  }\n  for _, p in ipairs(tried) do\n    local f = io.open(p, \"r\")\n    if f then\n      local src = f:read(\"*a\"); f:close()\n      local chunk, err = load(src, \"@\"..p)\n      if not chunk then return (\"\\nerror loading %s: %s\"):format(p, err) end\n      return chunk\n    end\n  end\n  return \"\\nno module '\"..modname..\"' in vendor (\"..table.concat(tried, \", \")..\")\"\nend)\n",
    );
    s
}

} // verus!
