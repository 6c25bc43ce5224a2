//! Where the launcher keeps its files: the configuration directory, the
//! plugin directories, the per-plugin key/value stores and the IPC socket.
//!
//! Paths are strings; the environment variables they depend on are read by
//! the caller and passed in as they were found (`None` when unset).

use vstd::prelude::*;

use crate::text::owned;

verus! {

/// `Path::join` on Unix: an absolute `rel` replaces `base`; otherwise `rel`
/// is appended, after a `/` unless `base` is empty or already ends in one.
pub open spec fn path_join(base: Seq<char>, rel: Seq<char>) -> Seq<char> {
    if rel.len() > 0 && rel[0] == '/' {
        rel
    } else if base.len() == 0 || base.last() == '/' {
        base + rel
    } else {
        base + "/"@ + rel
    }
}

/// Joins `rel` onto `base` as `Path::join` does on Unix.
pub fn join_path(base: &str, rel: &str) -> (r: String)
    ensures
        r@ == path_join(base@, rel@),
{
    let rl = rel.unicode_len();
    if rl > 0 && rel.get_char(0) == '/' {
        return owned(rel);
    }
    let bl = base.unicode_len();
    let mut out = owned(base);
    if bl == 0 || base.get_char(bl - 1) == '/' {
        out.append(rel);
    } else {
        out.append("/");
        out.append(rel);
    }
    out
}

/// An environment value as a path: unset and empty values give none.
pub open spec fn env_value_path(raw: Option<Seq<char>>) -> Option<Seq<char>> {
    match raw {
        Some(v) => if v.len() > 0 {
            Some(v)
        } else {
            None
        },
        None => None,
    }
}

/// The view of an optional string.
pub open spec fn view_opt(o: Option<String>) -> Option<Seq<char>> {
    crate::theme::opt_view(o)
}

/// The environment variables that path resolution depends on, as found.
#[derive(Debug, PartialEq, Eq)]
pub struct PathEnv {
    pub home: Option<String>,
    pub xdg_state_home: Option<String>,
    pub xdg_config_home: Option<String>,
}

/// An environment value as a path: unset and empty values give none.
pub fn env_path(raw: &Option<String>) -> (r: Option<String>)
    ensures
        view_opt(r) == env_value_path(view_opt(*raw)),
{
    match raw {
        Some(v) => if v.unicode_len() > 0 {
            Some(v.clone())
        } else {
            None
        },
        None => None,
    }
}

/// The home directory: `HOME` when set and not empty.
pub open spec fn home_of(env: PathEnv) -> Option<Seq<char>> {
    env_value_path(view_opt(env.home))
}

/// The state directory: `XDG_STATE_HOME`, else `~/.local/state`.
pub open spec fn state_home_of(env: PathEnv) -> Option<Seq<char>> {
    match env_value_path(view_opt(env.xdg_state_home)) {
        Some(p) => Some(p),
        None => match home_of(env) {
            Some(h) => Some(path_join(h, ".local/state"@)),
            None => None,
        },
    }
}

/// The configuration directory: `XDG_CONFIG_HOME`, else `~/.config`.
pub open spec fn config_home_of(env: PathEnv) -> Option<Seq<char>> {
    match env_value_path(view_opt(env.xdg_config_home)) {
        Some(p) => Some(p),
        None => match home_of(env) {
            Some(h) => Some(path_join(h, ".config"@)),
            None => None,
        },
    }
}

/// The last-resort directory `~/.yal`.
pub open spec fn fallback_home_of(env: PathEnv) -> Option<Seq<char>> {
    match home_of(env) {
        Some(h) => Some(path_join(h, ".yal"@)),
        None => None,
    }
}

/// The home directory: `HOME` when set and not empty.
pub fn home_dir(env: &PathEnv) -> (r: Option<String>)
    ensures
        view_opt(r) == home_of(*env),
{
    env_path(&env.home)
}

/// The state directory: `XDG_STATE_HOME`, else `~/.local/state`.
pub fn xdg_state_home(env: &PathEnv) -> (r: Option<String>)
    ensures
        view_opt(r) == state_home_of(*env),
{
    match env_path(&env.xdg_state_home) {
        Some(p) => Some(p),
        None => match home_dir(env) {
            Some(h) => Some(join_path(h.as_str(), ".local/state")),
            None => None,
        },
    }
}

/// The configuration directory: `XDG_CONFIG_HOME`, else `~/.config`.
pub fn xdg_config_home(env: &PathEnv) -> (r: Option<String>)
    ensures
        view_opt(r) == config_home_of(*env),
{
    match env_path(&env.xdg_config_home) {
        Some(p) => Some(p),
        None => match home_dir(env) {
            Some(h) => Some(join_path(h.as_str(), ".config")),
            None => None,
        },
    }
}

/// The last-resort directory `~/.yal`.
pub fn fallback_home(env: &PathEnv) -> (r: Option<String>)
    ensures
        view_opt(r) == fallback_home_of(*env),
{
    match home_dir(env) {
        Some(h) => Some(join_path(h.as_str(), ".yal")),
        None => None,
    }
}

/// The file name of a plugin's store: the namespace followed by `.json`.
pub open spec fn store_file(namespace: Seq<char>) -> Seq<char> {
    namespace + ".json"@
}

/// Where the key/value store of a plugin namespace lives: under
/// `yal/plugins` in the state directory, else in the configuration
/// directory; else under `plugins` in `~/.yal`; else `plugins/` relative to
/// the working directory.
pub open spec fn db_path_of(namespace: Seq<char>, env: PathEnv) -> Seq<char> {
    match state_home_of(env) {
        Some(root) => path_join(path_join(root, "yal/plugins"@), store_file(namespace)),
        None => match config_home_of(env) {
            Some(root) => path_join(path_join(root, "yal/plugins"@), store_file(namespace)),
            None => match fallback_home_of(env) {
                Some(root) => path_join(path_join(root, "plugins"@), store_file(namespace)),
                None => path_join("plugins"@, store_file(namespace)),
            },
        },
    }
}

/// Where the key/value store of a plugin namespace lives.
pub fn db_path_for(namespace: &str, env: &PathEnv) -> (r: String)
    ensures
        r@ == db_path_of(namespace@, *env),
{
    let mut file = owned(namespace);
    file.append(".json");
    if let Some(root) = xdg_state_home(env) {
        let dir = join_path(root.as_str(), "yal/plugins");
        return join_path(dir.as_str(), file.as_str());
    }
    if let Some(root) = xdg_config_home(env) {
        let dir = join_path(root.as_str(), "yal/plugins");
        return join_path(dir.as_str(), file.as_str());
    }
    if let Some(root) = fallback_home(env) {
        let dir = join_path(root.as_str(), "plugins");
        return join_path(dir.as_str(), file.as_str());
    }
    join_path("plugins", file.as_str())
}

/// The launcher's configuration directory: `yal` under `XDG_CONFIG_HOME`
/// when it is set (even to an empty value), else under `~/.config` when
/// `HOME` is set, else under the working directory `.`.
pub open spec fn config_base_of(xdg_config_home: Option<Seq<char>>, home: Option<Seq<char>>) -> Seq<char> {
    let base = match xdg_config_home {
        Some(x) => x,
        None => match home {
            Some(h) => path_join(h, ".config"@),
            None => "."@,
        },
    };
    path_join(base, "yal"@)
}

/// The launcher's configuration directory.
pub fn config_base_path(xdg_config_home: &Option<String>, home: &Option<String>) -> (r: String)
    ensures
        r@ == config_base_of(view_opt(*xdg_config_home), view_opt(*home)),
{
    let base = match xdg_config_home {
        Some(x) => x.clone(),
        None => match home {
            Some(h) => join_path(h.as_str(), ".config"),
            None => owned("."),
        },
    };
    join_path(base.as_str(), "yal")
}

/// The main configuration file, `config.lua` in the configuration directory.
pub fn config_path(xdg_config_home: &Option<String>, home: &Option<String>) -> (r: String)
    ensures
        r@ == path_join(config_base_of(view_opt(*xdg_config_home), view_opt(*home)), "config.lua"@),
{
    let base = config_base_path(xdg_config_home, home);
    join_path(base.as_str(), "config.lua")
}

/// The themes file, `themes.lua` in the configuration directory.
pub fn themes_path(xdg_config_home: &Option<String>, home: &Option<String>) -> (r: String)
    ensures
        r@ == path_join(config_base_of(view_opt(*xdg_config_home), view_opt(*home)), "themes.lua"@),
{
    let base = config_base_path(xdg_config_home, home);
    join_path(base.as_str(), "themes.lua")
}

/// The IPC socket of the running launcher.
pub fn socket_path() -> (r: String)
    ensures
        r@ == "/tmp/yal_ipc.sock"@,
{
    owned("/tmp/yal_ipc.sock")
}

/// The plugin list, `.config/yal/plugins.lua` under the home directory.
pub fn plugins_config_path(home: &str) -> (r: String)
    ensures
        r@ == path_join(home@, ".config/yal/plugins.lua"@),
{
    join_path(home, ".config/yal/plugins.lua")
}

/// Where plugins are installed, `.local/share/yal/plugins` under the home
/// directory.
pub fn plugins_dir(home: &str) -> (r: String)
    ensures
        r@ == path_join(home@, ".local/share/yal/plugins"@),
{
    join_path(home, ".local/share/yal/plugins")
}

} // verus!
