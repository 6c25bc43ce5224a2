//! Keyboard shortcuts bound to plugin commands, and their configuration
//! shape: a shortcut is the single-entry map `{ "<combination>": { plugin,
//! command } }`.
//!
//! The functions here decide what a configuration map means, entry by
//! entry; reading the map itself is left to the configuration reader.

use vstd::prelude::*;

use crate::text::{owned, str_eq};

verus! {

/// The plugin command that a shortcut runs.
#[derive(Debug, PartialEq, Eq, Hash)]
pub struct ShortcutCommand {
    pub plugin: String,
    pub command: String,
}

/// A key combination and the command it runs.
#[derive(Debug, PartialEq, Eq)]
pub struct Shortcut {
    pub combination: String,
    pub command: ShortcutCommand,
}

/// Why a configuration map is not a shortcut.
#[derive(Debug, Clone, Copy, PartialEq, Eq, Structural)]
pub enum ShortcutError {
    /// The command map has no `plugin` entry.
    MissingPlugin,
    /// The command map has no `command` entry.
    MissingCommand,
    /// The `plugin` entry is not a string.
    PluginNotAString,
    /// The `command` entry is not a string.
    CommandNotAString,
    /// The shortcut's value is not a map.
    CommandNotAMap,
    /// The shortcut map is empty.
    Empty,
    /// The shortcut map has more than one entry.
    MultipleEntries,
}

/// One entry of a command map: its key, and its value when that is a string.
pub type CommandEntry = (String, Option<String>);

/// The `plugin` and `command` values found so far, scanning the entries in
/// order: a later entry for the same key replaces an earlier one, other
/// keys are ignored, and the first `plugin` or `command` entry whose value
/// is not a string stops the scan with an error.
pub open spec fn scan_command_entries(es: Seq<CommandEntry>) -> Result<
    (Option<Seq<char>>, Option<Seq<char>>),
    ShortcutError,
>
    decreases es.len(),
{
    if es.len() == 0 {
        Ok((None, None))
    } else {
        match scan_command_entries(es.drop_last()) {
            Err(e) => Err(e),
            Ok((p, c)) => {
                let (k, v) = es.last();
                if k@ == "plugin"@ {
                    match v {
                        Some(s) => Ok((Some(s@), c)),
                        None => Err(ShortcutError::PluginNotAString),
                    }
                } else if k@ == "command"@ {
                    match v {
                        Some(s) => Ok((p, Some(s@))),
                        None => Err(ShortcutError::CommandNotAString),
                    }
                } else {
                    Ok((p, c))
                }
            },
        }
    }
}

/// The plugin and command that a command map names, or why it names none:
/// both entries must be present (`plugin` is checked first).
pub open spec fn command_from_entries(es: Seq<CommandEntry>) -> Result<(Seq<char>, Seq<char>), ShortcutError> {
    match scan_command_entries(es) {
        Err(e) => Err(e),
        Ok((None, _)) => Err(ShortcutError::MissingPlugin),
        Ok((Some(_), None)) => Err(ShortcutError::MissingCommand),
        Ok((Some(p), Some(c))) => Ok((p, c)),
    }
}

/// The content of a shortcut command.
pub open spec fn command_model(c: ShortcutCommand) -> (Seq<char>, Seq<char>) {
    (c.plugin@, c.command@)
}

/// The entries a shortcut command is written as: `plugin`, then `command`.
pub open spec fn command_entries_model(c: ShortcutCommand) -> Seq<(Seq<char>, Option<Seq<char>>)> {
    seq![("plugin"@, Some(c.plugin@)), ("command"@, Some(c.command@))]
}

/// The view of command-map entries.
pub open spec fn entries_view(es: Seq<CommandEntry>) -> Seq<(Seq<char>, Option<Seq<char>>)> {
    es.map_values(
        |e: CommandEntry|
            (
                e.0@,
                match e.1 {
                    Some(s) => Some(s@),
                    None => None,
                },
            ),
    )
}

impl ShortcutCommand {
    /// Reads a command map, entry by entry.
    pub fn from_entries(es: &Vec<CommandEntry>) -> (r: Result<ShortcutCommand, ShortcutError>)
        ensures
            match r {
                Ok(c) => command_from_entries(es@) == Ok::<(Seq<char>, Seq<char>), ShortcutError>(
                    command_model(c),
                ),
                Err(e) => command_from_entries(es@) == Err::<(Seq<char>, Seq<char>), ShortcutError>(e),
            },
    {
        let mut plugin: Option<String> = None;
        let mut command: Option<String> = None;
        let mut i: usize = 0;
        assert(es@.subrange(0, 0) =~= Seq::<CommandEntry>::empty());
        while i < es.len()
            invariant
                i <= es@.len(),
                scan_command_entries(es@.subrange(0, i as int)) == Ok::<
                    (Option<Seq<char>>, Option<Seq<char>>),
                    ShortcutError,
                >((crate::theme::opt_view(plugin), crate::theme::opt_view(command))),
            decreases es@.len() - i,
        {
            assert(es@.subrange(0, i + 1).drop_last() =~= es@.subrange(0, i as int));
            assert(es@.subrange(0, i + 1).last() == es@[i as int]);
            let (k, v) = &es[i];
            if str_eq(k.as_str(), "plugin") {
                match v {
                    Some(s) => {
                        plugin = Some(s.clone());
                    },
                    None => {
                        assert(scan_command_entries(es@.subrange(0, i + 1)) == Err::<
                            (Option<Seq<char>>, Option<Seq<char>>),
                            ShortcutError,
                        >(ShortcutError::PluginNotAString));
                        proof {
                            lemma_scan_error_sticks(es@, i + 1);
                        }
                        return Err(ShortcutError::PluginNotAString);
                    },
                }
            } else if str_eq(k.as_str(), "command") {
                match v {
                    Some(s) => {
                        command = Some(s.clone());
                    },
                    None => {
                        proof {
                            lemma_scan_error_sticks(es@, i + 1);
                        }
                        return Err(ShortcutError::CommandNotAString);
                    },
                }
            }
            i = i + 1;
        }
        assert(es@.subrange(0, es@.len() as int) =~= es@);
        match (plugin, command) {
            (None, _) => Err(ShortcutError::MissingPlugin),
            (Some(_), None) => Err(ShortcutError::MissingCommand),
            (Some(p), Some(c)) => Ok(ShortcutCommand { plugin: p, command: c }),
        }
    }

    /// The entries the command is written as: `plugin`, then `command`.
    pub fn to_entries(&self) -> (r: Vec<CommandEntry>)
        ensures
            entries_view(r@) == command_entries_model(*self),
    {
        let mut v: Vec<CommandEntry> = Vec::new();
        v.push((owned("plugin"), Some(self.plugin.clone())));
        v.push((owned("command"), Some(self.command.clone())));
        assert(entries_view(v@) =~= command_entries_model(*self));
        v
    }
}

/// Once the scan of a prefix has failed, the scan of every longer prefix
/// fails the same way.
pub proof fn lemma_scan_error_sticks(es: Seq<CommandEntry>, i: int)
    requires
        0 <= i <= es.len(),
        scan_command_entries(es.subrange(0, i)) is Err,
    ensures
        scan_command_entries(es) == scan_command_entries(es.subrange(0, i)),
    decreases es.len() - i,
{
    if i < es.len() {
        assert(es.subrange(0, i + 1).drop_last() =~= es.subrange(0, i));
        lemma_scan_error_sticks(es, i + 1);
    } else {
        assert(es.subrange(0, i) =~= es);
    }
}

/// The command map of a shortcut's value: its entries when it is a map.
pub type CommandMap = Option<Vec<CommandEntry>>;

/// The meaning of a shortcut map: it must hold exactly one entry, whose key
/// is the combination and whose value is a command map. The first entry's
/// value is read before the count is checked.
pub open spec fn shortcut_from_entries(es: Seq<(String, CommandMap)>) -> Result<
    (Seq<char>, (Seq<char>, Seq<char>)),
    ShortcutError,
> {
    if es.len() == 0 {
        Err(ShortcutError::Empty)
    } else {
        match es[0].1 {
            None => Err(ShortcutError::CommandNotAMap),
            Some(m) => match command_from_entries(m@) {
                Err(e) => Err(e),
                Ok(c) => if es.len() > 1 {
                    Err(ShortcutError::MultipleEntries)
                } else {
                    Ok((es[0].0@, c))
                },
            },
        }
    }
}

impl Shortcut {
    /// Reads a shortcut map.
    pub fn from_entries(es: &Vec<(String, CommandMap)>) -> (r: Result<Shortcut, ShortcutError>)
        ensures
            match r {
                Ok(s) => shortcut_from_entries(es@) == Ok::<(Seq<char>, (Seq<char>, Seq<char>)), ShortcutError>(
                    (s.combination@, command_model(s.command)),
                ),
                Err(e) => shortcut_from_entries(es@) == Err::<
                    (Seq<char>, (Seq<char>, Seq<char>)),
                    ShortcutError,
                >(e),
            },
    {
        if es.len() == 0 {
            return Err(ShortcutError::Empty);
        }
        let (combination, value) = &es[0];
        match value {
            None => Err(ShortcutError::CommandNotAMap),
            Some(m) => match ShortcutCommand::from_entries(m) {
                Err(e) => Err(e),
                Ok(c) => if es.len() > 1 {
                    Err(ShortcutError::MultipleEntries)
                } else {
                    Ok(Shortcut { combination: combination.clone(), command: c })
                },
            },
        }
    }

    /// The map the shortcut is written as: one entry, the combination mapped
    /// to the command's entries.
    pub fn to_entries(&self) -> (r: Vec<(String, CommandMap)>)
        ensures
            r@.len() == 1,
            r@[0].0@ == self.combination@,
            r@[0].1 is Some,
            entries_view(r@[0].1.unwrap()@) == command_entries_model(self.command),
    {
        let mut v: Vec<(String, CommandMap)> = Vec::new();
        v.push((self.combination.clone(), Some(self.command.to_entries())));
        v
    }
}

/// Reading back what a shortcut command is written as gives the command.
pub proof fn lemma_command_round_trip(c: ShortcutCommand, es: Seq<CommandEntry>)
    requires
        entries_view(es) == command_entries_model(c),
    ensures
        command_from_entries(es) == Ok::<(Seq<char>, Seq<char>), ShortcutError>(command_model(c)),
{
    reveal_strlit("plugin");
    reveal_strlit("command");
    let ev = entries_view(es);
    assert(ev.len() == es.len());
    assert(command_entries_model(c).len() == 2);
    assert(es.len() == 2);
    assert(ev[0] == ("plugin"@, Some(c.plugin@)));
    assert(ev[1] == ("command"@, Some(c.command@)));
    assert(es[0].0@ == "plugin"@);
    assert(es[1].0@ == "command"@);
    assert(es[0].1 is Some && es[0].1.unwrap()@ == c.plugin@);
    assert(es[1].1 is Some && es[1].1.unwrap()@ == c.command@);
    assert("plugin"@ != "command"@) by {
        assert("plugin"@[0] != "command"@[0]);
    }
    let e1 = es.drop_last();
    assert(e1.drop_last() =~= Seq::<CommandEntry>::empty());
    assert(e1.last() == es[0]);
    assert(es.last() == es[1]);
    assert(scan_command_entries(e1.drop_last()) == Ok::<(Option<Seq<char>>, Option<Seq<char>>), ShortcutError>(
        (None, None),
    ));
    assert(scan_command_entries(e1) == Ok::<(Option<Seq<char>>, Option<Seq<char>>), ShortcutError>(
        (Some(c.plugin@), None),
    ));
    assert(scan_command_entries(es) == Ok::<(Option<Seq<char>>, Option<Seq<char>>), ShortcutError>(
        (Some(c.plugin@), Some(c.command@)),
    ));
}

/// Reading back what a shortcut is written as gives the shortcut.
pub proof fn lemma_shortcut_round_trip(s: Shortcut, es: Seq<(String, CommandMap)>)
    requires
        es.len() == 1,
        es[0].0@ == s.combination@,
        es[0].1 is Some,
        entries_view(es[0].1.unwrap()@) == command_entries_model(s.command),
    ensures
        shortcut_from_entries(es) == Ok::<(Seq<char>, (Seq<char>, Seq<char>)), ShortcutError>(
            (s.combination@, command_model(s.command)),
        ),
{
    lemma_command_round_trip(s.command, es[0].1.unwrap()@);
}

} // verus!
