//! Settings that are plain values (window alignment, key bindings), which
//! file changes call for a configuration reload, and what the permission
//! and display managers decide from what macOS reports.

use vstd::prelude::*;

use crate::shortcut::Shortcut;
use crate::sky::DisplayId;
use crate::text::{owned, str_eq};

verus! {

/// Where the palette sits across the screen.
#[derive(Debug, Clone, Copy, PartialEq, Eq, Structural)]
pub enum AlignH {
    Left,
    Center,
    Right,
}

/// Where the palette sits down the screen.
#[derive(Debug, Clone, Copy, PartialEq, Eq, Structural)]
pub enum AlignV {
    Top,
    Center,
    Bottom,
}

/// Key bindings.
#[derive(Debug, PartialEq, Eq)]
pub struct KeysConfig {
    pub shortcuts: Option<Vec<Shortcut>>,
}

/* ------------------------------ watching files ------------------------------ */

/// What `Path::new(a) == Path::new(b)` returns: whether the two paths have
/// the same components.
pub uninterp spec fn same_path_of(a: Seq<char>, b: Seq<char>) -> bool;

/// What `Path::file_name` returns for a path, as text: its last component,
/// unless that is `..` or there is none (`None` also where it is not
/// Unicode).
pub uninterp spec fn file_name_of(p: Seq<char>) -> Option<Seq<char>>;

/// Calls `==` on two `Path`s. The result is named `same_path_of`; paths
/// are compared component by component, which is not stated.
#[verifier::external_body]
fn same_path(a: &str, b: &str) -> (r: bool)
    ensures
        r == same_path_of(a@, b@),
{
    std::path::Path::new(a) == std::path::Path::new(b)
}

/// Calls `Path::file_name`, and gives the name as text. The result is named
/// `file_name_of`; how the last component is found is not stated.
#[verifier::external_body]
fn file_name(p: &str) -> (r: Option<String>)
    ensures
        match r {
            Some(n) => file_name_of(p@) == Some(n@),
            None => file_name_of(p@) is None,
        },
{
    match std::path::Path::new(p).file_name() {
        Some(n) => match n.to_str() {
            Some(t) => Some(t.to_string()),
            None => None,
        },
        None => None,
    }
}

/// Whether a change to the file at `changed` calls for reloading the
/// configuration: it must be the configuration file itself, and its name
/// must be one of the watched files, `config.lua` or `themes.lua`.
pub fn is_relevant(changed: &str, config_file: &str) -> (r: bool)
    ensures
        r == (same_path_of(changed@, config_file@) && match file_name_of(changed@) {
            Some(n) => n == "config.lua"@ || n == "themes.lua"@,
            None => false,
        }),
{
    if !same_path(changed, config_file) {
        return false;
    }
    match file_name(changed) {
        Some(n) => str_eq(n.as_str(), "config.lua") || str_eq(n.as_str(), "themes.lua"),
        None => false,
    }
}

/// What to do with a change reported for a set of paths, `elapsed_ms`
/// after the last reload: reload (after a 50 ms pause) when one of the paths
/// is the configuration file and at least 120 ms have passed; otherwise
/// nothing.
pub open spec fn reloads_for(paths: Seq<String>, config_file: Seq<char>, elapsed_ms: u64) -> bool {
    (exists|i: int| 0 <= i < paths.len() && same_path_of((#[trigger] paths[i])@, config_file)) && elapsed_ms >= 120
}

/// Decides whether a reported change reloads the configuration; see
/// `reloads_for`. The pause before the reload is 50 ms.
pub fn reload_on_change(paths: &Vec<String>, config_file: &str, elapsed_ms: u64) -> (r: Option<u64>)
    ensures
        r is Some <==> reloads_for(paths@, config_file@, elapsed_ms),
        r is Some ==> r == Some(50u64),
{
    let mut i: usize = 0;
    let mut relevant = false;
    while i < paths.len()
        invariant
            i <= paths@.len(),
            relevant <==> exists|k: int| 0 <= k < i && same_path_of((#[trigger] paths@[k])@, config_file@),
        decreases paths@.len() - i,
    {
        if same_path(paths[i].as_str(), config_file) {
            relevant = true;
        }
        i = i + 1;
    }
    if relevant && elapsed_ms >= 120 {
        Some(50)
    } else {
        None
    }
}

/* -------------------------------- permissions -------------------------------- */

/// A permission that the launcher lacks.
#[derive(Debug, Clone, Copy, PartialEq, Eq, Structural)]
pub enum PermissionWarning {
    Accessibility,
    ScreenRecording,
}

impl PermissionWarning {
    /// What the log says about the missing permission.
    pub fn message(&self) -> (r: String)
        ensures
            r@ == match *self {
                PermissionWarning::Accessibility => "Accessibility permission not granted. System should prompt; otherwise enable in System Settings \u{2192} Privacy & Security \u{2192} Accessibility, then quit & relaunch."@,
                PermissionWarning::ScreenRecording => "Screen Recording permission not granted. Enable in System Settings \u{2192} Privacy & Security \u{2192} Screen Recording, then quit & relaunch."@,
            },
    {
        match self {
            PermissionWarning::Accessibility => owned(
                "Accessibility permission not granted. System should prompt; otherwise enable in System Settings \u{2192} Privacy & Security \u{2192} Accessibility, then quit & relaunch.",
            ),
            PermissionWarning::ScreenRecording => owned(
                "Screen Recording permission not granted. Enable in System Settings \u{2192} Privacy & Security \u{2192} Screen Recording, then quit & relaunch.",
            ),
        }
    }
}

/// Checks the permissions the launcher needs.
#[derive(Debug, Clone, Copy, PartialEq, Eq, Structural)]
pub struct PermissionsManager;

impl PermissionsManager {
    pub fn new() -> (r: PermissionsManager) {
        PermissionsManager
    }

    /// What to warn about, given whether Accessibility is granted (after the
    /// system prompt, where there was one) and whether Screen Recording is:
    /// Accessibility first, then Screen Recording.
    pub fn ensure(&self, accessibility: bool, screen_recording: bool) -> (r: Vec<PermissionWarning>)
        ensures
            r@ == if accessibility {
                Seq::<PermissionWarning>::empty()
            } else {
                seq![PermissionWarning::Accessibility]
            } + if screen_recording {
                Seq::<PermissionWarning>::empty()
            } else {
                seq![PermissionWarning::ScreenRecording]
            },
    {
        let mut out: Vec<PermissionWarning> = Vec::new();
        if !accessibility {
            out.push(PermissionWarning::Accessibility);
        }
        if !screen_recording {
            out.push(PermissionWarning::ScreenRecording);
        }
        assert(out@ =~= if accessibility {
            Seq::<PermissionWarning>::empty()
        } else {
            seq![PermissionWarning::Accessibility]
        } + if screen_recording {
            Seq::<PermissionWarning>::empty()
        } else {
            seq![PermissionWarning::ScreenRecording]
        });
        out
    }
}

/// Where the permission check stands: each stage is one query of the
/// system, whose answer (granted or not) decides the next stage.
#[derive(Debug, Clone, Copy, PartialEq, Eq, Structural)]
pub enum PermissionStage {
    /// Ask whether Accessibility is granted, without prompting.
    CheckAccessibility,
    /// Ask again, this time letting the system prompt the user.
    PromptAccessibility,
    /// Ask whether Screen Recording is granted, without prompting.
    CheckScreenRecording,
    /// Request Screen Recording, which shows the system dialog.
    RequestScreenRecording,
    /// Nothing more to ask.
    Finished,
}

/// The stage after `stage`, given the answer to its query, and the warning
/// to log then: a permission that is not granted is requested; one that
/// is still not granted after the request is warned about.
pub open spec fn permission_next(stage: PermissionStage, granted: bool) -> (PermissionStage, Option<
    PermissionWarning,
>) {
    match stage {
        PermissionStage::CheckAccessibility => if granted {
            (PermissionStage::CheckScreenRecording, None)
        } else {
            (PermissionStage::PromptAccessibility, None)
        },
        PermissionStage::PromptAccessibility => if granted {
            (PermissionStage::CheckScreenRecording, None)
        } else {
            (PermissionStage::CheckScreenRecording, Some(PermissionWarning::Accessibility))
        },
        PermissionStage::CheckScreenRecording => if granted {
            (PermissionStage::Finished, None)
        } else {
            (PermissionStage::RequestScreenRecording, None)
        },
        PermissionStage::RequestScreenRecording => if granted {
            (PermissionStage::Finished, None)
        } else {
            (PermissionStage::Finished, Some(PermissionWarning::ScreenRecording))
        },
        PermissionStage::Finished => (PermissionStage::Finished, None),
    }
}

impl PermissionsManager {
    /// The first stage of the permission check.
    pub fn first_stage(&self) -> (r: PermissionStage)
        ensures
            r == PermissionStage::CheckAccessibility,
    {
        PermissionStage::CheckAccessibility
    }

    /// Takes the answer to the query of `stage`: the next stage, and the
    /// warning to log, if any.
    pub fn step(&self, stage: PermissionStage, granted: bool) -> (r: (PermissionStage, Option<PermissionWarning>))
        ensures
            r == permission_next(stage, granted),
    {
        match stage {
            PermissionStage::CheckAccessibility => if granted {
                (PermissionStage::CheckScreenRecording, None)
            } else {
                (PermissionStage::PromptAccessibility, None)
            },
            PermissionStage::PromptAccessibility => if granted {
                (PermissionStage::CheckScreenRecording, None)
            } else {
                (PermissionStage::CheckScreenRecording, Some(PermissionWarning::Accessibility))
            },
            PermissionStage::CheckScreenRecording => if granted {
                (PermissionStage::Finished, None)
            } else {
                (PermissionStage::RequestScreenRecording, None)
            },
            PermissionStage::RequestScreenRecording => if granted {
                (PermissionStage::Finished, None)
            } else {
                (PermissionStage::Finished, Some(PermissionWarning::ScreenRecording))
            },
            PermissionStage::Finished => (PermissionStage::Finished, None),
        }
    }
}

/// The warnings logged over a whole check, stage by stage from the first,
/// given the answer each query would get (an answer to a query that is not
/// made is ignored).
pub open spec fn check_warnings(ax_check: bool, ax_prompt: bool, sr_check: bool, sr_request: bool) -> Seq<
    PermissionWarning,
> {
    let (s1, w1) = permission_next(PermissionStage::CheckAccessibility, ax_check);
    let (s2, w2) = if s1 == PermissionStage::PromptAccessibility {
        permission_next(s1, ax_prompt)
    } else {
        (s1, None)
    };
    let (s3, w3) = permission_next(s2, sr_check);
    let (s4, w4) = if s3 == PermissionStage::RequestScreenRecording {
        permission_next(s3, sr_request)
    } else {
        (s3, None)
    };
    opt_seq(w1) + opt_seq(w2) + opt_seq(w3) + opt_seq(w4)
}

/// The warning as a sequence of at most one.
pub open spec fn opt_seq(w: Option<PermissionWarning>) -> Seq<PermissionWarning> {
    match w {
        Some(x) => seq![x],
        None => Seq::empty(),
    }
}

/// Over a whole check from its first stage, the warnings logged are those
/// that `ensure` gives for the final answers: Accessibility when neither
/// the check nor the prompt granted it, Screen Recording when neither the
/// check nor the request did.
pub proof fn law_permission_check_warns_as_ensure(ax_check: bool, ax_prompt: bool, sr_check: bool, sr_request: bool)
    ensures
        check_warnings(ax_check, ax_prompt, sr_check, sr_request) == (if ax_check || ax_prompt {
            Seq::<PermissionWarning>::empty()
        } else {
            seq![PermissionWarning::Accessibility]
        }) + (if sr_check || sr_request {
            Seq::<PermissionWarning>::empty()
        } else {
            seq![PermissionWarning::ScreenRecording]
        }),
{
    assert(check_warnings(ax_check, ax_prompt, sr_check, sr_request) =~= (if ax_check || ax_prompt {
        Seq::<PermissionWarning>::empty()
    } else {
        seq![PermissionWarning::Accessibility]
    }) + (if sr_check || sr_request {
        Seq::<PermissionWarning>::empty()
    } else {
        seq![PermissionWarning::ScreenRecording]
    }));
}

/* ---------------------------------- displays ---------------------------------- */

/// Finds displays by their identifiers.
#[derive(Debug, Clone, Copy, PartialEq, Eq, Structural)]
pub struct DisplayManager;

/// The position of the first display whose identifier is `uuid`.
pub open spec fn first_with_uuid(ds: Seq<(u32, Option<String>)>, uuid: Seq<char>) -> Option<int>
    decreases ds.len(),
{
    if ds.len() == 0 {
        None
    } else if (match ds[0].1 {
        Some(u) => u@ == uuid,
        None => false,
    }) {
        Some(0)
    } else {
        match first_with_uuid(ds.drop_first(), uuid) {
            Some(i) => Some(i + 1),
            None => None,
        }
    }
}

impl DisplayManager {
    pub fn new() -> (r: DisplayManager) {
        DisplayManager
    }

    /// The display number of the display with this identifier, among the
    /// active displays with their identifiers (`None` where none could be
    /// read): the first that matches.
    pub fn display_for_uuid(&self, active: &Vec<(u32, Option<String>)>, uuid: &DisplayId) -> (r: Option<u32>)
        ensures
            match first_with_uuid(active@, uuid.0@) {
                Some(i) => r == Some(active@[i].0),
                None => r is None,
            },
    {
        let ghost s = active@;
        let mut i: usize = 0;
        assert(s.subrange(0, s.len() as int) =~= s);
        while i < active.len()
            invariant
                s == active@,
                i <= s.len(),
                first_with_uuid(s, uuid.0@) == (match first_with_uuid(s.subrange(i as int, s.len() as int), uuid.0@) {
                    Some(m) => Some(m + i),
                    None => None::<int>,
                }),
            decreases s.len() - i,
        {
            let ghost rest = s.subrange(i as int, s.len() as int);
            assert(rest[0] == s[i as int]);
            assert(rest.drop_first() =~= s.subrange(i + 1, s.len() as int));
            let hit = match &active[i].1 {
                Some(u) => str_eq(u.as_str(), uuid.0.as_str()),
                None => false,
            };
            if hit {
                return Some(active[i].0);
            }
            i = i + 1;
        }
        None
    }

    /// The active display: the main screen's, else the primary display's
    /// (`None` where either could not be read).
    pub fn active_display_id(&self, main_screen: Option<DisplayId>, primary: Option<DisplayId>) -> (r: Option<
        DisplayId,
    >)
        ensures
            r == match main_screen {
                Some(d) => Some(d),
                None => primary,
            },
    {
        match main_screen {
            Some(d) => Some(d),
            None => primary,
        }
    }
}

} // verus!
