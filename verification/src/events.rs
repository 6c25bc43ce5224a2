//! The application's internal events and what each one sets off, and when
//! a change of the window system calls for refreshing the application tree.

use vstd::prelude::*;

use crate::sky::WindowId;
use crate::text::owned;

verus! {

/// Events routed between the parts of the application.
#[derive(Debug, Clone, Copy, PartialEq, Eq, Structural)]
pub enum Events {
    ReloadConfig,
    RefreshTree,
    ReloadPlugins,
}

/// One thing the event router does, in order, for an event.
#[derive(Debug, Clone, Copy, PartialEq, Eq, Structural)]
pub enum RouterStep {
    /// Have the configuration reread.
    ReloadConfig,
    /// Fetch the configuration; the steps after it need it, and are skipped
    /// when it cannot be had.
    GetConfig,
    /// Apply the configured theme (the empty name when none is configured).
    ApplyTheme,
    /// Resize the palette window as configured.
    ApplyWindowSize,
    /// Move the palette window onto the display under the pointer.
    PositionWindow,
    /// Tell the front end that the configuration changed.
    EmitConfigUpdated,
    /// Rebuild the application tree.
    RefreshTree,
    /// Fetch every window of the tree.
    FetchWindows,
    /// Fetch the current display and space.
    FetchCurrentDisplaySpace,
    /// Hand plugins the new execution context.
    UpdatePluginContext,
    /// Install the configured plugins that are missing.
    InstallPlugins,
}

/// What the router does for an event.
pub open spec fn steps_for(e: Events) -> Seq<RouterStep> {
    match e {
        Events::ReloadConfig => seq![
            RouterStep::ReloadConfig,
            RouterStep::GetConfig,
            RouterStep::ApplyTheme,
            RouterStep::ApplyWindowSize,
            RouterStep::PositionWindow,
            RouterStep::EmitConfigUpdated,
        ],
        Events::RefreshTree => seq![
            RouterStep::RefreshTree,
            RouterStep::FetchWindows,
            RouterStep::FetchCurrentDisplaySpace,
            RouterStep::UpdatePluginContext,
        ],
        Events::ReloadPlugins => seq![RouterStep::InstallPlugins],
    }
}

/// The steps the router takes for an event.
pub fn route(e: Events) -> (r: Vec<RouterStep>)
    ensures
        r@ == steps_for(e),
{
    let mut v: Vec<RouterStep> = Vec::new();
    match e {
        Events::ReloadConfig => {
            v.push(RouterStep::ReloadConfig);
            v.push(RouterStep::GetConfig);
            v.push(RouterStep::ApplyTheme);
            v.push(RouterStep::ApplyWindowSize);
            v.push(RouterStep::PositionWindow);
            v.push(RouterStep::EmitConfigUpdated);
        },
        Events::RefreshTree => {
            v.push(RouterStep::RefreshTree);
            v.push(RouterStep::FetchWindows);
            v.push(RouterStep::FetchCurrentDisplaySpace);
            v.push(RouterStep::UpdatePluginContext);
        },
        Events::ReloadPlugins => {
            v.push(RouterStep::InstallPlugins);
        },
    }
    assert(v@ =~= steps_for(e));
    v
}

/// The theme to apply after a reload: the configured one, or the empty name.
pub fn configured_theme(theme: &Option<String>) -> (r: String)
    ensures
        r@ == match theme {
            Some(t) => t@,
            None => Seq::<char>::empty(),
        },
{
    match theme {
        Some(t) => t.clone(),
        None => String::new(),
    }
}

/* ------------------------------ system changes ------------------------------ */

/// How soon after a change of the window system the tree is refreshed, and
/// whether the change starts a new quiet period.
#[derive(Debug, Clone, Copy, PartialEq, Eq, Structural)]
pub struct RefreshSchedule {
    /// Wait this many milliseconds, then refresh unless the launcher itself
    /// is frontmost.
    pub wait_ms: u64,
    /// Whether this change starts a new quiet period (and the watcher waits
    /// before it takes the next change).
    pub restarts_period: bool,
}

/// A change at least 200 ms after the start of the quiet period starts a
/// new one, and the tree is refreshed a second later; a change within the
/// period is looked at again 220 ms later, in the background.
pub fn schedule_refresh(elapsed_ms: u64) -> (r: RefreshSchedule)
    ensures
        elapsed_ms >= 200 ==> r == (RefreshSchedule { wait_ms: 1000, restarts_period: true }),
        elapsed_ms < 200 ==> r == (RefreshSchedule { wait_ms: 220, restarts_period: false }),
{
    let debounce_ms: u64 = 200;
    if elapsed_ms >= debounce_ms {
        RefreshSchedule { wait_ms: 1000, restarts_period: true }
    } else {
        RefreshSchedule { wait_ms: debounce_ms + 20, restarts_period: false }
    }
}

/// The code of a character with ASCII letters folded to lower case.
pub open spec fn ascii_folded(c: char) -> int {
    if 'A' <= c && c <= 'Z' {
        (c as int) + 32
    } else {
        c as int
    }
}

/// Whether two texts are equal when ASCII letters are compared without case.
pub open spec fn eq_ignore_ascii_case(a: Seq<char>, b: Seq<char>) -> bool {
    a.len() == b.len() && forall|i: int| 0 <= i < a.len() ==> ascii_folded(#[trigger] a[i]) == ascii_folded(b[i])
}

fn folded(c: char) -> (r: u32)
    ensures
        r as int == ascii_folded(c),
{
    let x = c as u32;
    if 'A' <= c && c <= 'Z' {
        x + 32
    } else {
        x
    }
}

/// Whether the frontmost application's name is the launcher's, `yal`, in
/// any ASCII case.
pub fn is_launcher_name(name: &str) -> (r: bool)
    ensures
        r == eq_ignore_ascii_case(name@, "yal"@),
{
    let target = owned("yal");
    proof {
        reveal_strlit("yal");
    }
    let n = name.unicode_len();
    if n != 3 {
        return false;
    }
    let mut i: usize = 0;
    while i < 3
        invariant
            n == name@.len(),
            n == 3,
            target@ == "yal"@,
            target@.len() == 3,
            i <= 3,
            forall|k: int| 0 <= k < i ==> ascii_folded(#[trigger] name@[k]) == ascii_folded(target@[k]),
        decreases 3 - i,
    {
        if folded(name.get_char(i)) != folded(target.as_str().get_char(i)) {
            return false;
        }
        i = i + 1;
    }
    true
}

/* ------------------------------- the palette ------------------------------- */

/// What happens to the palette window that the application reacts to.
#[derive(Debug, Clone, Copy, PartialEq, Eq, Structural)]
pub enum PaletteEvent {
    /// The global shortcut was pressed, with the palette shown or not.
    HotkeyPressed { visible: bool },
    /// The global shortcut was released.
    HotkeyReleased,
    /// The palette lost focus; the window that has it, where one is known.
    FocusLost { focused: Option<WindowId> },
    /// The palette was asked to close.
    CloseRequested,
    /// The launcher was started again while running.
    SecondInstance,
}

/// One thing done, in order, in answer to a palette event.
#[derive(Debug, Clone, Copy, PartialEq, Eq, Structural)]
pub enum PaletteAction {
    /// Hide the palette.
    Hide,
    /// Rebuild the application tree.
    RefreshTree,
    /// Send the front end the list of commands.
    PublishCommands,
    /// Show the palette on the active space, as configured.
    Reveal,
    /// Give focus to this window.
    FocusWindow(WindowId),
    /// Keep the window from closing.
    PreventClose,
    /// Show the palette window.
    Show,
    /// Give the palette window focus.
    Focus,
}

/// What the application does for a palette event: the shortcut toggles the
/// palette (refreshing the tree and the commands before showing it); losing
/// focus hands it back to the focused window and hides the palette; a close
/// only hides it; a second launch shows and focuses it.
pub open spec fn palette_actions_for(e: PaletteEvent) -> Seq<PaletteAction> {
    match e {
        PaletteEvent::HotkeyPressed { visible } => if visible {
            seq![PaletteAction::Hide]
        } else {
            seq![PaletteAction::RefreshTree, PaletteAction::PublishCommands, PaletteAction::Reveal]
        },
        PaletteEvent::HotkeyReleased => Seq::empty(),
        PaletteEvent::FocusLost { focused } => match focused {
            Some(w) => seq![PaletteAction::FocusWindow(w), PaletteAction::Hide],
            None => seq![PaletteAction::Hide],
        },
        PaletteEvent::CloseRequested => seq![PaletteAction::PreventClose, PaletteAction::Hide],
        PaletteEvent::SecondInstance => seq![PaletteAction::Show, PaletteAction::Focus],
    }
}

/// The actions taken for a palette event.
pub fn palette_actions(e: PaletteEvent) -> (r: Vec<PaletteAction>)
    ensures
        r@ == palette_actions_for(e),
{
    let mut out: Vec<PaletteAction> = Vec::new();
    match e {
        PaletteEvent::HotkeyPressed { visible } => {
            if visible {
                out.push(PaletteAction::Hide);
            } else {
                out.push(PaletteAction::RefreshTree);
                out.push(PaletteAction::PublishCommands);
                out.push(PaletteAction::Reveal);
            }
        },
        PaletteEvent::HotkeyReleased => {},
        PaletteEvent::FocusLost { focused } => {
            if let Some(w) = focused {
                out.push(PaletteAction::FocusWindow(w));
            }
            out.push(PaletteAction::Hide);
        },
        PaletteEvent::CloseRequested => {
            out.push(PaletteAction::PreventClose);
            out.push(PaletteAction::Hide);
        },
        PaletteEvent::SecondInstance => {
            out.push(PaletteAction::Show);
            out.push(PaletteAction::Focus);
        },
    }
    assert(out@ =~= palette_actions_for(e));
    out
}

/// Pressing the shortcut twice, with nothing else in between, shows the
/// palette and then hides it again: the shortcut toggles.
pub proof fn law_hotkey_toggles()
    ensures
        palette_actions_for(PaletteEvent::HotkeyPressed { visible: false }).contains(PaletteAction::Reveal),
        !palette_actions_for(PaletteEvent::HotkeyPressed { visible: false }).contains(PaletteAction::Hide),
        palette_actions_for(PaletteEvent::HotkeyPressed { visible: true }) == seq![PaletteAction::Hide],
{
    let shown = palette_actions_for(PaletteEvent::HotkeyPressed { visible: false });
    assert(shown[2] == PaletteAction::Reveal);
    assert(!shown.contains(PaletteAction::Hide)) by {
        if shown.contains(PaletteAction::Hide) {
            let k = choose|k: int| 0 <= k < shown.len() && shown[k] == PaletteAction::Hide;
            assert(k == 0 || k == 1 || k == 2);
        }
    }
}

} // verus!
