//! Decisions about focus: which display and space hold the focused window,
//! which window of a space is focused, how to reach another space with the
//! Mission Control keys, and how to bring a switch target forward.
//!
//! The window server and Accessibility queries are made by the caller; their
//! results come in as arguments (`None` where a query failed).

use vstd::prelude::*;

use crate::command::WindowTarget;
use crate::sky::{DisplayId, DisplaySpaces, SpaceId, SpaceRecord, Window, WindowId, WindowInfo};
use crate::text::{decimal, owned, u64_to_string};
use crate::seqs::{keep_where, lemma_keep_where_step};
use crate::tree::{display_of_space, index_of_space, matches_param, ApplicationTree, SearchParam, SearchResult};

verus! {

/// The display and space that something is on.
#[derive(Debug, PartialEq, Eq)]
pub struct DisplaySpace {
    pub display_id: DisplayId,
    pub space_id: SpaceId,
}

impl DisplaySpace {
    /// The display and space as text, a header line and a line for each.
    pub fn describe(&self) -> (r: String)
        ensures
            r@ == "CurrentDisplaySpace:\n  display_id: "@ + self.display_id.0@ + "\n  space_id: "@ + decimal(
                self.space_id.0 as nat,
            ) + "\n"@,
    {
        let mut out = owned("CurrentDisplaySpace:\n  display_id: ");
        out.append(self.display_id.0.as_str());
        out.append("\n  space_id: ");
        out.append(u64_to_string(self.space_id.0).as_str());
        out.append("\n");
        out
    }
}

/// What to do once the palette hides.
#[derive(Debug, PartialEq, Eq)]
pub enum HideBehavior {
    FocusPrevious,
    FocusNew { pid: i32, window_id: i64 },
}

/// The window that had focus before the palette showed.
#[derive(Debug, PartialEq, Eq)]
pub struct FocusState {
    pub display_id: DisplayId,
    pub pid: i32,
    pub window_id: WindowId,
    pub space_id: SpaceId,
}

/// One step of bringing a window forward.
#[derive(Debug, Clone, Copy, PartialEq, Eq, Structural)]
pub enum ActivateStep {
    /// Switch to this space.
    SelectSpace(SpaceId),
    /// Make the application with this pid frontmost.
    MakeFrontmost(i32),
    /// Make this window of the application main and focused, and raise it.
    RaiseWindow { pid: i32, window_id: WindowId },
}

/// The steps of bringing a remembered window forward: switch to its space
/// when the current space is known and is another one; then make its
/// application frontmost and raise the window.
pub open spec fn activate_steps_for(current: Option<SpaceId>, focus: FocusState) -> Seq<ActivateStep> {
    let switch = match current {
        Some(c) => if c != focus.space_id {
            seq![ActivateStep::SelectSpace(focus.space_id)]
        } else {
            Seq::empty()
        },
        None => Seq::empty(),
    };
    switch + seq![
        ActivateStep::MakeFrontmost(focus.pid),
        ActivateStep::RaiseWindow { pid: focus.pid, window_id: focus.window_id },
    ]
}

/// The steps of bringing the window of `focus` forward, given the current
/// space (`None` where it could not be read).
pub fn activate_steps(current: Option<SpaceId>, focus: &FocusState) -> (r: Vec<ActivateStep>)
    ensures
        r@ == activate_steps_for(current, *focus),
{
    let mut out: Vec<ActivateStep> = Vec::new();
    if let Some(c) = current {
        if c != focus.space_id {
            out.push(ActivateStep::SelectSpace(focus.space_id));
        }
    }
    out.push(ActivateStep::MakeFrontmost(focus.pid));
    out.push(ActivateStep::RaiseWindow { pid: focus.pid, window_id: focus.window_id });
    assert(out@ =~= activate_steps_for(current, *focus));
    out
}

/// One step of hiding the palette.
#[derive(Debug, Clone, Copy, PartialEq, Eq, Structural)]
pub enum HideStep {
    /// Hide the palette window.
    HideWindow,
    /// Deactivate the launcher, so that it gives up key focus.
    DeactivateApp,
    /// A step of bringing a window forward.
    Activate(ActivateStep),
}

/// The activation steps as steps of hiding.
pub open spec fn as_hide_steps(steps: Seq<ActivateStep>) -> Seq<HideStep> {
    steps.map_values(|a: ActivateStep| HideStep::Activate(a))
}

/// The steps of hiding the palette: hide its window and deactivate the
/// launcher, then focus a window. For `FocusNew`, window `window_id` of
/// application `pid` is brought forward; for `FocusPrevious`, the window
/// recorded in the focus state (switching to its space when the current
/// space is known and is another one), and nothing when none is recorded.
pub open spec fn hide_steps_for(
    behavior: HideBehavior,
    previous: Option<FocusState>,
    current: Option<SpaceId>,
) -> Seq<HideStep> {
    seq![HideStep::HideWindow, HideStep::DeactivateApp] + match behavior {
        HideBehavior::FocusNew { pid, window_id } => as_hide_steps(
            seq![
                ActivateStep::MakeFrontmost(pid),
                ActivateStep::RaiseWindow { pid, window_id: WindowId(window_id) },
            ],
        ),
        HideBehavior::FocusPrevious => match previous {
            Some(f) => as_hide_steps(activate_steps_for(current, f)),
            None => Seq::empty(),
        },
    }
}

/// The steps of hiding the palette, given the focus recorded before it
/// showed and the current space (`None` where either is unknown).
pub fn hide_steps(behavior: &HideBehavior, previous: &Option<FocusState>, current: Option<SpaceId>) -> (r: Vec<
    HideStep,
>)
    ensures
        r@ == hide_steps_for(*behavior, *previous, current),
{
    let mut out: Vec<HideStep> = Vec::new();
    out.push(HideStep::HideWindow);
    out.push(HideStep::DeactivateApp);
    let ghost head = out@;
    let acts: Vec<ActivateStep> = match behavior {
        HideBehavior::FocusNew { pid, window_id } => {
            let mut v: Vec<ActivateStep> = Vec::new();
            v.push(ActivateStep::MakeFrontmost(*pid));
            v.push(ActivateStep::RaiseWindow { pid: *pid, window_id: WindowId(*window_id) });
            v
        },
        HideBehavior::FocusPrevious => match previous {
            Some(f) => activate_steps(current, f),
            None => Vec::new(),
        },
    };
    let mut i: usize = 0;
    while i < acts.len()
        invariant
            i <= acts@.len(),
            out@ == head + as_hide_steps(acts@.subrange(0, i as int)),
        decreases acts@.len() - i,
    {
        out.push(HideStep::Activate(acts[i]));
        assert(as_hide_steps(acts@.subrange(0, i + 1)) =~= as_hide_steps(acts@.subrange(0, i as int)).push(
            HideStep::Activate(acts@[i as int]),
        ));
        i = i + 1;
    }
    assert(acts@.subrange(0, acts@.len() as int) =~= acts@);
    assert(out@ =~= hide_steps_for(*behavior, *previous, current));
    out
}

/* --------------------------- first hit in a grid --------------------------- */

/// Whether position `(i, j)` comes before `(i2, j2)`, row by row.
pub open spec fn pos_before(i: int, j: int, i2: int, j2: int) -> bool {
    i < i2 || (i == i2 && j < j2)
}

/// Whether `(i, j)` is a hit of the grid.
pub open spec fn grid_hit(m: Seq<Vec<bool>>, i: int, j: int) -> bool {
    0 <= i < m.len() && 0 <= j < m[i]@.len() && m[i]@[j]
}

/// Whether the grid has a hit.
pub open spec fn grid_has_hit(m: Seq<Vec<bool>>) -> bool {
    exists|i: int, j: int| #[trigger] grid_hit(m, i, j)
}

/// Whether `(i, j)` is the first hit of the grid, row by row.
pub open spec fn first_grid_hit(m: Seq<Vec<bool>>, i: int, j: int) -> bool {
    grid_hit(m, i, j) && forall|i2: int, j2: int| #[trigger] grid_hit(m, i2, j2) ==> !pos_before(i2, j2, i, j)
}

/// The first hit of a grid, scanning rows in order and each row in order.
pub fn first_hit(m: &Vec<Vec<bool>>) -> (r: Option<(usize, usize)>)
    ensures
        match r {
            Some((i, j)) => first_grid_hit(m@, i as int, j as int),
            None => !grid_has_hit(m@),
        },
{
    let mut i: usize = 0;
    while i < m.len()
        invariant
            i <= m@.len(),
            forall|i2: int, j2: int| #[trigger] grid_hit(m@, i2, j2) ==> i2 >= i,
        decreases m@.len() - i,
    {
        let row = &m[i];
        let mut j: usize = 0;
        while j < row.len()
            invariant
                i < m@.len(),
                *row == m@[i as int],
                j <= row@.len(),
                forall|i2: int, j2: int| #[trigger] grid_hit(m@, i2, j2) ==> i2 >= i,
                forall|j2: int| 0 <= j2 < j ==> !row@[j2],
            decreases row@.len() - j,
        {
            if row[j] {
                return Some((i, j));
            }
            j = j + 1;
        }
        i = i + 1;
    }
    None
}

/// Whether the windows listed for a space include this window id.
pub open spec fn lists_window(ws: Option<Vec<WindowInfo>>, wid: i64) -> bool {
    match ws {
        Some(v) => seq_has_window(v@, wid),
        None => false,
    }
}

/// Whether the window list has a window with this id.
pub open spec fn seq_has_window(s: Seq<WindowInfo>, wid: i64) -> bool {
    exists|k: int| 0 <= k < s.len() && (#[trigger] s[k]).window_id == wid
}

/// Whether the annotated windows listed for a space include one of this process.
pub open spec fn lists_pid(ws: Option<Vec<Window>>, pid: i32) -> bool {
    match ws {
        Some(ws) => exists|k: int| 0 <= k < ws@.len() && (#[trigger] ws@[k]).pid == Some(pid),
        None => false,
    }
}

fn contains_window(ws: &Option<Vec<WindowInfo>>, wid: i64) -> (r: bool)
    ensures
        r == lists_window(*ws, wid),
{
    match ws {
        None => false,
        Some(v) => {
            let mut k: usize = 0;
            while k < v.len()
                invariant
                    *ws == Some(*v),
                    k <= v@.len(),
                    forall|k2: int| 0 <= k2 < k ==> (#[trigger] v@[k2]).window_id != wid,
                decreases v@.len() - k,
            {
                if v[k].window_id == wid {
                    assert((v@[k as int]).window_id == wid);
                    assert(seq_has_window(v@, wid));
                    return true;
                }
                k = k + 1;
            }
            false
        },
    }
}

fn contains_pid(ws: &Option<Vec<Window>>, pid: i32) -> (r: bool)
    ensures
        r == lists_pid(*ws, pid),
{
    match ws {
        None => false,
        Some(v) => {
            let mut k: usize = 0;
            while k < v.len()
                invariant
                    *ws == Some(*v),
                    k <= v@.len(),
                    forall|k2: int| 0 <= k2 < k ==> (#[trigger] v@[k2]).pid != Some(pid),
                decreases v@.len() - k,
            {
                if v[k].pid == Some(pid) {
                    assert((v@[k as int]).pid == Some(pid));
                    return true;
                }
                k = k + 1;
            }
            false
        },
    }
}

/// The grid of spaces whose visible windows include the window.
pub fn window_hits(visible: &Vec<Vec<Option<Vec<WindowInfo>>>>, wid: i64) -> (r: Vec<Vec<bool>>)
    ensures
        r@.len() == visible@.len(),
        forall|i: int| 0 <= i < r@.len() ==> (#[trigger] r@[i])@.len() == visible@[i]@.len(),
        forall|i: int, j: int|
            0 <= i < r@.len() && 0 <= j < r@[i]@.len() ==> r@[i]@[j] == lists_window(visible@[i]@[j], wid),
{
    let mut out: Vec<Vec<bool>> = Vec::new();
    let mut i: usize = 0;
    while i < visible.len()
        invariant
            i <= visible@.len(),
            out@.len() == i,
            forall|i2: int| 0 <= i2 < i ==> (#[trigger] out@[i2])@.len() == visible@[i2]@.len(),
            forall|i2: int, j: int|
                0 <= i2 < i && 0 <= j < out@[i2]@.len() ==> out@[i2]@[j] == lists_window(visible@[i2]@[j], wid),
        decreases visible@.len() - i,
    {
        let row = &visible[i];
        let mut hits: Vec<bool> = Vec::new();
        let mut j: usize = 0;
        while j < row.len()
            invariant
                j <= row@.len(),
                hits@.len() == j,
                forall|j2: int| 0 <= j2 < j ==> hits@[j2] == lists_window(row@[j2], wid),
            decreases row@.len() - j,
        {
            hits.push(contains_window(&row[j], wid));
            j = j + 1;
        }
        out.push(hits);
        i = i + 1;
    }
    out
}

/// The grid of spaces whose annotated windows include one of the process.
pub fn pid_hits(titled: &Vec<Vec<Option<Vec<Window>>>>, pid: i32) -> (r: Vec<Vec<bool>>)
    ensures
        r@.len() == titled@.len(),
        forall|i: int| 0 <= i < r@.len() ==> (#[trigger] r@[i])@.len() == titled@[i]@.len(),
        forall|i: int, j: int|
            0 <= i < r@.len() && 0 <= j < r@[i]@.len() ==> r@[i]@[j] == lists_pid(titled@[i]@[j], pid),
{
    let mut out: Vec<Vec<bool>> = Vec::new();
    let mut i: usize = 0;
    while i < titled.len()
        invariant
            i <= titled@.len(),
            out@.len() == i,
            forall|i2: int| 0 <= i2 < i ==> (#[trigger] out@[i2])@.len() == titled@[i2]@.len(),
            forall|i2: int, j: int|
                0 <= i2 < i && 0 <= j < out@[i2]@.len() ==> out@[i2]@[j] == lists_pid(titled@[i2]@[j], pid),
        decreases titled@.len() - i,
    {
        let row = &titled[i];
        let mut hits: Vec<bool> = Vec::new();
        let mut j: usize = 0;
        while j < row.len()
            invariant
                j <= row@.len(),
                hits@.len() == j,
                forall|j2: int| 0 <= j2 < j ==> hits@[j2] == lists_pid(row@[j2], pid),
            decreases row@.len() - j,
        {
            hits.push(contains_pid(&row[j], pid));
            j = j + 1;
        }
        out.push(hits);
        i = i + 1;
    }
    out
}

/* ------------------------ the focused display/space ------------------------ */

/// Whether the per-space query results are laid out like the displays' spaces.
pub open spec fn grid_shaped<T>(displays: Seq<DisplaySpaces>, g: Seq<Vec<T>>) -> bool {
    g.len() == displays.len() && forall|i: int| 0 <= i < g.len() ==> (#[trigger] g[i])@.len() == displays[i].spaces@.len()
}

/// The display `d` with space `s` as its current one.
pub open spec fn with_current(d: DisplaySpaces, s: SpaceRecord, r: DisplaySpaces) -> bool {
    r.display_identifier == d.display_identifier && r.current == s.id && r.spaces@ == d.spaces@
}

/// Whether space `j` of display `i` lists the window among its visible windows.
pub open spec fn window_hit(visible: Seq<Vec<Option<Vec<WindowInfo>>>>, wid: i64, i: int, j: int) -> bool {
    0 <= i < visible.len() && 0 <= j < visible[i]@.len() && lists_window(visible[i]@[j], wid)
}

/// Whether space `j` of display `i` lists a window of the process.
pub open spec fn pid_hit(titled: Seq<Vec<Option<Vec<Window>>>>, pid: i32, i: int, j: int) -> bool {
    0 <= i < titled.len() && 0 <= j < titled[i]@.len() && lists_pid(titled[i]@[j], pid)
}

/// Whether `(i, j)` is the first space listing the window.
pub open spec fn first_window_hit(visible: Seq<Vec<Option<Vec<WindowInfo>>>>, wid: i64, i: int, j: int) -> bool {
    window_hit(visible, wid, i, j) && forall|i2: int, j2: int|
        #[trigger] window_hit(visible, wid, i2, j2) ==> !pos_before(i2, j2, i, j)
}

/// Whether `(i, j)` is the first space listing a window of the process.
pub open spec fn first_pid_hit(titled: Seq<Vec<Option<Vec<Window>>>>, pid: i32, i: int, j: int) -> bool {
    pid_hit(titled, pid, i, j) && forall|i2: int, j2: int|
        #[trigger] pid_hit(titled, pid, i2, j2) ==> !pos_before(i2, j2, i, j)
}

/// The display and space holding the focused window, as described at
/// `find_current_display_space`.
pub open spec fn current_display_space_ok(
    displays: Seq<DisplaySpaces>,
    focused: Option<(i32, i64)>,
    sky_available: bool,
    visible: Seq<Vec<Option<Vec<WindowInfo>>>>,
    titled: Seq<Vec<Option<Vec<Window>>>>,
    r: DisplaySpaces,
) -> bool {
    let by_window = match focused {
        Some((_, wid)) => sky_available && exists|i: int, j: int| #[trigger] window_hit(visible, wid, i, j),
        None => false,
    };
    let by_pid = match focused {
        Some((pid, _)) => sky_available && exists|i: int, j: int| #[trigger] pid_hit(titled, pid, i, j),
        None => false,
    };
    if by_window {
        exists|i: int, j: int|
            #[trigger] first_window_hit(visible, focused.unwrap().1, i, j) && with_current(
                displays[i],
                displays[i].spaces@[j],
                r,
            )
    } else if by_pid {
        exists|i: int, j: int|
            #[trigger] first_pid_hit(titled, focused.unwrap().0, i, j) && with_current(
                displays[i],
                displays[i].spaces@[j],
                r,
            )
    } else if displays.len() > 0 {
        r == displays[0]
    } else {
        r.display_identifier.0@ == "<unknown>"@ && r.current == SpaceId(0) && r.spaces@.len() == 0
    }
}

/// When some space lists the focused window itself, the result is the
/// display of the first such space (displays in order, then spaces in
/// order), with that space as its current one; spaces that only list other
/// windows of the focused process do not count.
pub proof fn law_focused_window_decides_space(
    displays: Seq<DisplaySpaces>,
    pid: i32,
    wid: i64,
    visible: Seq<Vec<Option<Vec<WindowInfo>>>>,
    titled: Seq<Vec<Option<Vec<Window>>>>,
    r: DisplaySpaces,
    i: int,
    j: int,
)
    requires
        grid_shaped(displays, visible),
        grid_shaped(displays, titled),
        current_display_space_ok(displays, Some((pid, wid)), true, visible, titled, r),
        0 <= i < visible.len(),
        0 <= j < visible[i]@.len(),
        visible[i]@[j] matches Some(v) && exists|k: int| 0 <= k < v@.len() && v@[k].window_id == wid,
        forall|i2: int, j2: int|
            0 <= i2 < visible.len() && 0 <= j2 < visible[i2]@.len() && (i2 < i || (i2 == i && j2 < j)) ==> !(
            #[trigger] visible[i2]@[j2] matches Some(v2) && exists|k: int|
                0 <= k < v2@.len() && v2@[k].window_id == wid),
    ensures
        r.display_identifier == displays[i].display_identifier,
        r.current == displays[i].spaces@[j].id,
        r.spaces@ == displays[i].spaces@,
{
    assert(window_hit(visible, wid, i, j));
    let (a, b) = choose|a: int, b: int|
        #[trigger] first_window_hit(visible, wid, a, b) && with_current(displays[a], displays[a].spaces@[b], r);
    assert(first_window_hit(visible, wid, a, b));
    assert(!pos_before(i, j, a, b));
    if pos_before(a, b, i, j) {
        assert(window_hit(visible, wid, a, b));
        assert(!(visible[a]@[b] matches Some(v2) && exists|k: int| 0 <= k < v2@.len() && v2@[k].window_id == wid));
        assert(false);
    }
    assert(a == i && b == j);
}

/// When no space lists the focused window but some space lists a window of
/// the focused process, the result is the display of the first such space,
/// with that space as its current one.
pub proof fn law_focused_process_decides_space(
    displays: Seq<DisplaySpaces>,
    pid: i32,
    wid: i64,
    visible: Seq<Vec<Option<Vec<WindowInfo>>>>,
    titled: Seq<Vec<Option<Vec<Window>>>>,
    r: DisplaySpaces,
    i: int,
    j: int,
)
    requires
        grid_shaped(displays, visible),
        grid_shaped(displays, titled),
        current_display_space_ok(displays, Some((pid, wid)), true, visible, titled, r),
        forall|i2: int, j2: int|
            0 <= i2 < visible.len() && 0 <= j2 < visible[i2]@.len() ==> !(#[trigger] visible[i2]@[j2] matches Some(
                v2,
            ) && exists|k: int| 0 <= k < v2@.len() && v2@[k].window_id == wid),
        0 <= i < titled.len(),
        0 <= j < titled[i]@.len(),
        titled[i]@[j] matches Some(t) && exists|k: int| 0 <= k < t@.len() && t@[k].pid == Some(pid),
        forall|i2: int, j2: int|
            0 <= i2 < titled.len() && 0 <= j2 < titled[i2]@.len() && (i2 < i || (i2 == i && j2 < j)) ==> !(
            #[trigger] titled[i2]@[j2] matches Some(t2) && exists|k: int| 0 <= k < t2@.len() && t2@[k].pid == Some(pid)),
    ensures
        r.display_identifier == displays[i].display_identifier,
        r.current == displays[i].spaces@[j].id,
        r.spaces@ == displays[i].spaces@,
{
    assert(!exists|a: int, b: int| #[trigger] window_hit(visible, wid, a, b)) by {
        assert forall|a: int, b: int| !#[trigger] window_hit(visible, wid, a, b) by {
            if window_hit(visible, wid, a, b) {
                assert(visible[a]@[b] matches Some(v2) && exists|k: int| 0 <= k < v2@.len() && v2@[k].window_id == wid);
            }
        }
    }
    assert(pid_hit(titled, pid, i, j));
    assert(exists|a: int, b: int| #[trigger] pid_hit(titled, pid, a, b));
    let f = Some((pid, wid));
    assert(f.unwrap().0 == pid && f.unwrap().1 == wid);
    assert(exists|a: int, b: int|
        #[trigger] first_pid_hit(titled, pid, a, b) && with_current(displays[a], displays[a].spaces@[b], r));
    let (a, b) = choose|a: int, b: int|
        #[trigger] first_pid_hit(titled, pid, a, b) && with_current(displays[a], displays[a].spaces@[b], r);
    assert(first_pid_hit(titled, pid, a, b));
    assert(!pos_before(i, j, a, b));
    if pos_before(a, b, i, j) {
        assert(pid_hit(titled, pid, a, b));
        assert(!(titled[a]@[b] matches Some(t2) && exists|k: int| 0 <= k < t2@.len() && t2@[k].pid == Some(pid)));
        assert(false);
    }
    assert(a == i && b == j);
}

/// With no focused window known, or no window server, or no space listing
/// the focused window or a window of its process, the result is the first
/// display as given, and with no display a placeholder `<unknown>` display
/// on space 0 with no spaces.
pub proof fn law_fallback_display(
    displays: Seq<DisplaySpaces>,
    focused: Option<(i32, i64)>,
    sky_available: bool,
    visible: Seq<Vec<Option<Vec<WindowInfo>>>>,
    titled: Seq<Vec<Option<Vec<Window>>>>,
    r: DisplaySpaces,
)
    requires
        current_display_space_ok(displays, focused, sky_available, visible, titled, r),
        focused is None || !sky_available || (forall|i: int, j: int|
            0 <= i < visible.len() && 0 <= j < visible[i]@.len() ==> !(#[trigger] visible[i]@[j] matches Some(v)
                && exists|k: int| 0 <= k < v@.len() && v@[k].window_id == focused.unwrap().1)) && (forall|i: int, j: int|
            0 <= i < titled.len() && 0 <= j < titled[i]@.len() ==> !(#[trigger] titled[i]@[j] matches Some(t)
                && exists|k: int| 0 <= k < t@.len() && t@[k].pid == Some(focused.unwrap().0))),
    ensures
        displays.len() > 0 ==> r == displays[0],
        displays.len() == 0 ==> r.display_identifier.0@ == "<unknown>"@ && r.current == SpaceId(0) && r.spaces@.len() == 0,
{
    if let Some((pid, wid)) = focused {
        if sky_available {
            assert forall|a: int, b: int| !#[trigger] window_hit(visible, wid, a, b) by {
                if window_hit(visible, wid, a, b) {
                    assert(visible[a]@[b] matches Some(v) && exists|k: int| 0 <= k < v@.len() && v@[k].window_id == wid);
                }
            }
            assert forall|a: int, b: int| !#[trigger] pid_hit(titled, pid, a, b) by {
                if pid_hit(titled, pid, a, b) {
                    assert(titled[a]@[b] matches Some(t) && exists|k: int| 0 <= k < t@.len() && t@[k].pid == Some(pid));
                }
            }
        }
    }
}

/// Determines the display and space that hold the focused window.
///
/// `focused` is the (pid, window number) that Accessibility reports;
/// `visible[i][j]` and `titled[i][j]` are the visible windows of space `j` of
/// display `i`, plain and annotated (`None` where the query failed);
/// `sky_available` tells whether the window server could be reached at all.
/// The first space (displays in order, then spaces in order) listing the
/// focused window wins; failing that, the first space listing a window of
/// the focused process; the result is that display with the space as its
/// current one. Failing both, the first display as given, and with no
/// display at all, a placeholder `<unknown>` display on space 0.
pub fn find_current_display_space(
    displays: Vec<DisplaySpaces>,
    focused: Option<(i32, i64)>,
    sky_available: bool,
    visible: &Vec<Vec<Option<Vec<WindowInfo>>>>,
    titled: &Vec<Vec<Option<Vec<Window>>>>,
) -> (r: DisplaySpaces)
    requires
        grid_shaped(displays@, visible@),
        grid_shaped(displays@, titled@),
    ensures
        current_display_space_ok(displays@, focused, sky_available, visible@, titled@, r),
{
    if let Some((pid, wid)) = focused {
        if sky_available {
            let hits = window_hits(visible, wid);
            assert(forall|i: int, j: int| #[trigger] grid_hit(hits@, i, j) == window_hit(visible@, wid, i, j));
            if let Some((i, j)) = first_hit(&hits) {
                assert forall|i2: int, j2: int| #[trigger] window_hit(visible@, wid, i2, j2) implies !pos_before(
                    i2,
                    j2,
                    i as int,
                    j as int,
                ) by {
                    assert(grid_hit(hits@, i2, j2));
                }
                assert(first_window_hit(visible@, wid, i as int, j as int));
                let d = &displays[i];
                let r = DisplaySpaces {
                    display_identifier: d.display_identifier.duplicate(),
                    current: d.spaces[j].id,
                    spaces: d.spaces.clone(),
                };
                assert(with_current(displays@[i as int], displays@[i as int].spaces@[j as int], r));
                return r;
            }
            assert(!exists|i: int, j: int| #[trigger] window_hit(visible@, wid, i, j)) by {
                assert forall|i: int, j: int| !#[trigger] window_hit(visible@, wid, i, j) by {
                    assert(grid_hit(hits@, i, j) == window_hit(visible@, wid, i, j));
                }
            }
            let hits2 = pid_hits(titled, pid);
            assert(forall|i: int, j: int| #[trigger] grid_hit(hits2@, i, j) == pid_hit(titled@, pid, i, j));
            if let Some((i, j)) = first_hit(&hits2) {
                assert forall|i2: int, j2: int| #[trigger] pid_hit(titled@, pid, i2, j2) implies !pos_before(
                    i2,
                    j2,
                    i as int,
                    j as int,
                ) by {
                    assert(grid_hit(hits2@, i2, j2));
                }
                assert(first_pid_hit(titled@, pid, i as int, j as int));
                let d = &displays[i];
                let r = DisplaySpaces {
                    display_identifier: d.display_identifier.duplicate(),
                    current: d.spaces[j].id,
                    spaces: d.spaces.clone(),
                };
                assert(with_current(displays@[i as int], displays@[i as int].spaces@[j as int], r));
                return r;
            }
            assert(!exists|i: int, j: int| #[trigger] pid_hit(titled@, pid, i, j)) by {
                assert forall|i: int, j: int| !#[trigger] pid_hit(titled@, pid, i, j) by {
                    assert(grid_hit(hits2@, i, j) == pid_hit(titled@, pid, i, j));
                }
            }
        }
    }
    let mut displays = displays;
    if displays.len() > 0 {
        displays.swap_remove(0)
    } else {
        DisplaySpaces { display_identifier: DisplayId(owned("<unknown>")), current: SpaceId(0), spaces: Vec::new() }
    }
}

/* --------------------------- the focused window --------------------------- */

/// The first annotated window of the process, if any.
pub open spec fn first_of_pid(ws: Seq<Window>, pid: i32) -> Option<int>
    decreases ws.len(),
{
    if ws.len() == 0 {
        None
    } else if ws[0].pid == Some(pid) {
        Some(0)
    } else {
        match first_of_pid(ws.drop_first(), pid) {
            Some(k) => Some(k + 1),
            None => None,
        }
    }
}

/// The focused window of a space, as described at `find_current_window`.
pub open spec fn current_window_of(
    focused: Option<(i32, i64)>,
    sky_available: bool,
    visible: Option<Vec<WindowInfo>>,
    titled: Option<Vec<Window>>,
) -> Option<(i32, WindowId)> {
    match focused {
        None => None,
        Some((pid, wid)) => if !sky_available {
            None
        } else if lists_window(visible, wid) {
            Some((pid, WindowId(wid)))
        } else {
            match titled {
                Some(ws) => match first_of_pid(ws@, pid) {
                    Some(k) => Some((pid, WindowId(ws@[k].info.window_id))),
                    None => None,
                },
                None => None,
            }
        },
    }
}

proof fn lemma_first_of_pid(ws: Seq<Window>, pid: i32)
    ensures
        first_of_pid(ws, pid) matches Some(k) ==> 0 <= k < ws.len() && ws[k].pid == Some(pid) && forall|m: int|
            0 <= m < k ==> (#[trigger] ws[m]).pid != Some(pid),
        first_of_pid(ws, pid) is None ==> forall|m: int| 0 <= m < ws.len() ==> (#[trigger] ws[m]).pid != Some(pid),
    decreases ws.len(),
{
    if ws.len() > 0 {
        lemma_first_of_pid(ws.drop_first(), pid);
        assert forall|m: int| 0 < m < ws.len() implies #[trigger] ws[m] == ws.drop_first()[m - 1] by {}
    }
}

/// The window found in a space belongs to the focused process: it is the
/// focused window itself whenever the space lists it, and otherwise the
/// first window of that process among the space's annotated windows; with
/// no such window, or no focus, or no window server, nothing is found.
pub proof fn law_current_window_is_the_focused_one(
    pid: i32,
    wid: i64,
    visible: Option<Vec<WindowInfo>>,
    titled: Option<Vec<Window>>,
)
    ensures
        (visible matches Some(v) && exists|k: int| 0 <= k < v@.len() && v@[k].window_id == wid) ==> current_window_of(
            Some((pid, wid)),
            true,
            visible,
            titled,
        ) == Some((pid, WindowId(wid))),
        current_window_of(Some((pid, wid)), true, visible, titled) matches Some((p, w)) ==> p == pid && (w == WindowId(
            wid,
        ) || (titled matches Some(ts) && exists|k: int|
            0 <= k < ts@.len() && ts@[k].pid == Some(pid) && ts@[k].info.window_id == w.0 && forall|m: int|
                0 <= m < k ==> (#[trigger] ts@[m]).pid != Some(pid))),
        current_window_of(None, true, visible, titled) is None,
        current_window_of(Some((pid, wid)), false, visible, titled) is None,
{
    if let Some(ts) = titled {
        lemma_first_of_pid(ts@, pid);
    }
}

/// Confirms that the focused window lives in a space: `visible` and
/// `titled` are that space's visible windows, plain and annotated (`None`
/// where the query failed). The focused window itself is returned when the
/// space lists it; otherwise the first window of the focused process on
/// the space; otherwise none.
pub fn find_current_window(
    focused: Option<(i32, i64)>,
    sky_available: bool,
    visible: &Option<Vec<WindowInfo>>,
    titled: &Option<Vec<Window>>,
) -> (r: Option<(i32, WindowId)>)
    ensures
        r == current_window_of(focused, sky_available, *visible, *titled),
{
    let (pid, wid) = match focused {
        Some(f) => f,
        None => return None,
    };
    if !sky_available {
        return None;
    }
    if contains_window(visible, wid) {
        return Some((pid, WindowId(wid)));
    }
    match titled {
        None => None,
        Some(ws) => {
            let ghost s = ws@;
            let mut k: usize = 0;
            assert(s.subrange(0, s.len() as int) =~= s);
            while k < ws.len()
                invariant
                    *titled == Some(*ws),
                    !lists_window(*visible, wid),
                    focused == Some((pid, wid)),
                    sky_available,
                    s == ws@,
                    k <= s.len(),
                    first_of_pid(s, pid) == (match first_of_pid(s.subrange(k as int, s.len() as int), pid) {
                        Some(m) => Some(m + k),
                        None => None::<int>,
                    }),
                decreases s.len() - k,
            {
                let ghost rest = s.subrange(k as int, s.len() as int);
                assert(rest[0] == s[k as int]);
                assert(rest.drop_first() =~= s.subrange(k + 1, s.len() as int));
                if ws[k].pid == Some(pid) {
                    assert(rest.len() > 0 && rest[0].pid == Some(pid));
                    assert(first_of_pid(rest, pid) == Some(0int));
                    assert(first_of_pid(s, pid) == Some(k as int));
                    return Some((pid, WindowId(ws[k].info.window_id)));
                }
                k = k + 1;
            }
            None
        },
    }
}

/* ----------------------------- reaching a space ----------------------------- */

/// One step towards another space.
#[derive(Debug, PartialEq, Eq)]
pub enum SwitchStep {
    /// Warp the cursor to the centre of this display, so that the desktop
    /// keys act on it.
    FocusDisplayCenter(DisplayId),
    /// Wait this many milliseconds.
    Pause(u64),
    /// Press Control and a digit key: `Control+n` shows desktop `n` (10 is the 0 key).
    PressCtrlDigit(usize),
    /// Press Control+Right: one desktop to the right.
    PressCtrlRight,
}

/// How to reach a space, and whether it is reached once the steps are done.
#[derive(Debug, PartialEq, Eq)]
pub struct SpaceSwitchPlan {
    pub steps: Vec<SwitchStep>,
    pub reached: bool,
}

/// `n` presses of Control+Right.
pub open spec fn right_presses(n: nat) -> Seq<SwitchStep> {
    Seq::new(n, |i: int| SwitchStep::PressCtrlRight)
}

/// The keys that move from the desktop at index `from` to the one at index
/// `to` (indices count from 0): nothing when they are equal; `Control+(to+1)`
/// and a 200 ms pause for the first ten desktops; otherwise `Control+0` (the
/// tenth desktop), a 250 ms pause, and Control+Right until the target.
pub open spec fn desktop_keys(to: int, from: int) -> Seq<SwitchStep> {
    if to == from {
        Seq::empty()
    } else if to <= 9 {
        seq![SwitchStep::PressCtrlDigit((to + 1) as usize), SwitchStep::Pause(200)]
    } else {
        seq![SwitchStep::PressCtrlDigit(10), SwitchStep::Pause(250)] + right_presses((to - 9) as nat)
    }
}

/// The plan to reach space `sid` from the current display and space:
/// nothing when the tree does not know the space; otherwise, when the space
/// is on another display, the cursor is first warped to that display's
/// centre, followed by a 40 ms pause; then, when the current space's index
/// is known, the desktop keys from the current index to the target's.
pub open spec fn space_switch_plan(
    target_display: Option<DisplayId>,
    target_index: Option<usize>,
    current_display: DisplayId,
    current_index: Option<usize>,
    plan: SpaceSwitchPlan,
) -> bool {
    match (target_display, target_index) {
        (Some(td), Some(ti)) => {
            let moves = if td.0@ != current_display.0@ {
                seq![SwitchStep::FocusDisplayCenter(td), SwitchStep::Pause(40)]
            } else {
                Seq::empty()
            };
            match current_index {
                None => plan.steps@ == moves && !plan.reached,
                Some(ci) => plan.steps@ == moves + desktop_keys(ti as int, ci as int) && plan.reached,
            }
        },
        _ => plan.steps@.len() == 0 && !plan.reached,
    }
}

/// Plans the Mission Control key presses that bring space `space_id` forward,
/// starting from the current display and space.
pub fn plan_space_switch(tree: &ApplicationTree, space_id: SpaceId, current: &DisplaySpace) -> (r:
    SpaceSwitchPlan)
    ensures
        space_switch_plan(
            display_of_space(tree.displays@, space_id),
            index_of_space(tree.displays@, space_id),
            current.display_id,
            index_of_space(tree.displays@, current.space_id),
            r,
        ),
{
    let td = match tree.find_display_from_space(space_id) {
        Some(d) => d,
        None => return SpaceSwitchPlan { steps: Vec::new(), reached: false },
    };
    let ti = match tree.find_space_index(space_id) {
        Some(i) => i,
        None => return SpaceSwitchPlan { steps: Vec::new(), reached: false },
    };
    let ghost tdg = td;
    let mut steps: Vec<SwitchStep> = Vec::new();
    if !td.same(&current.display_id) {
        steps.push(SwitchStep::FocusDisplayCenter(td.duplicate()));
        steps.push(SwitchStep::Pause(40));
    }
    let ghost moves = steps@;
    assert(moves =~= (if tdg.0@ != current.display_id.0@ {
        seq![SwitchStep::FocusDisplayCenter(tdg), SwitchStep::Pause(40)]
    } else {
        Seq::empty()
    }));
    let ci = match tree.find_space_index(current.space_id) {
        Some(i) => i,
        None => return SpaceSwitchPlan { steps, reached: false },
    };
    if ti == ci {
        assert(steps@ =~= moves + desktop_keys(ti as int, ci as int));
        return SpaceSwitchPlan { steps, reached: true };
    }
    if ti <= 9 {
        steps.push(SwitchStep::PressCtrlDigit(ti + 1));
        steps.push(SwitchStep::Pause(200));
        assert(steps@ =~= moves + desktop_keys(ti as int, ci as int));
        return SpaceSwitchPlan { steps, reached: true };
    }
    steps.push(SwitchStep::PressCtrlDigit(10));
    steps.push(SwitchStep::Pause(250));
    let ghost base = steps@;
    let diff = ti - 9;
    let mut n: usize = 0;
    while n < diff
        invariant
            n <= diff,
            steps@ == base + right_presses(n as nat),
        decreases diff - n,
    {
        steps.push(SwitchStep::PressCtrlRight);
        assert(right_presses((n + 1) as nat) =~= right_presses(n as nat).push(SwitchStep::PressCtrlRight));
        n = n + 1;
    }
    assert(steps@ =~= moves + desktop_keys(ti as int, ci as int));
    SpaceSwitchPlan { steps, reached: true }
}

/* --------------------------- bringing a window up --------------------------- */

/// How to bring a window forward: reach its space, then activate its
/// process and focus the window.
#[derive(Debug, PartialEq, Eq)]
pub struct FocusPlan {
    pub switch: SpaceSwitchPlan,
    pub pid: i32,
    pub window_id: WindowId,
}

/// The plan for bringing forward the window of result `w`.
pub open spec fn focus_plan_for(tree: ApplicationTree, w: SearchResult, current: DisplaySpace, p: FocusPlan) -> bool {
    &&& p.pid == w.pid
    &&& p.window_id == w.window_id
    &&& space_switch_plan(
        display_of_space(tree.displays@, w.space_id),
        index_of_space(tree.displays@, w.space_id),
        current.display_id,
        index_of_space(tree.displays@, current.space_id),
        p.switch,
    )
}

fn plan_for(tree: &ApplicationTree, w: &SearchResult, current: &DisplaySpace) -> (r: FocusPlan)
    ensures
        focus_plan_for(*tree, *w, *current, r),
{
    FocusPlan { switch: plan_space_switch(tree, w.space_id, current), pid: w.pid, window_id: w.window_id }
}

/// Brings forward the window with this number: the first window of the
/// tree that has it, if any.
pub fn plan_focus_window(tree: &ApplicationTree, window_id: WindowId, current: &DisplaySpace) -> (r: Option<
    FocusPlan,
>)
    ensures
        ({
            let hits = keep_where(tree.results(), |x: SearchResult| matches_param(SearchParam::ByWindowId(window_id), x));
            &&& r is None <==> hits.len() == 0
            &&& r matches Some(p) ==> focus_plan_for(*tree, hits[0], *current, p)
        }),
{
    let hits = tree.search(SearchParam::ByWindowId(window_id));
    if hits.len() == 0 {
        None
    } else {
        Some(plan_for(tree, &hits[0], current))
    }
}

/// Whether a window belongs to the application of this name.
pub open spec fn of_app(name: Seq<char>) -> spec_fn(SearchResult) -> bool {
    |x: SearchResult| x.app_name@ == name
}

/// Brings forward an application that was just launched: the first window
/// of the tree whose application has this name, if any.
pub fn plan_focus_app(tree: &ApplicationTree, app_name: &str, current: &DisplaySpace) -> (r: Option<FocusPlan>)
    ensures
        ({
            let hits = keep_where(tree.results(), of_app(app_name@));
            &&& r is None <==> hits.len() == 0
            &&& r matches Some(p) ==> focus_plan_for(*tree, hits[0], *current, p)
        }),
{
    let all = tree.flatten();
    let ghost p = of_app(app_name@);
    let mut hits: Vec<SearchResult> = Vec::new();
    let mut i: usize = 0;
    while i < all.len()
        invariant
            i <= all@.len(),
            p == of_app(app_name@),
            hits@ == keep_where(all@.subrange(0, i as int), p),
        decreases all@.len() - i,
    {
        proof {
            lemma_keep_where_step(all@, i as int, p);
        }
        if crate::text::str_eq(all[i].app_name.as_str(), app_name) {
            hits.push(all[i].duplicate());
        }
        i = i + 1;
    }
    assert(all@.subrange(0, all@.len() as int) =~= all@);
    if hits.len() == 0 {
        None
    } else {
        Some(plan_for(tree, &hits[0], current))
    }
}

/* ---------------------------- switching windows ---------------------------- */

/// What to do to bring a switch target forward.
#[derive(Debug, PartialEq, Eq)]
pub enum SwitchAction {
    /// Raise and focus the window of the process that has this title.
    FocusByTitle { pid: i32, title: String },
    /// Activate the application of the process.
    ActivateApp(i32),
}

/// The next action for a switch target: a target with a title is first
/// focused by its title, and its application is activated only when that
/// fails; a target without a title has its application activated.
/// `title_attempt` is the outcome of focusing by title, once tried; `None`
/// is returned once nothing is left to do.
pub open spec fn switch_action_of(t: WindowTarget, title_attempt: Option<bool>) -> Option<(bool, i32, Seq<char>)> {
    match t.title {
        None => Some((false, t.pid, Seq::empty())),
        Some(title) => match title_attempt {
            None => Some((true, t.pid, title@)),
            Some(true) => None,
            Some(false) => Some((false, t.pid, Seq::empty())),
        },
    }
}

/// The action's content: whether it focuses by title, the pid, the title.
pub open spec fn action_model(a: SwitchAction) -> (bool, i32, Seq<char>) {
    match a {
        SwitchAction::FocusByTitle { pid, title } => (true, pid, title@),
        SwitchAction::ActivateApp(pid) => (false, pid, Seq::empty()),
    }
}

/// Decides the next action for bringing a switch target forward.
pub fn focus_switch_target(t: &WindowTarget, title_attempt: Option<bool>) -> (r: Option<SwitchAction>)
    ensures
        match r {
            Some(a) => switch_action_of(*t, title_attempt) == Some(action_model(a)),
            None => switch_action_of(*t, title_attempt) is None,
        },
{
    match &t.title {
        None => Some(SwitchAction::ActivateApp(t.pid)),
        Some(title) => match title_attempt {
            None => Some(SwitchAction::FocusByTitle { pid: t.pid, title: title.clone() }),
            Some(true) => None,
            Some(false) => Some(SwitchAction::ActivateApp(t.pid)),
        },
    }
}

/// The first Accessibility window whose window number is the target; the
/// numbers are those the windows report (`None` where unreadable).
pub open spec fn first_numbered(numbers: Seq<Option<i64>>, target: i64) -> Option<int>
    decreases numbers.len(),
{
    if numbers.len() == 0 {
        None
    } else if numbers[0] == Some(target) {
        Some(0)
    } else {
        match first_numbered(numbers.drop_first(), target) {
            Some(k) => Some(k + 1),
            None => None,
        }
    }
}

/// Picks the Accessibility window that matches a window number.
pub fn match_window_number(numbers: &Vec<Option<i64>>, target: i64) -> (r: Option<usize>)
    ensures
        match r {
            Some(k) => first_numbered(numbers@, target) == Some(k as int),
            None => first_numbered(numbers@, target) is None,
        },
{
    let ghost s = numbers@;
    let mut k: usize = 0;
    assert(s.subrange(0, s.len() as int) =~= s);
    while k < numbers.len()
        invariant
            s == numbers@,
            k <= s.len(),
            first_numbered(s, target) == (match first_numbered(s.subrange(k as int, s.len() as int), target) {
                Some(m) => Some(m + k),
                None => None::<int>,
            }),
        decreases s.len() - k,
    {
        let ghost rest = s.subrange(k as int, s.len() as int);
        assert(rest[0] == s[k as int]);
        assert(rest.drop_first() =~= s.subrange(k + 1, s.len() as int));
        if numbers[k] == Some(target) {
            return Some(k);
        }
        k = k + 1;
    }
    None
}

/// The first Accessibility window whose title is the target.
pub open spec fn first_titled(titles: Seq<Option<String>>, target: Seq<char>) -> Option<int>
    decreases titles.len(),
{
    if titles.len() == 0 {
        None
    } else if (match titles[0] {
        Some(t) => t@ == target,
        None => false,
    }) {
        Some(0)
    } else {
        match first_titled(titles.drop_first(), target) {
            Some(k) => Some(k + 1),
            None => None,
        }
    }
}

/// Picks the Accessibility window that has a title (`None` where unreadable).
pub fn match_window_title(titles: &Vec<Option<String>>, target: &str) -> (r: Option<usize>)
    ensures
        match r {
            Some(k) => first_titled(titles@, target@) == Some(k as int),
            None => first_titled(titles@, target@) is None,
        },
{
    let ghost s = titles@;
    let mut k: usize = 0;
    assert(s.subrange(0, s.len() as int) =~= s);
    while k < titles.len()
        invariant
            s == titles@,
            k <= s.len(),
            first_titled(s, target@) == (match first_titled(s.subrange(k as int, s.len() as int), target@) {
                Some(m) => Some(m + k),
                None => None::<int>,
            }),
        decreases s.len() - k,
    {
        let ghost rest = s.subrange(k as int, s.len() as int);
        assert(rest[0] == s[k as int]);
        assert(rest.drop_first() =~= s.subrange(k + 1, s.len() as int));
        let hit = match &titles[k] {
            Some(t) => crate::text::str_eq(t.as_str(), target),
            None => false,
        };
        if hit {
            return Some(k);
        }
        k = k + 1;
    }
    None
}

/// Why a window could not be focused by its title.
#[derive(Debug, Clone, Copy, PartialEq, Eq, Structural)]
pub enum TitleFocusError {
    /// No Accessibility element could be made for the application.
    NoApplication,
    /// The application's windows could not be read.
    WindowsUnreadable,
    /// No window has the title.
    TitleNotFound,
    /// The window would not be raised.
    RaiseFailed,
}

impl TitleFocusError {
    /// The error's text.
    pub fn message(&self) -> (r: String)
        ensures
            r@ == match *self {
                TitleFocusError::NoApplication => "AXUIElementCreateApplication returned null"@,
                TitleFocusError::WindowsUnreadable => "Failed to read AXWindows"@,
                TitleFocusError::TitleNotFound => "Window title not found via AX"@,
                TitleFocusError::RaiseFailed => "AXRaise failed"@,
            },
    {
        match self {
            TitleFocusError::NoApplication => owned("AXUIElementCreateApplication returned null"),
            TitleFocusError::WindowsUnreadable => owned("Failed to read AXWindows"),
            TitleFocusError::TitleNotFound => owned("Window title not found via AX"),
            TitleFocusError::RaiseFailed => owned("AXRaise failed"),
        }
    }
}

/// The window to focus by title, given whether the application's element
/// could be made and its windows' titles (`None` where the windows could not
/// be read): the first window with the title, or why there is none.
pub open spec fn title_target_of(app_found: bool, titles: Option<Seq<Option<String>>>, target: Seq<char>) -> Result<
    int,
    TitleFocusError,
> {
    if !app_found {
        Err(TitleFocusError::NoApplication)
    } else {
        match titles {
            None => Err(TitleFocusError::WindowsUnreadable),
            Some(ts) => match first_titled(ts, target) {
                Some(k) => Ok(k),
                None => Err(TitleFocusError::TitleNotFound),
            },
        }
    }
}

/// Picks the window to focus by title, or says why there is none.
pub fn title_target(app_found: bool, titles: &Option<Vec<Option<String>>>, target: &str) -> (r: Result<
    usize,
    TitleFocusError,
>)
    ensures
        match r {
            Ok(k) => title_target_of(app_found, view_titles(*titles), target@) == Ok::<int, TitleFocusError>(k as int),
            Err(e) => title_target_of(app_found, view_titles(*titles), target@) == Err::<int, TitleFocusError>(e),
        },
{
    if !app_found {
        return Err(TitleFocusError::NoApplication);
    }
    match titles {
        None => Err(TitleFocusError::WindowsUnreadable),
        Some(ts) => match match_window_title(ts, target) {
            Some(k) => Ok(k),
            None => Err(TitleFocusError::TitleNotFound),
        },
    }
}

/// The titles as a sequence, where they could be read.
pub open spec fn view_titles(titles: Option<Vec<Option<String>>>) -> Option<Seq<Option<String>>> {
    match titles {
        Some(v) => Some(v@),
        None => None,
    }
}

/// One step of bringing the chosen window forward, after it is raised.
#[derive(Debug, Clone, Copy, PartialEq, Eq, Structural)]
pub enum TitleFocusStep {
    /// Make the window its application's main window.
    SetMain,
    /// Make the window its application's focused window.
    SetFocusedWindow,
    /// Unhide the application.
    Unhide,
    /// Unminimize the window.
    Unminimize,
    /// Make the application frontmost.
    SetFrontmost,
    /// Make the application the system's focused application.
    SetSystemFocusedApp,
}

/// What follows the raise of the chosen window: when it was raised, the
/// remaining steps in order; otherwise the focus fails.
pub open spec fn after_raise_of(raised: bool) -> Result<Seq<TitleFocusStep>, TitleFocusError> {
    if raised {
        Ok(
            seq![
                TitleFocusStep::SetMain,
                TitleFocusStep::SetFocusedWindow,
                TitleFocusStep::Unhide,
                TitleFocusStep::Unminimize,
                TitleFocusStep::SetFrontmost,
                TitleFocusStep::SetSystemFocusedApp,
            ],
        )
    } else {
        Err(TitleFocusError::RaiseFailed)
    }
}

/// The steps after raising the chosen window, given whether it was raised.
pub fn after_raise(raised: bool) -> (r: Result<Vec<TitleFocusStep>, TitleFocusError>)
    ensures
        match r {
            Ok(v) => after_raise_of(raised) == Ok::<Seq<TitleFocusStep>, TitleFocusError>(v@),
            Err(e) => after_raise_of(raised) == Err::<Seq<TitleFocusStep>, TitleFocusError>(e),
        },
{
    if !raised {
        return Err(TitleFocusError::RaiseFailed);
    }
    let mut v: Vec<TitleFocusStep> = Vec::new();
    v.push(TitleFocusStep::SetMain);
    v.push(TitleFocusStep::SetFocusedWindow);
    v.push(TitleFocusStep::Unhide);
    v.push(TitleFocusStep::Unminimize);
    v.push(TitleFocusStep::SetFrontmost);
    v.push(TitleFocusStep::SetSystemFocusedApp);
    assert(v@ =~= seq![
        TitleFocusStep::SetMain,
        TitleFocusStep::SetFocusedWindow,
        TitleFocusStep::Unhide,
        TitleFocusStep::Unminimize,
        TitleFocusStep::SetFrontmost,
        TitleFocusStep::SetSystemFocusedApp,
    ]);
    Ok(v)
}

} // verus!
