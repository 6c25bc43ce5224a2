//! The display / space / window inventory that the SkyLight layer reports,
//! and the decisions made on it: space kinds, window classification and
//! filtering, the CoreGraphics metadata index, and the assembly of the
//! per-display space lists.

use vstd::prelude::*;

use crate::seqs::{keep_where, lemma_keep_where_step};
use crate::text::str_eq;
use std::collections::HashMap;

verus! {

/// Identifier of a Mission Control space.
#[derive(Debug, Clone, Copy, PartialEq, Eq, Structural)]
pub struct SpaceId(pub u64);

/// Identifier of a display (a UUID-like string).
#[derive(Debug, PartialEq, Eq)]
pub struct DisplayId(pub String);

/// Identifier of a window.
#[derive(Debug, Clone, Copy, PartialEq, Eq, Structural)]
pub struct WindowId(pub i64);

impl DisplayId {
    /// A copy of the identifier.
    pub fn duplicate(&self) -> (r: DisplayId)
        ensures
            r == *self,
    {
        DisplayId(self.0.clone())
    }

    /// Whether both identifiers hold the same string.
    pub fn same(&self, other: &DisplayId) -> (r: bool)
        ensures
            r == (self.0@ == other.0@),
    {
        str_eq(self.0.as_str(), other.0.as_str())
    }
}

/// The kind of a space.
#[derive(Debug, Clone, Copy, PartialEq, Eq, Structural)]
pub enum SpaceType {
    User,
    System,
    Fullscreen,
    Other(i32),
}

/// The space kind that a raw SkyLight space type code stands for.
pub open spec fn space_type_of(code: i32) -> SpaceType {
    if code == 0 {
        SpaceType::User
    } else if code == 2 {
        SpaceType::System
    } else if code == 4 {
        SpaceType::Fullscreen
    } else {
        SpaceType::Other(code)
    }
}

impl SpaceType {
    /// Interprets a raw SkyLight space type code: 0 is a user space, 2 a
    /// system space, 4 a fullscreen space; any other code is kept as is.
    pub fn from_raw(code: i32) -> (r: SpaceType)
        ensures
            r == space_type_of(code),
    {
        match code {
            0 => SpaceType::User,
            2 => SpaceType::System,
            4 => SpaceType::Fullscreen,
            x => SpaceType::Other(x),
        }
    }
}

/// One space of a display.
#[derive(Debug, Clone, Copy, PartialEq, Eq, Structural)]
pub struct SpaceRecord {
    pub id: SpaceId,
    pub kind: SpaceType,
    pub is_current_on_display: bool,
}

/// A display with its current space and all of its spaces.
#[derive(Debug, PartialEq, Eq)]
pub struct DisplaySpaces {
    pub display_identifier: DisplayId,
    pub current: SpaceId,
    pub spaces: Vec<SpaceRecord>,
}

impl DisplaySpaces {
    /// The record as text: `Display: ` and the display's identifier.
    pub fn describe(&self) -> (r: String)
        ensures
            r@ == "Display: "@ + self.display_identifier.0@,
    {
        let mut out = String::from_str("Display: ");
        out.append(self.display_identifier.0.as_str());
        out
    }

    /// A copy of the record.
    pub fn duplicate(&self) -> (r: DisplaySpaces)
        ensures
            r.display_identifier == self.display_identifier,
            r.current == self.current,
            r.spaces@ == self.spaces@,
    {
        DisplaySpaces {
            display_identifier: self.display_identifier.duplicate(),
            current: self.current,
            spaces: self.spaces.clone(),
        }
    }
}

/// What the window server reports of one window.
#[derive(Debug, Clone, Copy, PartialEq, Eq, Structural)]
pub struct WindowInfo {
    pub window_id: i64,
    pub parent_window_id: u32,
    pub level: i32,
    pub tags: u64,
    pub attributes: u64,
    pub space_id: SpaceId,
}

/// A window together with the owner and title that CoreGraphics reports.
#[derive(Debug, PartialEq, Eq)]
pub struct Window {
    pub info: WindowInfo,
    pub pid: Option<i32>,
    pub owner_name: Option<String>,
    pub title: Option<String>,
}

/// The windows of one space, with the display the space belongs to.
#[derive(Debug, PartialEq, Eq)]
pub struct PerSpaceWindows {
    pub display_identifier: DisplayId,
    pub space: SpaceRecord,
    pub windows: Vec<WindowInfo>,
}

/* ------------------------------ window kinds ------------------------------ */

/// Set of window kinds, one bit per kind; kinds may be combined.
#[derive(Debug, Clone, Copy, PartialEq, Eq, Structural)]
pub struct WindowKindFilter {
    pub bits: u32,
}

/// Standard application windows.
pub open spec fn KIND_APP() -> u32 {
    1
}

/// Floating, utility and panel-like windows.
pub open spec fn KIND_UTILITY() -> u32 {
    2
}

/// Fullscreen-style windows.
pub open spec fn KIND_FULLSCREEN() -> u32 {
    4
}

/// Minimized windows, as inferred from their tags.
pub open spec fn KIND_MINIMIZED() -> u32 {
    8
}

/// Anything that fits no other kind.
pub open spec fn KIND_OTHER() -> u32 {
    16
}

impl WindowKindFilter {
    pub fn empty() -> (r: WindowKindFilter)
        ensures
            r.bits == 0,
    {
        WindowKindFilter { bits: 0 }
    }

    pub fn app() -> (r: WindowKindFilter)
        ensures
            r.bits == KIND_APP(),
    {
        WindowKindFilter { bits: 1 }
    }

    pub fn utility() -> (r: WindowKindFilter)
        ensures
            r.bits == KIND_UTILITY(),
    {
        WindowKindFilter { bits: 2 }
    }

    pub fn fullscreen() -> (r: WindowKindFilter)
        ensures
            r.bits == KIND_FULLSCREEN(),
    {
        WindowKindFilter { bits: 4 }
    }

    pub fn minimized() -> (r: WindowKindFilter)
        ensures
            r.bits == KIND_MINIMIZED(),
    {
        WindowKindFilter { bits: 8 }
    }

    pub fn other() -> (r: WindowKindFilter)
        ensures
            r.bits == KIND_OTHER(),
    {
        WindowKindFilter { bits: 16 }
    }

    /// Every kind: all bits set.
    pub fn all() -> (r: WindowKindFilter)
        ensures
            r.bits == u32::MAX,
    {
        WindowKindFilter { bits: u32::MAX }
    }

    pub fn bits(&self) -> (r: u32)
        ensures
            r == self.bits,
    {
        self.bits
    }

    pub fn is_empty(&self) -> (r: bool)
        ensures
            r == (self.bits == 0),
    {
        self.bits == 0
    }

    pub fn union(self, other: WindowKindFilter) -> (r: WindowKindFilter)
        ensures
            r.bits == self.bits | other.bits,
    {
        WindowKindFilter { bits: self.bits | other.bits }
    }

    pub fn intersection(self, other: WindowKindFilter) -> (r: WindowKindFilter)
        ensures
            r.bits == self.bits & other.bits,
    {
        WindowKindFilter { bits: self.bits & other.bits }
    }

    pub fn contains(&self, other: WindowKindFilter) -> (r: bool)
        ensures
            r == (self.bits & other.bits == other.bits),
    {
        self.bits & other.bits == other.bits
    }
}

/// Options handed to the window server when listing windows.
#[derive(Debug, Clone, Copy, PartialEq, Eq, Structural)]
pub struct WindowListOptions {
    pub bits: u32,
}

impl WindowListOptions {
    /// Visible windows (the usual request).
    pub fn visible() -> (r: WindowListOptions)
        ensures
            r.bits == 2,
    {
        WindowListOptions { bits: 2 }
    }

    /// A broader request that often includes minimized and off-space windows.
    pub fn include_minimized() -> (r: WindowListOptions)
        ensures
            r.bits == 7,
    {
        WindowListOptions { bits: 7 }
    }

    /// Every declared option.
    pub fn all() -> (r: WindowListOptions)
        ensures
            r.bits == 7,
    {
        WindowListOptions { bits: 7 }
    }

    pub fn bits(&self) -> (r: u32)
        ensures
            r == self.bits,
    {
        self.bits
    }
}

/// Tag bit seen on windows that have a title bar.
pub open spec fn TAG_HAS_TITLEBAR_LIKE() -> u64 {
    0x0400_0000_0000_0000
}

/// Tag bits seen on minimized windows.
pub open spec fn TAG_MINIMIZED_1() -> u64 {
    0x1000_0000_0000_0000
}

pub open spec fn TAG_MINIMIZED_2() -> u64 {
    0x0300_0000_0000_0000
}

/// Whether the window's tags mark it as minimized.
pub open spec fn looks_minimized(w: WindowInfo) -> bool {
    (w.tags & TAG_MINIMIZED_1()) != 0 || (w.tags & TAG_MINIMIZED_2()) != 0
}

/// The one layout kind of a window: fullscreen for top-level windows at
/// level 8 or above, utility at level 3, an application window at level 0
/// when it looks standard (attribute bit 2 or a title bar tag), and other
/// in every remaining case, child windows included.
pub open spec fn layout_kind(w: WindowInfo) -> u32 {
    let top_level = w.parent_window_id == 0;
    let standardish = (w.attributes & 2) != 0 || (w.tags & TAG_HAS_TITLEBAR_LIKE()) != 0;
    if top_level && w.level >= 8 {
        KIND_FULLSCREEN()
    } else if top_level && w.level == 3 {
        KIND_UTILITY()
    } else if top_level && w.level == 0 && standardish {
        KIND_APP()
    } else {
        KIND_OTHER()
    }
}

/// All kinds a window plausibly belongs to: its layout kind, plus
/// minimized when its tags say so.
pub open spec fn kind_mask(w: WindowInfo) -> u32 {
    if looks_minimized(w) {
        layout_kind(w) | KIND_MINIMIZED()
    } else {
        layout_kind(w)
    }
}

/// The kinds that a window belongs to. A window can be in several kinds
/// (a minimized application window is both), and is always in at least one.
pub fn classify_window_mask(w: &WindowInfo) -> (r: WindowKindFilter)
    ensures
        r.bits == kind_mask(*w),
        r.bits != 0,
{
    let tags = w.tags;
    let attrs = w.attributes;
    let minimized = (tags & 0x1000_0000_0000_0000u64) != 0 || (tags & 0x0300_0000_0000_0000u64) != 0;
    let top_level = w.parent_window_id == 0;
    let standardish = (attrs & 2) != 0 || (tags & 0x0400_0000_0000_0000u64) != 0;
    let kind: u32 = if top_level {
        if w.level >= 8 {
            4
        } else if w.level == 3 {
            2
        } else if w.level == 0 && standardish {
            1
        } else {
            16
        }
    } else {
        16
    };
    assert(kind == layout_kind(*w));
    let r = if minimized {
        kind | 8
    } else {
        kind
    };
    assert(kind | 8 != 0) by (bit_vector)
        requires
            kind == 1 || kind == 2 || kind == 4 || kind == 16,
    ;
    WindowKindFilter { bits: r }
}

/// The kind bits of a window, bit by bit: minimized (8) exactly when its
/// tags meet `0x1000_0000_0000_0000` or `0x0300_0000_0000_0000`;
/// fullscreen (4) for a top-level window at level 8 or above; utility (2)
/// for a top-level window at level 3; application (1) for a top-level
/// window at level 0 with attribute bit 2 or tag `0x0400_0000_0000_0000`;
/// other (16) exactly when none of these three holds; and no other bit.
pub proof fn law_kind_bits(w: WindowInfo)
    ensures
        (kind_mask(w) & 8 != 0) <==> ((w.tags & 0x1000_0000_0000_0000u64) != 0 || (w.tags & 0x0300_0000_0000_0000u64)
            != 0),
        (kind_mask(w) & 4 != 0) <==> (w.parent_window_id == 0 && w.level >= 8),
        (kind_mask(w) & 2 != 0) <==> (w.parent_window_id == 0 && w.level == 3),
        (kind_mask(w) & 1 != 0) <==> (w.parent_window_id == 0 && w.level == 0 && ((w.attributes & 2) != 0 || (w.tags
            & 0x0400_0000_0000_0000u64) != 0)),
        (kind_mask(w) & 16 != 0) <==> !((w.parent_window_id == 0 && w.level >= 8) || (w.parent_window_id == 0
            && w.level == 3) || (w.parent_window_id == 0 && w.level == 0 && ((w.attributes & 2) != 0 || (w.tags
            & 0x0400_0000_0000_0000u64) != 0))),
        kind_mask(w) & !31u32 == 0,
{
    let k = layout_kind(w);
    let m = kind_mask(w);
    let lm = (w.tags & 0x1000_0000_0000_0000u64) != 0 || (w.tags & 0x0300_0000_0000_0000u64) != 0;
    assert(looks_minimized(w) == lm);
    assert(m == (if lm { k | 8 } else { k }));
    assert(k == 1 || k == 2 || k == 4 || k == 16);
    assert((k == 1 || k == 2 || k == 4 || k == 16) ==> {
        &&& (k | 8) & 8 != 0 && k & 8 == 0
        &&& (k | 8) & 4 == k & 4 && (k | 8) & 2 == k & 2 && (k | 8) & 1 == k & 1 && (k | 8) & 16 == k & 16
        &&& (k | 8) & !31u32 == 0 && k & !31u32 == 0
        &&& (k & 4 != 0) == (k == 4) && (k & 2 != 0) == (k == 2) && (k & 1 != 0) == (k == 1) && (k & 16 != 0) == (k
            == 16)
    }) by (bit_vector);
}

/// A filter keeps a window exactly when it is empty (every kind) or shares
/// a kind bit with the window; so a minimized window is kept by the
/// minimized filter (8) whatever its layout.
pub proof fn law_filter_keeps_shared_kinds(kinds: u32, w: WindowInfo)
    ensures
        kind_selected(kinds, w) <==> (kinds == 0 || kind_mask(w) & kinds != 0),
        ((w.tags & 0x1000_0000_0000_0000u64) != 0 || (w.tags & 0x0300_0000_0000_0000u64) != 0) ==> kind_selected(8, w),
{
    law_kind_bits(w);
    law_every_window_has_a_kind(w);
    let m = kind_mask(w);
    assert(m & 0xFFFF_FFFFu32 == m) by (bit_vector);
}

/// Combining filters: the union of two filters contains each of them, and
/// their intersection is contained in each.
pub proof fn law_union_and_intersection(a: u32, b: u32)
    ensures
        (a | b) & a == a,
        (a | b) & b == b,
        a & (a & b) == a & b,
        b & (a & b) == a & b,
{
    assert((a | b) & a == a) by (bit_vector);
    assert((a | b) & b == b) by (bit_vector);
    assert(a & (a & b) == a & b) by (bit_vector);
    assert(b & (a & b) == a & b) by (bit_vector);
}

/// Every window has at least one kind, so a filter that holds every kind,
/// and the empty filter (which means every kind), keep every window.
pub proof fn law_every_window_has_a_kind(w: WindowInfo)
    ensures
        kind_mask(w) != 0,
        kind_selected(0, w),
        kind_selected(u32::MAX, w),
{
    let k = layout_kind(w);
    let m = kind_mask(w);
    assert(k == 1 || k == 2 || k == 4 || k == 16);
    assert(m == k || m == k | 8);
    assert((k == 1 || k == 2 || k == 4 || k == 16) && (m == k || m == k | 8) ==> m != 0 && m & 0xFFFF_FFFF != 0)
        by (bit_vector);
}

/// The filter actually applied: an empty filter means every kind.
pub open spec fn effective_kinds(kinds: u32) -> u32 {
    if kinds == 0 {
        u32::MAX
    } else {
        kinds
    }
}

/// Whether a window is kept by a kind filter.
pub open spec fn kind_selected(kinds: u32, w: WindowInfo) -> bool {
    kind_mask(w) & effective_kinds(kinds) != 0
}

/// The windows of `infos` that belong to at least one of `kinds`, in order;
/// an empty `kinds` keeps every window.
pub fn select_by_kind(infos: &Vec<WindowInfo>, kinds: WindowKindFilter) -> (r: Vec<WindowInfo>)
    ensures
        r@ == keep_where(infos@, |w: WindowInfo| kind_selected(kinds.bits, w)),
{
    let eff = if kinds.is_empty() {
        WindowKindFilter::all()
    } else {
        kinds
    };
    let ghost p = |w: WindowInfo| kind_selected(kinds.bits, w);
    let mut out: Vec<WindowInfo> = Vec::new();
    let mut i: usize = 0;
    while i < infos.len()
        invariant
            i <= infos@.len(),
            eff.bits == effective_kinds(kinds.bits),
            p == (|w: WindowInfo| kind_selected(kinds.bits, w)),
            out@ == keep_where(infos@.subrange(0, i as int), p),
        decreases infos@.len() - i,
    {
        let w = infos[i];
        proof {
            lemma_keep_where_step(infos@, i as int, p);
        }
        let mask = classify_window_mask(&w);
        if !mask.intersection(eff).is_empty() {
            out.push(w);
        }
        i = i + 1;
    }
    assert(infos@.subrange(0, infos@.len() as int) =~= infos@);
    out
}

/* ------------------------- CoreGraphics window index ------------------------- */

/// What one CoreGraphics window dictionary holds: window number, owner pid,
/// owner name and title, each of which may be missing.
#[derive(Debug, PartialEq, Eq)]
pub struct CgWindowEntry {
    pub number: Option<i64>,
    pub owner_pid: Option<i64>,
    pub owner_name: Option<String>,
    pub title: Option<String>,
}

/// Owner pid, owner name and title of a window.
#[derive(Debug, PartialEq, Eq)]
pub struct CgWindowMeta {
    pub pid: Option<i32>,
    pub owner_name: Option<String>,
    pub title: Option<String>,
}

impl CgWindowMeta {
    pub fn duplicate(&self) -> (r: CgWindowMeta)
        ensures
            r == *self,
    {
        CgWindowMeta {
            pid: self.pid,
            owner_name: self.owner_name.clone(),
            title: self.title.clone(),
        }
    }
}

/// The metadata an entry contributes: the pid truncated to 32 bits.
pub open spec fn meta_of(e: CgWindowEntry) -> CgWindowMeta {
    CgWindowMeta {
        pid: match e.owner_pid {
            Some(p) => Some(p as i32),
            None => None,
        },
        owner_name: e.owner_name,
        title: e.title,
    }
}

/// The index of window number (truncated to 32 bits) to metadata, built
/// by inserting the entries in order, so that a later entry for the same
/// number replaces an earlier one; entries without a number are skipped.
pub open spec fn cg_index(entries: Seq<CgWindowEntry>) -> Map<u32, CgWindowMeta>
    decreases entries.len(),
{
    if entries.len() == 0 {
        Map::empty()
    } else {
        let rest = cg_index(entries.drop_last());
        match entries.last().number {
            Some(n) => rest.insert(n as u32, meta_of(entries.last())),
            None => rest,
        }
    }
}

/// The CoreGraphics metadata index of a window list, looked up by number.
pub struct CgIndex {
    pub map: HashMap<u32, CgWindowMeta>,
}

impl CgIndex {
    /// Builds the index from the window dictionaries in list order: an
    /// entry without a window number is skipped, and a later entry for the
    /// same number replaces an earlier one.
    pub fn build(entries: &Vec<CgWindowEntry>) -> (r: CgIndex)
        ensures
            r.map@ == cg_index(entries@),
    {
        broadcast use vstd::std_specs::hash::group_hash_axioms;

        let mut map: HashMap<u32, CgWindowMeta> = HashMap::new();
        let mut i: usize = 0;
        assert(entries@.subrange(0, 0) =~= Seq::<CgWindowEntry>::empty());
        while i < entries.len()
            invariant
                i <= entries@.len(),
                map@ == cg_index(entries@.subrange(0, i as int)),
            decreases entries@.len() - i,
        {
            let e = &entries[i];
            assert(entries@.subrange(0, i + 1).drop_last() =~= entries@.subrange(0, i as int));
            assert(entries@.subrange(0, i + 1).last() == entries@[i as int]);
            if let Some(n) = e.number {
                let pid = match e.owner_pid {
                    Some(p) => Some(p as i32),
                    None => None,
                };
                let meta = CgWindowMeta {
                    pid,
                    owner_name: e.owner_name.clone(),
                    title: e.title.clone(),
                };
                map.insert(n as u32, meta);
            }
            i = i + 1;
        }
        assert(entries@.subrange(0, entries@.len() as int) =~= entries@);
        CgIndex { map }
    }

    /// The metadata recorded for a window number, if any.
    pub fn get(&self, number: u32) -> (r: Option<CgWindowMeta>)
        ensures
            r == (if self.map@.contains_key(number) {
                Some(self.map@[number])
            } else {
                None
            }),
    {
        broadcast use vstd::std_specs::hash::group_hash_axioms;

        match self.map.get(&number) {
            Some(m) => Some(m.duplicate()),
            None => None,
        }
    }
}

/// The window with the metadata that the index holds for its number
/// (the window id truncated to 32 bits), or with none.
pub open spec fn annotated(info: WindowInfo, index: Map<u32, CgWindowMeta>) -> Window {
    let key = info.window_id as u32;
    if index.contains_key(key) {
        Window {
            info,
            pid: index[key].pid,
            owner_name: index[key].owner_name,
            title: index[key].title,
        }
    } else {
        Window { info, pid: None, owner_name: None, title: None }
    }
}

/// Attaches owner pid, owner name and title from the CoreGraphics index to
/// each window, keeping the order of the windows.
pub fn annotate_windows(wins: &Vec<WindowInfo>, index: &CgIndex) -> (r: Vec<Window>)
    ensures
        r@.len() == wins@.len(),
        forall|k: int| 0 <= k < wins@.len() ==> #[trigger] r@[k] == annotated(wins@[k], index.map@),
{
    let mut out: Vec<Window> = Vec::new();
    let mut i: usize = 0;
    while i < wins.len()
        invariant
            i <= wins@.len(),
            out@.len() == i,
            forall|k: int| 0 <= k < i ==> #[trigger] out@[k] == annotated(wins@[k], index.map@),
        decreases wins@.len() - i,
    {
        let info = wins[i];
        let w = match index.get(info.window_id as u32) {
            Some(m) => Window { info, pid: m.pid, owner_name: m.owner_name, title: m.title },
            None => Window { info, pid: None, owner_name: None, title: None },
        };
        out.push(w);
        i = i + 1;
    }
    out
}

/* --------------------------- space inventory --------------------------- */

/// The space that the window server reports as active: a zero id means
/// that no space is active.
pub fn current_space_from_raw(sid: u64) -> (r: Option<SpaceId>)
    ensures
        r == (if sid != 0 {
            Some(SpaceId(sid))
        } else {
            None
        }),
{
    if sid != 0 {
        Some(SpaceId(sid))
    } else {
        None
    }
}

/// One entry of a display's space list as read from the window server:
/// its 64-bit id when present and readable, and the kind reported for it.
#[derive(Debug, Clone, Copy, PartialEq, Eq, Structural)]
pub struct RawSpace {
    pub id64: Option<i64>,
    pub kind: SpaceType,
}

/// One display dictionary as read from the window server.
#[derive(Debug, PartialEq, Eq)]
pub struct RawDisplay {
    pub identifier: Option<String>,
    pub current_id64: Option<i64>,
    pub spaces: Vec<RawSpace>,
}

/// The mathematical content of a `DisplaySpaces`.
pub struct DisplaySpacesModel {
    pub display_identifier: Seq<char>,
    pub current: SpaceId,
    pub spaces: Seq<SpaceRecord>,
}

impl View for DisplaySpaces {
    type V = DisplaySpacesModel;

    open spec fn view(&self) -> DisplaySpacesModel {
        DisplaySpacesModel {
            display_identifier: self.display_identifier.0@,
            current: self.current,
            spaces: self.spaces@,
        }
    }
}

/// The space records of a display: entries without an id are skipped, ids
/// are reinterpreted as unsigned, and the record of the display's current
/// space is marked current.
pub open spec fn space_records(raw: Seq<RawSpace>, current: SpaceId) -> Seq<SpaceRecord>
    decreases raw.len(),
{
    if raw.len() == 0 {
        Seq::empty()
    } else {
        let rest = space_records(raw.drop_last(), current);
        match raw.last().id64 {
            Some(id) => rest.push(
                SpaceRecord {
                    id: SpaceId(id as u64),
                    kind: raw.last().kind,
                    is_current_on_display: SpaceId(id as u64) == current,
                },
            ),
            None => rest,
        }
    }
}

/// The displays that the window server reports: missing entries, and
/// entries that do not name their display or its current space, are
/// skipped; the others become one `DisplaySpaces` each, in order.
pub open spec fn displays_of(raw: Seq<Option<RawDisplay>>) -> Seq<DisplaySpacesModel>
    decreases raw.len(),
{
    if raw.len() == 0 {
        Seq::empty()
    } else {
        let rest = displays_of(raw.drop_last());
        match raw.last() {
            Some(d) => match (d.identifier, d.current_id64) {
                (Some(ident), Some(cur)) => {
                    let current = SpaceId(cur as u64);
                    rest.push(
                        DisplaySpacesModel {
                            display_identifier: ident@,
                            current,
                            spaces: space_records(d.spaces@, current),
                        },
                    )
                },
                _ => rest,
            },
            None => rest,
        }
    }
}

/// The space records of one display.
pub fn collect_space_records(raw: &Vec<RawSpace>, current: SpaceId) -> (r: Vec<SpaceRecord>)
    ensures
        r@ == space_records(raw@, current),
{
    let mut out: Vec<SpaceRecord> = Vec::new();
    let mut i: usize = 0;
    assert(raw@.subrange(0, 0) =~= Seq::<RawSpace>::empty());
    while i < raw.len()
        invariant
            i <= raw@.len(),
            out@ == space_records(raw@.subrange(0, i as int), current),
        decreases raw@.len() - i,
    {
        let sp = raw[i];
        assert(raw@.subrange(0, i + 1).drop_last() =~= raw@.subrange(0, i as int));
        assert(raw@.subrange(0, i + 1).last() == raw@[i as int]);
        if let Some(id) = sp.id64 {
            let sid = SpaceId(id as u64);
            out.push(SpaceRecord { id: sid, kind: sp.kind, is_current_on_display: sid == current });
        }
        i = i + 1;
    }
    assert(raw@.subrange(0, raw@.len() as int) =~= raw@);
    out
}

/// Groups the spaces by display; a display entry is reported only when it
/// names its display and its current space.
pub fn assemble_display_spaces(raw: &Vec<Option<RawDisplay>>) -> (r: Vec<DisplaySpaces>)
    ensures
        r@.map_values(|d: DisplaySpaces| d@) == displays_of(raw@),
{
    let mut out: Vec<DisplaySpaces> = Vec::new();
    let mut i: usize = 0;
    assert(raw@.subrange(0, 0) =~= Seq::<Option<RawDisplay>>::empty());
    assert(out@.map_values(|d: DisplaySpaces| d@) =~= Seq::<DisplaySpacesModel>::empty());
    while i < raw.len()
        invariant
            i <= raw@.len(),
            out@.map_values(|d: DisplaySpaces| d@) == displays_of(raw@.subrange(0, i as int)),
        decreases raw@.len() - i,
    {
        assert(raw@.subrange(0, i + 1).drop_last() =~= raw@.subrange(0, i as int));
        assert(raw@.subrange(0, i + 1).last() == raw@[i as int]);
        match &raw[i] {
            Some(d) => {
                let ident = match &d.identifier {
                    Some(s) => s.clone(),
                    None => {
                        i = i + 1;
                        continue;
                    },
                };
                let cur = match d.current_id64 {
                    Some(c) => c,
                    None => {
                        i = i + 1;
                        continue;
                    },
                };
                let current = SpaceId(cur as u64);
                let spaces = collect_space_records(&d.spaces, current);
                let ds = DisplaySpaces { display_identifier: DisplayId(ident), current, spaces };
                let ghost before = out@;
                out.push(ds);
                assert(out@.map_values(|d: DisplaySpaces| d@) =~= before.map_values(
                    |d: DisplaySpaces| d@,
                ).push(ds@));
            },
            None => {},
        }
        i = i + 1;
    }
    assert(raw@.subrange(0, raw@.len() as int) =~= raw@);
    out
}

/// The windows of every space, display after display and space after
/// space: each with its display's identifier and its space record.
pub open spec fn space_groups(ds: Seq<DisplaySpaces>, ws: Seq<Vec<Vec<WindowInfo>>>) -> Seq<
    (Seq<char>, SpaceRecord, Seq<WindowInfo>),
>
    decreases ds.len(),
{
    if ds.len() == 0 || ws.len() != ds.len() {
        Seq::empty()
    } else {
        let d = ds.last();
        space_groups(ds.drop_last(), ws.drop_last()) + Seq::new(
            d.spaces@.len(),
            |j: int| (d.display_identifier.0@, d.spaces@[j], ws.last()@[j]@),
        )
    }
}

/// The view of a group of windows.
pub open spec fn group_view(g: PerSpaceWindows) -> (Seq<char>, SpaceRecord, Seq<WindowInfo>) {
    (g.display_identifier.0@, g.space, g.windows@)
}

/// Groups the windows found on each space with the space and its display;
/// `windows[i][j]` are the windows of space `j` of display `i`.
pub fn group_by_space(displays: &Vec<DisplaySpaces>, windows: Vec<Vec<Vec<WindowInfo>>>) -> (r: Vec<
    PerSpaceWindows,
>)
    requires
        windows@.len() == displays@.len(),
        forall|i: int| 0 <= i < displays@.len() ==> (#[trigger] windows@[i])@.len() == displays@[i].spaces@.len(),
    ensures
        r@.map_values(|g: PerSpaceWindows| group_view(g)) == space_groups(displays@, windows@),
{
    let ghost all = windows@;
    let mut rest = windows;
    let mut out: Vec<PerSpaceWindows> = Vec::new();
    let mut i: usize = 0;
    assert(out@.map_values(|g: PerSpaceWindows| group_view(g)) =~= space_groups(
        displays@.subrange(0, 0),
        all.subrange(0, 0),
    ));
    while i < displays.len()
        invariant
            all.len() == displays@.len(),
            forall|k: int| 0 <= k < displays@.len() ==> (#[trigger] all[k])@.len() == displays@[k].spaces@.len(),
            i <= displays@.len(),
            rest@ == all.subrange(i as int, all.len() as int),
            out@.map_values(|g: PerSpaceWindows| group_view(g)) == space_groups(
                displays@.subrange(0, i as int),
                all.subrange(0, i as int),
            ),
        decreases displays@.len() - i,
    {
        let d = &displays[i];
        let ghost before = out@.map_values(|g: PerSpaceWindows| group_view(g));
        let ws = rest.remove(0);
        assert(ws == all[i as int]);
        let ghost wsv = ws@;
        let mut spaces_ws = ws;
        let mut j: usize = 0;
        while j < d.spaces.len()
            invariant
                j <= d.spaces@.len(),
                wsv.len() == d.spaces@.len(),
                spaces_ws@ == wsv.subrange(j as int, wsv.len() as int),
                out@.map_values(|g: PerSpaceWindows| group_view(g)) == before + Seq::new(
                    j as nat,
                    |k: int| (d.display_identifier.0@, d.spaces@[k], wsv[k]@),
                ),
            decreases d.spaces@.len() - j,
        {
            let w = spaces_ws.remove(0);
            assert(w == wsv[j as int]);
            let ghost prev = out@;
            out.push(PerSpaceWindows { display_identifier: d.display_identifier.duplicate(), space: d.spaces[j], windows: w });
            assert(out@.map_values(|g: PerSpaceWindows| group_view(g)) =~= prev.map_values(
                |g: PerSpaceWindows| group_view(g),
            ).push((d.display_identifier.0@, d.spaces@[j as int], wsv[j as int]@)));
            assert(before + Seq::new((j + 1) as nat, |k: int| (d.display_identifier.0@, d.spaces@[k], wsv[k]@))
                =~= (before + Seq::new(j as nat, |k: int| (d.display_identifier.0@, d.spaces@[k], wsv[k]@))).push(
                (d.display_identifier.0@, d.spaces@[j as int], wsv[j as int]@),
            ));
            j = j + 1;
        }
        assert(displays@.subrange(0, i + 1).drop_last() =~= displays@.subrange(0, i as int));
        assert(all.subrange(0, i + 1).drop_last() =~= all.subrange(0, i as int));
        assert(out@.map_values(|g: PerSpaceWindows| group_view(g)) =~= space_groups(
            displays@.subrange(0, i + 1),
            all.subrange(0, i + 1),
        ));
        i = i + 1;
    }
    assert(displays@.subrange(0, displays@.len() as int) =~= displays@);
    assert(all.subrange(0, all.len() as int) =~= all);
    out
}

} // verus!
