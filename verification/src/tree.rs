//! The application tree: displays, their spaces and the application windows
//! on each space, with the flattened view and the searches run on it.

use vstd::prelude::*;

use crate::seqs::{keep_where, lemma_keep_where_complete, lemma_keep_where_sound, lemma_keep_where_step};
use crate::sky::{DisplayId, DisplaySpaces, SpaceId, Window, WindowId};
use crate::text::{bool_text, bool_to_string, decimal, int_text, int_to_string, owned, str_eq, u64_to_string};

verus! {

/// A window of a space.
#[derive(Debug, PartialEq, Eq)]
pub struct WindowNode {
    pub id: WindowId,
    pub title: Option<String>,
    pub pid: i32,
    pub app_name: String,
    pub is_focused: bool,
}

/// A space of a display, with its position among the display's spaces.
#[derive(Debug, PartialEq, Eq)]
pub struct SpaceNode {
    pub id: SpaceId,
    pub index: usize,
    pub windows: Vec<WindowNode>,
}

/// A display and its spaces.
#[derive(Debug, PartialEq, Eq)]
pub struct DisplayNode {
    pub id: DisplayId,
    pub spaces: Vec<SpaceNode>,
}

/// Displays, then spaces, then windows.
#[derive(Debug, PartialEq, Eq)]
pub struct ApplicationTree {
    pub displays: Vec<DisplayNode>,
}

/// A window together with where it lives.
#[derive(Debug, PartialEq, Eq)]
pub struct SearchResult {
    pub display_id: DisplayId,
    pub space_id: SpaceId,
    pub space_index: usize,
    pub window_id: WindowId,
    pub title: Option<String>,
    pub pid: i32,
    pub app_name: String,
    pub is_focused: bool,
}

impl SearchResult {
    /// A copy of the result.
    pub fn duplicate(&self) -> (r: SearchResult)
        ensures
            r == *self,
    {
        SearchResult {
            display_id: self.display_id.duplicate(),
            space_id: self.space_id,
            space_index: self.space_index,
            window_id: self.window_id,
            title: self.title.clone(),
            pid: self.pid,
            app_name: self.app_name.clone(),
            is_focused: self.is_focused,
        }
    }
}

/// What to search the tree for.
#[derive(Debug, PartialEq, Eq)]
pub enum SearchParam {
    ByPid(i32),
    ByWindowId(WindowId),
    BySpaceId(SpaceId),
    ByDisplayId(DisplayId),
    ByFocused,
}

/// The result that a window contributes to the flattened tree.
pub open spec fn result_of(d: DisplayId, s: SpaceNode, w: WindowNode) -> SearchResult {
    SearchResult {
        display_id: d,
        space_id: s.id,
        space_index: s.index,
        window_id: w.id,
        title: w.title,
        pid: w.pid,
        app_name: w.app_name,
        is_focused: w.is_focused,
    }
}

/// The results of one space: its windows, in order.
pub open spec fn space_results(d: DisplayId, s: SpaceNode) -> Seq<SearchResult> {
    s.windows@.map_values(|w: WindowNode| result_of(d, s, w))
}

/// The results of a list of spaces of one display, space after space.
pub open spec fn spaces_results(d: DisplayId, ss: Seq<SpaceNode>) -> Seq<SearchResult>
    decreases ss.len(),
{
    if ss.len() == 0 {
        Seq::empty()
    } else {
        spaces_results(d, ss.drop_last()) + space_results(d, ss.last())
    }
}

/// The results of a list of displays, display after display.
pub open spec fn displays_results(ds: Seq<DisplayNode>) -> Seq<SearchResult>
    decreases ds.len(),
{
    if ds.len() == 0 {
        Seq::empty()
    } else {
        displays_results(ds.drop_last()) + spaces_results(ds.last().id, ds.last().spaces@)
    }
}

/// Whether a result answers a search.
pub open spec fn matches_param(p: SearchParam, r: SearchResult) -> bool {
    match p {
        SearchParam::ByPid(pid) => r.pid == pid,
        SearchParam::ByWindowId(w) => r.window_id == w,
        SearchParam::BySpaceId(s) => r.space_id == s,
        SearchParam::ByDisplayId(d) => r.display_id.0@ == d.0@,
        SearchParam::ByFocused => r.is_focused,
    }
}

/// Whether one of the spaces has this id.
pub open spec fn has_space(ss: Seq<SpaceNode>, sid: SpaceId) -> bool {
    exists|j: int| 0 <= j < ss.len() && (#[trigger] ss[j]).id == sid
}

/// The first display, in order, that has a space with this id.
pub open spec fn display_of_space(ds: Seq<DisplayNode>, sid: SpaceId) -> Option<DisplayId>
    decreases ds.len(),
{
    if ds.len() == 0 {
        None
    } else if has_space(ds[0].spaces@, sid) {
        Some(ds[0].id)
    } else {
        display_of_space(ds.drop_first(), sid)
    }
}

/// The index recorded on the first space with this id, in a list of spaces.
pub open spec fn index_in_spaces(ss: Seq<SpaceNode>, sid: SpaceId) -> Option<usize>
    decreases ss.len(),
{
    if ss.len() == 0 {
        None
    } else if ss[0].id == sid {
        Some(ss[0].index)
    } else {
        index_in_spaces(ss.drop_first(), sid)
    }
}

/// The index recorded on the first space with this id, displays in order.
pub open spec fn index_of_space(ds: Seq<DisplayNode>, sid: SpaceId) -> Option<usize>
    decreases ds.len(),
{
    if ds.len() == 0 {
        None
    } else {
        match index_in_spaces(ds[0].spaces@, sid) {
            Some(i) => Some(i),
            None => index_of_space(ds.drop_first(), sid),
        }
    }
}

proof fn lemma_index_in_spaces_some(ss: Seq<SpaceNode>, sid: SpaceId)
    ensures
        index_in_spaces(ss, sid) is Some <==> has_space(ss, sid),
    decreases ss.len(),
{
    if ss.len() > 0 {
        lemma_index_in_spaces_some(ss.drop_first(), sid);
        if has_space(ss, sid) && ss[0].id != sid {
            let j = choose|j: int| 0 <= j < ss.len() && (#[trigger] ss[j]).id == sid;
            assert(ss.drop_first()[j - 1].id == sid);
        }
        if has_space(ss.drop_first(), sid) {
            let j = choose|j: int| 0 <= j < ss.drop_first().len() && (#[trigger] ss.drop_first()[j]).id == sid;
            assert(ss[j + 1].id == sid);
        }
    }
}

/// A space id is found on some display exactly when an index is found for it.
pub proof fn lemma_display_iff_index(ds: Seq<DisplayNode>, sid: SpaceId)
    ensures
        display_of_space(ds, sid) is Some <==> index_of_space(ds, sid) is Some,
    decreases ds.len(),
{
    if ds.len() > 0 {
        lemma_index_in_spaces_some(ds[0].spaces@, sid);
        lemma_display_iff_index(ds.drop_first(), sid);
    }
}

/// The results of a prefix of spaces grow by the next space's results.
proof fn lemma_spaces_results_step(d: DisplayId, ss: Seq<SpaceNode>, j: int)
    requires
        0 <= j < ss.len(),
    ensures
        spaces_results(d, ss.subrange(0, j + 1)) == spaces_results(d, ss.subrange(0, j)) + space_results(d, ss[j]),
{
    assert(ss.subrange(0, j + 1).drop_last() =~= ss.subrange(0, j));
}

proof fn lemma_displays_results_step(ds: Seq<DisplayNode>, i: int)
    requires
        0 <= i < ds.len(),
    ensures
        displays_results(ds.subrange(0, i + 1)) == displays_results(ds.subrange(0, i)) + spaces_results(
            ds[i].id,
            ds[i].spaces@,
        ),
{
    assert(ds.subrange(0, i + 1).drop_last() =~= ds.subrange(0, i));
}

impl ApplicationTree {
    /// The flattened tree.
    pub open spec fn results(&self) -> Seq<SearchResult> {
        displays_results(self.displays@)
    }

    /// Every window of the tree as a result, displays in order, then spaces
    /// in order, then windows in order.
    pub fn flatten(&self) -> (r: Vec<SearchResult>)
        ensures
            r@ == self.results(),
    {
        let ghost ds = self.displays@;
        let mut results: Vec<SearchResult> = Vec::new();
        let mut i: usize = 0;
        assert(ds.subrange(0, 0) =~= Seq::<DisplayNode>::empty());
        while i < self.displays.len()
            invariant
                ds == self.displays@,
                i <= ds.len(),
                results@ == displays_results(ds.subrange(0, i as int)),
            decreases ds.len() - i,
        {
            let d = &self.displays[i];
            let ghost base = results@;
            let ghost ss = d.spaces@;
            let mut j: usize = 0;
            assert(ss.subrange(0, 0) =~= Seq::<SpaceNode>::empty());
            assert(results@ =~= base + spaces_results(d.id, ss.subrange(0, 0)));
            while j < d.spaces.len()
                invariant
                    ss == d.spaces@,
                    j <= ss.len(),
                    results@ == base + spaces_results(d.id, ss.subrange(0, j as int)),
                decreases ss.len() - j,
            {
                let s = &d.spaces[j];
                let ghost base2 = results@;
                let ghost ws = s.windows@;
                let mut k: usize = 0;
                assert(results@ =~= base2 + ws.subrange(0, 0).map_values(
                    |w: WindowNode| result_of(d.id, *s, w),
                ));
                while k < s.windows.len()
                    invariant
                        ws == s.windows@,
                        k <= ws.len(),
                        results@ == base2 + ws.subrange(0, k as int).map_values(
                            |w: WindowNode| result_of(d.id, *s, w),
                        ),
                    decreases ws.len() - k,
                {
                    let w = &s.windows[k];
                    let r = SearchResult {
                        display_id: d.id.duplicate(),
                        space_id: s.id,
                        space_index: s.index,
                        window_id: w.id,
                        title: w.title.clone(),
                        pid: w.pid,
                        app_name: w.app_name.clone(),
                        is_focused: w.is_focused,
                    };
                    results.push(r);
                    assert(ws.subrange(0, k + 1).map_values(|w: WindowNode| result_of(d.id, *s, w))
                        =~= ws.subrange(0, k as int).map_values(|w: WindowNode| result_of(d.id, *s, w)).push(
                        result_of(d.id, *s, ws[k as int]),
                    ));
                    k = k + 1;
                }
                assert(ws.subrange(0, ws.len() as int) =~= ws);
                proof {
                    lemma_spaces_results_step(d.id, ss, j as int);
                }
                assert(results@ =~= base + spaces_results(d.id, ss.subrange(0, j + 1)));
                j = j + 1;
            }
            assert(ss.subrange(0, ss.len() as int) =~= ss);
            proof {
                lemma_displays_results_step(ds, i as int);
            }
            assert(results@ =~= displays_results(ds.subrange(0, i + 1)));
            i = i + 1;
        }
        assert(ds.subrange(0, ds.len() as int) =~= ds);
        results
    }

    /// The windows of the tree that answer the search, in flattened order.
    pub fn search(&self, param: SearchParam) -> (r: Vec<SearchResult>)
        ensures
            r@ == keep_where(self.results(), |x: SearchResult| matches_param(param, x)),
    {
        match param {
            SearchParam::ByPid(pid) => self.search_by_pid(pid),
            SearchParam::ByWindowId(window_id) => self.search_by_window_id(window_id),
            SearchParam::BySpaceId(space_id) => self.search_by_space_id(space_id),
            SearchParam::ByDisplayId(display_id) => self.search_by_display_id(display_id),
            SearchParam::ByFocused => self.search_by_focused(),
        }
    }

    /// The windows of the process.
    fn search_by_pid(&self, pid: i32) -> (r: Vec<SearchResult>)
        ensures
            r@ == keep_where(self.results(), |x: SearchResult| matches_param(SearchParam::ByPid(pid), x)),
    {
        self.keep_matching(&SearchParam::ByPid(pid))
    }

    /// The windows with this window number.
    fn search_by_window_id(&self, window_id: WindowId) -> (r: Vec<SearchResult>)
        ensures
            r@ == keep_where(
                self.results(),
                |x: SearchResult| matches_param(SearchParam::ByWindowId(window_id), x),
            ),
    {
        self.keep_matching(&SearchParam::ByWindowId(window_id))
    }

    /// The windows on the space.
    fn search_by_space_id(&self, space_id: SpaceId) -> (r: Vec<SearchResult>)
        ensures
            r@ == keep_where(self.results(), |x: SearchResult| matches_param(SearchParam::BySpaceId(space_id), x)),
    {
        self.keep_matching(&SearchParam::BySpaceId(space_id))
    }

    /// The windows on the display.
    fn search_by_display_id(&self, display_id: DisplayId) -> (r: Vec<SearchResult>)
        ensures
            r@ == keep_where(
                self.results(),
                |x: SearchResult| matches_param(SearchParam::ByDisplayId(display_id), x),
            ),
    {
        self.keep_matching(&SearchParam::ByDisplayId(display_id))
    }

    /// The focused windows.
    fn search_by_focused(&self) -> (r: Vec<SearchResult>)
        ensures
            r@ == keep_where(self.results(), |x: SearchResult| matches_param(SearchParam::ByFocused, x)),
    {
        self.keep_matching(&SearchParam::ByFocused)
    }

    /// The flattened windows that answer the search, in order.
    fn keep_matching(&self, param: &SearchParam) -> (r: Vec<SearchResult>)
        ensures
            r@ == keep_where(self.results(), |x: SearchResult| matches_param(*param, x)),
    {
        let all = self.flatten();
        let ghost p = |x: SearchResult| matches_param(*param, x);
        let mut out: Vec<SearchResult> = Vec::new();
        let mut i: usize = 0;
        assert(all@.subrange(0, 0) =~= Seq::<SearchResult>::empty());
        while i < all.len()
            invariant
                i <= all@.len(),
                p == (|x: SearchResult| matches_param(*param, x)),
                out@ == keep_where(all@.subrange(0, i as int), p),
            decreases all@.len() - i,
        {
            let x = &all[i];
            proof {
                lemma_keep_where_step(all@, i as int, p);
            }
            let hit = match param {
                SearchParam::ByPid(pid) => x.pid == *pid,
                SearchParam::ByWindowId(w) => x.window_id == *w,
                SearchParam::BySpaceId(s) => x.space_id == *s,
                SearchParam::ByDisplayId(d) => str_eq(x.display_id.0.as_str(), d.0.as_str()),
                SearchParam::ByFocused => x.is_focused,
            };
            if hit {
                out.push(x.duplicate());
            }
            i = i + 1;
        }
        assert(all@.subrange(0, all@.len() as int) =~= all@);
        out
    }

    /// The display that holds the first space with this id, displays in order.
    pub fn find_display_from_space(&self, space_id: SpaceId) -> (r: Option<DisplayId>)
        ensures
            r == display_of_space(self.displays@, space_id),
    {
        let ghost ds = self.displays@;
        let mut i: usize = 0;
        assert(ds.subrange(0, ds.len() as int) =~= ds);
        while i < self.displays.len()
            invariant
                ds == self.displays@,
                i <= ds.len(),
                display_of_space(ds, space_id) == display_of_space(ds.subrange(i as int, ds.len() as int), space_id),
            decreases ds.len() - i,
        {
            let d = &self.displays[i];
            let ghost rest = ds.subrange(i as int, ds.len() as int);
            assert(rest[0] == ds[i as int]);
            assert(rest.drop_first() =~= ds.subrange(i + 1, ds.len() as int));
            let mut j: usize = 0;
            while j < d.spaces.len()
                invariant
                    ds == self.displays@,
                    i < ds.len(),
                    *d == ds[i as int],
                    display_of_space(ds, space_id) == display_of_space(ds.subrange(i as int, ds.len() as int), space_id),
                    j <= d.spaces@.len(),
                    forall|k: int| 0 <= k < j ==> (#[trigger] d.spaces@[k]).id != space_id,
                decreases d.spaces@.len() - j,
            {
                if d.spaces[j].id == space_id {
                    assert(has_space(d.spaces@, space_id));
                    return Some(d.id.duplicate());
                }
                j = j + 1;
            }
            assert(!has_space(d.spaces@, space_id));
            i = i + 1;
        }
        None
    }

    /// The index recorded on the first space with this id, displays in order.
    pub fn find_space_index(&self, space_id: SpaceId) -> (r: Option<usize>)
        ensures
            r == index_of_space(self.displays@, space_id),
    {
        let ghost ds = self.displays@;
        let mut i: usize = 0;
        assert(ds.subrange(0, ds.len() as int) =~= ds);
        while i < self.displays.len()
            invariant
                ds == self.displays@,
                i <= ds.len(),
                index_of_space(ds, space_id) == index_of_space(ds.subrange(i as int, ds.len() as int), space_id),
            decreases ds.len() - i,
        {
            let d = &self.displays[i];
            let ghost rest = ds.subrange(i as int, ds.len() as int);
            let ghost ss = d.spaces@;
            assert(rest[0] == ds[i as int]);
            assert(rest.drop_first() =~= ds.subrange(i + 1, ds.len() as int));
            let mut j: usize = 0;
            assert(ss.subrange(0, ss.len() as int) =~= ss);
            while j < d.spaces.len()
                invariant
                    ds == self.displays@,
                    i < ds.len(),
                    *d == ds[i as int],
                    index_of_space(ds, space_id) == index_of_space(ds.subrange(i as int, ds.len() as int), space_id),
                    ss == d.spaces@,
                    j <= ss.len(),
                    index_in_spaces(ss, space_id) == index_in_spaces(ss.subrange(j as int, ss.len() as int), space_id),
                decreases ss.len() - j,
            {
                let ghost srest = ss.subrange(j as int, ss.len() as int);
                assert(srest[0] == ss[j as int]);
                assert(srest.drop_first() =~= ss.subrange(j + 1, ss.len() as int));
                if d.spaces[j].id == space_id {
                    return Some(d.spaces[j].index);
                }
                j = j + 1;
            }
            assert(ss.subrange(ss.len() as int, ss.len() as int) =~= Seq::<SpaceNode>::empty());
            i = i + 1;
        }
        None
    }
}

/// A search returns exactly the windows of the flattened tree that answer it:
/// each returned window answers the search and belongs to the tree, and each
/// window of the tree that answers the search is returned.
pub proof fn lemma_search_exact(tree: ApplicationTree, param: SearchParam, x: SearchResult)
    ensures
        keep_where(tree.results(), |y: SearchResult| matches_param(param, y)).contains(x) <==> (
        tree.results().contains(x) && matches_param(param, x)),
{
    let p = |y: SearchResult| matches_param(param, y);
    lemma_keep_where_sound(tree.results(), p);
    if tree.results().contains(x) && matches_param(param, x) {
        lemma_keep_where_complete(tree.results(), p, x);
    }
    if keep_where(tree.results(), p).contains(x) {
        let k = choose|k: int| 0 <= k < keep_where(tree.results(), p).len() && keep_where(tree.results(), p)[k] == x;
        assert(p(keep_where(tree.results(), p)[k]));
        assert(tree.results().contains(keep_where(tree.results(), p)[k]));
    }
}

/// Each search keeps exactly the windows of the tree with the asked-for
/// field: by pid, the windows of that process; by window id, that window;
/// by space id, the windows on that space; by display id, the windows on
/// that display; by focus, the focused windows.
pub proof fn law_search_by_field(tree: ApplicationTree, x: SearchResult, pid: i32, wid: WindowId, sid: SpaceId, did: DisplayId)
    ensures
        keep_where(tree.results(), |y: SearchResult| matches_param(SearchParam::ByPid(pid), y)).contains(x) <==> (
        tree.results().contains(x) && x.pid == pid),
        keep_where(tree.results(), |y: SearchResult| matches_param(SearchParam::ByWindowId(wid), y)).contains(x) <==> (
        tree.results().contains(x) && x.window_id == wid),
        keep_where(tree.results(), |y: SearchResult| matches_param(SearchParam::BySpaceId(sid), y)).contains(x) <==> (
        tree.results().contains(x) && x.space_id == sid),
        keep_where(tree.results(), |y: SearchResult| matches_param(SearchParam::ByDisplayId(did), y)).contains(x)
            <==> (tree.results().contains(x) && x.display_id.0@ == did.0@),
        keep_where(tree.results(), |y: SearchResult| matches_param(SearchParam::ByFocused, y)).contains(x) <==> (
        tree.results().contains(x) && x.is_focused),
{
    lemma_search_exact(tree, SearchParam::ByPid(pid), x);
    lemma_search_exact(tree, SearchParam::ByWindowId(wid), x);
    lemma_search_exact(tree, SearchParam::BySpaceId(sid), x);
    lemma_search_exact(tree, SearchParam::ByDisplayId(did), x);
    lemma_search_exact(tree, SearchParam::ByFocused, x);
}

proof fn lemma_space_results_has(d: DisplayId, ss: Seq<SpaceNode>, j: int, k: int)
    requires
        0 <= j < ss.len(),
        0 <= k < ss[j].windows@.len(),
    ensures
        spaces_results(d, ss).contains(result_of(d, ss[j], ss[j].windows@[k])),
    decreases ss.len(),
{
    if j == ss.len() - 1 {
        let a = spaces_results(d, ss.drop_last());
        let b = space_results(d, ss.last());
        assert(b[k] == result_of(d, ss[j], ss[j].windows@[k]));
        assert((a + b)[a.len() + k] == b[k]);
    } else {
        lemma_space_results_has(d, ss.drop_last(), j, k);
        assert(ss.drop_last()[j] == ss[j]);
        let a = spaces_results(d, ss.drop_last());
        let b = space_results(d, ss.last());
        let m = choose|m: int| 0 <= m < a.len() && a[m] == result_of(d, ss[j], ss[j].windows@[k]);
        assert((a + b)[m] == a[m]);
    }
}

proof fn lemma_displays_results_has(ds: Seq<DisplayNode>, i: int, j: int, k: int)
    requires
        0 <= i < ds.len(),
        0 <= j < ds[i].spaces@.len(),
        0 <= k < ds[i].spaces@[j].windows@.len(),
    ensures
        displays_results(ds).contains(result_of(ds[i].id, ds[i].spaces@[j], ds[i].spaces@[j].windows@[k])),
    decreases ds.len(),
{
    let a = displays_results(ds.drop_last());
    let b = spaces_results(ds.last().id, ds.last().spaces@);
    let x = result_of(ds[i].id, ds[i].spaces@[j], ds[i].spaces@[j].windows@[k]);
    if i == ds.len() - 1 {
        lemma_space_results_has(ds[i].id, ds[i].spaces@, j, k);
        let m = choose|m: int| 0 <= m < b.len() && b[m] == x;
        assert((a + b)[a.len() + m] == b[m]);
    } else {
        assert(ds.drop_last()[i] == ds[i]);
        lemma_displays_results_has(ds.drop_last(), i, j, k);
        let m = choose|m: int| 0 <= m < a.len() && a[m] == x;
        assert((a + b)[m] == a[m]);
    }
}

/// Every window of the tree is among the flattened results, with its
/// display's id, its space's id and index, and its own id, title, pid,
/// application name and focus.
pub proof fn law_flatten_lists_every_window(tree: ApplicationTree, i: int, j: int, k: int)
    requires
        0 <= i < tree.displays@.len(),
        0 <= j < tree.displays@[i].spaces@.len(),
        0 <= k < tree.displays@[i].spaces@[j].windows@.len(),
    ensures
        exists|x: SearchResult|
            #[trigger] tree.results().contains(x) && x.display_id == tree.displays@[i].id && x.space_id
                == tree.displays@[i].spaces@[j].id && x.space_index == tree.displays@[i].spaces@[j].index
                && x.window_id == tree.displays@[i].spaces@[j].windows@[k].id && x.title
                == tree.displays@[i].spaces@[j].windows@[k].title && x.pid == tree.displays@[i].spaces@[j].windows@[k].pid
                && x.app_name == tree.displays@[i].spaces@[j].windows@[k].app_name && x.is_focused
                == tree.displays@[i].spaces@[j].windows@[k].is_focused,
{
    let ds = tree.displays@;
    lemma_displays_results_has(ds, i, j, k);
    let x = result_of(ds[i].id, ds[i].spaces@[j], ds[i].spaces@[j].windows@[k]);
    assert(tree.results().contains(x));
}

proof fn lemma_index_in_spaces_first(ss: Seq<SpaceNode>, sid: SpaceId)
    ensures
        index_in_spaces(ss, sid) matches Some(x) ==> exists|j: int|
            0 <= j < ss.len() && (#[trigger] ss[j]).id == sid && ss[j].index == x && forall|j2: int|
                0 <= j2 < j ==> (#[trigger] ss[j2]).id != sid,
        index_in_spaces(ss, sid) is None ==> forall|j: int| 0 <= j < ss.len() ==> (#[trigger] ss[j]).id != sid,
    decreases ss.len(),
{
    if ss.len() > 0 {
        let rest = ss.drop_first();
        lemma_index_in_spaces_first(rest, sid);
        assert forall|j: int| 0 < j < ss.len() implies #[trigger] ss[j] == rest[j - 1] by {}
        if ss[0].id != sid {
            if let Some(x) = index_in_spaces(rest, sid) {
                let j = choose|j: int|
                    0 <= j < rest.len() && (#[trigger] rest[j]).id == sid && rest[j].index == x && forall|j2: int|
                        0 <= j2 < j ==> (#[trigger] rest[j2]).id != sid;
                assert(ss[j + 1] == rest[j]);
                assert forall|j2: int| 0 <= j2 < j + 1 implies (#[trigger] ss[j2]).id != sid by {
                    if j2 > 0 {
                        assert(ss[j2] == rest[j2 - 1]);
                    }
                }
            }
        }
    }
}

proof fn lemma_display_of_space_first(ds: Seq<DisplayNode>, sid: SpaceId)
    ensures
        display_of_space(ds, sid) matches Some(d) ==> exists|i: int|
            0 <= i < ds.len() && (#[trigger] ds[i]).id == d && has_space(ds[i].spaces@, sid) && forall|i2: int|
                0 <= i2 < i ==> !has_space((#[trigger] ds[i2]).spaces@, sid),
        display_of_space(ds, sid) is None ==> forall|i: int| 0 <= i < ds.len() ==> !has_space((#[trigger] ds[i]).spaces@, sid),
        index_of_space(ds, sid) matches Some(x) ==> exists|i: int, j: int|
            0 <= i < ds.len() && 0 <= j < ds[i].spaces@.len() && (#[trigger] ds[i].spaces@[j]).id == sid
                && ds[i].spaces@[j].index == x && forall|i2: int| 0 <= i2 < i ==> !has_space((#[trigger] ds[i2]).spaces@, sid),
    decreases ds.len(),
{
    if ds.len() > 0 {
        let rest = ds.drop_first();
        lemma_display_of_space_first(rest, sid);
        lemma_index_in_spaces_first(ds[0].spaces@, sid);
        lemma_index_in_spaces_some(ds[0].spaces@, sid);
        assert forall|i: int| 0 < i < ds.len() implies #[trigger] ds[i] == rest[i - 1] by {}
        if !has_space(ds[0].spaces@, sid) {
            if let Some(d) = display_of_space(rest, sid) {
                let i = choose|i: int|
                    0 <= i < rest.len() && (#[trigger] rest[i]).id == d && has_space(rest[i].spaces@, sid) && forall|i2: int|
                        0 <= i2 < i ==> !has_space((#[trigger] rest[i2]).spaces@, sid);
                assert(ds[i + 1] == rest[i]);
                assert forall|i2: int| 0 <= i2 < i + 1 implies !has_space((#[trigger] ds[i2]).spaces@, sid) by {
                    if i2 > 0 {
                        assert(ds[i2] == rest[i2 - 1]);
                    }
                }
            }
            if let Some(x) = index_of_space(rest, sid) {
                let (i, j) = choose|i: int, j: int|
                    0 <= i < rest.len() && 0 <= j < rest[i].spaces@.len() && (#[trigger] rest[i].spaces@[j]).id == sid
                        && rest[i].spaces@[j].index == x && forall|i2: int|
                        0 <= i2 < i ==> !has_space((#[trigger] rest[i2]).spaces@, sid);
                assert(ds[i + 1] == rest[i]);
                assert(ds[i + 1].spaces@[j].id == sid);
                assert forall|i2: int| 0 <= i2 < i + 1 implies !has_space((#[trigger] ds[i2]).spaces@, sid) by {
                    if i2 > 0 {
                        assert(ds[i2] == rest[i2 - 1]);
                    }
                }
            }
        } else {
            let x = index_in_spaces(ds[0].spaces@, sid).unwrap();
            let j = choose|j: int|
                0 <= j < ds[0].spaces@.len() && (#[trigger] ds[0].spaces@[j]).id == sid && ds[0].spaces@[j].index == x
                    && forall|j2: int| 0 <= j2 < j ==> (#[trigger] ds[0].spaces@[j2]).id != sid;
            assert(ds[0].spaces@[j].id == sid);
        }
    }
}

/// Looking up a space: its display is the first display that has a space
/// with that id, and none is found only when no display has one; its index
/// is the index recorded on a space with that id, on that same first
/// display.
pub proof fn law_space_lookup(tree: ApplicationTree, sid: SpaceId)
    ensures
        display_of_space(tree.displays@, sid) matches Some(d) ==> exists|i: int|
            0 <= i < tree.displays@.len() && (#[trigger] tree.displays@[i]).id == d && (exists|j: int|
                0 <= j < tree.displays@[i].spaces@.len() && (#[trigger] tree.displays@[i].spaces@[j]).id == sid)
                && forall|i2: int, j2: int|
                0 <= i2 < i && 0 <= j2 < tree.displays@[i2].spaces@.len() ==> (#[trigger] tree.displays@[i2].spaces@[j2]).id
                    != sid,
        display_of_space(tree.displays@, sid) is None ==> forall|i: int, j: int|
            0 <= i < tree.displays@.len() && 0 <= j < tree.displays@[i].spaces@.len() ==> (
            #[trigger] tree.displays@[i].spaces@[j]).id != sid,
        index_of_space(tree.displays@, sid) matches Some(x) ==> exists|i: int, j: int|
            0 <= i < tree.displays@.len() && 0 <= j < tree.displays@[i].spaces@.len() && (
            #[trigger] tree.displays@[i].spaces@[j]).id == sid && tree.displays@[i].spaces@[j].index == x && forall|
                i2: int,
                j2: int,
            | 0 <= i2 < i && 0 <= j2 < tree.displays@[i2].spaces@.len() ==> (#[trigger] tree.displays@[i2].spaces@[j2]).id
                != sid,
        index_of_space(tree.displays@, sid) is None <==> display_of_space(tree.displays@, sid) is None,
{
    let ds = tree.displays@;
    lemma_display_of_space_first(ds, sid);
    lemma_display_iff_index(ds, sid);
    if let Some(d) = display_of_space(ds, sid) {
        let i = choose|i: int|
            0 <= i < ds.len() && (#[trigger] ds[i]).id == d && has_space(ds[i].spaces@, sid) && forall|i2: int|
                0 <= i2 < i ==> !has_space((#[trigger] ds[i2]).spaces@, sid);
        let j = choose|j: int| 0 <= j < ds[i].spaces@.len() && (#[trigger] ds[i].spaces@[j]).id == sid;
        assert(ds[i].spaces@[j].id == sid);
        assert forall|i2: int, j2: int|
            0 <= i2 < i && 0 <= j2 < ds[i2].spaces@.len() implies (#[trigger] ds[i2].spaces@[j2]).id != sid by {
            assert(!has_space(ds[i2].spaces@, sid));
        }
    }
    if display_of_space(ds, sid) is None {
        assert forall|i: int, j: int| 0 <= i < ds.len() && 0 <= j < ds[i].spaces@.len() implies (
        #[trigger] ds[i].spaces@[j]).id != sid by {
            assert(!has_space(ds[i].spaces@, sid));
        }
    }
    if let Some(x) = index_of_space(ds, sid) {
        let (i, j) = choose|i: int, j: int|
            0 <= i < ds.len() && 0 <= j < ds[i].spaces@.len() && (#[trigger] ds[i].spaces@[j]).id == sid
                && ds[i].spaces@[j].index == x && forall|i2: int| 0 <= i2 < i ==> !has_space((#[trigger] ds[i2]).spaces@, sid);
        assert(ds[i].spaces@[j].id == sid);
        assert forall|i2: int, j2: int|
            0 <= i2 < i && 0 <= j2 < ds[i2].spaces@.len() implies (#[trigger] ds[i2].spaces@[j2]).id != sid by {
            assert(!has_space(ds[i2].spaces@, sid));
        }
    }
}

/// Finding the display of a space succeeds exactly when finding its index does.
pub proof fn lemma_find_display_iff_find_index(tree: ApplicationTree, sid: SpaceId)
    ensures
        display_of_space(tree.displays@, sid) is Some <==> index_of_space(tree.displays@, sid) is Some,
{
    lemma_display_iff_index(tree.displays@, sid);
}

proof fn lemma_in_concat<A>(a: Seq<A>, b: Seq<A>, x: A)
    requires
        (a + b).contains(x),
    ensures
        a.contains(x) || b.contains(x),
{
    let k = choose|k: int| 0 <= k < (a + b).len() && (a + b)[k] == x;
    if k < a.len() {
        assert(a[k] == x);
    } else {
        assert(b[k - a.len()] == x);
    }
}

proof fn lemma_spaces_results_space(d: DisplayId, ss: Seq<SpaceNode>, x: SearchResult)
    requires
        spaces_results(d, ss).contains(x),
    ensures
        has_space(ss, x.space_id),
    decreases ss.len(),
{
    if ss.len() > 0 {
        lemma_in_concat(spaces_results(d, ss.drop_last()), space_results(d, ss.last()), x);
        if spaces_results(d, ss.drop_last()).contains(x) {
            lemma_spaces_results_space(d, ss.drop_last(), x);
            let j = choose|j: int| 0 <= j < ss.drop_last().len() && (#[trigger] ss.drop_last()[j]).id == x.space_id;
            assert(ss[j].id == x.space_id);
        } else {
            let k = choose|k: int| 0 <= k < space_results(d, ss.last()).len() && space_results(d, ss.last())[k] == x;
            assert(ss[ss.len() - 1].id == x.space_id);
        }
    }
}

proof fn lemma_displays_results_space(ds: Seq<DisplayNode>, x: SearchResult)
    requires
        displays_results(ds).contains(x),
    ensures
        exists|i: int| 0 <= i < ds.len() && has_space((#[trigger] ds[i]).spaces@, x.space_id),
    decreases ds.len(),
{
    if ds.len() > 0 {
        lemma_in_concat(displays_results(ds.drop_last()), spaces_results(ds.last().id, ds.last().spaces@), x);
        if displays_results(ds.drop_last()).contains(x) {
            lemma_displays_results_space(ds.drop_last(), x);
            let i = choose|i: int| 0 <= i < ds.drop_last().len() && has_space((#[trigger] ds.drop_last()[i]).spaces@, x.space_id);
            assert(ds[i] == ds.drop_last()[i]);
        } else {
            lemma_spaces_results_space(ds.last().id, ds.last().spaces@, x);
            assert(ds[ds.len() - 1] == ds.last());
        }
    }
}

proof fn lemma_display_of_space_found(ds: Seq<DisplayNode>, sid: SpaceId, i: int)
    requires
        0 <= i < ds.len(),
        has_space(ds[i].spaces@, sid),
    ensures
        display_of_space(ds, sid) is Some,
    decreases ds.len(),
{
    if i > 0 && !has_space(ds[0].spaces@, sid) {
        assert(ds.drop_first()[i - 1] == ds[i]);
        lemma_display_of_space_found(ds.drop_first(), sid, i - 1);
    }
}

/// Every window of the flattened tree sits on a space that the tree can
/// place: looking up its space finds a display and an index.
pub proof fn lemma_results_spaces_found(tree: ApplicationTree, x: SearchResult)
    requires
        tree.results().contains(x),
    ensures
        display_of_space(tree.displays@, x.space_id) is Some,
        index_of_space(tree.displays@, x.space_id) is Some,
{
    lemma_displays_results_space(tree.displays@, x);
    let i = choose|i: int| 0 <= i < tree.displays@.len() && has_space((#[trigger] tree.displays@[i]).spaces@, x.space_id);
    lemma_display_of_space_found(tree.displays@, x.space_id, i);
    lemma_display_iff_index(tree.displays@, x.space_id);
}

/* ------------------------------ building ------------------------------ */

/// The node of an annotated window: its pid (0 when unknown), its owner's
/// name (empty when unknown), its title, and whether it is the focused window.
pub open spec fn window_node_from(w: Window, focused: Option<WindowId>, n: WindowNode) -> bool {
    &&& n.id == WindowId(w.info.window_id)
    &&& n.title == w.title
    &&& n.pid == (match w.pid {
        Some(p) => p,
        None => 0,
    })
    &&& n.app_name@ == (match w.owner_name {
        Some(s) => s@,
        None => Seq::<char>::empty(),
    })
    &&& n.is_focused == (focused == Some(WindowId(w.info.window_id)))
}

/// The node of the space at position `j` of its display, with the given windows.
pub open spec fn space_node_from(
    rec: crate::sky::SpaceRecord,
    j: int,
    ws: Seq<Window>,
    focused: Option<WindowId>,
    n: SpaceNode,
) -> bool {
    &&& n.id == rec.id
    &&& n.index == j
    &&& n.windows@.len() == ws.len()
    &&& forall|k: int| 0 <= k < ws.len() ==> window_node_from(ws[k], focused, #[trigger] n.windows@[k])
}

/// The node of a display, with the windows of each of its spaces.
pub open spec fn display_node_from(
    d: DisplaySpaces,
    wss: Seq<Vec<Window>>,
    focused: Option<WindowId>,
    n: DisplayNode,
) -> bool {
    &&& n.id == d.display_identifier
    &&& n.spaces@.len() == d.spaces@.len()
    &&& forall|j: int|
        0 <= j < d.spaces@.len() ==> space_node_from(d.spaces@[j], j, wss[j]@, focused, #[trigger] n.spaces@[j])
}

/// The node of one window.
pub fn build_window_node(w: &Window, focused: Option<WindowId>) -> (r: WindowNode)
    ensures
        window_node_from(*w, focused, r),
{
    let id = WindowId(w.info.window_id);
    let pid = match w.pid {
        Some(p) => p,
        None => 0,
    };
    let app_name = match &w.owner_name {
        Some(s) => s.clone(),
        None => String::new(),
    };
    let is_focused = match focused {
        Some(f) => f == id,
        None => false,
    };
    WindowNode { id, title: w.title.clone(), pid, app_name, is_focused }
}

/// The node of the space at position `index`, holding its windows in order.
pub fn build_space_node(
    rec: crate::sky::SpaceRecord,
    index: usize,
    ws: &Vec<Window>,
    focused: Option<WindowId>,
) -> (r: SpaceNode)
    ensures
        space_node_from(rec, index as int, ws@, focused, r),
{
    let mut nodes: Vec<WindowNode> = Vec::new();
    let mut k: usize = 0;
    while k < ws.len()
        invariant
            k <= ws@.len(),
            nodes@.len() == k,
            forall|m: int| 0 <= m < k ==> window_node_from(ws@[m], focused, #[trigger] nodes@[m]),
        decreases ws@.len() - k,
    {
        nodes.push(build_window_node(&ws[k], focused));
        k = k + 1;
    }
    SpaceNode { id: rec.id, index, windows: nodes }
}

/// The node of a display; `wss` holds the windows of each of its spaces.
pub fn build_display_node(d: &DisplaySpaces, wss: &Vec<Vec<Window>>, focused: Option<WindowId>) -> (r:
    DisplayNode)
    requires
        wss@.len() == d.spaces@.len(),
    ensures
        display_node_from(*d, wss@, focused, r),
{
    let mut nodes: Vec<SpaceNode> = Vec::new();
    let mut j: usize = 0;
    while j < d.spaces.len()
        invariant
            wss@.len() == d.spaces@.len(),
            j <= d.spaces@.len(),
            nodes@.len() == j,
            forall|m: int|
                0 <= m < j ==> space_node_from(d.spaces@[m], m, wss@[m]@, focused, #[trigger] nodes@[m]),
        decreases d.spaces@.len() - j,
    {
        nodes.push(build_space_node(d.spaces[j], j, &wss[j], focused));
        j = j + 1;
    }
    DisplayNode { id: d.display_identifier.duplicate(), spaces: nodes }
}

/// Builds the tree from the spaces of each display, the application windows
/// listed on each space (`windows[i][j]` for space `j` of display `i`) and
/// the focused window, if one is known. Each space is indexed by its position
/// on its display.
pub fn build_application_tree(
    displays: &Vec<DisplaySpaces>,
    windows: &Vec<Vec<Vec<Window>>>,
    focused: Option<WindowId>,
) -> (r: ApplicationTree)
    requires
        windows@.len() == displays@.len(),
        forall|i: int| 0 <= i < displays@.len() ==> (#[trigger] windows@[i])@.len() == displays@[i].spaces@.len(),
    ensures
        r.displays@.len() == displays@.len(),
        forall|i: int|
            0 <= i < displays@.len() ==> display_node_from(displays@[i], windows@[i]@, focused, #[trigger] r.displays@[i]),
{
    let mut nodes: Vec<DisplayNode> = Vec::new();
    let mut i: usize = 0;
    while i < displays.len()
        invariant
            windows@.len() == displays@.len(),
            forall|i: int| 0 <= i < displays@.len() ==> (#[trigger] windows@[i])@.len() == displays@[i].spaces@.len(),
            i <= displays@.len(),
            nodes@.len() == i,
            forall|m: int|
                0 <= m < i ==> display_node_from(displays@[m], windows@[m]@, focused, #[trigger] nodes@[m]),
        decreases displays@.len() - i,
    {
        assert(windows@[i as int]@.len() == displays@[i as int].spaces@.len());
        nodes.push(build_display_node(&displays[i], &windows[i], focused));
        i = i + 1;
    }
    ApplicationTree { displays: nodes }
}

/// In a built tree, display `i` keeps its id, its space `j` keeps its id and
/// has index `j` and one node per window, and the window at position `k` is
/// that window of the input, by its id, pid (0 when unknown), owner's name
/// (empty when unknown) and title; it is marked focused exactly when the focused window id is its id:
/// with a focused window known, exactly the nodes of that window are
/// marked; with none, no node is.
pub proof fn law_built_tree_marks_the_focused_window(
    displays: Seq<DisplaySpaces>,
    windows: Seq<Vec<Vec<Window>>>,
    focused: Option<WindowId>,
    tree: ApplicationTree,
    i: int,
    j: int,
    k: int,
)
    requires
        windows.len() == displays.len(),
        forall|a: int| 0 <= a < displays.len() ==> (#[trigger] windows[a])@.len() == displays[a].spaces@.len(),
        tree.displays@.len() == displays.len(),
        forall|a: int|
            0 <= a < displays.len() ==> display_node_from(displays[a], windows[a]@, focused, #[trigger] tree.displays@[a]),
        0 <= i < displays.len(),
        0 <= j < displays[i].spaces@.len(),
        0 <= k < windows[i]@[j]@.len(),
    ensures
        0 <= j < tree.displays@[i].spaces@.len(),
        0 <= k < tree.displays@[i].spaces@[j].windows@.len(),
        tree.displays@[i].spaces@[j].windows@[k].id.0 == windows[i]@[j]@[k].info.window_id,
        tree.displays@[i].spaces@[j].windows@[k].title == windows[i]@[j]@[k].title,
        windows[i]@[j]@[k].pid matches Some(p) ==> tree.displays@[i].spaces@[j].windows@[k].pid == p,
        windows[i]@[j]@[k].pid is None ==> tree.displays@[i].spaces@[j].windows@[k].pid == 0,
        windows[i]@[j]@[k].owner_name matches Some(o) ==> tree.displays@[i].spaces@[j].windows@[k].app_name@ == o@,
        windows[i]@[j]@[k].owner_name is None ==> tree.displays@[i].spaces@[j].windows@[k].app_name@.len() == 0,
        tree.displays@[i].id == displays[i].display_identifier,
        tree.displays@[i].spaces@[j].id == displays[i].spaces@[j].id,
        tree.displays@[i].spaces@[j].index == j,
        tree.displays@[i].spaces@[j].windows@.len() == windows[i]@[j]@.len(),
        tree.displays@[i].spaces@[j].windows@[k].is_focused <==> (focused matches Some(f) && f.0
            == windows[i]@[j]@[k].info.window_id),
        focused is None ==> !tree.displays@[i].spaces@[j].windows@[k].is_focused,
{
    let d = tree.displays@[i];
    assert(display_node_from(displays[i], windows[i]@, focused, d));
    assert(space_node_from(displays[i].spaces@[j], j, windows[i]@[j]@, focused, d.spaces@[j]));
    assert(window_node_from(windows[i]@[j]@[k], focused, d.spaces@[j].windows@[k]));
}

/* --------------------------------- as text --------------------------------- */

/// A title as shown: the title, or `<No Title>`.
pub open spec fn title_text(t: Option<String>) -> Seq<char> {
    match t {
        Some(s) => s@,
        None => "<No Title>"@,
    }
}

/// The fields of a window as shown, from its number to its focus.
pub open spec fn window_fields(id: WindowId, pid: i32, app: Seq<char>, title: Option<String>, focused: bool) -> Seq<
    char,
> {
    "Window ID: "@ + int_text(id.0 as int) + ", PID: "@ + int_text(pid as int) + ", App: "@ + app + ", Title: "@
        + title_text(title) + ", Focused: "@ + bool_text(focused)
}

/// A search result as one line of text.
pub open spec fn result_text(r: SearchResult) -> Seq<char> {
    "Display ID: "@ + r.display_id.0@ + ", Space ID: "@ + decimal(r.space_id.0 as nat) + ", "@ + window_fields(
        r.window_id,
        r.pid,
        r.app_name@,
        r.title,
        r.is_focused,
    )
}

/// The line of a window in the tree's text.
pub open spec fn window_line(w: WindowNode) -> Seq<char> {
    "    "@ + window_fields(w.id, w.pid, w.app_name@, w.title, w.is_focused) + "\n"@
}

/// The lines of a space's windows.
pub open spec fn windows_text(ws: Seq<WindowNode>) -> Seq<char>
    decreases ws.len(),
{
    if ws.len() == 0 {
        Seq::empty()
    } else {
        windows_text(ws.drop_last()) + window_line(ws.last())
    }
}

/// The lines of a space: its id, then its windows.
pub open spec fn space_text(s: SpaceNode) -> Seq<char> {
    "  Space ID: "@ + decimal(s.id.0 as nat) + "\n"@ + windows_text(s.windows@)
}

/// The lines of a display's spaces.
pub open spec fn spaces_text(ss: Seq<SpaceNode>) -> Seq<char>
    decreases ss.len(),
{
    if ss.len() == 0 {
        Seq::empty()
    } else {
        spaces_text(ss.drop_last()) + space_text(ss.last())
    }
}

/// The lines of a display: its id, then its spaces.
pub open spec fn display_text(d: DisplayNode) -> Seq<char> {
    "Display ID: "@ + d.id.0@ + "\n"@ + spaces_text(d.spaces@)
}

/// The lines of the displays.
pub open spec fn tree_text(ds: Seq<DisplayNode>) -> Seq<char>
    decreases ds.len(),
{
    if ds.len() == 0 {
        Seq::empty()
    } else {
        tree_text(ds.drop_last()) + display_text(ds.last())
    }
}

fn push_window_fields(out: &mut String, id: WindowId, pid: i32, app: &str, title: &Option<String>, focused: bool)
    ensures
        final(out)@ == old(out)@ + window_fields(id, pid, app@, *title, focused),
{
    out.append("Window ID: ");
    out.append(int_to_string(id.0).as_str());
    out.append(", PID: ");
    out.append(int_to_string(pid as i64).as_str());
    out.append(", App: ");
    out.append(app);
    out.append(", Title: ");
    match title {
        Some(t) => out.append(t.as_str()),
        None => out.append("<No Title>"),
    }
    out.append(", Focused: ");
    out.append(bool_to_string(focused).as_str());
}

impl SearchResult {
    /// The result as one line of text.
    pub fn describe(&self) -> (r: String)
        ensures
            r@ == result_text(*self),
    {
        let mut out = owned("Display ID: ");
        out.append(self.display_id.0.as_str());
        out.append(", Space ID: ");
        out.append(u64_to_string(self.space_id.0).as_str());
        out.append(", ");
        push_window_fields(&mut out, self.window_id, self.pid, self.app_name.as_str(), &self.title, self.is_focused);
        out
    }
}

impl ApplicationTree {
    /// The tree as text: a line per display, per space (indented by two
    /// spaces) and per window (indented by four).
    pub fn describe(&self) -> (r: String)
        ensures
            r@ == tree_text(self.displays@),
    {
        let mut out = String::new();
        let mut i: usize = 0;
        while i < self.displays.len()
            invariant
                i <= self.displays@.len(),
                out@ == tree_text(self.displays@.subrange(0, i as int)),
            decreases self.displays@.len() - i,
        {
            let d = &self.displays[i];
            let ghost before = out@;
            out.append("Display ID: ");
            out.append(d.id.0.as_str());
            out.append("\n");
            let ghost head = out@;
            let mut j: usize = 0;
            while j < d.spaces.len()
                invariant
                    j <= d.spaces@.len(),
                    out@ == head + spaces_text(d.spaces@.subrange(0, j as int)),
                decreases d.spaces@.len() - j,
            {
                let sp = &d.spaces[j];
                let ghost before_space = out@;
                out.append("  Space ID: ");
                out.append(u64_to_string(sp.id.0).as_str());
                out.append("\n");
                let ghost space_head = out@;
                let mut k: usize = 0;
                while k < sp.windows.len()
                    invariant
                        k <= sp.windows@.len(),
                        out@ == space_head + windows_text(sp.windows@.subrange(0, k as int)),
                    decreases sp.windows@.len() - k,
                {
                    let w = &sp.windows[k];
                    let ghost before_window = out@;
                    out.append("    ");
                    push_window_fields(&mut out, w.id, w.pid, w.app_name.as_str(), &w.title, w.is_focused);
                    out.append("\n");
                    assert(sp.windows@.subrange(0, k + 1).drop_last() =~= sp.windows@.subrange(0, k as int));
                    assert(out@ =~= before_window + window_line(*w));
                    k = k + 1;
                }
                assert(sp.windows@.subrange(0, sp.windows@.len() as int) =~= sp.windows@);
                assert(d.spaces@.subrange(0, j + 1).drop_last() =~= d.spaces@.subrange(0, j as int));
                assert(out@ =~= before_space + space_text(*sp));
                j = j + 1;
            }
            assert(d.spaces@.subrange(0, d.spaces@.len() as int) =~= d.spaces@);
            assert(self.displays@.subrange(0, i + 1).drop_last() =~= self.displays@.subrange(0, i as int));
            assert(out@ =~= before + display_text(*d));
            i = i + 1;
        }
        assert(self.displays@.subrange(0, self.displays@.len() as int) =~= self.displays@);
        out
    }
}

} // verus!
