//! The order in which the palette lists applications: by name, ignoring
//! case, and, among names that are equal so, in the order they were found.

use vstd::prelude::*;

use crate::command::{collect_system_preferences, system_preference_panes, AppInfo};
use crate::lexical::{lemma_le_transitive, lemma_lt_irreflexive, lemma_lt_total, seq_le, seq_lt, str_lt};
use crate::text::{lowercase_of, to_lowercase};

verus! {

/// The key applications are ordered by: the lower-case form of the name.
pub open spec fn app_key(a: AppInfo) -> Seq<char> {
    lowercase_of(a.name@)
}

/// Whether the keys never decrease along the list.
pub open spec fn sorted_by_key(s: Seq<AppInfo>) -> bool {
    forall|i: int, j: int| 0 <= i < j < s.len() ==> seq_le(app_key(#[trigger] s[i]), app_key(#[trigger] s[j]))
}

/// The applications of the list whose key is `k`, in their order.
pub open spec fn with_key(s: Seq<AppInfo>, k: Seq<char>) -> Seq<AppInfo> {
    s.filter(|a: AppInfo| app_key(a) == k)
}

/// The keys of pairs made by the sort.
spec fn keys_match(ps: Seq<(String, AppInfo)>) -> bool {
    forall|i: int| 0 <= i < ps.len() ==> (#[trigger] ps[i]).0@ == app_key(ps[i].1)
}

spec fn apps_of(ps: Seq<(String, AppInfo)>) -> Seq<AppInfo> {
    ps.map_values(|p: (String, AppInfo)| p.1)
}

proof fn lemma_with_key_push(s: Seq<AppInfo>, x: AppInfo, k: Seq<char>)
    ensures
        with_key(s.push(x), k) == if app_key(x) == k {
            with_key(s, k).push(x)
        } else {
            with_key(s, k)
        },
{
    reveal(Seq::filter);
    assert(s.push(x).drop_last() =~= s);
}

proof fn lemma_with_key_insert(s: Seq<AppInfo>, p: int, x: AppInfo, k: Seq<char>)
    requires
        0 <= p <= s.len(),
        app_key(x) == k ==> forall|j: int| p <= j < s.len() ==> app_key(#[trigger] s[j]) != k,
    ensures
        with_key(s.insert(p, x), k) == if app_key(x) == k {
            with_key(s, k).push(x)
        } else {
            with_key(s, k)
        },
{
    let pred = |a: AppInfo| app_key(a) == k;
    let front = s.subrange(0, p);
    let back = s.subrange(p, s.len() as int);
    assert(s =~= front + back);
    assert(s.insert(p, x) =~= front.push(x) + back);
    Seq::filter_distributes_over_add(front, back, pred);
    Seq::filter_distributes_over_add(front.push(x), back, pred);
    lemma_with_key_push(front, x, k);
    if app_key(x) == k {
        assert forall|j: int| 0 <= j < back.len() implies !pred(#[trigger] back[j]) by {
            assert(back[j] == s[p + j]);
        }
        back.lemma_all_neg_filter_empty(pred);
        assert(back.filter(pred) =~= Seq::<AppInfo>::empty());
        assert(with_key(s, k) =~= front.filter(pred));
        assert(with_key(s.insert(p, x), k) =~= front.filter(pred).push(x));
    }
}

/// Sorts applications by the lower-case form of their names; the sort is
/// stable, so applications whose names are equal ignoring case keep their
/// order.
pub fn sort_apps_by_name(apps: Vec<AppInfo>) -> (r: Vec<AppInfo>)
    ensures
        r@.len() == apps@.len(),
        sorted_by_key(r@),
        forall|k: Seq<char>| #[trigger] with_key(r@, k) == with_key(apps@, k),
{
    let ghost all = apps@;
    let mut rest = apps;
    let total = rest.len();
    let mut out: Vec<(String, AppInfo)> = Vec::new();
    let mut done: usize = 0;
    while rest.len() > 0
        invariant
            done + rest@.len() == total,
            total == all.len(),
            rest@ == all.subrange(done as int, all.len() as int),
            out@.len() == done,
            keys_match(out@),
            sorted_by_key(apps_of(out@)),
            forall|k: Seq<char>| #[trigger] with_key(apps_of(out@), k) == with_key(all.subrange(0, done as int), k),
        decreases rest@.len(),
    {
        let x = rest.remove(0);
        assert(x == all[done as int]);
        let key = to_lowercase(x.name.as_str());
        let mut p: usize = out.len();
        while p > 0 && str_lt(key.as_str(), out[p - 1].0.as_str())
            invariant
                p <= out@.len(),
                forall|j: int| p <= j < out@.len() ==> seq_lt(key@, (#[trigger] out@[j]).0@),
            decreases p,
        {
            p = p - 1;
        }
        let ghost before = out@;
        let ghost s = apps_of(before);
        proof {
            assert forall|j: int| 0 <= j < p implies seq_le((#[trigger] before[j]).0@, key@) by {
                lemma_lt_total(key@, before[p - 1].0@);
                assert(s[j] == before[j].1 && s[p - 1] == before[p - 1].1);
                if j < p - 1 {
                    assert(seq_le(app_key(s[j]), app_key(s[p - 1])));
                }
                lemma_le_transitive(before[j].0@, before[p - 1].0@, key@);
            }
        }
        out.insert(p, (key, x));
        proof {
            let s2 = apps_of(out@);
            assert(s2 =~= s.insert(p as int, x));
            assert forall|j: int| p <= j < s.len() implies app_key(#[trigger] s[j]) != app_key(x) by {
                assert(s[j] == before[j].1);
                lemma_lt_irreflexive(app_key(x));
            }
            assert forall|k: Seq<char>| #[trigger] with_key(s2, k) == with_key(all.subrange(0, done + 1), k) by {
                lemma_with_key_insert(s, p as int, x, k);
                assert(all.subrange(0, done + 1) =~= all.subrange(0, done as int).push(x));
                lemma_with_key_push(all.subrange(0, done as int), x, k);
            }
            assert forall|i: int, j: int| 0 <= i < j < s2.len() implies seq_le(
                app_key(#[trigger] s2[i]),
                app_key(#[trigger] s2[j]),
            ) by {
                let i0 = if i < p { i } else { i - 1 };
                let j0 = if j <= p { j } else { j - 1 };
                if i < p && j > p {
                    assert(s2[i] == s[i] && s2[j] == s[j0]);
                    assert(before[i].1 == s[i] && before[j0].1 == s[j0]);
                    lemma_le_transitive(app_key(s[i]), app_key(x), app_key(s[j0]));
                } else if i < p && j == p {
                    assert(before[i].1 == s[i]);
                } else if i == p {
                    assert(before[j0].1 == s[j0]);
                } else {
                    assert(s2[i] == s[i0] && s2[j] == s[j0]);
                }
            }
            assert forall|i: int| 0 <= i < out@.len() implies (#[trigger] out@[i]).0@ == app_key(out@[i].1) by {
                if i < p {
                    assert(out@[i] == before[i]);
                } else if i > p {
                    assert(out@[i] == before[i - 1]);
                }
            }
        }
        done = done + 1;
    }
    let mut r: Vec<AppInfo> = Vec::new();
    let mut i: usize = 0;
    let ghost sorted = apps_of(out@);
    while out.len() > 0
        invariant
            i + out@.len() == total,
            r@ + apps_of(out@) == sorted,
        decreases out@.len(),
    {
        let ghost was = out@;
        let (_, a) = out.remove(0);
        assert(apps_of(was) =~= seq![a] + apps_of(out@));
        r.push(a);
        i = i + 1;
        assert(r@ + apps_of(out@) =~= sorted);
    }
    assert(all.subrange(0, all.len() as int) =~= all);
    assert(r@ =~= sorted);
    r
}

/// The name of an application bundle: the first of its display name, its
/// bundle name and its older "Bundle name" entry that the bundle's
/// `Info.plist` gives (each `None` where absent or not a string), else the
/// bundle's file name without its extension, else the empty string.
pub fn pick_app_name(
    display_name: Option<String>,
    bundle_name: Option<String>,
    legacy_name: Option<String>,
    file_stem: Option<String>,
) -> (r: String)
    ensures
        r@ == match (display_name, bundle_name, legacy_name, file_stem) {
            (Some(n), _, _, _) => n@,
            (None, Some(n), _, _) => n@,
            (None, None, Some(n), _) => n@,
            (None, None, None, Some(n)) => n@,
            (None, None, None, None) => Seq::<char>::empty(),
        },
{
    match (display_name, bundle_name, legacy_name, file_stem) {
        (Some(n), _, _, _) => n,
        (None, Some(n), _, _) => n,
        (None, None, Some(n), _) => n,
        (None, None, None, Some(n)) => n,
        (None, None, None, None) => String::new(),
    }
}

/// Whether `prefs` are the System Settings panes as launchable entries, as
/// `collect_system_preferences` makes them.
pub open spec fn preference_entries(prefs: Seq<AppInfo>) -> bool {
    &&& prefs.len() == system_preference_panes().len()
    &&& forall|i: int|
        0 <= i < prefs.len() ==> (#[trigger] prefs[i]).name@ == "system preferences - "@
            + system_preference_panes()[i].0@ && prefs[i].path@ == system_preference_panes()[i].1@
}

/// The palette's applications: those found in `/Applications`, in
/// `/System/Applications`, the System Settings panes, and those found in
/// `~/Applications` (`None` without a home directory), all sorted by name
/// ignoring case, stably.
pub fn get_app_info(
    applications: Vec<AppInfo>,
    system_applications: Vec<AppInfo>,
    home_applications: Option<Vec<AppInfo>>,
) -> (r: Vec<AppInfo>)
    requires
        applications@.len() + system_applications@.len() + system_preference_panes().len() + match home_applications {
            Some(h) => h@.len(),
            None => 0,
        } <= usize::MAX,
    ensures
        exists|prefs: Seq<AppInfo>| {
            &&& #[trigger] preference_entries(prefs)
            &&& {
                let found = applications@ + system_applications@ + prefs + match home_applications {
                    Some(h) => h@,
                    None => Seq::empty(),
                };
                &&& r@.len() == found.len()
                &&& sorted_by_key(r@)
                &&& forall|k: Seq<char>| #[trigger] with_key(r@, k) == with_key(found, k)
            }
        },
{
    let mut apps = applications;
    let mut sys = system_applications;
    apps.append(&mut sys);
    let mut prefs = collect_system_preferences();
    let ghost pv = prefs@;
    apps.append(&mut prefs);
    let ghost mid = apps@;
    match home_applications {
        Some(h) => {
            let mut h = h;
            apps.append(&mut h);
        },
        None => {},
    }
    let r = sort_apps_by_name(apps);
    assert(mid == applications@ + system_applications@ + pv);
    assert(preference_entries(pv));
    r
}

} // verus!
