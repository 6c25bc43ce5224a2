//! String-keyed maps: `KvStore`, each key with one value, kept and listed in
//! increasing key order, which holds the header and query tables of HTTP
//! requests and the pending requests by id; how `yal.db` turns Lua table
//! keys into text; and the laws of reading after writing that every such
//! map, the plugin store among them, obeys.

use vstd::prelude::*;

use crate::lexical::{lemma_lt_irreflexive, lemma_lt_total, lemma_lt_transitive, seq_lt, str_lt};
use crate::text::{int_text, int_to_string, str_eq};

verus! {

/// The keys of a list of entries, in order.
pub open spec fn keys_of<V>(e: Seq<(String, V)>) -> Seq<Seq<char>> {
    e.map_values(|p: (String, V)| p.0@)
}

/// Whether each key comes strictly before the next ones.
pub open spec fn strictly_sorted(ks: Seq<Seq<char>>) -> bool {
    forall|i: int, j: int| 0 <= i < j < ks.len() ==> seq_lt(#[trigger] ks[i], #[trigger] ks[j])
}

/// Whether some entry has this key.
pub open spec fn has_key<V>(e: Seq<(String, V)>, k: Seq<char>) -> bool {
    exists|i: int| 0 <= i < e.len() && (#[trigger] e[i]).0@ == k
}

/// The position of an entry with this key.
pub open spec fn index_of_key<V>(e: Seq<(String, V)>, k: Seq<char>) -> int {
    choose|i: int| 0 <= i < e.len() && (#[trigger] e[i]).0@ == k
}

/// The map that a list of entries with distinct keys stands for.
pub open spec fn entry_map<V>(e: Seq<(String, V)>) -> Map<Seq<char>, V> {
    Map::new(|k: Seq<char>| has_key(e, k), |k: Seq<char>| e[index_of_key(e, k)].1)
}

/// A key-value store: string keys, each with one value, kept in increasing
/// key order.
pub struct KvStore<V> {
    entries: Vec<(String, V)>,
}

impl<V> View for KvStore<V> {
    type V = Map<Seq<char>, V>;

    closed spec fn view(&self) -> Map<Seq<char>, V> {
        entry_map(self.entries@)
    }
}

/// Entries with strictly increasing keys have exactly one position per key.
proof fn lemma_unique_index<V>(e: Seq<(String, V)>, i: int)
    requires
        strictly_sorted(keys_of(e)),
        0 <= i < e.len(),
    ensures
        has_key(e, e[i].0@),
        index_of_key(e, e[i].0@) == i,
        entry_map(e).contains_key(e[i].0@),
        entry_map(e)[e[i].0@] == e[i].1,
{
    let k = e[i].0@;
    assert(keys_of(e)[i] == k);
    assert(has_key(e, k));
    let j = index_of_key(e, k);
    assert(keys_of(e)[j] == k);
    if j != i {
        lemma_lt_irreflexive(k);
        if j < i {
            assert(seq_lt(keys_of(e)[j], keys_of(e)[i]));
        } else {
            assert(seq_lt(keys_of(e)[i], keys_of(e)[j]));
        }
    }
}

/// Where a key stands among strictly sorted entries: every key before the
/// position comes before it, and the key at the position (if any) does not.
pub open spec fn is_slot<V>(e: Seq<(String, V)>, k: Seq<char>, p: int) -> bool {
    &&& 0 <= p <= e.len()
    &&& forall|j: int| 0 <= j < p ==> seq_lt((#[trigger] e[j]).0@, k)
    &&& p < e.len() ==> !seq_lt(e[p].0@, k)
}

/// At its slot, a key is either the key found there or absent.
proof fn lemma_slot<V>(e: Seq<(String, V)>, k: Seq<char>, p: int)
    requires
        strictly_sorted(keys_of(e)),
        is_slot(e, k, p),
    ensures
        has_key(e, k) <==> (p < e.len() && e[p].0@ == k),
        forall|j: int| p < j < e.len() ==> seq_lt(k, (#[trigger] e[j]).0@),
        p < e.len() && e[p].0@ != k ==> seq_lt(k, e[p].0@),
{
    if p < e.len() {
        lemma_lt_total(e[p].0@, k);
        assert forall|j: int| p < j < e.len() implies seq_lt(k, (#[trigger] e[j]).0@) by {
            assert(keys_of(e)[p] == e[p].0@);
            assert(keys_of(e)[j] == e[j].0@);
            assert(seq_lt(keys_of(e)[p], keys_of(e)[j]));
            if e[p].0@ != k {
                lemma_lt_transitive(k, e[p].0@, e[j].0@);
            }
        }
    }
    if has_key(e, k) {
        let j = choose|j: int| 0 <= j < e.len() && (#[trigger] e[j]).0@ == k;
        lemma_lt_irreflexive(k);
        if j < p {
            assert(seq_lt(e[j].0@, k));
        } else if j > p {
            assert(seq_lt(k, e[j].0@));
        }
    }
}

/// The views of a list of strings.
pub open spec fn string_views(v: Seq<String>) -> Seq<Seq<char>> {
    v.map_values(|s: String| s@)
}

/// The map after giving each pair's key its value, pairs in order (a later
/// pair wins over an earlier one with the same key).
pub open spec fn inserted_all<V>(m: Map<Seq<char>, V>, ps: Seq<(String, V)>) -> Map<Seq<char>, V>
    decreases ps.len(),
{
    if ps.len() == 0 {
        m
    } else {
        inserted_all(m, ps.drop_last()).insert(ps.last().0@, ps.last().1)
    }
}

/// A table key as a plugin hands it over. Integral numbers come as
/// `Integer`; other numbers as their text.
pub enum LuaKey {
    Text(String),
    Integer(i64),
    Other,
}

/// Why a store operation was refused.
#[derive(Debug, PartialEq, Eq, Structural)]
pub enum KvError {
    /// A key of `set_many` was neither a string nor a number.
    KeyNotScalar,
}

impl KvError {
    /// The message that the plugin sees.
    pub fn message(&self) -> (r: String)
        ensures
            r@ == "set_many: keys must be string/number"@,
    {
        String::from_str("set_many: keys must be string/number")
    }
}

/// The text of a key: a string as it is, an integer in decimal.
pub open spec fn key_text_of(k: LuaKey) -> Option<Seq<char>> {
    match k {
        LuaKey::Text(s) => Some(s@),
        LuaKey::Integer(i) => Some(int_text(i as int)),
        LuaKey::Other => None,
    }
}

/// The text of a key, or the error for a key that is neither.
pub fn key_text(k: LuaKey) -> (r: Result<String, KvError>)
    ensures
        match key_text_of(k) {
            Some(t) => r matches Ok(s) && s@ == t,
            None => r == Err::<String, KvError>(KvError::KeyNotScalar),
        },
{
    match k {
        LuaKey::Text(s) => Ok(s),
        LuaKey::Integer(i) => Ok(int_to_string(i)),
        LuaKey::Other => Err(KvError::KeyNotScalar),
    }
}

/// The position of the first key that is neither a string nor a number.
pub open spec fn first_bad_key<V>(ps: Seq<(LuaKey, V)>) -> int
    decreases ps.len(),
{
    if ps.len() == 0 {
        0
    } else if ps[0].0 is Other {
        0
    } else {
        1 + first_bad_key(ps.drop_first())
    }
}

/// The pairs with their keys as text.
pub open spec fn texted_pairs<V>(ps: Seq<(LuaKey, V)>) -> Seq<(Seq<char>, V)> {
    ps.map_values(|p: (LuaKey, V)| (key_text_of(p.0).unwrap(), p.1))
}

/// The map after giving each key (as text) its value, pairs in order.
pub open spec fn inserted_texts<V>(m: Map<Seq<char>, V>, ps: Seq<(Seq<char>, V)>) -> Map<Seq<char>, V>
    decreases ps.len(),
{
    if ps.len() == 0 {
        m
    } else {
        inserted_texts(m, ps.drop_last()).insert(ps.last().0, ps.last().1)
    }
}

impl<V> KvStore<V> {
    #[verifier::type_invariant]
    closed spec fn sorted(&self) -> bool {
        strictly_sorted(keys_of(self.entries@))
    }

    /// An empty store.
    pub fn new() -> (r: KvStore<V>)
        ensures
            r@ == Map::<Seq<char>, V>::empty(),
    {
        let r = KvStore { entries: Vec::new() };
        assert(r@ =~= Map::<Seq<char>, V>::empty());
        r
    }

    /// The number of keys.
    pub fn len(&self) -> (n: usize)
        ensures
            n == self@.len(),
    {
        proof {
            use_type_invariant(self);
            self.lemma_dom_len();
        }
        self.entries.len()
    }

    proof fn lemma_dom_len(&self)
        requires
            strictly_sorted(keys_of(self.entries@)),
        ensures
            self@.dom().finite(),
            self@.len() == self.entries@.len(),
    {
        let e = self.entries@;
        let ks = keys_of(e);
        assert forall|i: int, j: int| 0 <= i < ks.len() && 0 <= j < ks.len() && i != j implies ks[i] != ks[j] by {
            lemma_lt_irreflexive(ks[i]);
            if i < j {
                assert(seq_lt(ks[i], ks[j]));
            } else {
                assert(seq_lt(ks[j], ks[i]));
            }
        }
        ks.unique_seq_to_set();
        assert(self@.dom() =~= ks.to_set()) by {
            assert forall|k: Seq<char>| self@.dom().contains(k) implies ks.to_set().contains(k) by {
                let i = choose|i: int| 0 <= i < e.len() && (#[trigger] e[i]).0@ == k;
                assert(ks[i] == k);
            }
            assert forall|k: Seq<char>| ks.to_set().contains(k) implies self@.dom().contains(k) by {
                let i = choose|i: int| 0 <= i < ks.len() && ks[i] == k;
                assert(e[i].0@ == k);
            }
        }
        vstd::seq_lib::seq_to_set_is_finite(ks);
    }

    /// Finds where `key` stands, and whether it is there.
    fn locate(&self, key: &str) -> (r: (usize, bool))
        ensures
            is_slot(self.entries@, key@, r.0 as int),
            r.1 == (r.0 < self.entries@.len() && self.entries@[r.0 as int].0@ == key@),
    {
        let mut p: usize = 0;
        while p < self.entries.len() && str_lt(self.entries[p].0.as_str(), key)
            invariant
                p <= self.entries@.len(),
                forall|j: int| 0 <= j < p ==> seq_lt((#[trigger] self.entries@[j]).0@, key@),
            decreases self.entries@.len() - p,
        {
            p = p + 1;
        }
        let found = p < self.entries.len() && str_eq(self.entries[p].0.as_str(), key);
        (p, found)
    }

    /// The value of `key`, if the store has it.
    pub fn get(&self, key: &str) -> (r: Option<&V>)
        ensures
            match r {
                Some(v) => self@.contains_key(key@) && *v == self@[key@],
                None => !self@.contains_key(key@),
            },
    {
        proof {
            use_type_invariant(self);
        }
        let (p, found) = self.locate(key);
        proof {
            lemma_slot(self.entries@, key@, p as int);
        }
        if found {
            proof {
                lemma_unique_index(self.entries@, p as int);
            }
            Some(&self.entries[p].1)
        } else {
            None
        }
    }

    /// Gives `key` the value `value`, replacing any value it had.
    pub fn set(&mut self, key: String, value: V)
        ensures
            final(self)@ == old(self)@.insert(key@, value),
    {
        proof {
            use_type_invariant(&*self);
        }
        let (p, found) = self.locate(key.as_str());
        let ghost e = self.entries@;
        let ghost k = key@;
        proof {
            lemma_slot(e, k, p as int);
        }
        let mut entries: Vec<(String, V)> = Vec::new();
        std::mem::swap(&mut entries, &mut self.entries);
        if found {
            entries.set(p, (key, value));
            let ghost e2 = entries@;
            assert(keys_of(e2) =~= keys_of(e));
            self.entries = entries;
            proof {
                self.lemma_replaced(e, p as int, k, value);
            }
        } else {
            entries.insert(p, (key, value));
            let ghost e2 = entries@;
            assert forall|i: int, j: int| 0 <= i < j < keys_of(e2).len() implies seq_lt(
                #[trigger] keys_of(e2)[i],
                #[trigger] keys_of(e2)[j],
            ) by {
                assert(keys_of(e2)[i] == e2[i].0@);
                assert(keys_of(e2)[j] == e2[j].0@);
                if i < p && j > p {
                    assert(e2[j] == e[j - 1]);
                    lemma_lt_transitive(e[i].0@, k, e[j - 1].0@);
                } else if i < p && j < p {
                    assert(keys_of(e)[i] == e[i].0@ && keys_of(e)[j] == e[j].0@);
                } else if i > p {
                    assert(keys_of(e)[i - 1] == e[i - 1].0@ && keys_of(e)[j - 1] == e[j - 1].0@);
                } else if i < p && j == p {
                } else {
                    assert(e2[j] == e[j - 1]);
                }
            }
            self.entries = entries;
            proof {
                self.lemma_inserted(e, p as int, k, value);
            }
        }
    }

    /// The keys, in increasing order.
    pub fn keys(&self) -> (r: Vec<String>)
        ensures
            strictly_sorted(string_views(r@)),
            forall|k: Seq<char>| self@.contains_key(k) <==> string_views(r@).contains(k),
    {
        proof {
            use_type_invariant(self);
        }
        let mut out: Vec<String> = Vec::new();
        let mut i: usize = 0;
        while i < self.entries.len()
            invariant
                strictly_sorted(keys_of(self.entries@)),
                i <= self.entries@.len(),
                out@.len() == i,
                forall|j: int| 0 <= j < i ==> (#[trigger] out@[j])@ == self.entries@[j].0@,
            decreases self.entries@.len() - i,
        {
            out.push(self.entries[i].0.clone());
            i = i + 1;
        }
        assert(string_views(out@) =~= keys_of(self.entries@));
        assert forall|k: Seq<char>| self@.contains_key(k) <==> string_views(out@).contains(k) by {
            if self@.contains_key(k) {
                let j = choose|j: int| 0 <= j < self.entries@.len() && (#[trigger] self.entries@[j]).0@ == k;
                assert(string_views(out@)[j] == k);
            }
            if string_views(out@).contains(k) {
                let j = choose|j: int| 0 <= j < string_views(out@).len() && string_views(out@)[j] == k;
                assert(self.entries@[j].0@ == k);
            }
        }
        out
    }

    /// The entries, in increasing key order.
    pub closed spec fn entry_list(&self) -> Seq<(String, V)> {
        self.entries@
    }

    /// The entries, in increasing key order: what the store writes out.
    pub fn entries(&self) -> (r: &Vec<(String, V)>)
        ensures
            r@ == self.entry_list(),
            strictly_sorted(keys_of(r@)),
            entry_map(r@) == self@,
    {
        proof {
            use_type_invariant(self);
        }
        &self.entries
    }

    /// Gives each pair's key its value, pairs in order.
    pub fn set_all(&mut self, pairs: Vec<(String, V)>)
        ensures
            final(self)@ == inserted_all(old(self)@, pairs@),
    {
        let ghost start = self@;
        let ghost all = pairs@;
        let mut rest = pairs;
        let total = rest.len();
        let mut done: usize = 0;
        while rest.len() > 0
            invariant
                done + rest@.len() == total,
                total == all.len(),
                rest@ == all.subrange(done as int, all.len() as int),
                self@ == inserted_all(start, all.subrange(0, done as int)),
            decreases rest@.len(),
        {
            let (k, v) = rest.remove(0);
            assert(all.subrange(0, done + 1).drop_last() =~= all.subrange(0, done as int));
            self.set(k, v);
            done = done + 1;
        }
        assert(all.subrange(0, all.len() as int) =~= all);
    }

    /// A store holding the pairs, a later pair winning over an earlier one
    /// with the same key.
    pub fn from_pairs(pairs: Vec<(String, V)>) -> (r: KvStore<V>)
        ensures
            r@ == inserted_all(Map::<Seq<char>, V>::empty(), pairs@),
    {
        let mut r = KvStore::new();
        r.set_all(pairs);
        r
    }

    proof fn lemma_replaced(&self, e: Seq<(String, V)>, p: int, k: Seq<char>, value: V)
        requires
            strictly_sorted(keys_of(e)),
            0 <= p < e.len(),
            e[p].0@ == k,
            self.entries@.len() == e.len(),
            self.entries@[p].0@ == k,
            self.entries@[p].1 == value,
            forall|i: int| 0 <= i < e.len() && i != p ==> self.entries@[i] == e[i],
        ensures
            self@ == entry_map(e).insert(k, value),
    {
        let e2 = self.entries@;
        assert(keys_of(e2) =~= keys_of(e));
        assert forall|kk: Seq<char>| #[trigger] has_key(e2, kk) <==> has_key(e, kk) by {
            if has_key(e2, kk) {
                let i = choose|i: int| 0 <= i < e2.len() && (#[trigger] e2[i]).0@ == kk;
                assert(keys_of(e2)[i] == keys_of(e)[i]);
                assert(e[i].0@ == kk);
            }
            if has_key(e, kk) {
                let i = choose|i: int| 0 <= i < e.len() && (#[trigger] e[i]).0@ == kk;
                assert(keys_of(e2)[i] == keys_of(e)[i]);
                assert(e2[i].0@ == kk);
            }
        }
        assert forall|kk: Seq<char>| has_key(e2, kk) implies #[trigger] entry_map(e2)[kk] == entry_map(e).insert(
            k,
            value,
        )[kk] by {
            let i = choose|i: int| 0 <= i < e2.len() && (#[trigger] e2[i]).0@ == kk;
            lemma_unique_index(e2, i);
            lemma_unique_index(e, p);
            if i != p {
                lemma_unique_index(e, i);
                assert(e2[i] == e[i]);
                assert(kk != k);
            } else {
                assert(kk == k);
            }
        }
        lemma_unique_index(e, p);
        assert(self@ =~= entry_map(e).insert(k, value));
    }

    proof fn lemma_inserted(&self, e: Seq<(String, V)>, p: int, k: Seq<char>, value: V)
        requires
            strictly_sorted(keys_of(e)),
            strictly_sorted(keys_of(self.entries@)),
            0 <= p <= e.len(),
            !has_key(e, k),
            self.entries@ == e.insert(p, (self.entries@[p].0, value)),
            self.entries@[p].0@ == k,
        ensures
            self@ == entry_map(e).insert(k, value),
    {
        let e2 = self.entries@;
        assert forall|kk: Seq<char>| #[trigger] has_key(e2, kk) <==> (has_key(e, kk) || kk == k) by {
            if has_key(e2, kk) {
                let i = choose|i: int| 0 <= i < e2.len() && (#[trigger] e2[i]).0@ == kk;
                if i < p {
                    assert(e[i] == e2[i]);
                } else if i > p {
                    assert(e[i - 1] == e2[i]);
                }
            }
            if has_key(e, kk) {
                let i = choose|i: int| 0 <= i < e.len() && (#[trigger] e[i]).0@ == kk;
                if i < p {
                    assert(e2[i] == e[i]);
                } else {
                    assert(e2[i + 1] == e[i]);
                }
            }
            if kk == k {
                assert(e2[p].0@ == k);
            }
        }
        assert forall|kk: Seq<char>| has_key(e2, kk) implies #[trigger] entry_map(e2)[kk] == entry_map(e).insert(
            k,
            value,
        )[kk] by {
            let i = choose|i: int| 0 <= i < e2.len() && (#[trigger] e2[i]).0@ == kk;
            lemma_unique_index(e2, i);
            if i < p {
                assert(e2[i] == e[i]);
                lemma_unique_index(e, i);
            } else if i > p {
                assert(e2[i] == e[i - 1]);
                lemma_unique_index(e, i - 1);
            }
        }
        assert(self@ =~= entry_map(e).insert(k, value));
    }

    /// Removes `key` and its value, if the store has it.
    pub fn delete(&mut self, key: &str)
        ensures
            final(self)@ == old(self)@.remove(key@),
    {
        proof {
            use_type_invariant(&*self);
        }
        let (p, found) = self.locate(key);
        let ghost e = self.entries@;
        let ghost k = key@;
        proof {
            lemma_slot(e, k, p as int);
        }
        if found {
            let mut entries: Vec<(String, V)> = Vec::new();
            std::mem::swap(&mut entries, &mut self.entries);
            entries.remove(p);
            let ghost e2 = entries@;
            assert forall|i: int, j: int| 0 <= i < j < keys_of(e2).len() implies seq_lt(
                #[trigger] keys_of(e2)[i],
                #[trigger] keys_of(e2)[j],
            ) by {
                let i0 = if i < p { i } else { i + 1 };
                let j0 = if j < p { j } else { j + 1 };
                assert(e2[i] == e[i0] && e2[j] == e[j0]);
                assert(keys_of(e)[i0] == e[i0].0@ && keys_of(e)[j0] == e[j0].0@);
            }
            self.entries = entries;
            proof {
                self.lemma_removed(e, p as int, k);
            }
        } else {
            assert(self@ =~= entry_map(e).remove(k));
        }
    }

    /// Removes `key` and hands back its value, if the store has it.
    pub fn take(&mut self, key: &str) -> (r: Option<V>)
        ensures
            final(self)@ == old(self)@.remove(key@),
            match r {
                Some(v) => old(self)@.contains_key(key@) && v == old(self)@[key@],
                None => !old(self)@.contains_key(key@),
            },
    {
        proof {
            use_type_invariant(&*self);
        }
        let (p, found) = self.locate(key);
        let ghost e = self.entries@;
        let ghost k = key@;
        proof {
            lemma_slot(e, k, p as int);
        }
        if found {
            proof {
                lemma_unique_index(e, p as int);
            }
            let mut entries: Vec<(String, V)> = Vec::new();
            std::mem::swap(&mut entries, &mut self.entries);
            let (_, v) = entries.remove(p);
            let ghost e2 = entries@;
            assert forall|i: int, j: int| 0 <= i < j < keys_of(e2).len() implies seq_lt(
                #[trigger] keys_of(e2)[i],
                #[trigger] keys_of(e2)[j],
            ) by {
                let i0 = if i < p { i } else { i + 1 };
                let j0 = if j < p { j } else { j + 1 };
                assert(e2[i] == e[i0] && e2[j] == e[j0]);
                assert(keys_of(e)[i0] == e[i0].0@ && keys_of(e)[j0] == e[j0].0@);
            }
            self.entries = entries;
            proof {
                self.lemma_removed(e, p as int, k);
            }
            Some(v)
        } else {
            assert(self@ =~= entry_map(e).remove(k));
            None
        }
    }

    proof fn lemma_removed(&self, e: Seq<(String, V)>, p: int, k: Seq<char>)
        requires
            strictly_sorted(keys_of(e)),
            strictly_sorted(keys_of(self.entries@)),
            0 <= p < e.len(),
            e[p].0@ == k,
            self.entries@ == e.remove(p),
        ensures
            self@ == entry_map(e).remove(k),
    {
        let e2 = self.entries@;
        lemma_unique_index(e, p);
        assert forall|kk: Seq<char>| #[trigger] has_key(e2, kk) <==> (has_key(e, kk) && kk != k) by {
            if has_key(e2, kk) {
                let i = choose|i: int| 0 <= i < e2.len() && (#[trigger] e2[i]).0@ == kk;
                let i0 = if i < p { i } else { i + 1 };
                assert(e2[i] == e[i0]);
                lemma_unique_index(e, i0);
            }
            if has_key(e, kk) && kk != k {
                let i = choose|i: int| 0 <= i < e.len() && (#[trigger] e[i]).0@ == kk;
                if i < p {
                    assert(e2[i] == e[i]);
                } else {
                    assert(i != p);
                    assert(e2[i - 1] == e[i]);
                }
            }
        }
        assert forall|kk: Seq<char>| has_key(e2, kk) implies #[trigger] entry_map(e2)[kk] == entry_map(e).remove(
            k,
        )[kk] by {
            let i = choose|i: int| 0 <= i < e2.len() && (#[trigger] e2[i]).0@ == kk;
            let i0 = if i < p { i } else { i + 1 };
            assert(e2[i] == e[i0]);
            lemma_unique_index(e2, i);
            lemma_unique_index(e, i0);
        }
        assert(self@ =~= entry_map(e).remove(k));
    }
}

/// A read gives back what the last write wrote, and a write leaves the
/// other keys as they were: after `set(k, v)`, `get(k)` is `v` and `get` of
/// any other key is what it was.
pub proof fn law_read_after_write<V>(before: Map<Seq<char>, V>, k: Seq<char>, v: V, other: Seq<char>)
    ensures
        before.insert(k, v).contains_key(k),
        before.insert(k, v)[k] == v,
        other != k ==> before.insert(k, v).contains_key(other) == before.contains_key(other),
        other != k && before.contains_key(other) ==> before.insert(k, v)[other] == before[other],
{
}

/// After `delete(k)`, `get(k)` finds nothing, the other keys keep their
/// values, and deleting a key that is absent changes nothing.
pub proof fn law_read_after_delete<V>(before: Map<Seq<char>, V>, k: Seq<char>, other: Seq<char>)
    ensures
        !before.remove(k).contains_key(k),
        other != k ==> before.remove(k).contains_key(other) == before.contains_key(other),
        other != k && before.contains_key(other) ==> before.remove(k)[other] == before[other],
        !before.contains_key(k) ==> before.remove(k) == before,
{
    if !before.contains_key(k) {
        assert(before.remove(k) =~= before);
    }
}

/// Setting a key twice keeps only the second value.
pub proof fn law_second_write_wins<V>(before: Map<Seq<char>, V>, k: Seq<char>, v1: V, v2: V)
    ensures
        before.insert(k, v1).insert(k, v2) == before.insert(k, v2),
{
    assert(before.insert(k, v1).insert(k, v2) =~= before.insert(k, v2));
}

/// Loading pairs into a store: a key is there exactly when some pair has
/// it, and its value is that of the last such pair.
pub proof fn law_last_pair_wins<V>(start: Map<Seq<char>, V>, ps: Seq<(String, V)>, k: Seq<char>)
    ensures
        inserted_all(start, ps).contains_key(k) <==> (start.contains_key(k) || exists|i: int|
            0 <= i < ps.len() && (#[trigger] ps[i]).0@ == k),
        forall|i: int|
            0 <= i < ps.len() && (#[trigger] ps[i]).0@ == k && (forall|j: int| i < j < ps.len() ==> (#[trigger] ps[j]).0@ != k)
                ==> inserted_all(start, ps)[k] == ps[i].1,
    decreases ps.len(),
{
    if ps.len() > 0 {
        let init = ps.drop_last();
        law_last_pair_wins(start, init, k);
        if ps.last().0@ != k {
            assert((exists|i: int| 0 <= i < ps.len() && (#[trigger] ps[i]).0@ == k) ==> (exists|i: int|
                0 <= i < init.len() && (#[trigger] init[i]).0@ == k)) by {
                if exists|i: int| 0 <= i < ps.len() && (#[trigger] ps[i]).0@ == k {
                    let i = choose|i: int| 0 <= i < ps.len() && (#[trigger] ps[i]).0@ == k;
                    assert(init[i] == ps[i]);
                }
            }
            assert forall|i: int|
                0 <= i < ps.len() && (#[trigger] ps[i]).0@ == k && (forall|j: int| i < j < ps.len() ==> (#[trigger] ps[j]).0@ != k)
                    implies inserted_all(start, ps)[k] == ps[i].1 by {
                assert(init[i] == ps[i]);
                assert forall|j: int| i < j < init.len() implies (#[trigger] init[j]).0@ != k by {
                    assert(init[j] == ps[j]);
                }
            }
        } else {
            assert(ps[ps.len() - 1].0@ == k);
            assert forall|i: int|
                0 <= i < ps.len() && (#[trigger] ps[i]).0@ == k && (forall|j: int| i < j < ps.len() ==> (#[trigger] ps[j]).0@ != k)
                    implies inserted_all(start, ps)[k] == ps[i].1 by {
                if i < ps.len() - 1 {
                    assert(ps[ps.len() - 1].0@ != k);
                }
            }
        }
        assert forall|i: int| 0 <= i < init.len() && (#[trigger] init[i]).0@ == k implies exists|j: int|
            0 <= j < ps.len() && (#[trigger] ps[j]).0@ == k by {
            assert(ps[i] == init[i]);
        }
    }
}

pub proof fn lemma_first_bad_key<V>(ps: Seq<(LuaKey, V)>)
    ensures
        0 <= first_bad_key(ps) <= ps.len(),
        forall|j: int| 0 <= j < first_bad_key(ps) ==> !((#[trigger] ps[j]).0 is Other),
        first_bad_key(ps) < ps.len() ==> ps[first_bad_key(ps)].0 is Other,
    decreases ps.len(),
{
    if ps.len() > 0 && !(ps[0].0 is Other) {
        lemma_first_bad_key(ps.drop_first());
        assert forall|j: int| 0 <= j < first_bad_key(ps) implies !((#[trigger] ps[j]).0 is Other) by {
            if j > 0 {
                assert(ps[j] == ps.drop_first()[j - 1]);
            }
        }
    }
}

} // verus!
