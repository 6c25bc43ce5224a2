//! `yal.db`: the key-value store a plugin opens, a JSON object map
//! (`serde_json::Map`, whose keys are kept in increasing order) read from
//! its file and written back whole. Reading and writing the file are the
//! caller's part; the store is what the operations do to the map between.

use vstd::prelude::*;

use crate::kv::{
    first_bad_key, inserted_texts, key_text, lemma_first_bad_key, string_views, strictly_sorted,
    texted_pairs, KvError, LuaKey,
};
use crate::text::{trim, trimmed_of};

verus! {

/// `serde_json::Map`, carried as an opaque value.
#[verifier::external_type_specification]
#[verifier::external_body]
#[verifier::reject_recursive_types(K)]
#[verifier::reject_recursive_types(V)]
pub struct ExJsonMap<K, V>(serde_json::Map<K, V>);

/// A JSON object map, as `serde_json::Value::Object` holds it.
pub type JsonMap = serde_json::Map<String, serde_json::Value>;

/// What a JSON object map holds: each key, by its text, with its value.
pub uninterp spec fn json_map_entries(m: JsonMap) -> Map<
    Seq<char>,
    serde_json::Value,
>;

/// The entries of an empty map.
pub open spec fn no_entries() -> Map<Seq<char>, serde_json::Value> {
    Map::empty()
}

/// Calls `Map::new`: an empty map.
#[verifier::external_body]
fn map_new() -> (r: JsonMap)
    ensures
        json_map_entries(r) == no_entries(),
{
    serde_json::Map::new()
}

/// Calls `Map::get`: the value of `key`, if the map has it.
#[verifier::external_body]
fn map_get<'a>(m: &'a JsonMap, key: &str) -> (r: Option<&'a serde_json::Value>)
    ensures
        match r {
            Some(v) => json_map_entries(*m).contains_key(key@) && json_map_entries(*m)[key@] == *v,
            None => !json_map_entries(*m).contains_key(key@),
        },
{
    m.get(key)
}

/// Calls `Map::insert`: `key` gets `value`, replacing what it had.
#[verifier::external_body]
fn map_insert(m: &mut JsonMap, key: String, value: serde_json::Value)
    ensures
        json_map_entries(*final(m)) == json_map_entries(*old(m)).insert(key@, value),
{
    let _ = m.insert(key, value);
}

/// Calls `Map::remove`: `key` and its value are gone.
#[verifier::external_body]
fn map_remove(m: &mut JsonMap, key: &str)
    ensures
        json_map_entries(*final(m)) == json_map_entries(*old(m)).remove(key@),
{
    let _ = m.remove(key);
}

/// Calls `Map::len`: the number of keys.
#[verifier::external_body]
fn map_len(m: &JsonMap) -> (r: usize)
    ensures
        r == json_map_entries(*m).dom().len(),
{
    m.len()
}

/// Calls `Map::keys`: every key once, in increasing order (the map is a
/// `BTreeMap`, as serde_json keeps it unless `preserve_order` is on, which
/// no crate here turns on).
#[verifier::external_body]
fn map_keys(m: &JsonMap) -> (r: Vec<String>)
    ensures
        strictly_sorted(string_views(r@)),
        forall|k: Seq<char>| json_map_entries(*m).contains_key(k) <==> string_views(r@).contains(k),
{
    m.keys().cloned().collect()
}

/// What `serde_json::from_str::<Value>` gives for a text that is a JSON
/// object: what the object's map holds; `None` when the text is not JSON
/// or not an object.
pub uninterp spec fn json_object_of(text: Seq<char>) -> Option<Map<Seq<char>, serde_json::Value>>;

/// Calls `serde_json::from_str::<Value>` and keeps the map of an object.
/// The result is named `json_object_of`; JSON parsing is not stated.
#[verifier::external_body]
fn parse_json_object(text: &str) -> (r: Option<JsonMap>)
    ensures
        match r {
            Some(m) => json_object_of(text@) == Some(json_map_entries(m)),
            None => json_object_of(text@) is None,
        },
{
    match serde_json::from_str::<serde_json::Value>(text) {
        Ok(serde_json::Value::Object(m)) => Some(m),
        _ => None,
    }
}

/// The store of a plugin: a JSON object map.
pub struct JsonStore {
    map: JsonMap,
}

impl View for JsonStore {
    type V = Map<Seq<char>, serde_json::Value>;

    closed spec fn view(&self) -> Map<Seq<char>, serde_json::Value> {
        json_map_entries(self.map)
    }
}

impl JsonStore {
    /// An empty store.
    pub fn new() -> (r: JsonStore)
        ensures
            r@ == Map::<Seq<char>, serde_json::Value>::empty(),
    {
        JsonStore { map: map_new() }
    }

    /// The store holding what a parsed file held: the object's map, or
    /// nothing when the file held no JSON object.
    pub fn from_parsed(parsed: Option<JsonMap>) -> (r: JsonStore)
        ensures
            r@ == match parsed {
                Some(m) => json_map_entries(m),
                None => Map::<Seq<char>, serde_json::Value>::empty(),
            },
    {
        match parsed {
            Some(m) => JsonStore { map: m },
            None => JsonStore::new(),
        }
    }

    /// The map, as it is written back to the file.
    pub fn as_map(&self) -> (r: &JsonMap)
        ensures
            json_map_entries(*r) == self@,
    {
        &self.map
    }

    /// The number of keys.
    pub fn len(&self) -> (r: usize)
        ensures
            r == self@.dom().len(),
    {
        map_len(&self.map)
    }

    /// `get(key)`: the value of `key`, if the store has it.
    pub fn get(&self, key: &str) -> (r: Option<&serde_json::Value>)
        ensures
            match r {
                Some(v) => self@.contains_key(key@) && self@[key@] == *v,
                None => !self@.contains_key(key@),
            },
    {
        map_get(&self.map, key)
    }

    /// `set(key, value)`: `key` gets `value`, replacing what it had.
    pub fn set(&mut self, key: String, value: serde_json::Value)
        ensures
            final(self)@ == old(self)@.insert(key@, value),
    {
        map_insert(&mut self.map, key, value);
    }

    /// `delete(key)`: `key` and its value are gone.
    pub fn delete(&mut self, key: &str)
        ensures
            final(self)@ == old(self)@.remove(key@),
    {
        map_remove(&mut self.map, key);
    }

    /// `keys()`: every key once, in increasing order.
    pub fn keys(&self) -> (r: Vec<String>)
        ensures
            strictly_sorted(string_views(r@)),
            forall|k: Seq<char>| self@.contains_key(k) <==> string_views(r@).contains(k),
    {
        map_keys(&self.map)
    }

    /// `set_many(table)`: gives each key its value, pairs in order, stopping
    /// at the first key that is neither a string nor a number; what was set
    /// before it stays set.
    pub fn set_many(&mut self, pairs: Vec<(LuaKey, serde_json::Value)>) -> (r: Result<(), KvError>)
        ensures
            final(self)@ == inserted_texts(old(self)@, texted_pairs(pairs@.subrange(0, first_bad_key(pairs@)))),
            r is Ok <==> first_bad_key(pairs@) == pairs@.len(),
            r is Err ==> r == Err::<(), KvError>(KvError::KeyNotScalar),
    {
        let ghost start = self@;
        let ghost all = pairs@;
        proof {
            lemma_first_bad_key(all);
        }
        let mut rest = pairs;
        let total = rest.len();
        let mut done: usize = 0;
        let mut failed = false;
        while !failed && rest.len() > 0
            invariant
                !failed ==> done + rest@.len() == total,
                done <= total,
                total == all.len(),
                !failed ==> rest@ == all.subrange(done as int, all.len() as int),
                done <= first_bad_key(all) <= all.len(),
                forall|j: int| 0 <= j < first_bad_key(all) ==> !((#[trigger] all[j]).0 is Other),
                first_bad_key(all) < all.len() ==> all[first_bad_key(all)].0 is Other,
                failed ==> first_bad_key(all) == done && done < all.len(),
                self@ == inserted_texts(start, texted_pairs(all.subrange(0, done as int))),
            decreases rest@.len(),
        {
            let (k, v) = rest.remove(0);
            assert(all[done as int].0 == k);
            let ghost kg = k;
            match key_text(k) {
                Ok(t) => {
                    assert(!(kg is Other));
                    assert(done < first_bad_key(all));
                    assert(texted_pairs(all.subrange(0, done + 1)).drop_last() =~= texted_pairs(
                        all.subrange(0, done as int),
                    ));
                    assert(texted_pairs(all.subrange(0, done + 1)).last() == (t@, v));
                    self.set(t, v);
                    done = done + 1;
                },
                Err(_) => {
                    assert(kg is Other);
                    failed = true;
                },
            }
        }
        if failed {
            Err(KvError::KeyNotScalar)
        } else {
            Ok(())
        }
    }
}

/// The store kept in a file's text: empty when the text is blank (white
/// space only) or is not a JSON object; otherwise what the object holds.
pub fn load_store(text: &str) -> (r: JsonStore)
    ensures
        trimmed_of(text@).len() == 0 ==> r@ == Map::<Seq<char>, serde_json::Value>::empty(),
        trimmed_of(text@).len() > 0 ==> r@ == match json_object_of(text@) {
            Some(m) => m,
            None => Map::<Seq<char>, serde_json::Value>::empty(),
        },
{
    if trim(text).unicode_len() == 0 {
        return JsonStore::new();
    }
    JsonStore::from_parsed(parse_json_object(text))
}

} // verus!
