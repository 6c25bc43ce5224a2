use yal::db::{load_store, JsonStore};
use yal::kv::{key_text, KvError, KvStore, LuaKey};
use yal::lexical::str_lt;
use yal::text::{bool_to_string, int_to_string, u64_to_string};

#[test]
fn integers_as_text() {
    assert_eq!(int_to_string(0), "0");
    assert_eq!(int_to_string(-42), "-42");
    assert_eq!(int_to_string(1050), "1050");
    assert_eq!(int_to_string(i64::MIN), "-9223372036854775808");
    assert_eq!(int_to_string(i64::MAX), "9223372036854775807");
    assert_eq!(u64_to_string(u64::MAX), "18446744073709551615");
    assert_eq!(bool_to_string(true), "true");
    assert_eq!(bool_to_string(false), "false");
}

#[test]
fn lexicographic_order() {
    assert!(str_lt("a", "b"));
    assert!(str_lt("ab", "abc"));
    assert!(!str_lt("abc", "ab"));
    assert!(!str_lt("x", "x"));
    assert!(str_lt("", "a"));
    assert!(str_lt("B", "a"));
    assert!(str_lt("z", "\u{e9}"));
}

#[test]
fn read_after_write_and_delete() {
    let mut kv: KvStore<i32> = KvStore::new();
    assert_eq!(kv.len(), 0);
    assert_eq!(kv.get("a"), None);
    kv.set("b".to_string(), 2);
    kv.set("a".to_string(), 1);
    kv.set("c".to_string(), 3);
    assert_eq!(kv.get("a"), Some(&1));
    assert_eq!(kv.get("b"), Some(&2));
    kv.set("b".to_string(), 20);
    assert_eq!(kv.get("b"), Some(&20));
    assert_eq!(kv.len(), 3);
    assert_eq!(kv.keys(), vec!["a".to_string(), "b".to_string(), "c".to_string()]);
    kv.delete("b");
    assert_eq!(kv.get("b"), None);
    assert_eq!(kv.get("c"), Some(&3));
    kv.delete("missing");
    assert_eq!(kv.len(), 2);
    let entries: Vec<(String, i32)> = kv.entries().clone();
    assert_eq!(entries, vec![("a".to_string(), 1), ("c".to_string(), 3)]);
}

#[test]
fn keys_are_sorted_whatever_the_order_of_writes() {
    let mut kv: KvStore<()> = KvStore::new();
    for k in ["zeta", "alpha", "Mid", "beta", "alphabet"] {
        kv.set(k.to_string(), ());
    }
    assert_eq!(kv.keys(), vec!["Mid", "alpha", "alphabet", "beta", "zeta"]);
}

#[test]
fn later_pair_wins_when_loading() {
    let kv = KvStore::from_pairs(vec![
        ("k".to_string(), 1),
        ("j".to_string(), 5),
        ("k".to_string(), 2),
    ]);
    assert_eq!(kv.get("k"), Some(&2));
    assert_eq!(kv.get("j"), Some(&5));
    assert_eq!(kv.len(), 2);
}

#[test]
fn set_many_converts_keys_and_stops_at_a_bad_one() {
    let n = |i: i64| serde_json::Value::Number(i.into());
    let mut kv = JsonStore::new();
    let r = kv.set_many(vec![(LuaKey::Text("x".to_string()), n(1)), (LuaKey::Integer(7), n(2))]);
    assert_eq!(r, Ok(()));
    assert_eq!(kv.get("x"), Some(&n(1)));
    assert_eq!(kv.get("7"), Some(&n(2)));

    let r = kv.set_many(vec![
        (LuaKey::Integer(-3), n(3)),
        (LuaKey::Other, n(4)),
        (LuaKey::Text("after".to_string()), n(5)),
    ]);
    assert_eq!(r, Err(KvError::KeyNotScalar));
    assert_eq!(kv.get("-3"), Some(&n(3)));
    assert_eq!(kv.get("after"), None);
    assert_eq!(KvError::KeyNotScalar.message(), "set_many: keys must be string/number");
}

#[test]
fn key_text_of_each_kind() {
    assert_eq!(key_text(LuaKey::Text("k".to_string())), Ok("k".to_string()));
    assert_eq!(key_text(LuaKey::Integer(12)), Ok("12".to_string()));
    assert_eq!(key_text(LuaKey::Other), Err(KvError::KeyNotScalar));
}

#[test]
fn take_hands_back_the_value() {
    let mut kv: KvStore<String> = KvStore::new();
    kv.set("k".to_string(), "v".to_string());
    assert_eq!(kv.take("k"), Some("v".to_string()));
    assert_eq!(kv.take("k"), None);
    assert_eq!(kv.len(), 0);
}

#[test]
fn store_files_load_objects_only() {
    assert_eq!(load_store("").len(), 0);
    assert_eq!(load_store("  \n\t ").len(), 0);
    assert_eq!(load_store("[1, 2]").len(), 0);
    assert_eq!(load_store("not json").len(), 0);
    let s = load_store("{\"b\": 2, \"a\": {\"x\": true}}");
    assert_eq!(s.len(), 2);
    assert_eq!(s.get("b"), Some(&serde_json::Value::Number(2.into())));
    assert_eq!(s.keys(), vec!["a".to_string(), "b".to_string()]);
    let mut inner = serde_json::Map::new();
    inner.insert("x".to_string(), serde_json::Value::Bool(true));
    assert_eq!(s.get("a"), Some(&serde_json::Value::Object(inner)));
    assert_eq!(JsonStore::from_parsed(None).len(), 0);
    let mut m = serde_json::Map::new();
    m.insert("k".to_string(), serde_json::Value::Null);
    let p = JsonStore::from_parsed(Some(m));
    assert_eq!(p.get("k"), Some(&serde_json::Value::Null));
}

#[test]
fn plugin_store_reads_after_writes() {
    let mut db = JsonStore::new();
    assert_eq!(db.len(), 0);
    db.set("b".to_string(), serde_json::Value::Bool(true));
    db.set("a".to_string(), serde_json::Value::Null);
    db.set("b".to_string(), serde_json::Value::Bool(false));
    assert_eq!(db.get("b"), Some(&serde_json::Value::Bool(false)));
    assert_eq!(db.keys(), vec!["a".to_string(), "b".to_string()]);
    db.delete("a");
    db.delete("missing");
    assert_eq!(db.get("a"), None);
    assert_eq!(db.len(), 1);
    assert_eq!(db.as_map().len(), 1);
}
