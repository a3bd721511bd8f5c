use log_utils::keys::{is_reserved_key, ELAPSED_MILLISECONDS};
use log_utils::{Attribute, AttributeValue, FieldMap, KeySet, SpanStorageLayer, Storage};
use serde_json::Value;

fn text(name: &str, value: &str) -> Attribute {
    Attribute { name: name.to_string(), value: AttributeValue::Str(value.to_string()) }
}

fn keys_of(map: &FieldMap) -> Vec<String> {
    (0..map.len()).map(|i| map.entry(i).key.clone()).collect()
}

fn value_of(store: &SpanStorageLayer, id: u64, key: &str) -> Option<Value> {
    store.scope(id).storage().values().get(key).cloned()
}

#[test]
fn reserved_keys_are_the_ten_implicit_names() {
    for key in
        ["message", "hostname", "pid", "level", "target", "line", "file", "fn", "full_name", "time"]
    {
        assert!(is_reserved_key(key), "{key}");
    }
    for key in ["elapsed_milliseconds", "Message", "", "user_id", "times", "f", "full_nam"] {
        assert!(!is_reserved_key(key), "{key}");
    }
    assert_eq!(ELAPSED_MILLISECONDS, "elapsed_milliseconds");
}

#[test]
fn field_map_sets_keys_in_place() {
    let mut map = FieldMap::new();
    assert!(map.is_empty());
    map.insert("a".to_string(), Value::from(1));
    map.insert("b".to_string(), Value::from(2));
    map.insert("a".to_string(), Value::from(3));
    assert_eq!(map.len(), 2);
    assert_eq!(keys_of(&map), vec!["a", "b"]);
    assert_eq!(map.get("a"), Some(&Value::from(3)));
    assert_eq!(map.get("b"), Some(&Value::from(2)));
    assert_eq!(map.get("c"), None);
    assert_eq!(map.find("b"), Some(1));
    assert_eq!(map.find("zz"), None);
    assert!(map.contains_key("a"));
    assert!(!map.contains_key(""));
}

#[test]
fn field_map_clone_is_independent() {
    let mut map = FieldMap::new();
    map.insert("a".to_string(), Value::from("x"));
    let copy = map.clone();
    map.insert("a".to_string(), Value::from("y"));
    map.insert("b".to_string(), Value::from("z"));
    assert_eq!(copy.len(), 1);
    assert_eq!(copy.get("a"), Some(&Value::from("x")));
    assert_eq!(map.get("a"), Some(&Value::from("y")));
}

#[test]
fn key_set_holds_what_it_was_given() {
    let set = KeySet::new(vec!["a".to_string(), "b".to_string(), "a".to_string()]);
    assert!(set.contains("a"));
    assert!(set.contains("b"));
    assert!(!set.contains("c"));
    assert!(!set.contains(""));
    let copy = set.clone();
    assert!(copy.contains("b"));
    assert!(!KeySet::new(Vec::new()).contains("a"));
}

#[test]
fn record_value_skips_reserved_keys() {
    let mut storage = Storage::new();
    storage.record_value("level", Value::from("hack"));
    storage.record_value("time", Value::from("hack"));
    storage.record_value("user", Value::from("u"));
    assert_eq!(keys_of(storage.values()), vec!["user"]);
    storage.record_value("user", Value::from("v"));
    assert_eq!(storage.values().get("user"), Some(&Value::from("v")));
    assert_eq!(storage.values().len(), 1);
}

#[test]
fn typed_values_become_json_values() {
    let mut storage = Storage::new();
    storage.record_i64("neg", -5);
    storage.record_i64("pos", 5);
    storage.record_u64("big", u64::MAX);
    storage.record_bool("yes", true);
    storage.record_bool("no", false);
    storage.record_str("s", "text");
    storage.record_debug("d", "Some(1)");
    storage.record_rendered("f", "1.5".to_string(), Value::from(1.5));
    assert_eq!(storage.values().get("neg"), Some(&Value::from(-5i64)));
    assert_eq!(storage.values().get("pos"), Some(&Value::from(5u64)));
    assert_eq!(storage.values().get("big"), Some(&Value::from(u64::MAX)));
    assert_eq!(storage.values().get("yes"), Some(&Value::Bool(true)));
    assert_eq!(storage.values().get("no"), Some(&Value::Bool(false)));
    assert_eq!(storage.values().get("s"), Some(&Value::String("text".to_string())));
    assert_eq!(storage.values().get("d"), Some(&Value::String("Some(1)".to_string())));
    assert_eq!(storage.values().get("f"), Some(&Value::from(1.5)));
    assert_eq!(storage.message(), None);
    assert_eq!(keys_of(storage.values()), vec!["neg", "pos", "big", "yes", "no", "s", "d", "f"]);
}

#[test]
fn first_value_that_is_no_text_is_the_fallback_message() {
    let mut storage = Storage::new();
    storage.record_u64("message", 5);
    assert_eq!(storage.message(), Some("5"));
    storage.record_i64("message", -7);
    assert_eq!(storage.message(), Some("5"));
    storage.record_bool("message", true);
    storage.record_debug("message", "dbg");
    assert_eq!(storage.message(), Some("5"));
    assert!(storage.values().is_empty());

    let mut signed = Storage::new();
    signed.record_i64("message", -7);
    assert_eq!(signed.message(), Some("-7"));
    let mut truth = Storage::new();
    truth.record_bool("message", false);
    assert_eq!(truth.message(), Some("false"));
    truth.record_bool("message", true);
    assert_eq!(truth.message(), Some("false"));
    let mut yes = Storage::new();
    yes.record_bool("message", true);
    assert_eq!(yes.message(), Some("true"));
    let mut debug = Storage::new();
    debug.record_debug("message", "Point { x: 1 }");
    assert_eq!(debug.message(), Some("Point { x: 1 }"));
    let mut rendered = Storage::new();
    rendered.record_rendered("message", "2.5".to_string(), Value::from(2.5));
    assert_eq!(rendered.message(), Some("2.5"));
    assert!(rendered.values().is_empty());
}

#[test]
fn a_text_is_the_preferred_message() {
    let mut storage = Storage::new();
    storage.record_u64("message", 5);
    storage.record_str("message", "hello");
    assert_eq!(storage.message(), Some("hello"));
    storage.record_str("message", "again");
    assert_eq!(storage.message(), Some("again"));
    storage.record_u64("message", 9);
    assert_eq!(storage.message(), Some("again"));
}

#[test]
fn debug_values_follow_the_prefix_of_their_key() {
    let mut storage = Storage::new();
    storage.record_debug("log.target", "x");
    storage.record_debug("log.", "x");
    assert!(storage.values().is_empty());
    storage.record_debug("r#type", "T");
    assert_eq!(storage.values().get("type"), Some(&Value::from("T")));
    assert_eq!(storage.values().get("r#type"), None);
    storage.record_debug("r#", "empty");
    assert_eq!(storage.values().get(""), Some(&Value::from("empty")));
    storage.record_debug("r#level", "L");
    assert_eq!(storage.values().get("level"), None);
    storage.record_debug("log", "kept");
    assert_eq!(storage.values().get("log"), Some(&Value::from("kept")));
    storage.record_debug("r", "kept");
    assert_eq!(storage.values().get("r"), Some(&Value::from("kept")));
    storage.record_str("log.text", "kept too");
    assert_eq!(storage.values().get("log.text"), Some(&Value::from("kept too")));
    assert_eq!(keys_of(storage.values()), vec!["type", "", "log", "r", "log.text"]);
}

#[test]
fn attributes_are_recorded_in_order() {
    let mut storage = Storage::new();
    storage.record_all(&vec![
        text("a", "1"),
        Attribute { name: "b".to_string(), value: AttributeValue::U64(2) },
        Attribute { name: "c".to_string(), value: AttributeValue::I64(-3) },
        Attribute { name: "d".to_string(), value: AttributeValue::Bool(true) },
        Attribute { name: "e".to_string(), value: AttributeValue::Debug("E".to_string()) },
        Attribute {
            name: "f".to_string(),
            value: AttributeValue::Rendered { text: "0.5".to_string(), json: Value::from(0.5) },
        },
        text("a", "last"),
        text("pid", "dropped"),
        text("message", "hi"),
    ]);
    assert_eq!(keys_of(storage.values()), vec!["a", "b", "c", "d", "e", "f"]);
    assert_eq!(storage.values().get("a"), Some(&Value::from("last")));
    assert_eq!(storage.values().get("b"), Some(&Value::from(2u64)));
    assert_eq!(storage.values().get("c"), Some(&Value::from(-3i64)));
    assert_eq!(storage.values().get("d"), Some(&Value::from(true)));
    assert_eq!(storage.values().get("e"), Some(&Value::from("E")));
    assert_eq!(storage.values().get("f"), Some(&Value::from(0.5)));
    assert_eq!(storage.message(), Some("hi"));
    let copy = storage.clone();
    assert_eq!(copy.message(), Some("hi"));
    assert_eq!(keys_of(copy.values()), keys_of(storage.values()));
}

#[test]
fn new_scope_copies_parent_and_own_attributes_win() {
    let mut store = SpanStorageLayer::new(Vec::new());
    store.on_new_span(1, None, "parent", &vec![text("a", "pa"), text("b", "pb")]);
    store.on_new_span(2, Some(1), "child", &vec![text("b", "cb"), text("c", "cc")]);
    assert_eq!(keys_of(store.scope(2).storage().values()), vec!["a", "b", "c"]);
    assert_eq!(value_of(&store, 2, "a"), Some(Value::from("pa")));
    assert_eq!(value_of(&store, 2, "b"), Some(Value::from("cb")));
    assert_eq!(value_of(&store, 2, "c"), Some(Value::from("cc")));
    assert_eq!(value_of(&store, 1, "b"), Some(Value::from("pb")));
    assert_eq!(value_of(&store, 1, "c"), None);
    assert_eq!(store.scope(2).name(), "child");
    assert_eq!(store.scope(2).parent(), Some(1));
    assert_eq!(store.scope(1).parent(), None);
    assert!(!store.scope(2).is_started());
}

#[test]
fn later_changes_do_not_cross_between_parent_and_child() {
    let mut store = SpanStorageLayer::new(Vec::new());
    store.on_new_span(1, None, "parent", &vec![text("a", "1")]);
    store.on_new_span(2, Some(1), "child", &Vec::new());
    store.on_record(1, &vec![text("a", "changed"), text("late", "x")]);
    store.on_record(2, &vec![text("mine", "y")]);
    assert_eq!(value_of(&store, 2, "a"), Some(Value::from("1")));
    assert_eq!(value_of(&store, 2, "late"), None);
    assert_eq!(value_of(&store, 2, "mine"), Some(Value::from("y")));
    assert_eq!(value_of(&store, 1, "a"), Some(Value::from("changed")));
    assert_eq!(value_of(&store, 1, "mine"), None);
}

#[test]
fn scope_with_unknown_parent_starts_empty() {
    let mut store = SpanStorageLayer::new(Vec::new());
    store.on_new_span(5, Some(99), "orphan", &vec![text("k", "v")]);
    assert!(store.contains(5));
    assert!(!store.contains(99));
    assert_eq!(keys_of(store.scope(5).storage().values()), vec!["k"]);
    store.close_with_elapsed(5, 1);
    assert!(!store.contains(99));
    assert_eq!(value_of(&store, 5, "elapsed_milliseconds"), Some(Value::from(1u64)));
}

#[test]
fn persistent_key_moves_up_only_when_set() {
    let mut store = SpanStorageLayer::new(vec!["trace_id"]);
    assert!(store.is_persistent("trace_id"));
    assert!(!store.is_persistent("other"));
    store.on_new_span(1, None, "outer", &vec![text("trace_id", "t1")]);
    store.on_new_span(2, Some(1), "inner", &vec![text("other", "o")]);
    store.close_with_elapsed(2, 3);
    assert_eq!(keys_of(store.scope(1).storage().values()), vec!["trace_id"]);
    assert_eq!(value_of(&store, 1, "trace_id"), Some(Value::from("t1")));
    assert_eq!(value_of(&store, 1, "other"), None);
    assert_eq!(value_of(&store, 1, "elapsed_milliseconds"), None);
    store.discard(2);
    assert!(!store.contains(2));

    store.on_new_span(3, Some(1), "inner", &Vec::new());
    store.on_record(3, &vec![text("trace_id", "t2")]);
    store.close_with_elapsed(3, 4);
    assert_eq!(value_of(&store, 1, "trace_id"), Some(Value::from("t2")));
    assert_eq!(keys_of(store.scope(1).storage().values()), vec!["trace_id"]);
    store.discard(3);
    store.close_with_elapsed(1, 10);
    assert_eq!(value_of(&store, 1, "trace_id"), Some(Value::from("t2")));
    assert_eq!(value_of(&store, 1, "elapsed_milliseconds"), Some(Value::from(10u64)));
}

#[test]
fn persistent_key_is_added_to_a_parent_that_lacks_it() {
    let mut store = SpanStorageLayer::new(vec!["p", "q"]);
    store.on_new_span(1, None, "outer", &vec![text("keep", "k")]);
    store.on_new_span(2, Some(1), "inner", &vec![text("q", "2"), text("x", "3"), text("p", "1")]);
    store.close_with_elapsed(2, 0);
    assert_eq!(keys_of(store.scope(1).storage().values()), vec!["keep", "q", "p"]);
    assert_eq!(value_of(&store, 1, "p"), Some(Value::from("1")));
    assert_eq!(value_of(&store, 1, "q"), Some(Value::from("2")));
    assert_eq!(value_of(&store, 1, "x"), None);
    assert_eq!(value_of(&store, 2, "elapsed_milliseconds"), Some(Value::from(0u64)));
}

#[test]
fn inherited_persistent_key_is_handed_back_unchanged() {
    let mut store = SpanStorageLayer::new(vec!["trace_id"]);
    store.on_new_span(1, None, "outer", &vec![text("trace_id", "t1")]);
    store.on_new_span(2, Some(1), "inner", &Vec::new());
    store.on_record(1, &vec![text("trace_id", "t9")]);
    store.close_with_elapsed(2, 0);
    assert_eq!(value_of(&store, 1, "trace_id"), Some(Value::from("t1")));
}

#[test]
fn elapsed_key_of_the_child_is_not_handed_up_by_its_own_close() {
    let mut store = SpanStorageLayer::new(vec!["elapsed_milliseconds"]);
    store.on_new_span(1, None, "outer", &Vec::new());
    store.on_new_span(2, Some(1), "inner", &Vec::new());
    store.close_with_elapsed(2, 12);
    assert_eq!(value_of(&store, 2, "elapsed_milliseconds"), Some(Value::from(12u64)));
    assert_eq!(value_of(&store, 1, "elapsed_milliseconds"), None);
}

#[test]
fn elapsed_time_is_a_number_of_milliseconds() {
    let mut store = SpanStorageLayer::new(Vec::new());
    store.on_new_span(1, None, "s", &Vec::new());
    store.close_with_elapsed(1, u64::MAX as u128);
    assert_eq!(value_of(&store, 1, "elapsed_milliseconds"), Some(Value::from(u64::MAX)));
    store.on_new_span(2, None, "s", &Vec::new());
    store.close_with_elapsed(2, u64::MAX as u128 + 1);
    assert_eq!(value_of(&store, 2, "elapsed_milliseconds"), None);
    store.on_new_span(3, None, "s", &Vec::new());
    store.close_with_elapsed(3, 1234);
    let value = value_of(&store, 3, "elapsed_milliseconds").unwrap();
    assert!(value.is_u64());
    assert_eq!(value.as_u64(), Some(1234));
}

#[test]
fn scope_that_was_never_entered_reports_zero() {
    let mut store = SpanStorageLayer::new(Vec::new());
    store.on_new_span(1, None, "s", &Vec::new());
    assert_eq!(store.elapsed_millis(1), 0);
    store.on_close(1);
    assert_eq!(value_of(&store, 1, "elapsed_milliseconds"), Some(Value::from(0u64)));
}

#[test]
fn entering_starts_the_timer_once() {
    let mut store = SpanStorageLayer::new(Vec::new());
    store.on_new_span(1, None, "s", &Vec::new());
    let first = std::time::Instant::now() - std::time::Duration::from_secs(5);
    store.enter_at(1, first);
    assert!(store.scope(1).is_started());
    store.enter_at(1, std::time::Instant::now());
    store.on_enter(1);
    let elapsed = store.elapsed_millis(1);
    assert!(elapsed >= 5000, "{elapsed}");
    assert!(elapsed < 3_600_000, "{elapsed}");
    store.on_close(1);
    let recorded = value_of(&store, 1, "elapsed_milliseconds").unwrap().as_u64().unwrap();
    assert!(recorded >= 5000, "{recorded}");
}

#[test]
fn on_enter_starts_a_scope() {
    let mut store = SpanStorageLayer::new(Vec::new());
    store.on_new_span(1, None, "s", &Vec::new());
    store.on_enter(1);
    assert!(store.scope(1).is_started());
    assert!(store.elapsed_millis(1) < 60_000);
}

#[test]
fn discard_forgets_only_the_named_scope() {
    let mut store = SpanStorageLayer::new(Vec::new());
    store.on_new_span(1, None, "a", &Vec::new());
    store.on_new_span(2, None, "b", &Vec::new());
    store.discard(1);
    store.discard(7);
    assert!(!store.contains(1));
    assert!(store.contains(2));
}
