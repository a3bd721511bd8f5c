use log_utils::{
    AdditionalFieldsPlacement, Attribute, AttributeValue, FieldMap, JsonFormattingLayer,
    JsonFormattingLayerConfig, JsonStyle, KeySet, Level, LoggerError, RecordMetadata, RecordType,
    SpanStorageLayer, Storage,
};
use serde_json::Value;

const TIME: &str = "2024-01-01T00:00:00.000000000Z";

fn text(name: &str, value: &str) -> Attribute {
    Attribute { name: name.to_string(), value: AttributeValue::Str(value.to_string()) }
}

fn metadata() -> RecordMetadata {
    RecordMetadata {
        level: Level::Info,
        target: "app".to_string(),
        line: Some(42),
        file: Some("src/main.rs".to_string()),
    }
}

fn config(
    statics: &[(&str, &str)],
    promoted: &[&str],
    lifecycles: bool,
    nested: Option<&str>,
) -> JsonFormattingLayerConfig {
    let mut fields = FieldMap::new();
    for (key, value) in statics {
        fields.insert(key.to_string(), Value::from(*value));
    }
    JsonFormattingLayerConfig {
        static_top_level_fields: fields,
        top_level_keys: KeySet::new(promoted.iter().map(|k| k.to_string()).collect()),
        log_span_lifecycles: lifecycles,
        additional_fields_placement: match nested {
            Some(name) => AdditionalFieldsPlacement::Nested(name.to_string()),
            None => AdditionalFieldsPlacement::TopLevel,
        },
    }
}

fn layer(config: JsonFormattingLayerConfig) -> JsonFormattingLayer {
    match JsonFormattingLayer::with_identity(config, JsonStyle::Compact, 7, "host".to_string()) {
        Ok(layer) => layer,
        Err(_) => panic!("the configuration is valid"),
    }
}

fn parse(line: &[u8]) -> Value {
    assert_eq!(line.last(), Some(&b'\n'));
    assert_eq!(line.iter().filter(|b| **b == b'\n').count(), 1);
    serde_json::from_slice(line).unwrap()
}

fn as_text(line: Option<Vec<u8>>) -> String {
    String::from_utf8(line.unwrap()).unwrap()
}

#[test]
fn promoted_key_at_root_and_rest_nested() {
    let layer = layer(config(&[], &["user_id"], false, Some("extra")));
    let store = SpanStorageLayer::new(Vec::new());
    let attributes = vec![text("user_id", "42"), text("note", "x")];
    let line = layer.event_line(&store, None, &metadata(), &attributes, Some(TIME));
    let record = parse(line.as_ref().unwrap());
    assert_eq!(record["user_id"], Value::from("42"));
    assert_eq!(record["extra"]["note"], Value::from("x"));
    assert!(record.get("note").is_none());
    assert!(record["extra"].get("user_id").is_none());
    assert_eq!(record["extra"].as_object().unwrap().len(), 1);
    assert_eq!(
        as_text(line),
        "{\"message\":\"app\",\"hostname\":\"host\",\"pid\":7,\"level\":\"INFO\",\
         \"target\":\"app\",\"line\":42,\"file\":\"src/main.rs\",\"fn\":\"?\",\
         \"full_name\":\"app::?\",\"time\":\"2024-01-01T00:00:00.000000000Z\",\
         \"user_id\":\"42\",\"extra\":{\"note\":\"x\"}}\n"
    );
}

#[test]
fn static_field_with_reserved_key_is_refused() {
    let result = JsonFormattingLayer::new(
        config(&[("service", "s"), ("level", "x"), ("pid", "y")], &[], false, None),
        JsonStyle::Compact,
        1,
    );
    match result {
        Err(LoggerError::Configuration(text)) => assert_eq!(
            text,
            "A reserved key `level` was included in `static_top_level_fields` in the log \
             formatting layer"
        ),
        _ => panic!("a reserved static key must be refused"),
    }
    for key in
        ["message", "hostname", "pid", "level", "target", "line", "file", "fn", "full_name", "time"]
    {
        let result = JsonFormattingLayer::with_identity(
            config(&[(key, "x")], &[], false, None),
            JsonStyle::Pretty,
            1,
            "h".to_string(),
        );
        assert!(matches!(result, Err(LoggerError::Configuration(_))), "{key}");
    }
    assert!(JsonFormattingLayer::new(
        config(&[("elapsed_milliseconds", "x"), ("service", "s")], &[], false, None),
        JsonStyle::Compact,
        1
    )
    .is_ok());
}

#[test]
fn exit_is_logged_for_roots_only_without_lifecycles() {
    let formatter = layer(config(&[], &[], false, None));
    let mut store = SpanStorageLayer::new(Vec::new());
    store.on_new_span(1, None, "root", &Vec::new());
    store.on_new_span(2, Some(1), "leaf", &Vec::new());
    store.close_with_elapsed(2, 5);
    assert_eq!(formatter.lifecycle_line(&store, 2, &metadata(), RecordType::ExitSpan, None), None);
    assert_eq!(formatter.on_close(&store, 2, &metadata()), None);
    assert_eq!(formatter.on_enter(&store, 2, &metadata()), None);
    assert_eq!(formatter.on_enter(&store, 1, &metadata()), None);
    store.close_with_elapsed(1, 9);
    let record = parse(&formatter.on_close(&store, 1, &metadata()).unwrap());
    assert_eq!(record["message"], Value::from("[ROOT - END]"));
    assert_eq!(record["elapsed_milliseconds"], Value::from(9u64));

    assert!(!formatter.logs(RecordType::EnterSpan, false));
    assert!(!formatter.logs(RecordType::EnterSpan, true));
    assert!(formatter.logs(RecordType::ExitSpan, false));
    assert!(!formatter.logs(RecordType::ExitSpan, true));
    assert!(formatter.logs(RecordType::Event, true));
}

#[test]
fn full_lifecycles_log_every_entry_and_exit() {
    let formatter = layer(config(&[], &[], true, None));
    let mut store = SpanStorageLayer::new(Vec::new());
    store.on_new_span(1, None, "root", &Vec::new());
    store.on_new_span(2, Some(1), "leaf", &vec![text("k", "v")]);
    let enter = parse(&formatter.on_enter(&store, 2, &metadata()).unwrap());
    assert_eq!(enter["message"], Value::from("[LEAF - START]"));
    assert_eq!(enter["fn"], Value::from("leaf"));
    assert_eq!(enter["full_name"], Value::from("app::leaf"));
    assert_eq!(enter["k"], Value::from("v"));
    assert!(enter.get("elapsed_milliseconds").is_none());
    store.close_with_elapsed(2, 17);
    let exit = parse(&formatter.on_close(&store, 2, &metadata()).unwrap());
    assert_eq!(exit["message"], Value::from("[LEAF - END]"));
    assert_eq!(exit["elapsed_milliseconds"], Value::from(17u64));
    assert!(formatter.logs(RecordType::EnterSpan, true));
    assert!(formatter.logs(RecordType::ExitSpan, true));
}

#[test]
fn exit_record_always_holds_a_number_for_the_elapsed_time() {
    for nested in [None, Some("extra")] {
        let formatter = layer(config(&[], &[], true, nested));
        let mut store = SpanStorageLayer::new(Vec::new());
        store.on_new_span(1, None, "work", &Vec::new());
        store.on_enter(1);
        store.on_close(1);
        let record = parse(&formatter.on_close(&store, 1, &metadata()).unwrap());
        let elapsed = match nested {
            Some(name) => &record[name]["elapsed_milliseconds"],
            None => &record["elapsed_milliseconds"],
        };
        assert!(elapsed.is_u64(), "{record}");
        assert!(elapsed.as_u64().unwrap() < 60_000);
    }
    let formatter = layer(config(&[], &["elapsed_milliseconds"], false, Some("extra")));
    let mut store = SpanStorageLayer::new(Vec::new());
    store.on_new_span(1, None, "work", &Vec::new());
    store.close_with_elapsed(1, 250);
    let line = formatter.lifecycle_line(&store, 1, &metadata(), RecordType::ExitSpan, None);
    let record = parse(line.as_ref().unwrap());
    assert_eq!(record["elapsed_milliseconds"], Value::from(250u64));
    assert!(record.get("extra").is_none());
    assert!(record.get("time").is_none());
}

#[test]
fn reserved_keys_keep_their_implicit_values() {
    let formatter = layer(config(&[("service", "svc")], &["level", "pid"], false, Some("extra")));
    let mut store = SpanStorageLayer::new(Vec::new());
    let reserved =
        ["hostname", "pid", "level", "target", "line", "file", "fn", "full_name", "time"];
    let mut attributes: Vec<Attribute> = reserved.iter().map(|k| text(k, "forged")).collect();
    attributes.push(Attribute { name: "r#level".to_string(), value: AttributeValue::Debug("forged".to_string()) });
    attributes.push(Attribute { name: "pid".to_string(), value: AttributeValue::U64(99) });
    store.on_new_span(1, None, "scope", &attributes);
    store.on_record(1, &attributes);
    let line = formatter.event_line(&store, Some(1), &metadata(), &attributes, Some(TIME));
    let bytes = line.unwrap();
    assert!(!String::from_utf8(bytes.clone()).unwrap().contains("forged"));
    let record = parse(&bytes);
    assert_eq!(record["hostname"], Value::from("host"));
    assert_eq!(record["pid"], Value::from(7u64));
    assert_eq!(record["level"], Value::from("INFO"));
    assert_eq!(record["target"], Value::from("app"));
    assert_eq!(record["line"], Value::from(42u64));
    assert_eq!(record["file"], Value::from("src/main.rs"));
    assert_eq!(record["fn"], Value::from("scope"));
    assert_eq!(record["full_name"], Value::from("app::scope"));
    assert_eq!(record["time"], Value::from(TIME));
    assert_eq!(record["message"], Value::from("[SCOPE - EVENT] app"));
    assert_eq!(record["service"], Value::from("svc"));
    assert!(record.get("extra").is_none());
    assert_eq!(record.as_object().unwrap().len(), 11);
}

#[test]
fn same_input_gives_the_same_bytes_but_for_the_time() {
    let formatter = layer(config(&[("service", "svc"), ("env", "dev")], &["a"], true, Some("x")));
    let mut store = SpanStorageLayer::new(Vec::new());
    store.on_new_span(1, None, "scope", &vec![text("a", "1"), text("b", "2")]);
    let attributes = vec![text("c", "3"), text("message", "hello")];
    let first = formatter.event_line(&store, Some(1), &metadata(), &attributes, Some(TIME));
    let second = formatter.event_line(&store, Some(1), &metadata(), &attributes, Some(TIME));
    assert_eq!(first, second);
    let later = formatter.event_line(&store, Some(1), &metadata(), &attributes, Some("later"));
    assert_ne!(first, later);
    let mut a = parse(&first.unwrap());
    let mut b = parse(&later.unwrap());
    assert_eq!(a["time"], Value::from(TIME));
    assert_eq!(b["time"], Value::from("later"));
    a.as_object_mut().unwrap().remove("time");
    b.as_object_mut().unwrap().remove("time");
    assert_eq!(a, b);

    let now = parse(&formatter.on_event(&store, Some(1), &metadata(), &attributes).unwrap());
    let mut c = now.clone();
    assert!(c.as_object_mut().unwrap().remove("time").unwrap().is_string());
    assert_eq!(a, c);
}

#[test]
fn nested_object_is_left_out_when_nothing_goes_into_it() {
    let formatter = layer(config(&[("service", "svc")], &["user_id"], true, Some("extra")));
    let mut store = SpanStorageLayer::new(Vec::new());
    store.on_new_span(1, None, "scope", &vec![text("user_id", "42")]);
    let line = formatter.event_line(&store, Some(1), &metadata(), &Vec::new(), None);
    assert_eq!(
        as_text(line),
        "{\"message\":\"[SCOPE - EVENT] app\",\"hostname\":\"host\",\"pid\":7,\
         \"level\":\"INFO\",\"target\":\"app\",\"line\":42,\"file\":\"src/main.rs\",\
         \"fn\":\"scope\",\"full_name\":\"app::scope\",\"service\":\"svc\",\"user_id\":\"42\"}\n"
    );
    let line = formatter.event_line(&store, None, &metadata(), &vec![text("level", "x")], None);
    assert!(parse(&line.unwrap()).get("extra").is_none());
    let line = formatter.lifecycle_line(&store, 1, &metadata(), RecordType::EnterSpan, None);
    assert!(parse(&line.unwrap()).get("extra").is_none());
}

#[test]
fn event_attributes_take_precedence_over_scope_attributes() {
    let formatter = layer(config(&[], &["top"], false, Some("extra")));
    let mut store = SpanStorageLayer::new(Vec::new());
    store.on_new_span(
        1,
        None,
        "scope",
        &vec![text("shared", "scope"), text("top", "scope"), text("own", "scope")],
    );
    let attributes = vec![text("shared", "event"), text("top", "event"), text("mine", "event")];
    let line = formatter.event_line(&store, Some(1), &metadata(), &attributes, None);
    assert_eq!(
        as_text(line),
        "{\"message\":\"[SCOPE - EVENT] app\",\"hostname\":\"host\",\"pid\":7,\
         \"level\":\"INFO\",\"target\":\"app\",\"line\":42,\"file\":\"src/main.rs\",\
         \"fn\":\"scope\",\"full_name\":\"app::scope\",\"top\":\"event\",\
         \"extra\":{\"mine\":\"event\",\"own\":\"scope\",\"shared\":\"event\"}}\n"
    );
}

#[test]
fn top_level_placement_writes_every_field_at_the_root_in_order() {
    let formatter = layer(config(&[("service", "svc"), ("env", "dev")], &[], false, None));
    let mut store = SpanStorageLayer::new(Vec::new());
    store.on_new_span(1, None, "scope", &vec![text("z", "1"), text("a", "2")]);
    let attributes = vec![
        Attribute { name: "n".to_string(), value: AttributeValue::I64(-3) },
        Attribute { name: "b".to_string(), value: AttributeValue::Bool(true) },
        Attribute { name: "a".to_string(), value: AttributeValue::U64(8) },
    ];
    let mut meta = metadata();
    meta.level = Level::Warn;
    meta.line = None;
    meta.file = None;
    let line = formatter.event_line(&store, Some(1), &meta, &attributes, None);
    assert_eq!(
        as_text(line),
        "{\"message\":\"[SCOPE - EVENT] app\",\"hostname\":\"host\",\"pid\":7,\
         \"level\":\"WARN\",\"target\":\"app\",\"line\":null,\"file\":null,\
         \"fn\":\"scope\",\"full_name\":\"app::scope\",\"service\":\"svc\",\"env\":\"dev\",\
         \"n\":-3,\"b\":true,\"a\":8,\"z\":\"1\"}\n"
    );
}

#[test]
fn pretty_style_indents_the_record() {
    let config = config(&[], &[], false, Some("extra"));
    let formatter =
        match JsonFormattingLayer::with_identity(config, JsonStyle::Pretty, 1, "h".to_string()) {
            Ok(layer) => layer,
            Err(_) => panic!("the configuration is valid"),
        };
    let store = SpanStorageLayer::new(Vec::new());
    let line = formatter.event_line(&store, None, &metadata(), &vec![text("k", "v")], None);
    assert_eq!(
        String::from_utf8(line.unwrap()).unwrap(),
        "{\n  \"message\": \"app\",\n  \"hostname\": \"h\",\n  \"pid\": 1,\n  \
         \"level\": \"INFO\",\n  \"target\": \"app\",\n  \"line\": 42,\n  \
         \"file\": \"src/main.rs\",\n  \"fn\": \"?\",\n  \"full_name\": \"app::?\",\n  \
         \"extra\": {\n    \"k\": \"v\"\n  }\n}\n"
    );
}

#[test]
fn message_prefers_text_then_other_values_then_target() {
    let mut storage = Storage::new();
    assert_eq!(JsonFormattingLayer::event_message(None, "my::target", &storage), "my::target");
    assert_eq!(
        JsonFormattingLayer::event_message(Some("load"), "my::target", &storage),
        "[LOAD - EVENT] my::target"
    );
    storage.record_u64("message", 5);
    assert_eq!(JsonFormattingLayer::event_message(None, "t", &storage), "5");
    storage.record_str("message", "explicit");
    assert_eq!(JsonFormattingLayer::event_message(None, "t", &storage), "explicit");
    assert_eq!(
        JsonFormattingLayer::event_message(Some("fn_name"), "t", &storage),
        "[FN_NAME - EVENT] explicit"
    );
}

#[test]
fn span_message_names_the_scope_in_capitals() {
    assert_eq!(JsonFormattingLayer::span_message("outer", RecordType::EnterSpan), "[OUTER - START]");
    assert_eq!(JsonFormattingLayer::span_message("outer", RecordType::ExitSpan), "[OUTER - END]");
    assert_eq!(JsonFormattingLayer::span_message("Straße", RecordType::Event), "[STRASSE - EVENT]");
    assert_eq!(JsonFormattingLayer::span_message("", RecordType::Event), "[ - EVENT]");
    assert_eq!(RecordType::EnterSpan.as_str(), "START");
    assert_eq!(RecordType::ExitSpan.as_str(), "END");
    assert_eq!(RecordType::Event.as_str(), "EVENT");
}

#[test]
fn levels_are_written_in_capitals() {
    assert_eq!(Level::Trace.as_str(), "TRACE");
    assert_eq!(Level::Debug.as_str(), "DEBUG");
    assert_eq!(Level::Info.as_str(), "INFO");
    assert_eq!(Level::Warn.as_str(), "WARN");
    assert_eq!(Level::Error.as_str(), "ERROR");
}

#[test]
fn hostname_of_a_new_formatter_is_that_of_the_machine() {
    let formatter = match JsonFormattingLayer::new(config(&[], &[], false, None), JsonStyle::Compact, 31) {
        Ok(layer) => layer,
        Err(_) => panic!("the configuration is valid"),
    };
    let store = SpanStorageLayer::new(Vec::new());
    let record = parse(&formatter.on_event(&store, None, &metadata(), &Vec::new()).unwrap());
    let expected = gethostname::gethostname().to_string_lossy().into_owned();
    assert_eq!(record["hostname"], Value::from(expected));
    assert_eq!(record["pid"], Value::from(31u64));
    let time = record["time"].as_str().unwrap();
    assert!(time.len() >= 20, "{time}");
    assert!(time.starts_with("20"), "{time}");
    assert!(time.contains('T'), "{time}");
    assert!(time.ends_with('Z'), "{time}");
}

#[test]
fn serialized_fields_keep_duplicates_and_order() {
    let formatter = layer(config(&[("dup", "static")], &[], false, None));
    let store = SpanStorageLayer::new(Vec::new());
    let line = formatter.event_line(&store, None, &metadata(), &vec![text("dup", "dynamic")], None);
    let text = as_text(line);
    assert!(text.contains("\"dup\":\"static\",\"dup\":\"dynamic\""), "{text}");
}

#[test]
fn finish_record_appends_one_line_feed() {
    assert_eq!(
        log_utils::formatter::finish_record(Ok(b"{}".to_vec())).ok(),
        Some(b"{}\n".to_vec())
    );
    let failure = serde_json::from_str::<Value>("{").unwrap_err();
    let text = failure.to_string();
    match log_utils::formatter::finish_record(Err(failure)) {
        Err(LoggerError::Serialization(kept)) => assert_eq!(kept.to_string(), text),
        _ => panic!("a failure stays a failure"),
    }
}

#[test]
fn common_serialize_gives_the_fields_in_order() {
    let formatter = layer(config(&[("service", "svc")], &["p"], false, Some("rest")));
    let mut event = Storage::new();
    event.record_str("e", "1");
    event.record_str("p", "2");
    let mut scope = FieldMap::new();
    scope.insert("p".to_string(), Value::from("scope"));
    scope.insert("s".to_string(), Value::from("3"));
    let fields = formatter.common_serialize(
        &metadata(),
        Some(&scope),
        Some(&event),
        "name",
        "msg",
        Some(TIME),
    );
    let keys: Vec<&str> = fields.iter().map(|f| f.key.as_str()).collect();
    assert_eq!(
        keys,
        vec![
            "message", "hostname", "pid", "level", "target", "line", "file", "fn", "full_name",
            "time", "service", "p", "rest"
        ]
    );
    assert_eq!(fields[0].value, Value::from("msg"));
    assert_eq!(fields[7].value, Value::from("name"));
    assert_eq!(fields[8].value, Value::from("app::name"));
    assert_eq!(fields[11].value, Value::from("2"));
    let rest = fields[12].value.as_object().unwrap();
    assert_eq!(rest.len(), 2);
    assert_eq!(rest["e"], Value::from("1"));
    assert_eq!(rest["s"], Value::from("3"));
    let implicit = formatter.serialize_implicit_fields(&metadata(), "name", "msg", None);
    assert_eq!(implicit.len(), 9);
    let bytes = formatter.render(&implicit).ok().unwrap();
    assert_eq!(
        String::from_utf8(bytes).unwrap(),
        "{\"message\":\"msg\",\"hostname\":\"host\",\"pid\":7,\"level\":\"INFO\",\
         \"target\":\"app\",\"line\":42,\"file\":\"src/main.rs\",\"fn\":\"name\",\
         \"full_name\":\"app::name\"}\n"
    );
}

#[test]
fn time_of_a_record_is_written_as_iso_8601_in_utc() {
    let formatter = layer(config(&[], &[], true, None));
    let mut store = SpanStorageLayer::new(Vec::new());
    store.on_new_span(1, None, "scope", &Vec::new());
    let lines = vec![
        formatter.on_event(&store, None, &metadata(), &Vec::new()).unwrap(),
        formatter.on_enter(&store, 1, &metadata()).unwrap(),
        formatter.on_close(&store, 1, &metadata()).unwrap(),
    ];
    for line in lines {
        let record = parse(&line);
        let time: Vec<char> = record["time"].as_str().unwrap().chars().collect();
        assert_eq!(time.len(), 30, "{record}");
        for (i, c) in time.iter().enumerate() {
            match i {
                4 | 7 => assert_eq!(*c, '-'),
                10 => assert_eq!(*c, 'T'),
                13 | 16 => assert_eq!(*c, ':'),
                19 => assert_eq!(*c, '.'),
                29 => assert_eq!(*c, 'Z'),
                _ => assert!(c.is_ascii_digit(), "{record}"),
            }
        }
    }
}
