//! Turns events and scope transitions into JSON records, placing each field
//! by a fixed policy.

use vstd::prelude::*;
use serde_json::Value;
use crate::fields::{Field, FieldMap, FieldSeq, KeySet, fields_view, has_key, reserved_free};
use crate::keys::{
    FILE, FN, FULL_NAME, HOSTNAME, LEVEL, LINE, MESSAGE, PID, TARGET, TIME, is_reserved,
    is_reserved_key,
};
use crate::storage::{
    Attribute, ScopeState, ScopeView, SpanStorageLayer, Storage, StoreView, empty_storage,
    with_attributes,
};
use crate::system::{host_name, is_utc_timestamp, iso8601, utc_now};
use crate::text::{uppercase, uppercase_text};
use crate::value::{
    compact_json, json_object, json_optional_string, json_optional_unsigned, json_string,
    json_unsigned, object_value, pretty_json, serialize_compact, serialize_pretty,
    value_from_optional_str, value_from_optional_u32, value_from_str, value_from_u64,
};

verus! {

/// Where fields go that are neither implicit, static nor promoted.
#[derive(Debug)]
pub enum AdditionalFieldsPlacement {
    /// At the root of the record.
    TopLevel,
    /// Inside one object, stored at the root under the given key.
    Nested(String),
}

impl AdditionalFieldsPlacement {
    /// The key of the nested object, where fields are nested.
    pub open spec fn nested_name(self) -> Option<Seq<char>> {
        match self {
            AdditionalFieldsPlacement::TopLevel => None,
            AdditionalFieldsPlacement::Nested(name) => Some(name@),
        }
    }

    /// Whether additional fields are nested.
    pub fn is_nested(&self) -> (nested: bool)
        ensures
            nested == self.nested_name() is Some,
    {
        match self {
            AdditionalFieldsPlacement::TopLevel => false,
            AdditionalFieldsPlacement::Nested(_) => true,
        }
    }
}

impl Clone for AdditionalFieldsPlacement {
    fn clone(&self) -> (copy: Self)
        ensures
            copy == *self,
    {
        match self {
            AdditionalFieldsPlacement::TopLevel => AdditionalFieldsPlacement::TopLevel,
            AdditionalFieldsPlacement::Nested(name) => AdditionalFieldsPlacement::Nested(
                name.clone(),
            ),
        }
    }
}

/// How a record is written.
#[derive(Clone, Copy, Debug)]
pub enum JsonStyle {
    /// On one line, without spaces.
    Compact,
    /// Indented, one field per line.
    Pretty,
}

/// Why the formatter could not be built or a record not be written.
#[derive(Debug)]
pub enum LoggerError {
    /// The configuration is not acceptable; the text says why.
    Configuration(String),
    /// A record could not be serialized.
    Serialization(serde_json::Error),
}

/// The severity of a record.
#[derive(Clone, Copy, Debug)]
pub enum Level {
    /// Very detailed information.
    Trace,
    /// Information for debugging.
    Debug,
    /// Useful information.
    Info,
    /// A hazardous situation.
    Warn,
    /// A serious failure.
    Error,
}

/// The text that a level is written as.
pub open spec fn level_text(level: Level) -> Seq<char> {
    match level {
        Level::Trace => "TRACE"@,
        Level::Debug => "DEBUG"@,
        Level::Info => "INFO"@,
        Level::Warn => "WARN"@,
        Level::Error => "ERROR"@,
    }
}

impl Level {
    /// The name of the level in capitals.
    pub fn as_str(&self) -> (text: &'static str)
        ensures
            text@ == level_text(*self),
    {
        match self {
            Level::Trace => "TRACE",
            Level::Debug => "DEBUG",
            Level::Info => "INFO",
            Level::Warn => "WARN",
            Level::Error => "ERROR",
        }
    }
}

/// Where a record comes from.
#[derive(Debug)]
pub struct RecordMetadata {
    /// The severity.
    pub level: Level,
    /// The part of the program that the record comes from.
    pub target: String,
    /// The line of the source file, where it is known.
    pub line: Option<u32>,
    /// The source file, where it is known.
    pub file: Option<String>,
}

impl Clone for RecordMetadata {
    fn clone(&self) -> (copy: Self)
        ensures
            copy == *self,
    {
        RecordMetadata {
            level: self.level,
            target: self.target.clone(),
            line: self.line,
            file: match &self.file {
                Some(file) => Some(file.clone()),
                None => None,
            },
        }
    }
}

/// The kind of a record.
#[derive(Clone, Copy, Debug)]
pub enum RecordType {
    /// A scope was entered.
    EnterSpan,
    /// A scope was closed.
    ExitSpan,
    /// A standalone event.
    Event,
}

/// The word that stands for a kind of record in a message.
pub open spec fn record_type_text(ty: RecordType) -> Seq<char> {
    match ty {
        RecordType::EnterSpan => "START"@,
        RecordType::ExitSpan => "END"@,
        RecordType::Event => "EVENT"@,
    }
}

impl RecordType {
    /// The word that stands for this kind of record in a message.
    pub fn as_str(&self) -> (text: &'static str)
        ensures
            text@ == record_type_text(*self),
    {
        match self {
            RecordType::EnterSpan => "START",
            RecordType::ExitSpan => "END",
            RecordType::Event => "EVENT",
        }
    }
}

/// The settings of a formatter.
#[derive(Debug)]
pub struct JsonFormattingLayerConfig {
    /// Fields that every record carries at its root.
    pub static_top_level_fields: FieldMap,
    /// Keys whose fields go to the root wherever the others go.
    pub top_level_keys: KeySet,
    /// Whether every entry into and exit from a scope is logged, or only
    /// the exits of root scopes.
    pub log_span_lifecycles: bool,
    /// Where the remaining fields go.
    pub additional_fields_placement: AdditionalFieldsPlacement,
}

impl Clone for JsonFormattingLayerConfig {
    fn clone(&self) -> (copy: Self)
        ensures
            copy.static_top_level_fields@ == self.static_top_level_fields@,
            copy.top_level_keys@ == self.top_level_keys@,
            copy.log_span_lifecycles == self.log_span_lifecycles,
            copy.additional_fields_placement == self.additional_fields_placement,
    {
        JsonFormattingLayerConfig {
            static_top_level_fields: self.static_top_level_fields.clone(),
            top_level_keys: self.top_level_keys.clone(),
            log_span_lifecycles: self.log_span_lifecycles,
            additional_fields_placement: self.additional_fields_placement.clone(),
        }
    }
}

/// What a formatter is made of.
pub struct FormatterView {
    pub style: JsonStyle,
    pub pid: u32,
    pub hostname: Seq<char>,
    pub statics: FieldSeq,
    pub promoted: Set<Seq<char>>,
    pub log_span_lifecycles: bool,
    pub nested_name: Option<Seq<char>>,
}

/// Formats events and scope transitions as JSON records.
#[derive(Debug)]
pub struct JsonFormattingLayer {
    style: JsonStyle,
    pid: u32,
    hostname: String,
    static_top_level_fields: FieldMap,
    top_level_keys: KeySet,
    log_span_lifecycles: bool,
    additional_fields_placement: AdditionalFieldsPlacement,
}

impl View for JsonFormattingLayer {
    type V = FormatterView;

    closed spec fn view(&self) -> FormatterView {
        FormatterView {
            style: self.style,
            pid: self.pid,
            hostname: self.hostname@,
            statics: self.static_top_level_fields@,
            promoted: self.top_level_keys@,
            log_span_lifecycles: self.log_span_lifecycles,
            nested_name: self.additional_fields_placement.nested_name(),
        }
    }
}

/// The place of the first field with a reserved key, where there is one.
pub open spec fn first_reserved(fields: FieldSeq) -> int {
    choose|i: int|
        0 <= i < fields.len() && is_reserved((#[trigger] fields[i]).0) && forall|j: int|
            0 <= j < i ==> !is_reserved((#[trigger] fields[j]).0)
}

/// The text of the error for a static field with a reserved key.
pub open spec fn reserved_static_text(key: Seq<char>) -> Seq<char> {
    "A reserved key `"@ + key
        + "` was included in `static_top_level_fields` in the log formatting layer"@
}

/// The formatter that a configuration describes, on a given host and in a
/// given process.
pub open spec fn configured(
    config: JsonFormattingLayerConfig,
    style: JsonStyle,
    pid: u32,
    hostname: Seq<char>,
) -> FormatterView {
    FormatterView {
        style,
        pid,
        hostname,
        statics: config.static_top_level_fields@,
        promoted: config.top_level_keys@,
        log_span_lifecycles: config.log_span_lifecycles,
        nested_name: config.additional_fields_placement.nested_name(),
    }
}

/// The message of a record that marks a scope transition, and the prefix
/// of the message of an event inside a scope.
pub open spec fn span_message_text(name: Seq<char>, ty: RecordType) -> Seq<char> {
    "["@ + uppercase_text(name) + " - "@ + record_type_text(ty) + "]"@
}

/// The message of an event: the recorded message, or the target where none
/// was recorded, behind the marker of the enclosing scope if there is one.
pub open spec fn event_message_text(
    scope_name: Option<Seq<char>>,
    target: Seq<char>,
    message: Option<Seq<char>>,
) -> Seq<char> {
    let text = match message {
        Some(m) => m,
        None => target,
    };
    match scope_name {
        Some(name) => span_message_text(name, RecordType::Event) + " "@ + text,
        None => text,
    }
}

/// The name under which an event is filed: that of the enclosing scope, or
/// a question mark outside any scope.
pub open spec fn event_fn_name(scope_name: Option<Seq<char>>) -> Seq<char> {
    match scope_name {
        Some(name) => name,
        None => "?"@,
    }
}

/// The view of an optional text.
pub open spec fn optional_text(s: Option<String>) -> Option<Seq<char>> {
    match s {
        Some(t) => Some(t@),
        None => None,
    }
}

/// The place of the time among the implicit fields.
pub open spec fn time_index() -> int {
    9
}

/// The implicit fields of a record, in the order in which they are written.
/// The time is left out where none could be had.
pub open spec fn implicit_fields(
    fmt: FormatterView,
    metadata: RecordMetadata,
    name: Seq<char>,
    message: Seq<char>,
    time: Option<Seq<char>>,
) -> FieldSeq {
    let fixed = seq![
        (MESSAGE@, json_string(message)),
        (HOSTNAME@, json_string(fmt.hostname)),
        (PID@, json_unsigned(fmt.pid as u64)),
        (LEVEL@, json_string(level_text(metadata.level))),
        (TARGET@, json_string(metadata.target@)),
        (LINE@, json_optional_unsigned(metadata.line)),
        (FILE@, json_optional_string(optional_text(metadata.file))),
        (FN@, json_string(name)),
        (FULL_NAME@, json_string(metadata.target@ + "::"@ + name)),
    ];
    match time {
        Some(t) => fixed.push((TIME@, json_string(t))),
        None => fixed,
    }
}

/// Whether a dynamic field with this key is written at the root.
pub open spec fn goes_to_root(fmt: FormatterView, key: Seq<char>) -> bool {
    !is_reserved(key) && (fmt.promoted.contains(key) || fmt.nested_name is None)
}

/// Whether a dynamic field with this key is written into the nested object.
pub open spec fn goes_to_nested(fmt: FormatterView, key: Seq<char>) -> bool {
    !is_reserved(key) && !fmt.promoted.contains(key) && fmt.nested_name is Some
}

/// The test for the fields that go to the root.
pub open spec fn root_test(fmt: FormatterView) -> spec_fn((Seq<char>, Value)) -> bool {
    |f: (Seq<char>, Value)| goes_to_root(fmt, f.0)
}

/// The test for the fields that go into the nested object.
pub open spec fn nested_test(fmt: FormatterView) -> spec_fn((Seq<char>, Value)) -> bool {
    |f: (Seq<char>, Value)| goes_to_nested(fmt, f.0)
}

/// The test for the fields of a scope that the event has not set itself.
pub open spec fn inherited_test(event: FieldSeq) -> spec_fn((Seq<char>, Value)) -> bool {
    |f: (Seq<char>, Value)| !has_key(event, f.0)
}

/// The dynamic fields of a record: those of the event, then those of the
/// scope whose keys the event has not set.
pub open spec fn dynamic_fields(event: FieldSeq, scope: FieldSeq) -> FieldSeq {
    event + scope.filter(inherited_test(event))
}

/// The dynamic fields that are written at the root, in order.
pub open spec fn root_fields(fmt: FormatterView, dynamic: FieldSeq) -> FieldSeq {
    dynamic.filter(root_test(fmt))
}

/// The dynamic fields that are written into the nested object, in order.
pub open spec fn nested_fields(fmt: FormatterView, dynamic: FieldSeq) -> FieldSeq {
    dynamic.filter(nested_test(fmt))
}

/// The fields of a record at its root, in the order in which they are
/// written: implicit, static, dynamic, and last the nested object, which is
/// left out where nothing goes into it.
pub open spec fn record_fields(
    fmt: FormatterView,
    metadata: RecordMetadata,
    name: Seq<char>,
    message: Seq<char>,
    time: Option<Seq<char>>,
    event: FieldSeq,
    scope: FieldSeq,
) -> FieldSeq {
    let dynamic = dynamic_fields(event, scope);
    let head = implicit_fields(fmt, metadata, name, message, time) + fmt.statics + root_fields(
        fmt,
        dynamic,
    );
    let nested = nested_fields(fmt, dynamic);
    match fmt.nested_name {
        Some(key) => if nested.len() > 0 {
            head.push((key, json_object(nested)))
        } else {
            head
        },
        None => head,
    }
}

/// The bytes of a list of fields written as one JSON object in a style.
pub open spec fn rendered(style: JsonStyle, fields: FieldSeq) -> Option<Seq<u8>> {
    match style {
        JsonStyle::Compact => compact_json(fields),
        JsonStyle::Pretty => pretty_json(fields),
    }
}

/// The bytes of a record as it is handed to the sink: the JSON object and
/// one line feed.
pub open spec fn record_line(style: JsonStyle, fields: FieldSeq) -> Option<Seq<u8>> {
    match rendered(style, fields) {
        Some(bytes) => Some(bytes.push(10u8)),
        None => None,
    }
}

/// Filtering a list that ends in `x` filters the list before `x`, and keeps
/// `x` where it passes the test.
pub proof fn lemma_filter_push<A>(s: Seq<A>, x: A, test: spec_fn(A) -> bool)
    ensures
        s.push(x).filter(test) == if test(x) {
            s.filter(test).push(x)
        } else {
            s.filter(test)
        },
{
    reveal(Seq::filter);
    assert(s.push(x).drop_last() =~= s);
}

/// The view of an optional borrowed text.
pub open spec fn optional_str(s: Option<&str>) -> Option<Seq<char>> {
    match s {
        Some(t) => Some(t@),
        None => None,
    }
}

/// The name of a scope, where there is one.
pub open spec fn scope_name(scope: Option<ScopeView>) -> Option<Seq<char>> {
    match scope {
        Some(s) => Some(s.name),
        None => None,
    }
}

/// The fields of a scope, where there is one.
pub open spec fn scope_values(scope: Option<ScopeView>) -> FieldSeq {
    match scope {
        Some(s) => s.storage.values,
        None => FieldSeq::empty(),
    }
}

/// The view of an optional scope.
pub open spec fn optional_scope(scope: Option<&ScopeState>) -> Option<ScopeView> {
    match scope {
        Some(s) => Some(s@),
        None => None,
    }
}

/// The fields of the record that marks a transition of a scope.
pub open spec fn span_record(
    fmt: FormatterView,
    metadata: RecordMetadata,
    scope: ScopeView,
    ty: RecordType,
    time: Option<Seq<char>>,
) -> FieldSeq {
    record_fields(
        fmt,
        metadata,
        scope.name,
        span_message_text(scope.name, ty),
        time,
        FieldSeq::empty(),
        scope.storage.values,
    )
}

/// The fields of the record of an event with the given attributes, inside
/// the given scope or outside any.
pub open spec fn event_record(
    fmt: FormatterView,
    metadata: RecordMetadata,
    scope: Option<ScopeView>,
    attributes: Seq<Attribute>,
    time: Option<Seq<char>>,
) -> FieldSeq {
    let event = with_attributes(empty_storage(), attributes);
    record_fields(
        fmt,
        metadata,
        event_fn_name(scope_name(scope)),
        event_message_text(scope_name(scope), metadata.target@, event.message),
        time,
        event.values,
        scope_values(scope),
    )
}

/// Whether a transition of a scope is logged: entries only where full
/// lifecycles are logged, exits there and for every scope without a parent.
pub open spec fn is_logged(fmt: FormatterView, ty: RecordType, has_parent: bool) -> bool {
    match ty {
        RecordType::EnterSpan => fmt.log_span_lifecycles,
        RecordType::ExitSpan => fmt.log_span_lifecycles || !has_parent,
        RecordType::Event => true,
    }
}

/// Completes a serialized record: the bytes get one line feed at the end,
/// a failure of the serializer becomes a serialization error.
pub fn finish_record(serialized: Result<Vec<u8>, serde_json::Error>) -> (line: Result<
    Vec<u8>,
    LoggerError,
>)
    ensures
        match serialized {
            Ok(bytes) => line matches Ok(out) && out@ == bytes@.push(10u8),
            Err(cause) => line matches Err(LoggerError::Serialization(kept)) && kept == cause,
        },
{
    match serialized {
        Ok(bytes) => {
            let mut out = bytes;
            out.push(10u8);
            Ok(out)
        },
        Err(cause) => Err(LoggerError::Serialization(cause)),
    }
}

impl JsonFormattingLayer {
    #[verifier::type_invariant]
    spec fn statics_unreserved(self) -> bool {
        reserved_free(self.static_top_level_fields@)
    }

    /// Builds a formatter for the given process on the given host. A static
    /// field with a reserved key is refused, and the error names the first.
    pub fn with_identity(
        config: JsonFormattingLayerConfig,
        style: JsonStyle,
        pid: u32,
        hostname: String,
    ) -> (result: Result<Self, LoggerError>)
        ensures
            match result {
                Ok(layer) => reserved_free(config.static_top_level_fields@) && layer@
                    == configured(config, style, pid, hostname@),
                Err(error) => {
                    &&& !reserved_free(config.static_top_level_fields@)
                    &&& error matches LoggerError::Configuration(text)
                    &&& text@ == reserved_static_text(
                        config.static_top_level_fields@[first_reserved(
                            config.static_top_level_fields@,
                        )].0,
                    )
                },
            },
    {
        let ghost statics = config.static_top_level_fields@;
        let n: usize = config.static_top_level_fields.len();
        let mut i: usize = 0;
        while i < n
            invariant
                statics == config.static_top_level_fields@,
                n == statics.len(),
                i <= n,
                forall|j: int| 0 <= j < i ==> !is_reserved((#[trigger] statics[j]).0),
            decreases n - i,
        {
            let field = config.static_top_level_fields.entry(i);
            if is_reserved_key(field.key.as_str()) {
                let mut text = String::from_str("A reserved key `");
                text.append(field.key.as_str());
                text.append(
                    "` was included in `static_top_level_fields` in the log formatting layer",
                );
                proof {
                    let c = first_reserved(statics);
                    assert(is_reserved(statics[i as int].0));
                    assert(0 <= c < statics.len() && is_reserved(statics[c].0) && forall|j: int|
                        0 <= j < c ==> !is_reserved((#[trigger] statics[j]).0));
                    if c < i {
                        assert(!is_reserved(statics[c].0));
                    }
                    if i < c {
                        assert(!is_reserved(statics[i as int].0));
                    }
                    assert(c == i);
                }
                return Err(LoggerError::Configuration(text));
            }
            i += 1;
        }
        Ok(
            JsonFormattingLayer {
                style,
                pid,
                hostname,
                static_top_level_fields: config.static_top_level_fields,
                top_level_keys: config.top_level_keys,
                log_span_lifecycles: config.log_span_lifecycles,
                additional_fields_placement: config.additional_fields_placement,
            },
        )
    }

    /// Builds a formatter for the given process on this host. A static field
    /// with a reserved key is refused, and the error names the first.
    pub fn new(config: JsonFormattingLayerConfig, style: JsonStyle, pid: u32) -> (result: Result<
        Self,
        LoggerError,
    >)
        ensures
            match result {
                Ok(layer) => reserved_free(config.static_top_level_fields@) && layer@
                    == configured(config, style, pid, layer@.hostname),
                Err(error) => {
                    &&& !reserved_free(config.static_top_level_fields@)
                    &&& error matches LoggerError::Configuration(text)
                    &&& text@ == reserved_static_text(
                        config.static_top_level_fields@[first_reserved(
                            config.static_top_level_fields@,
                        )].0,
                    )
                },
            },
    {
        let hostname = host_name();
        Self::with_identity(config, style, pid, hostname)
    }

    /// States what every formatter satisfies: no static field has a
    /// reserved key.
    pub fn statics_are_unreserved(&self)
        ensures
            reserved_free(self@.statics),
    {
        proof {
            use_type_invariant(self);
        }
    }

    /// Whether a transition of a scope is logged.
    pub fn logs(&self, ty: RecordType, has_parent: bool) -> (logged: bool)
        ensures
            logged == is_logged(self@, ty, has_parent),
    {
        match ty {
            RecordType::EnterSpan => self.log_span_lifecycles,
            RecordType::ExitSpan => self.log_span_lifecycles || !has_parent,
            RecordType::Event => true,
        }
    }

    /// The message of a record that marks a transition of the scope `name`.
    pub fn span_message(name: &str, ty: RecordType) -> (message: String)
        ensures
            message@ == span_message_text(name@, ty),
    {
        let upper = uppercase(name);
        let mut message = String::from_str("[");
        message.append(upper.as_str());
        message.append(" - ");
        message.append(ty.as_str());
        message.append("]");
        message
    }

    /// The message of an event.
    pub fn event_message(scope_name: Option<&str>, target: &str, storage: &Storage) -> (message:
        String)
        ensures
            message@ == event_message_text(optional_str(scope_name), target@, storage@.message),
    {
        let text = match storage.message() {
            Some(m) => m,
            None => target,
        };
        match scope_name {
            Some(name) => {
                let mut message = Self::span_message(name, RecordType::Event);
                message.append(" ");
                message.append(text);
                message
            },
            None => String::from_str(text),
        }
    }

    /// The implicit fields of a record.
    pub fn serialize_implicit_fields(
        &self,
        metadata: &RecordMetadata,
        name: &str,
        message: &str,
        time: Option<&str>,
    ) -> (fields: Vec<Field>)
        ensures
            fields_view(fields@) == implicit_fields(
                self@,
                *metadata,
                name@,
                message@,
                optional_str(time),
            ),
    {
        let mut full_name = metadata.target.clone();
        full_name.append("::");
        full_name.append(name);
        let file = match &metadata.file {
            Some(f) => Some(f.as_str()),
            None => None,
        };
        let mut fields: Vec<Field> = Vec::new();
        fields.push(Field::new(MESSAGE, value_from_str(message)));
        fields.push(Field::new(HOSTNAME, value_from_str(self.hostname.as_str())));
        fields.push(Field::new(PID, value_from_u64(self.pid as u64)));
        fields.push(Field::new(LEVEL, value_from_str(metadata.level.as_str())));
        fields.push(Field::new(TARGET, value_from_str(metadata.target.as_str())));
        fields.push(Field::new(LINE, value_from_optional_u32(metadata.line)));
        fields.push(Field::new(FILE, value_from_optional_str(file)));
        fields.push(Field::new(FN, value_from_str(name)));
        fields.push(Field::new(FULL_NAME, value_from_str(full_name.as_str())));
        match time {
            Some(t) => {
                fields.push(Field::new(TIME, value_from_str(t)));
            },
            None => {},
        }
        assert(fields_view(fields@) =~= implicit_fields(
            self@,
            *metadata,
            name@,
            message@,
            optional_str(time),
        ));
        fields
    }

    /// Puts one dynamic field where the policy sends it: nowhere if its key
    /// is reserved, to the root if its key is promoted or nothing is
    /// nested, else into the nested object.
    fn place(&self, field: &Field, root: &mut Vec<Field>, nested: &mut Vec<Field>)
        ensures
            fields_view(final(root)@) == if goes_to_root(self@, field@.0) {
                fields_view(old(root)@).push(field@)
            } else {
                fields_view(old(root)@)
            },
            fields_view(final(nested)@) == if goes_to_nested(self@, field@.0) {
                fields_view(old(nested)@).push(field@)
            } else {
                fields_view(old(nested)@)
            },
    {
        let key = field.key.as_str();
        if is_reserved_key(key) {
        } else if self.top_level_keys.contains(key) {
            root.push(field.clone());
            assert(fields_view(root@) =~= fields_view(old(root)@).push(field@));
        } else if self.additional_fields_placement.is_nested() {
            nested.push(field.clone());
            assert(fields_view(nested@) =~= fields_view(old(nested)@).push(field@));
        } else {
            root.push(field.clone());
            assert(fields_view(root@) =~= fields_view(old(root)@).push(field@));
        }
    }

    /// Assembles the fields of a record: the implicit fields, the static
    /// fields, the fields of the event, and those of the scope that the
    /// event has not set itself.
    pub fn common_serialize(
        &self,
        metadata: &RecordMetadata,
        scope: Option<&FieldMap>,
        storage: Option<&Storage>,
        name: &str,
        message: &str,
        time: Option<&str>,
    ) -> (fields: Vec<Field>)
        ensures
            fields_view(fields@) == record_fields(
                self@,
                *metadata,
                name@,
                message@,
                optional_str(time),
                match storage {
                    Some(s) => s@.values,
                    None => FieldSeq::empty(),
                },
                match scope {
                    Some(s) => s@,
                    None => FieldSeq::empty(),
                },
            ),
    {
        let nothing = FieldMap::new();
        let event: &FieldMap = match storage {
            Some(s) => s.values(),
            None => &nothing,
        };
        let inherited: &FieldMap = match scope {
            Some(s) => s,
            None => &nothing,
        };
        let mut fields = self.serialize_implicit_fields(metadata, name, message, time);
        let ghost implicit = fields_view(fields@);

        let statics: usize = self.static_top_level_fields.len();
        let mut i: usize = 0;
        while i < statics
            invariant
                statics == self@.statics.len(),
                i <= statics,
                fields_view(fields@) == implicit + self@.statics.take(i as int),
            decreases statics - i,
        {
            let ghost before = fields_view(fields@);
            let field = self.static_top_level_fields.entry(i).clone();
            fields.push(field);
            assert(fields_view(fields@) =~= before.push(field@));
            assert(self@.statics.take(i + 1) =~= self@.statics.take(i as int).push(field@));
            assert(fields_view(fields@) =~= implicit + self@.statics.take(i + 1));
            i += 1;
        }
        assert(self@.statics.take(statics as int) =~= self@.statics);
        let ghost head = implicit + self@.statics;

        let mut nested: Vec<Field> = Vec::new();
        let events: usize = event.len();
        let mut j: usize = 0;
        proof {
            reveal(Seq::filter);
            assert(event@.take(0) =~= FieldSeq::empty());
            assert(fields_view(nested@) =~= FieldSeq::empty());
            assert(fields_view(fields@) =~= head + root_fields(self@, event@.take(0)));
        }
        while j < events
            invariant
                events == event@.len(),
                j <= events,
                fields_view(fields@) == head + root_fields(self@, event@.take(j as int)),
                fields_view(nested@) == nested_fields(self@, event@.take(j as int)),
            decreases events - j,
        {
            let field = event.entry(j);
            proof {
                assert(event@.take(j + 1) =~= event@.take(j as int).push(field@));
                lemma_filter_push(event@.take(j as int), field@, root_test(self@));
                lemma_filter_push(event@.take(j as int), field@, nested_test(self@));
            }
            self.place(field, &mut fields, &mut nested);
            assert(fields_view(fields@) =~= head + root_fields(self@, event@.take(j + 1)));
            j += 1;
        }
        assert(event@.take(events as int) =~= event@);

        let scopes: usize = inherited.len();
        let mut k: usize = 0;
        proof {
            reveal(Seq::filter);
            assert(inherited@.take(0) =~= FieldSeq::empty());
            assert(dynamic_fields(event@, inherited@.take(0)) =~= event@);
        }
        while k < scopes
            invariant
                scopes == inherited@.len(),
                k <= scopes,
                fields_view(fields@) == head + root_fields(
                    self@,
                    dynamic_fields(event@, inherited@.take(k as int)),
                ),
                fields_view(nested@) == nested_fields(
                    self@,
                    dynamic_fields(event@, inherited@.take(k as int)),
                ),
            decreases scopes - k,
        {
            let field = inherited.entry(k);
            let ghost before = dynamic_fields(event@, inherited@.take(k as int));
            proof {
                assert(inherited@.take(k + 1) =~= inherited@.take(k as int).push(field@));
                lemma_filter_push(inherited@.take(k as int), field@, inherited_test(event@));
            }
            if !event.contains_key(field.key.as_str()) {
                proof {
                    assert(dynamic_fields(event@, inherited@.take(k + 1)) =~= before.push(field@));
                    lemma_filter_push(before, field@, root_test(self@));
                    lemma_filter_push(before, field@, nested_test(self@));
                }
                self.place(field, &mut fields, &mut nested);
                assert(fields_view(fields@) =~= head + root_fields(
                    self@,
                    dynamic_fields(event@, inherited@.take(k + 1)),
                ));
            }
            k += 1;
        }
        assert(inherited@.take(scopes as int) =~= inherited@);

        match &self.additional_fields_placement {
            AdditionalFieldsPlacement::Nested(key) => {
                if nested.len() > 0 {
                    fields.push(Field { key: key.clone(), value: object_value(&nested) });
                    assert(fields_view(fields@) =~= (head + root_fields(
                        self@,
                        dynamic_fields(event@, inherited@),
                    )).push((key@, json_object(fields_view(nested@)))));
                }
            },
            AdditionalFieldsPlacement::TopLevel => {},
        }
        fields
    }

    /// Writes a list of fields as one JSON object in the formatter's style,
    /// followed by a line feed.
    pub fn render(&self, fields: &Vec<Field>) -> (line: Result<Vec<u8>, LoggerError>)
        ensures
            match line {
                Ok(bytes) => record_line(self@.style, fields_view(fields@)) == Some(bytes@),
                Err(error) => record_line(self@.style, fields_view(fields@)) is None
                    && error is Serialization,
            },
    {
        let serialized = match self.style {
            JsonStyle::Compact => serialize_compact(fields),
            JsonStyle::Pretty => serialize_pretty(fields),
        };
        finish_record(serialized)
    }

    /// The record that marks a transition of a scope, written at the given
    /// time.
    pub fn span_serialize(
        &self,
        metadata: &RecordMetadata,
        scope: &ScopeState,
        ty: RecordType,
        time: Option<&str>,
    ) -> (line: Result<Vec<u8>, LoggerError>)
        ensures
            match line {
                Ok(bytes) => record_line(
                    self@.style,
                    span_record(self@, *metadata, scope@, ty, optional_str(time)),
                ) == Some(bytes@),
                Err(error) => record_line(
                    self@.style,
                    span_record(self@, *metadata, scope@, ty, optional_str(time)),
                ) is None && error is Serialization,
            },
    {
        let message = Self::span_message(scope.name(), ty);
        let fields = self.common_serialize(
            metadata,
            Some(scope.storage().values()),
            None,
            scope.name(),
            message.as_str(),
            time,
        );
        self.render(&fields)
    }

    /// The record of an event with the given attributes, inside the given
    /// scope or outside any, written at the given time.
    pub fn event_serialize(
        &self,
        scope: Option<&ScopeState>,
        metadata: &RecordMetadata,
        attributes: &Vec<Attribute>,
        time: Option<&str>,
    ) -> (line: Result<Vec<u8>, LoggerError>)
        ensures
            match line {
                Ok(bytes) => record_line(
                    self@.style,
                    event_record(
                        self@,
                        *metadata,
                        optional_scope(scope),
                        attributes@,
                        optional_str(time),
                    ),
                ) == Some(bytes@),
                Err(error) => record_line(
                    self@.style,
                    event_record(
                        self@,
                        *metadata,
                        optional_scope(scope),
                        attributes@,
                        optional_str(time),
                    ),
                ) is None && error is Serialization,
            },
    {
        let mut storage = Storage::new();
        storage.record_all(attributes);
        let (scope_name, scope_fields): (Option<&str>, Option<&FieldMap>) = match scope {
            Some(s) => (Some(s.name()), Some(s.storage().values())),
            None => (None, None),
        };
        let name = match scope_name {
            Some(n) => n,
            None => "?",
        };
        let message = Self::event_message(scope_name, metadata.target.as_str(), &storage);
        let fields = self.common_serialize(
            metadata,
            scope_fields,
            Some(&storage),
            name,
            message.as_str(),
            time,
        );
        self.render(&fields)
    }
}

/// The view of optional bytes.
pub open spec fn optional_bytes(line: Option<Vec<u8>>) -> Option<Seq<u8>> {
    match line {
        Some(bytes) => Some(bytes@),
        None => None,
    }
}

/// The scope in which an event occurs, where it occurs in one.
pub open spec fn current_scope(store: StoreView, current: Option<u64>) -> Option<ScopeView> {
    match current {
        Some(id) => Some(store.scopes[id]),
        None => None,
    }
}

/// What is handed to the sink for an event at the given time: the line of
/// its record, or nothing where the record cannot be serialized.
pub open spec fn event_output(
    fmt: FormatterView,
    store: StoreView,
    current: Option<u64>,
    metadata: RecordMetadata,
    attributes: Seq<Attribute>,
    time: Option<Seq<char>>,
) -> Option<Seq<u8>> {
    record_line(
        fmt.style,
        event_record(fmt, metadata, current_scope(store, current), attributes, time),
    )
}

/// What is handed to the sink for a transition of a scope at the given
/// time: nothing where the transition is not logged or its record cannot
/// be serialized, else the line of its record.
pub open spec fn lifecycle_output(
    fmt: FormatterView,
    store: StoreView,
    id: u64,
    metadata: RecordMetadata,
    ty: RecordType,
    time: Option<Seq<char>>,
) -> Option<Seq<u8>> {
    if is_logged(fmt, ty, store.scopes[id].parent is Some) {
        record_line(fmt.style, span_record(fmt, metadata, store.scopes[id], ty, time))
    } else {
        None
    }
}

/// Whether a time, where there is one, is written as ISO 8601 text in UTC.
pub open spec fn is_timestamp(time: Option<Seq<char>>) -> bool {
    match time {
        Some(text) => is_utc_timestamp(text),
        None => true,
    }
}

/// The time of this moment as ISO 8601 text in UTC, where it can be
/// written so.
fn timestamp() -> (time: Option<String>)
    ensures
        is_timestamp(optional_text(time)),
{
    iso8601(utc_now())
}

impl JsonFormattingLayer {
    /// The line for an event at the given time.
    pub fn event_line(
        &self,
        store: &SpanStorageLayer,
        current: Option<u64>,
        metadata: &RecordMetadata,
        attributes: &Vec<Attribute>,
        time: Option<&str>,
    ) -> (line: Option<Vec<u8>>)
        requires
            current matches Some(id) ==> store@.scopes.contains_key(id),
        ensures
            optional_bytes(line) == event_output(
                self@,
                store@,
                current,
                *metadata,
                attributes@,
                optional_str(time),
            ),
    {
        let scope = match current {
            Some(id) => Some(store.scope(id)),
            None => None,
        };
        match self.event_serialize(scope, metadata, attributes, time) {
            Ok(bytes) => Some(bytes),
            Err(_) => None,
        }
    }

    /// The line for a transition of a live scope at the given time, where
    /// the transition is logged.
    pub fn lifecycle_line(
        &self,
        store: &SpanStorageLayer,
        id: u64,
        metadata: &RecordMetadata,
        ty: RecordType,
        time: Option<&str>,
    ) -> (line: Option<Vec<u8>>)
        requires
            store@.scopes.contains_key(id),
        ensures
            optional_bytes(line) == lifecycle_output(
                self@,
                store@,
                id,
                *metadata,
                ty,
                optional_str(time),
            ),
    {
        let scope = store.scope(id);
        if self.logs(ty, scope.parent().is_some()) {
            match self.span_serialize(metadata, scope, ty, time) {
                Ok(bytes) => Some(bytes),
                Err(_) => None,
            }
        } else {
            None
        }
    }

    /// The line for an event that occurs now.
    pub fn on_event(
        &self,
        store: &SpanStorageLayer,
        current: Option<u64>,
        metadata: &RecordMetadata,
        attributes: &Vec<Attribute>,
    ) -> (line: Option<Vec<u8>>)
        requires
            current matches Some(id) ==> store@.scopes.contains_key(id),
        ensures
            exists|time: Option<Seq<char>>|
                is_timestamp(time) && optional_bytes(line) == #[trigger] event_output(
                    self@,
                    store@,
                    current,
                    *metadata,
                    attributes@,
                    time,
                ),
    {
        let time = timestamp();
        let line = match &time {
            Some(t) => self.event_line(store, current, metadata, attributes, Some(t.as_str())),
            None => self.event_line(store, current, metadata, attributes, None),
        };
        assert(optional_bytes(line) == event_output(
            self@,
            store@,
            current,
            *metadata,
            attributes@,
            optional_text(time),
        ));
        line
    }

    /// The line for the entry into a live scope now, where entries are
    /// logged.
    pub fn on_enter(&self, store: &SpanStorageLayer, id: u64, metadata: &RecordMetadata) -> (line:
        Option<Vec<u8>>)
        requires
            store@.scopes.contains_key(id),
        ensures
            exists|time: Option<Seq<char>>|
                is_timestamp(time) && optional_bytes(line) == #[trigger] lifecycle_output(
                    self@,
                    store@,
                    id,
                    *metadata,
                    RecordType::EnterSpan,
                    time,
                ),
    {
        let time = timestamp();
        let line = match &time {
            Some(t) => self.lifecycle_line(
                store,
                id,
                metadata,
                RecordType::EnterSpan,
                Some(t.as_str()),
            ),
            None => self.lifecycle_line(store, id, metadata, RecordType::EnterSpan, None),
        };
        assert(optional_bytes(line) == lifecycle_output(
            self@,
            store@,
            id,
            *metadata,
            RecordType::EnterSpan,
            optional_text(time),
        ));
        line
    }

    /// The line for the exit from a live scope now, where its exit is
    /// logged. The store must have closed the scope before.
    pub fn on_close(&self, store: &SpanStorageLayer, id: u64, metadata: &RecordMetadata) -> (line:
        Option<Vec<u8>>)
        requires
            store@.scopes.contains_key(id),
        ensures
            exists|time: Option<Seq<char>>|
                is_timestamp(time) && optional_bytes(line) == #[trigger] lifecycle_output(
                    self@,
                    store@,
                    id,
                    *metadata,
                    RecordType::ExitSpan,
                    time,
                ),
    {
        let time = timestamp();
        let line = match &time {
            Some(t) => self.lifecycle_line(
                store,
                id,
                metadata,
                RecordType::ExitSpan,
                Some(t.as_str()),
            ),
            None => self.lifecycle_line(store, id, metadata, RecordType::ExitSpan, None),
        };
        assert(optional_bytes(line) == lifecycle_output(
            self@,
            store@,
            id,
            *metadata,
            RecordType::ExitSpan,
            optional_text(time),
        ));
        line
    }
}

} // verus!
