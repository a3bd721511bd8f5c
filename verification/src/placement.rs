//! What holds of the fields of every record.

use vstd::prelude::*;
use serde_json::Value;
use crate::fields::{
    FieldSeq, as_map, distinct_keys, has_key, lemma_position_unique, position, reserved_free,
};
use crate::formatter::{
    FormatterView, RecordMetadata, RecordType, dynamic_fields, event_record, goes_to_nested,
    goes_to_root, implicit_fields, inherited_test, nested_fields, nested_test, record_fields,
    root_fields, root_test, span_record, time_index,
};
use crate::keys::{ELAPSED_MILLISECONDS, TIME, is_reserved, lemma_elapsed_key_not_reserved};
use crate::storage::{Attribute, ScopeView};
use crate::value::{json_object, json_string};

verus! {

/// A field with a reserved key is always one of the implicit fields: no
/// static field and no attribute of an event or a scope is ever written
/// under a reserved key. This needs that the nested object itself has no
/// reserved key.
pub proof fn lemma_reserved_fields_are_implicit(
    fmt: FormatterView,
    metadata: RecordMetadata,
    name: Seq<char>,
    message: Seq<char>,
    time: Option<Seq<char>>,
    event: FieldSeq,
    scope: FieldSeq,
    i: int,
)
    requires
        reserved_free(fmt.statics),
        fmt.nested_name matches Some(key) ==> !is_reserved(key),
        0 <= i < record_fields(fmt, metadata, name, message, time, event, scope).len(),
        is_reserved(record_fields(fmt, metadata, name, message, time, event, scope)[i].0),
    ensures
        i < implicit_fields(fmt, metadata, name, message, time).len(),
        record_fields(fmt, metadata, name, message, time, event, scope)[i] == implicit_fields(
            fmt,
            metadata,
            name,
            message,
            time,
        )[i],
{
    let implicit = implicit_fields(fmt, metadata, name, message, time);
    let dynamic = dynamic_fields(event, scope);
    let root = root_fields(fmt, dynamic);
    let head = implicit + fmt.statics + root;
    if implicit.len() <= i < implicit.len() + fmt.statics.len() {
        assert(head[i] == fmt.statics[i - implicit.len()]);
    } else if implicit.len() + fmt.statics.len() <= i < head.len() {
        let j = i - implicit.len() - fmt.statics.len();
        assert(head[i] == root[j]);
        dynamic.lemma_filter_pred(root_test(fmt), j);
    }
}

/// No field inside the nested object has a reserved key.
pub proof fn lemma_nested_fields_are_unreserved(fmt: FormatterView, dynamic: FieldSeq, i: int)
    requires
        0 <= i < nested_fields(fmt, dynamic).len(),
    ensures
        goes_to_nested(fmt, nested_fields(fmt, dynamic)[i].0),
        !is_reserved(nested_fields(fmt, dynamic)[i].0),
{
    dynamic.lemma_filter_pred(nested_test(fmt), i);
}

/// Two records that differ only in the time at which they were written
/// hold the same fields, but for the field of the time.
pub proof fn lemma_records_differ_in_time_only(
    fmt: FormatterView,
    metadata: RecordMetadata,
    name: Seq<char>,
    message: Seq<char>,
    first: Seq<char>,
    second: Seq<char>,
    event: FieldSeq,
    scope: FieldSeq,
)
    ensures
        record_fields(fmt, metadata, name, message, Some(first), event, scope).len()
            == record_fields(fmt, metadata, name, message, Some(second), event, scope).len(),
        record_fields(fmt, metadata, name, message, Some(first), event, scope)[time_index()] == (
            TIME@,
            json_string(first),
        ),
        record_fields(fmt, metadata, name, message, Some(second), event, scope)[time_index()] == (
            TIME@,
            json_string(second),
        ),
        forall|i: int|
            0 <= i < record_fields(fmt, metadata, name, message, Some(first), event, scope).len()
                && i != time_index() ==> #[trigger] record_fields(
                fmt,
                metadata,
                name,
                message,
                Some(first),
                event,
                scope,
            )[i] == record_fields(fmt, metadata, name, message, Some(second), event, scope)[i],
{
    let a = implicit_fields(fmt, metadata, name, message, Some(first));
    let b = implicit_fields(fmt, metadata, name, message, Some(second));
    assert(a.len() == 10 && b.len() == 10);
    assert forall|i: int| 0 <= i < 10 && i != time_index() implies a[i] == b[i] by {}
    let dynamic = dynamic_fields(event, scope);
    let tail = fmt.statics + root_fields(fmt, dynamic);
    assert(a + fmt.statics + root_fields(fmt, dynamic) =~= a + tail);
    assert(b + fmt.statics + root_fields(fmt, dynamic) =~= b + tail);
}

/// Two events with the same configuration, scope and attributes give
/// records that hold the same fields, but for the field of the time.
pub proof fn lemma_event_records_differ_in_time_only(
    fmt: FormatterView,
    metadata: RecordMetadata,
    scope: Option<ScopeView>,
    attributes: Seq<Attribute>,
    first: Seq<char>,
    second: Seq<char>,
)
    ensures
        event_record(fmt, metadata, scope, attributes, Some(first)).len() == event_record(
            fmt,
            metadata,
            scope,
            attributes,
            Some(second),
        ).len(),
        forall|i: int|
            0 <= i < event_record(fmt, metadata, scope, attributes, Some(first)).len() && i
                != time_index() ==> #[trigger] event_record(
                fmt,
                metadata,
                scope,
                attributes,
                Some(first),
            )[i] == event_record(fmt, metadata, scope, attributes, Some(second))[i],
{
    let event = crate::storage::with_attributes(crate::storage::empty_storage(), attributes);
    let name = crate::formatter::event_fn_name(crate::formatter::scope_name(scope));
    let message = crate::formatter::event_message_text(
        crate::formatter::scope_name(scope),
        metadata.target@,
        event.message,
    );
    lemma_records_differ_in_time_only(
        fmt,
        metadata,
        name,
        message,
        first,
        second,
        event.values,
        crate::formatter::scope_values(scope),
    );
}

/// Where no field goes into the nested object, the record holds the
/// implicit, the static and the dynamic root fields and nothing else: the
/// key of the nested object is not written.
pub proof fn lemma_empty_nested_object_is_omitted(
    fmt: FormatterView,
    metadata: RecordMetadata,
    name: Seq<char>,
    message: Seq<char>,
    time: Option<Seq<char>>,
    event: FieldSeq,
    scope: FieldSeq,
)
    requires
        nested_fields(fmt, dynamic_fields(event, scope)).len() == 0,
    ensures
        record_fields(fmt, metadata, name, message, time, event, scope) == implicit_fields(
            fmt,
            metadata,
            name,
            message,
            time,
        ) + fmt.statics + root_fields(fmt, dynamic_fields(event, scope)),
{
}

/// Where some field goes into the nested object, the record ends with
/// that object under its key, and every field before it is an implicit, a
/// static or a dynamic root field.
pub proof fn lemma_nested_object_is_last(
    fmt: FormatterView,
    metadata: RecordMetadata,
    name: Seq<char>,
    message: Seq<char>,
    time: Option<Seq<char>>,
    event: FieldSeq,
    scope: FieldSeq,
)
    requires
        nested_fields(fmt, dynamic_fields(event, scope)).len() > 0,
    ensures
        fmt.nested_name is Some,
        record_fields(fmt, metadata, name, message, time, event, scope) == (implicit_fields(
            fmt,
            metadata,
            name,
            message,
            time,
        ) + fmt.statics + root_fields(fmt, dynamic_fields(event, scope))).push(
            (
                fmt.nested_name->0,
                json_object(nested_fields(fmt, dynamic_fields(event, scope))),
            ),
        ),
{
    let dynamic = dynamic_fields(event, scope);
    dynamic.lemma_filter_pred(nested_test(fmt), 0);
}

/// A list filtered by a test that every field passes is the list itself.
pub proof fn lemma_filter_all(fields: FieldSeq, test: spec_fn((Seq<char>, Value)) -> bool)
    requires
        forall|i: int| 0 <= i < fields.len() ==> test(#[trigger] fields[i]),
    ensures
        fields.filter(test) == fields,
    decreases fields.len(),
{
    reveal(Seq::filter);
    if fields.len() > 0 {
        let rest = fields.drop_last();
        assert forall|i: int| 0 <= i < rest.len() implies test(#[trigger] rest[i]) by {
            assert(rest[i] == fields[i]);
        }
        lemma_filter_all(rest, test);
        assert(rest.push(fields.last()) =~= fields);
    }
}

/// The record that marks a transition of a scope carries every field of
/// the scope whose key is not reserved: at the root, or inside the nested
/// object, as the policy places its key.
pub proof fn lemma_span_record_carries_scope_field(
    fmt: FormatterView,
    metadata: RecordMetadata,
    scope: ScopeView,
    ty: RecordType,
    time: Option<Seq<char>>,
    i: int,
)
    requires
        0 <= i < scope.storage.values.len(),
        !is_reserved(scope.storage.values[i].0),
    ensures
        goes_to_root(fmt, scope.storage.values[i].0) ==> span_record(
            fmt,
            metadata,
            scope,
            ty,
            time,
        ).contains(scope.storage.values[i]),
        !goes_to_root(fmt, scope.storage.values[i].0) ==> {
            &&& fmt.nested_name is Some
            &&& nested_fields(
                fmt,
                dynamic_fields(FieldSeq::empty(), scope.storage.values),
            ).contains(scope.storage.values[i])
            &&& span_record(fmt, metadata, scope, ty, time).last() == (
                fmt.nested_name->0,
                json_object(
                    nested_fields(fmt, dynamic_fields(FieldSeq::empty(), scope.storage.values)),
                ),
            )
        },
{
    let values = scope.storage.values;
    let none = FieldSeq::empty();
    let field = values[i];
    assert forall|j: int| 0 <= j < values.len() implies inherited_test(none)(
        #[trigger] values[j],
    ) by {}
    lemma_filter_all(values, inherited_test(none));
    let dynamic = dynamic_fields(none, values);
    assert(dynamic =~= values);
    let name = scope.name;
    let message = crate::formatter::span_message_text(name, ty);
    let implicit = implicit_fields(fmt, metadata, name, message, time);
    let root = root_fields(fmt, dynamic);
    let head = implicit + fmt.statics + root;
    let record = span_record(fmt, metadata, scope, ty, time);
    if goes_to_root(fmt, field.0) {
        dynamic.lemma_filter_contains(root_test(fmt), i);
        let j = choose|j: int| 0 <= j < root.len() && root[j] == field;
        assert(head[implicit.len() + fmt.statics.len() + j] == field);
        if record.len() > head.len() {
            assert(record[implicit.len() + fmt.statics.len() + j] == field);
        }
    } else {
        dynamic.lemma_filter_contains(nested_test(fmt), i);
        let nested = nested_fields(fmt, dynamic);
        assert(nested.len() > 0);
        lemma_nested_object_is_last(fmt, metadata, name, message, time, none, values);
    }
}

/// The record of the exit from a scope whose duration was recorded
/// carries that duration, a JSON number that is not negative: at the
/// root, or inside the nested object, as the policy places its key.
pub proof fn lemma_exit_record_carries_elapsed(
    fmt: FormatterView,
    metadata: RecordMetadata,
    scope: ScopeView,
    time: Option<Seq<char>>,
)
    requires
        distinct_keys(scope.storage.values),
        has_key(scope.storage.values, ELAPSED_MILLISECONDS@),
    ensures
        goes_to_root(fmt, ELAPSED_MILLISECONDS@) ==> span_record(
            fmt,
            metadata,
            scope,
            RecordType::ExitSpan,
            time,
        ).contains(
            (ELAPSED_MILLISECONDS@, as_map(scope.storage.values)[ELAPSED_MILLISECONDS@]),
        ),
        !goes_to_root(fmt, ELAPSED_MILLISECONDS@) ==> {
            &&& fmt.nested_name is Some
            &&& nested_fields(
                fmt,
                dynamic_fields(FieldSeq::empty(), scope.storage.values),
            ).contains(
                (ELAPSED_MILLISECONDS@, as_map(scope.storage.values)[ELAPSED_MILLISECONDS@]),
            )
            &&& span_record(fmt, metadata, scope, RecordType::ExitSpan, time).last() == (
                fmt.nested_name->0,
                json_object(
                    nested_fields(fmt, dynamic_fields(FieldSeq::empty(), scope.storage.values)),
                ),
            )
        },
{
    let values = scope.storage.values;
    let i = position(values, ELAPSED_MILLISECONDS@);
    lemma_elapsed_key_not_reserved();
    lemma_position_unique(values, i);
    assert(values[i] == (ELAPSED_MILLISECONDS@, as_map(values)[ELAPSED_MILLISECONDS@]));
    lemma_span_record_carries_scope_field(fmt, metadata, scope, RecordType::ExitSpan, time, i);
}

} // verus!
