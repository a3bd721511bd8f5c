//! What holds of the fields of a scope when it is created, and of those of
//! its parent when it closes.

use vstd::prelude::*;
use serde_json::Value;
use crate::fields::{
    FieldSeq, as_map, distinct_keys, has_key, lemma_upserted_as_map, lemma_upserted_distinct,
    position, reserved_free, upserted,
};
use crate::keys::{ELAPSED_MILLISECONDS, MESSAGE, is_reserved, lemma_elapsed_key_not_reserved};
use crate::storage::{
    Attribute, AttributeValue, StorageView, StoreView, closed, created, empty_storage,
    has_live_parent, propagated, recorded, storage_valid, store_valid, with_attribute,
    with_attributes, with_value,
};
use crate::value::{json_bool, json_signed, json_string, json_unsigned};

verus! {

/// The field that is written for `key`, unless the key is reserved.
pub open spec fn written(key: Seq<char>, value: Value) -> Option<(Seq<char>, Value)> {
    if is_reserved(key) {
        None
    } else {
        Some((key, value))
    }
}

/// The field that recording an attribute writes, if it writes one.
pub open spec fn written_field(attribute: Attribute) -> Option<(Seq<char>, Value)> {
    let key = attribute.name@;
    if key == MESSAGE@ {
        None
    } else {
        match attribute.value {
            AttributeValue::Str(v) => written(key, json_string(v@)),
            AttributeValue::Bool(b) => written(key, json_bool(b)),
            AttributeValue::I64(n) => written(key, json_signed(n)),
            AttributeValue::U64(n) => written(key, json_unsigned(n)),
            AttributeValue::Debug(text) => if "log."@.is_prefix_of(key) {
                None
            } else if "r#"@.is_prefix_of(key) {
                written(key.skip(2), json_string(text@))
            } else {
                written(key, json_string(text@))
            },
            AttributeValue::Rendered { text, json } => written(key, json),
        }
    }
}

/// The fields that a list of attributes writes, as a map: for a key that
/// several attributes write, the last one counts.
pub open spec fn attribute_map(attributes: Seq<Attribute>) -> Map<Seq<char>, Value>
    decreases attributes.len(),
{
    if attributes.len() == 0 {
        Map::empty()
    } else {
        let before = attribute_map(attributes.drop_last());
        match written_field(attributes.last()) {
            Some(field) => before.insert(field.0, field.1),
            None => before,
        }
    }
}

/// Setting a key that is not reserved keeps a storage valid.
pub proof fn lemma_upserted_valid(fields: FieldSeq, key: Seq<char>, value: Value)
    requires
        distinct_keys(fields),
        reserved_free(fields),
        !is_reserved(key),
    ensures
        distinct_keys(upserted(fields, key, value)),
        reserved_free(upserted(fields, key, value)),
{
    lemma_upserted_distinct(fields, key, value);
    let after = upserted(fields, key, value);
    assert forall|i: int| 0 <= i < after.len() implies !is_reserved((#[trigger] after[i]).0) by {
        if has_key(fields, key) {
            let p = position(fields, key);
            if i != p {
                assert(after[i] == fields[i]);
            }
        } else {
            if i < fields.len() {
                assert(after[i] == fields[i]);
            }
        }
    }
}

/// Recording a value keeps a storage valid.
pub proof fn lemma_with_value_valid(s: StorageView, key: Seq<char>, value: Value)
    requires
        storage_valid(s),
    ensures
        storage_valid(with_value(s, key, value)),
{
    if !is_reserved(key) {
        lemma_upserted_valid(s.values, key, value);
    }
}

/// Recording an attribute keeps a storage valid, and changes its fields
/// by the one field that the attribute writes, if it writes one.
pub proof fn lemma_with_attribute(s: StorageView, attribute: Attribute)
    requires
        storage_valid(s),
    ensures
        storage_valid(with_attribute(s, attribute)),
        as_map(with_attribute(s, attribute).values) == match written_field(attribute) {
            Some(field) => as_map(s.values).insert(field.0, field.1),
            None => as_map(s.values),
        },
{
    match written_field(attribute) {
        Some(field) => {
            lemma_upserted_valid(s.values, field.0, field.1);
            lemma_upserted_as_map(s.values, field.0, field.1);
            assert(with_attribute(s, attribute).values == upserted(s.values, field.0, field.1));
        },
        None => {
            assert(with_attribute(s, attribute).values == s.values);
        },
    }
}

/// After a list of attributes is recorded, the fields are those held
/// before together with those that the attributes write, and where both
/// have a key the attribute's value stands.
pub proof fn lemma_recorded_attributes_win(s: StorageView, attributes: Seq<Attribute>)
    requires
        storage_valid(s),
    ensures
        storage_valid(with_attributes(s, attributes)),
        as_map(with_attributes(s, attributes).values) == as_map(s.values).union_prefer_right(
            attribute_map(attributes),
        ),
    decreases attributes.len(),
{
    if attributes.len() == 0 {
        assert(as_map(s.values).union_prefer_right(attribute_map(attributes)) =~= as_map(
            s.values,
        ));
    } else {
        let rest = attributes.drop_last();
        let before = with_attributes(s, rest);
        lemma_recorded_attributes_win(s, rest);
        lemma_with_attribute(before, attributes.last());
        match written_field(attributes.last()) {
            Some(field) => {
                assert(as_map(s.values).union_prefer_right(attribute_map(rest)).insert(
                    field.0,
                    field.1,
                ) =~= as_map(s.values).union_prefer_right(attribute_map(attributes)));
            },
            None => {},
        }
    }
}

/// The fields of a new scope with a live parent are the parent's fields at
/// that moment together with those that the scope's own attributes write,
/// and where both have a key the scope's own value stands.
pub proof fn lemma_new_scope_inherits(
    store: StoreView,
    id: u64,
    parent: u64,
    name: Seq<char>,
    attributes: Seq<Attribute>,
)
    requires
        store_valid(store),
        store.scopes.contains_key(parent),
    ensures
        as_map(
            created(store, id, Some(parent), name, attributes).scopes[id].storage.values,
        ) == as_map(store.scopes[parent].storage.values).union_prefer_right(
            attribute_map(attributes),
        ),
        store_valid(created(store, id, Some(parent), name, attributes)),
{
    lemma_recorded_attributes_win(store.scopes[parent].storage, attributes);
    lemma_created_valid(store, id, Some(parent), name, attributes);
}

/// The fields of a new scope without a live parent are those that its own
/// attributes write.
pub proof fn lemma_new_root_scope(
    store: StoreView,
    id: u64,
    parent: Option<u64>,
    name: Seq<char>,
    attributes: Seq<Attribute>,
)
    requires
        parent matches Some(p) ==> !store.scopes.contains_key(p),
    ensures
        as_map(created(store, id, parent, name, attributes).scopes[id].storage.values)
            == attribute_map(attributes),
{
    lemma_recorded_attributes_win(empty_storage(), attributes);
    assert(as_map(empty_storage().values) =~= Map::<Seq<char>, Value>::empty());
    assert(Map::<Seq<char>, Value>::empty().union_prefer_right(attribute_map(attributes))
        =~= attribute_map(attributes));
}

/// Creating a scope keeps a store valid, and changes no other scope.
pub proof fn lemma_created_valid(
    store: StoreView,
    id: u64,
    parent: Option<u64>,
    name: Seq<char>,
    attributes: Seq<Attribute>,
)
    requires
        store_valid(store),
    ensures
        store_valid(created(store, id, parent, name, attributes)),
        forall|other: u64|
            other != id ==> (#[trigger] created(
                store,
                id,
                parent,
                name,
                attributes,
            ).scopes.contains_key(other) == store.scopes.contains_key(other)),
        forall|other: u64|
            other != id && store.scopes.contains_key(other) ==> #[trigger] created(
                store,
                id,
                parent,
                name,
                attributes,
            ).scopes[other] == store.scopes[other],
{
    let start = crate::storage::inherited_storage(store, parent);
    assert(storage_valid(start)) by {
        match parent {
            Some(p) => {
                if store.scopes.contains_key(p) {
                } else {
                }
            },
            None => {},
        }
    }
    lemma_recorded_attributes_win(start, attributes);
}

/// Recording attributes for a scope keeps a store valid, and changes no
/// other scope: what a child records is not seen in its parent, and what
/// a parent records later is not seen in a child.
pub proof fn lemma_recorded_valid(store: StoreView, id: u64, attributes: Seq<Attribute>)
    requires
        store_valid(store),
        store.scopes.contains_key(id),
    ensures
        store_valid(recorded(store, id, attributes)),
        recorded(store, id, attributes).scopes.dom() == store.scopes.dom(),
        forall|other: u64|
            other != id && store.scopes.contains_key(other) ==> #[trigger] recorded(
                store,
                id,
                attributes,
            ).scopes[other] == store.scopes[other],
{
    lemma_recorded_attributes_win(store.scopes[id].storage, attributes);
    assert(recorded(store, id, attributes).scopes.dom() =~= store.scopes.dom());
}

/// The last field of a list without repeated keys is not named in the
/// list before it, and the list read as a map is that list's map with the
/// last field set.
pub proof fn lemma_as_map_last(fields: FieldSeq)
    requires
        distinct_keys(fields),
        fields.len() > 0,
    ensures
        distinct_keys(fields.drop_last()),
        !has_key(fields.drop_last(), fields.last().0),
        as_map(fields) == as_map(fields.drop_last()).insert(fields.last().0, fields.last().1),
{
    let rest = fields.drop_last();
    let last = fields.last();
    assert forall|i: int, j: int| 0 <= i < j < rest.len() implies (#[trigger] rest[i]).0 != (
    #[trigger] rest[j]).0 by {
        assert(rest[i] == fields[i]);
        assert(rest[j] == fields[j]);
    }
    if has_key(rest, last.0) {
        let i = position(rest, last.0);
        assert(fields[i].0 == fields[fields.len() - 1].0);
    }
    lemma_upserted_as_map(rest, last.0, last.1);
    assert(upserted(rest, last.0, last.1) =~= fields);
}

/// After a closing child has handed up its fields, the parent holds its
/// own fields together with the child's persistent ones, and where both
/// have a key the child's value stands. Its message is as before.
pub proof fn lemma_propagated_as_map(
    parent: StorageView,
    child: FieldSeq,
    persistent: Set<Seq<char>>,
)
    requires
        storage_valid(parent),
        distinct_keys(child),
        reserved_free(child),
    ensures
        storage_valid(propagated(parent, child, persistent)),
        propagated(parent, child, persistent).message == parent.message,
        as_map(propagated(parent, child, persistent).values) == as_map(
            parent.values,
        ).union_prefer_right(as_map(child).restrict(persistent)),
    decreases child.len(),
{
    if child.len() == 0 {
        assert(as_map(child) =~= Map::<Seq<char>, Value>::empty());
        assert(as_map(parent.values).union_prefer_right(as_map(child).restrict(persistent))
            =~= as_map(parent.values));
    } else {
        let rest = child.drop_last();
        let last = child.last();
        lemma_as_map_last(child);
        assert forall|i: int| 0 <= i < rest.len() implies !is_reserved((#[trigger] rest[i]).0) by {
            assert(rest[i] == child[i]);
        }
        lemma_propagated_as_map(parent, rest, persistent);
        let before = propagated(parent, rest, persistent);
        assert(!is_reserved(last.0)) by {
            assert(child[child.len() - 1] == last);
        }
        if persistent.contains(last.0) {
            lemma_upserted_valid(before.values, last.0, last.1);
            lemma_upserted_as_map(before.values, last.0, last.1);
            assert(as_map(rest).insert(last.0, last.1).restrict(persistent) =~= as_map(
                rest,
            ).restrict(persistent).insert(last.0, last.1));
            assert(as_map(parent.values).union_prefer_right(
                as_map(rest).restrict(persistent),
            ).insert(last.0, last.1) =~= as_map(parent.values).union_prefer_right(
                as_map(child).restrict(persistent),
            ));
        } else {
            assert(as_map(rest).insert(last.0, last.1).restrict(persistent) =~= as_map(
                rest,
            ).restrict(persistent));
        }
    }
}

/// When a scope closes, every persistent key that it holds is then held
/// by its live parent, with the scope's value, whatever the parent held
/// under that key before.
pub proof fn lemma_persistent_key_reaches_parent(
    store: StoreView,
    id: u64,
    elapsed: u128,
    key: Seq<char>,
)
    requires
        store_valid(store),
        store.scopes.contains_key(id),
        has_live_parent(store, id),
        store.persistent.contains(key),
        has_key(store.scopes[id].storage.values, key),
    ensures
        has_key(closed(store, id, elapsed).scopes[store.scopes[id].parent->0].storage.values, key),
        as_map(
            closed(store, id, elapsed).scopes[store.scopes[id].parent->0].storage.values,
        )[key] == as_map(store.scopes[id].storage.values)[key],
{
    let p = store.scopes[id].parent->0;
    let child = store.scopes[id].storage.values;
    let before = store.scopes[p].storage.values;
    let after = closed(store, id, elapsed).scopes[p].storage.values;
    lemma_propagated_as_map(store.scopes[p].storage, child, store.persistent);
    assert(after == propagated(store.scopes[p].storage, child, store.persistent).values);
    assert(as_map(child).contains_key(key) == has_key(child, key));
    assert(as_map(before).contains_key(key) == has_key(before, key));
    assert(as_map(after).contains_key(key) == has_key(after, key));
}

/// A persistent key that a scope records and then holds when it closes is
/// held by its live parent after the close, with the value that the scope
/// recorded last.
pub proof fn lemma_recorded_persistent_key_reaches_parent(
    store: StoreView,
    id: u64,
    attributes: Seq<Attribute>,
    elapsed: u128,
    key: Seq<char>,
)
    requires
        store_valid(store),
        store.scopes.contains_key(id),
        has_live_parent(store, id),
        store.persistent.contains(key),
        attribute_map(attributes).contains_key(key),
    ensures
        has_key(
            closed(
                recorded(store, id, attributes),
                id,
                elapsed,
            ).scopes[store.scopes[id].parent->0].storage.values,
            key,
        ),
        as_map(
            closed(
                recorded(store, id, attributes),
                id,
                elapsed,
            ).scopes[store.scopes[id].parent->0].storage.values,
        )[key] == attribute_map(attributes)[key],
{
    let after = recorded(store, id, attributes);
    lemma_recorded_valid(store, id, attributes);
    lemma_recorded_attributes_win(store.scopes[id].storage, attributes);
    let held = after.scopes[id].storage.values;
    assert(as_map(held).contains_key(key));
    assert(has_key(held, key));
    assert(after.scopes.contains_key(store.scopes[id].parent->0));
    assert(has_live_parent(after, id));
    lemma_persistent_key_reaches_parent(after, id, elapsed, key);
}

/// When a scope closes, its live parent keeps, under every key that is not
/// persistent or that the scope does not hold, exactly what it held
/// before, and it keeps its message.
pub proof fn lemma_other_keys_stay_in_parent(
    store: StoreView,
    id: u64,
    elapsed: u128,
    key: Seq<char>,
)
    requires
        store_valid(store),
        store.scopes.contains_key(id),
        has_live_parent(store, id),
        !store.persistent.contains(key) || !has_key(store.scopes[id].storage.values, key),
    ensures
        has_key(closed(store, id, elapsed).scopes[store.scopes[id].parent->0].storage.values, key)
            == has_key(store.scopes[store.scopes[id].parent->0].storage.values, key),
        has_key(store.scopes[store.scopes[id].parent->0].storage.values, key) ==> as_map(
            closed(store, id, elapsed).scopes[store.scopes[id].parent->0].storage.values,
        )[key] == as_map(store.scopes[store.scopes[id].parent->0].storage.values)[key],
        closed(store, id, elapsed).scopes[store.scopes[id].parent->0].storage.message
            == store.scopes[store.scopes[id].parent->0].storage.message,
{
    let p = store.scopes[id].parent->0;
    let child = store.scopes[id].storage.values;
    let before = store.scopes[p].storage.values;
    let after = closed(store, id, elapsed).scopes[p].storage.values;
    lemma_propagated_as_map(store.scopes[p].storage, child, store.persistent);
    assert(after == propagated(store.scopes[p].storage, child, store.persistent).values);
    assert(as_map(child).contains_key(key) == has_key(child, key));
    assert(as_map(before).contains_key(key) == has_key(before, key));
    assert(as_map(after).contains_key(key) == has_key(after, key));
}

/// Closing a scope changes only that scope and its live parent, and keeps
/// the store valid.
pub proof fn lemma_closed_valid(store: StoreView, id: u64, elapsed: u128)
    requires
        store_valid(store),
        store.scopes.contains_key(id),
    ensures
        store_valid(closed(store, id, elapsed)),
        closed(store, id, elapsed).scopes.dom() == store.scopes.dom(),
        forall|other: u64|
            other != id && store.scopes[id].parent != Some(other) && store.scopes.contains_key(
                other,
            ) ==> #[trigger] closed(store, id, elapsed).scopes[other] == store.scopes[other],
        !has_live_parent(store, id) ==> forall|other: u64|
            other != id && store.scopes.contains_key(other) ==> #[trigger] closed(
                store,
                id,
                elapsed,
            ).scopes[other] == store.scopes[other],
{
    let scope = store.scopes[id];
    lemma_elapsed_key_not_reserved();
    lemma_with_value_valid(scope.storage, ELAPSED_MILLISECONDS@, json_unsigned(elapsed as u64));
    if has_live_parent(store, id) {
        let p = scope.parent->0;
        lemma_propagated_as_map(store.scopes[p].storage, scope.storage.values, store.persistent);
    }
    assert(closed(store, id, elapsed).scopes.dom() =~= store.scopes.dom());
}

/// A closed scope holds its duration in milliseconds, a JSON number that
/// is not negative, provided that the duration fits in 64 bits. Its other
/// fields are as before.
pub proof fn lemma_closed_scope_holds_elapsed(store: StoreView, id: u64, elapsed: u128)
    requires
        store_valid(store),
        store.scopes.contains_key(id),
        elapsed <= u64::MAX,
    ensures
        has_key(closed(store, id, elapsed).scopes[id].storage.values, ELAPSED_MILLISECONDS@),
        as_map(closed(store, id, elapsed).scopes[id].storage.values) == as_map(
            store.scopes[id].storage.values,
        ).insert(ELAPSED_MILLISECONDS@, json_unsigned(elapsed as u64)),
        distinct_keys(closed(store, id, elapsed).scopes[id].storage.values),
{
    let scope = store.scopes[id];
    lemma_elapsed_key_not_reserved();
    lemma_upserted_as_map(
        scope.storage.values,
        ELAPSED_MILLISECONDS@,
        json_unsigned(elapsed as u64),
    );
    lemma_upserted_distinct(
        scope.storage.values,
        ELAPSED_MILLISECONDS@,
        json_unsigned(elapsed as u64),
    );
    assert(as_map(closed(store, id, elapsed).scopes[id].storage.values).contains_key(
        ELAPSED_MILLISECONDS@,
    ));
}

} // verus!
