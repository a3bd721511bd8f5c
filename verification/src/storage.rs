//! The attributes recorded for a scope or an event, and the store that
//! keeps them for every live scope.

use vstd::prelude::*;
use serde_json::Value;
use std::collections::HashMap;
use std::time::Instant;
use crate::fields::{FieldMap, FieldSeq, KeySet, distinct_keys, reserved_free, upserted};
use crate::inheritance::lemma_upserted_valid;
use crate::keys::{ELAPSED_MILLISECONDS, MESSAGE, is_reserved, is_reserved_key};
use crate::system::{duration_millis, instant_elapsed, instant_now};
use crate::text::{
    bool_text, bool_to_string, has_prefix, signed_text, signed_to_string, skip_chars, str_eq,
    unsigned_text, unsigned_to_string,
};
use crate::value::{
    json_bool, json_signed, json_string, json_unsigned, value_from_bool,
    value_from_i64, value_from_str, value_from_u128, value_from_u64,
};

verus! {

/// What a `Storage` holds: the recorded fields in order, and the message.
pub struct StorageView {
    pub values: FieldSeq,
    pub message: Option<Seq<char>>,
}

/// The value of one attribute, as the instrumentation hands it over.
#[derive(Debug)]
pub enum AttributeValue {
    /// A text.
    Str(String),
    /// A truth value.
    Bool(bool),
    /// A signed number.
    I64(i64),
    /// An unsigned number.
    U64(u64),
    /// The debug form of a value of any other kind.
    Debug(String),
    /// A value that the caller has rendered both as text and as JSON.
    Rendered {
        /// The value as text.
        text: String,
        /// The value as JSON.
        json: Value,
    },
}

/// One attribute of a scope or an event.
#[derive(Debug)]
pub struct Attribute {
    /// The name of the attribute.
    pub name: String,
    /// Its value.
    pub value: AttributeValue,
}

impl Clone for AttributeValue {
    fn clone(&self) -> (copy: Self)
        ensures
            copy == *self,
    {
        match self {
            AttributeValue::Str(v) => AttributeValue::Str(v.clone()),
            AttributeValue::Bool(b) => AttributeValue::Bool(*b),
            AttributeValue::I64(n) => AttributeValue::I64(*n),
            AttributeValue::U64(n) => AttributeValue::U64(*n),
            AttributeValue::Debug(text) => AttributeValue::Debug(text.clone()),
            AttributeValue::Rendered { text, json } => AttributeValue::Rendered {
                text: text.clone(),
                json: json.clone(),
            },
        }
    }
}

impl Clone for Attribute {
    fn clone(&self) -> (copy: Self)
        ensures
            copy == *self,
    {
        Attribute { name: self.name.clone(), value: self.value.clone() }
    }
}

/// Key-value data recorded for a scope or an event.
#[derive(Debug)]
pub struct Storage {
    values: FieldMap,
    message: Option<String>,
}

impl View for Storage {
    type V = StorageView;

    closed spec fn view(&self) -> StorageView {
        StorageView {
            values: self.values@,
            message: match self.message {
                Some(m) => Some(m@),
                None => None,
            },
        }
    }
}

/// A storage is valid when no key occurs twice in it and none is reserved.
pub open spec fn storage_valid(s: StorageView) -> bool {
    distinct_keys(s.values) && reserved_free(s.values)
}

/// The storage that holds nothing.
pub open spec fn empty_storage() -> StorageView {
    StorageView { values: FieldSeq::empty(), message: None }
}

/// Recording a value: a reserved key is skipped, any other is set.
pub open spec fn with_value(s: StorageView, key: Seq<char>, value: Value) -> StorageView {
    if is_reserved(key) {
        s
    } else {
        StorageView { values: upserted(s.values, key, value), message: s.message }
    }
}

/// Keeping a message of lower rank: it is taken only where none is held.
pub open spec fn with_fallback_message(s: StorageView, text: Seq<char>) -> StorageView {
    if s.message is None {
        StorageView { values: s.values, message: Some(text) }
    } else {
        s
    }
}

/// Recording a value that is no text: under the message key its text form
/// is a fallback message, under any other key its JSON form is recorded.
pub open spec fn with_rendered(
    s: StorageView,
    key: Seq<char>,
    text: Seq<char>,
    json: Value,
) -> StorageView {
    if key == MESSAGE@ {
        with_fallback_message(s, text)
    } else {
        with_value(s, key, json)
    }
}

/// Recording a text: under the message key it becomes the message, and
/// replaces one held before.
pub open spec fn with_str(s: StorageView, key: Seq<char>, value: Seq<char>) -> StorageView {
    if key == MESSAGE@ {
        StorageView { values: s.values, message: Some(value) }
    } else {
        with_value(s, key, json_string(value))
    }
}

/// Recording a debug form: a fallback message under the message key;
/// nothing for a key that begins with `log.`; under a key that begins with
/// `r#`, a value named by the rest of the key; else a value under the key.
pub open spec fn with_debug(s: StorageView, key: Seq<char>, text: Seq<char>) -> StorageView {
    if key == MESSAGE@ {
        with_fallback_message(s, text)
    } else if "log."@.is_prefix_of(key) {
        s
    } else if "r#"@.is_prefix_of(key) {
        with_value(s, key.skip(2), json_string(text))
    } else {
        with_value(s, key, json_string(text))
    }
}

/// Recording one attribute.
pub open spec fn with_attribute(s: StorageView, attribute: Attribute) -> StorageView {
    let key = attribute.name@;
    match attribute.value {
        AttributeValue::Str(v) => with_str(s, key, v@),
        AttributeValue::Bool(b) => with_rendered(s, key, bool_text(b), json_bool(b)),
        AttributeValue::I64(n) => with_rendered(s, key, signed_text(n), json_signed(n)),
        AttributeValue::U64(n) => with_rendered(s, key, unsigned_text(n), json_unsigned(n)),
        AttributeValue::Debug(text) => with_debug(s, key, text@),
        AttributeValue::Rendered { text, json } => with_rendered(s, key, text@, json),
    }
}

/// Recording a list of attributes, first to last.
pub open spec fn with_attributes(s: StorageView, attributes: Seq<Attribute>) -> StorageView
    decreases attributes.len(),
{
    if attributes.len() == 0 {
        s
    } else {
        with_attribute(with_attributes(s, attributes.drop_last()), attributes.last())
    }
}

impl Storage {
    #[verifier::type_invariant]
    spec fn kept_valid(self) -> bool {
        storage_valid(self@)
    }

    /// States what every storage satisfies: no key occurs twice in it and
    /// none is reserved.
    pub fn keys_are_valid(&self)
        ensures
            storage_valid(self@),
    {
        proof {
            use_type_invariant(self);
        }
    }

    /// A storage that holds nothing.
    pub fn new() -> (storage: Self)
        ensures
            storage@ == empty_storage(),
    {
        Storage { values: FieldMap::new(), message: None }
    }

    /// The recorded fields.
    pub fn values(&self) -> (values: &FieldMap)
        ensures
            values@ == self@.values,
    {
        &self.values
    }

    /// The message, if one was recorded.
    pub fn message(&self) -> (message: Option<&str>)
        ensures
            match message {
                Some(m) => self@.message == Some(m@),
                None => self@.message is None,
            },
    {
        match &self.message {
            Some(m) => Some(m.as_str()),
            None => None,
        }
    }

    /// Records `value` under `key`, unless the key is reserved.
    pub fn record_value(&mut self, key: &str, value: Value)
        ensures
            final(self)@ == with_value(old(self)@, key@, value),
    {
        proof {
            use_type_invariant(&*self);
        }
        if !is_reserved_key(key) {
            let mut values = FieldMap::new();
            core::mem::swap(&mut values, &mut self.values);
            proof {
                lemma_upserted_valid(values@, key@, value);
            }
            values.insert(String::from_str(key), value);
            self.values = values;
        }
    }

    /// Records a value that is no text, given in its text form and its JSON form.
    pub fn record_rendered(&mut self, key: &str, text: String, json: Value)
        ensures
            final(self)@ == with_rendered(old(self)@, key@, text@, json),
    {
        proof {
            use_type_invariant(&*self);
        }
        if str_eq(key, MESSAGE) {
            if self.message.is_none() {
                self.message = Some(text);
            }
        } else {
            self.record_value(key, json);
        }
    }

    /// Records a signed number.
    pub fn record_i64(&mut self, key: &str, value: i64)
        ensures
            final(self)@ == with_rendered(old(self)@, key@, signed_text(value), json_signed(value)),
    {
        proof {
            use_type_invariant(&*self);
        }
        if str_eq(key, MESSAGE) {
            if self.message.is_none() {
                self.message = Some(signed_to_string(value));
            }
        } else {
            self.record_value(key, value_from_i64(value));
        }
    }

    /// Records an unsigned number.
    pub fn record_u64(&mut self, key: &str, value: u64)
        ensures
            final(self)@ == with_rendered(
                old(self)@,
                key@,
                unsigned_text(value),
                json_unsigned(value),
            ),
    {
        proof {
            use_type_invariant(&*self);
        }
        if str_eq(key, MESSAGE) {
            if self.message.is_none() {
                self.message = Some(unsigned_to_string(value));
            }
        } else {
            self.record_value(key, value_from_u64(value));
        }
    }

    /// Records a truth value.
    pub fn record_bool(&mut self, key: &str, value: bool)
        ensures
            final(self)@ == with_rendered(old(self)@, key@, bool_text(value), json_bool(value)),
    {
        proof {
            use_type_invariant(&*self);
        }
        if str_eq(key, MESSAGE) {
            if self.message.is_none() {
                self.message = Some(bool_to_string(value));
            }
        } else {
            self.record_value(key, value_from_bool(value));
        }
    }

    /// Records a text. Under the message key it is the preferred message.
    pub fn record_str(&mut self, key: &str, value: &str)
        ensures
            final(self)@ == with_str(old(self)@, key@, value@),
    {
        proof {
            use_type_invariant(&*self);
        }
        if str_eq(key, MESSAGE) {
            self.message = Some(String::from_str(value));
        } else {
            self.record_value(key, value_from_str(value));
        }
    }

    /// Records the debug form of a value.
    pub fn record_debug(&mut self, key: &str, text: &str)
        ensures
            final(self)@ == with_debug(old(self)@, key@, text@),
    {
        proof {
            use_type_invariant(&*self);
        }
        if str_eq(key, MESSAGE) {
            if self.message.is_none() {
                self.message = Some(String::from_str(text));
            }
        } else if has_prefix(key, "log.") {
        } else if has_prefix(key, "r#") {
            proof {
                reveal_strlit("r#");
            }
            self.record_value(skip_chars(key, 2), value_from_str(text));
        } else {
            self.record_value(key, value_from_str(text));
        }
    }

    /// Records one attribute.
    pub fn record(&mut self, attribute: &Attribute)
        ensures
            final(self)@ == with_attribute(old(self)@, *attribute),
    {
        let key = attribute.name.as_str();
        match &attribute.value {
            AttributeValue::Str(v) => self.record_str(key, v.as_str()),
            AttributeValue::Bool(b) => self.record_bool(key, *b),
            AttributeValue::I64(n) => self.record_i64(key, *n),
            AttributeValue::U64(n) => self.record_u64(key, *n),
            AttributeValue::Debug(text) => self.record_debug(key, text.as_str()),
            AttributeValue::Rendered { text, json } => self.record_rendered(
                key,
                text.clone(),
                json.clone(),
            ),
        }
    }

    /// Records a list of attributes, first to last.
    pub fn record_all(&mut self, attributes: &Vec<Attribute>)
        ensures
            final(self)@ == with_attributes(old(self)@, attributes@),
    {
        let n: usize = attributes.len();
        let mut i: usize = 0;
        assert(attributes@.take(0) =~= Seq::<Attribute>::empty());
        while i < n
            invariant
                n == attributes@.len(),
                i <= n,
                self@ == with_attributes(old(self)@, attributes@.take(i as int)),
            decreases n - i,
        {
            assert(attributes@.take(i + 1).drop_last() =~= attributes@.take(i as int));
            self.record(&attributes[i]);
            i += 1;
        }
        assert(attributes@.take(n as int) =~= attributes@);
    }
}

/// What is known of one scope.
pub struct ScopeView {
    pub name: Seq<char>,
    pub parent: Option<u64>,
    pub started: Option<Instant>,
    pub storage: StorageView,
}

/// The state of one live scope: its name, its parent, the instant at which
/// it first became active, and what was recorded for it.
#[derive(Debug)]
pub struct ScopeState {
    name: String,
    parent: Option<u64>,
    started: Option<Instant>,
    storage: Storage,
}

impl View for ScopeState {
    type V = ScopeView;

    closed spec fn view(&self) -> ScopeView {
        ScopeView {
            name: self.name@,
            parent: self.parent,
            started: self.started,
            storage: self.storage@,
        }
    }
}

impl ScopeState {
    /// The name of the scope.
    pub fn name(&self) -> (name: &str)
        ensures
            name@ == self@.name,
    {
        self.name.as_str()
    }

    /// The parent of the scope, if it has one.
    pub fn parent(&self) -> (parent: Option<u64>)
        ensures
            parent == self@.parent,
    {
        self.parent
    }

    /// Whether the scope has been entered.
    pub fn is_started(&self) -> (started: bool)
        ensures
            started == self@.started is Some,
    {
        self.started.is_some()
    }

    /// What was recorded for the scope.
    pub fn storage(&self) -> (storage: &Storage)
        ensures
            storage@ == self@.storage,
    {
        &self.storage
    }
}

impl Clone for Storage {
    fn clone(&self) -> (copy: Self)
        ensures
            copy@ == self@,
    {
        proof {
            use_type_invariant(self);
        }
        Storage {
            values: self.values.clone(),
            message: match &self.message {
                Some(m) => Some(m.clone()),
                None => None,
            },
        }
    }
}

/// What the store holds: the keys that propagate, and each live scope.
pub struct StoreView {
    pub persistent: Set<Seq<char>>,
    pub scopes: Map<u64, ScopeView>,
}

/// A store is valid when the storage of every live scope is.
pub open spec fn store_valid(store: StoreView) -> bool {
    forall|id: u64|
        #[trigger] store.scopes.contains_key(id) ==> storage_valid(store.scopes[id].storage)
}

/// The storage that a new scope starts from: a copy of its parent's, or
/// an empty one where it has no parent or the parent is not live.
pub open spec fn inherited_storage(store: StoreView, parent: Option<u64>) -> StorageView {
    match parent {
        Some(p) => if store.scopes.contains_key(p) {
            store.scopes[p].storage
        } else {
            empty_storage()
        },
        None => empty_storage(),
    }
}

/// The store after a scope was created.
pub open spec fn created(
    store: StoreView,
    id: u64,
    parent: Option<u64>,
    name: Seq<char>,
    attributes: Seq<Attribute>,
) -> StoreView {
    StoreView {
        persistent: store.persistent,
        scopes: store.scopes.insert(
            id,
            ScopeView {
                name,
                parent,
                started: None,
                storage: with_attributes(inherited_storage(store, parent), attributes),
            },
        ),
    }
}

/// The store after attributes were recorded for a scope.
pub open spec fn recorded(store: StoreView, id: u64, attributes: Seq<Attribute>) -> StoreView {
    let scope = store.scopes[id];
    StoreView {
        persistent: store.persistent,
        scopes: store.scopes.insert(
            id,
            ScopeView {
                name: scope.name,
                parent: scope.parent,
                started: scope.started,
                storage: with_attributes(scope.storage, attributes),
            },
        ),
    }
}

/// The store after a scope was entered at the instant `now`: the first
/// entry sets the start, a later one changes nothing.
pub open spec fn entered(store: StoreView, id: u64, now: Instant) -> StoreView {
    let scope = store.scopes[id];
    if scope.started is Some {
        store
    } else {
        StoreView {
            persistent: store.persistent,
            scopes: store.scopes.insert(
                id,
                ScopeView {
                    name: scope.name,
                    parent: scope.parent,
                    started: Some(now),
                    storage: scope.storage,
                },
            ),
        }
    }
}

/// The parent's storage after the closing child handed up its fields:
/// each field of the child with a persistent key is recorded, in order.
pub open spec fn propagated(
    parent: StorageView,
    child: FieldSeq,
    persistent: Set<Seq<char>>,
) -> StorageView
    decreases child.len(),
{
    if child.len() == 0 {
        parent
    } else {
        let before = propagated(parent, child.drop_last(), persistent);
        if persistent.contains(child.last().0) {
            with_value(before, child.last().0, child.last().1)
        } else {
            before
        }
    }
}

/// A storage after the duration of its scope was recorded, in
/// milliseconds. A duration that no JSON number of 64 bits holds is not
/// recorded.
pub open spec fn with_elapsed(s: StorageView, elapsed: u128) -> StorageView {
    if elapsed <= u64::MAX {
        with_value(s, ELAPSED_MILLISECONDS@, json_unsigned(elapsed as u64))
    } else {
        s
    }
}

/// Whether closing the scope `id` changes the storage of a parent: it has
/// one, and the parent is another scope that is live.
pub open spec fn has_live_parent(store: StoreView, id: u64) -> bool {
    match store.scopes[id].parent {
        Some(p) => p != id && store.scopes.contains_key(p),
        None => false,
    }
}

/// The store after the scope `id` was closed `elapsed` milliseconds after
/// its start: its persistent fields are handed to the parent, then the
/// duration is recorded in the scope's own storage.
pub open spec fn closed(store: StoreView, id: u64, elapsed: u128) -> StoreView {
    let scope = store.scopes[id];
    let own = ScopeView {
        name: scope.name,
        parent: scope.parent,
        started: scope.started,
        storage: with_elapsed(scope.storage, elapsed),
    };
    let scopes = if has_live_parent(store, id) {
        let p = scope.parent->0;
        let parent = store.scopes[p];
        store.scopes.insert(
            p,
            ScopeView {
                name: parent.name,
                parent: parent.parent,
                started: parent.started,
                storage: propagated(parent.storage, scope.storage.values, store.persistent),
            },
        )
    } else {
        store.scopes
    };
    StoreView { persistent: store.persistent, scopes: scopes.insert(id, own) }
}

/// The store after the scope `id` was discarded.
pub open spec fn discarded(store: StoreView, id: u64) -> StoreView {
    StoreView { persistent: store.persistent, scopes: store.scopes.remove(id) }
}

/// The views of the scopes of a map.
pub open spec fn scope_views(scopes: Map<u64, ScopeState>) -> Map<u64, ScopeView> {
    scopes.map_values(|s: ScopeState| s@)
}

/// Keeps, for every live scope, what was recorded for it, hands
/// persistent keys to the parent when a scope closes, and measures how
/// long a scope lived.
#[derive(Debug)]
pub struct SpanStorageLayer {
    persistent_keys: KeySet,
    scopes: HashMap<u64, ScopeState>,
}

impl View for SpanStorageLayer {
    type V = StoreView;

    closed spec fn view(&self) -> StoreView {
        StoreView {
            persistent: self.persistent_keys@,
            scopes: scope_views(self.scopes@),
        }
    }
}

impl SpanStorageLayer {
    #[verifier::type_invariant]
    spec fn kept_valid(self) -> bool {
        store_valid(self@)
    }

    /// States what every store satisfies: the storage of every live scope
    /// is valid.
    pub fn scopes_are_valid(&self)
        ensures
            store_valid(self@),
    {
        proof {
            use_type_invariant(self);
        }
    }

    /// A store without scopes, in which the given keys are persistent.
    pub fn new(persistent_keys: Vec<&'static str>) -> (store: Self)
        ensures
            store@.scopes == Map::<u64, ScopeView>::empty(),
            forall|k: Seq<char>|
                store@.persistent.contains(k) <==> exists|i: int|
                    0 <= i < persistent_keys@.len() && (#[trigger] persistent_keys@[i])@ == k,
    {
        broadcast use vstd::std_specs::hash::group_hash_axioms;

        let mut keys: Vec<String> = Vec::new();
        let n: usize = persistent_keys.len();
        let mut i: usize = 0;
        while i < n
            invariant
                n == persistent_keys@.len(),
                i <= n,
                keys@.len() == i,
                forall|j: int| 0 <= j < i ==> (#[trigger] keys@[j])@ == persistent_keys@[j]@,
            decreases n - i,
        {
            keys.push(String::from_str(persistent_keys[i]));
            i += 1;
        }
        let persistent = KeySet::new(keys);
        assert forall|k: Seq<char>| persistent@.contains(k) <==> exists|i: int|
            0 <= i < persistent_keys@.len() && (#[trigger] persistent_keys@[i])@ == k by {
            if persistent@.contains(k) {
                let i = choose|i: int| 0 <= i < keys@.len() && (#[trigger] keys@[i])@ == k;
                assert(persistent_keys@[i]@ == k);
            }
            if exists|i: int|
                0 <= i < persistent_keys@.len() && (#[trigger] persistent_keys@[i])@ == k {
                let i = choose|i: int|
                    0 <= i < persistent_keys@.len() && (#[trigger] persistent_keys@[i])@ == k;
                assert(keys@[i]@ == k);
            }
        }
        let store = SpanStorageLayer { persistent_keys: persistent, scopes: HashMap::new() };
        assert(store@.scopes =~= Map::<u64, ScopeView>::empty());
        store
    }

    /// Whether `key` is persistent.
    pub fn is_persistent(&self, key: &str) -> (persistent: bool)
        ensures
            persistent == self@.persistent.contains(key@),
    {
        self.persistent_keys.contains(key)
    }

    /// Whether the scope `id` is live.
    pub fn contains(&self, id: u64) -> (live: bool)
        ensures
            live == self@.scopes.contains_key(id),
    {
        broadcast use vstd::std_specs::hash::group_hash_axioms;

        self.scopes.contains_key(&id)
    }

    /// The state of the live scope `id`.
    pub fn scope(&self, id: u64) -> (scope: &ScopeState)
        requires
            self@.scopes.contains_key(id),
        ensures
            scope@ == self@.scopes[id],
    {
        broadcast use vstd::std_specs::hash::group_hash_axioms;

        match self.scopes.get(&id) {
            Some(scope) => scope,
            None => {
                proof {
                    assert(false);
                }
                unreached()
            },
        }
    }

    /// Takes note of a new scope: it starts from a copy of what its
    /// parent holds at this moment, into which its own attributes are
    /// recorded.
    pub fn on_new_span(
        &mut self,
        id: u64,
        parent: Option<u64>,
        name: &str,
        attributes: &Vec<Attribute>,
    )
        requires
            !old(self)@.scopes.contains_key(id),
        ensures
            final(self)@ == created(old(self)@, id, parent, name@, attributes@),
    {
        broadcast use vstd::std_specs::hash::group_hash_axioms;

        proof {
            use_type_invariant(&*self);
        }
        let ghost before = self@;
        let mut storage = match parent {
            Some(p) => match self.scopes.get(&p) {
                Some(scope) => scope.storage.clone(),
                None => Storage::new(),
            },
            None => Storage::new(),
        };
        storage.record_all(attributes);
        proof {
            use_type_invariant(&storage);
        }
        let scope = ScopeState { name: String::from_str(name), parent, started: None, storage };
        let mut scopes: HashMap<u64, ScopeState> = HashMap::new();
        core::mem::swap(&mut scopes, &mut self.scopes);
        scopes.insert(id, scope);
        assert forall|other: u64| #[trigger]
            scope_views(scopes@).contains_key(other) implies storage_valid(
            scope_views(scopes@)[other].storage,
        ) by {
            if before.scopes.contains_key(other) {
                assert(storage_valid(before.scopes[other].storage));
            }
        }
        self.scopes = scopes;
        assert(self@.scopes =~= created(old(self)@, id, parent, name@, attributes@).scopes);
    }

    /// Records attributes for a live scope.
    pub fn on_record(&mut self, id: u64, attributes: &Vec<Attribute>)
        requires
            old(self)@.scopes.contains_key(id),
        ensures
            final(self)@ == recorded(old(self)@, id, attributes@),
    {
        broadcast use vstd::std_specs::hash::group_hash_axioms;

        proof {
            use_type_invariant(&*self);
        }
        let ghost before = self@;
        let mut scopes: HashMap<u64, ScopeState> = HashMap::new();
        core::mem::swap(&mut scopes, &mut self.scopes);
        match scopes.remove(&id) {
            Some(scope) => {
                let mut scope = scope;
                scope.storage.record_all(attributes);
                proof {
                    use_type_invariant(&scope.storage);
                }
                scopes.insert(id, scope);
            },
            None => {},
        }
        assert forall|other: u64| #[trigger]
            scope_views(scopes@).contains_key(other) implies storage_valid(
            scope_views(scopes@)[other].storage,
        ) by {
            if before.scopes.contains_key(other) {
                assert(storage_valid(before.scopes[other].storage));
            }
        }
        self.scopes = scopes;
        assert(self@.scopes =~= recorded(old(self)@, id, attributes@).scopes);
    }

    /// Takes note that a live scope became active at the instant `now`.
    /// Only the first activation sets the start.
    pub fn enter_at(&mut self, id: u64, now: Instant)
        requires
            old(self)@.scopes.contains_key(id),
        ensures
            final(self)@ == entered(old(self)@, id, now),
    {
        broadcast use vstd::std_specs::hash::group_hash_axioms;

        proof {
            use_type_invariant(&*self);
        }
        let ghost before = self@;
        let mut scopes: HashMap<u64, ScopeState> = HashMap::new();
        core::mem::swap(&mut scopes, &mut self.scopes);
        match scopes.remove(&id) {
            Some(scope) => {
                let mut scope = scope;
                if scope.started.is_none() {
                    scope.started = Some(now);
                }
                scopes.insert(id, scope);
            },
            None => {},
        }
        assert forall|other: u64| #[trigger]
            scope_views(scopes@).contains_key(other) implies storage_valid(
            scope_views(scopes@)[other].storage,
        ) by {
            if before.scopes.contains_key(other) {
                assert(storage_valid(before.scopes[other].storage));
            }
        }
        self.scopes = scopes;
        assert(self@.scopes =~= entered(old(self)@, id, now).scopes);
    }

    /// Takes note that a live scope became active now.
    pub fn on_enter(&mut self, id: u64)
        requires
            old(self)@.scopes.contains_key(id),
        ensures
            exists|now: Instant| final(self)@ == #[trigger] entered(old(self)@, id, now),
    {
        let now = instant_now();
        self.enter_at(id, now);
    }

    /// Hands the persistent fields of `child` to `parent`, in order.
    fn propagate(&self, child: &FieldMap, parent: &mut Storage)
        ensures
            final(parent)@ == propagated(old(parent)@, child@, self@.persistent),
    {
        let n: usize = child.len();
        let mut i: usize = 0;
        assert(child@.take(0) =~= FieldSeq::empty());
        while i < n
            invariant
                n == child@.len(),
                i <= n,
                parent@ == propagated(old(parent)@, child@.take(i as int), self@.persistent),
            decreases n - i,
        {
            let field = child.entry(i);
            assert(child@.take(i + 1).drop_last() =~= child@.take(i as int));
            if self.persistent_keys.contains(field.key.as_str()) {
                parent.record_value(field.key.as_str(), field.value.clone());
            }
            i += 1;
        }
        assert(child@.take(n as int) =~= child@);
    }

    /// Closes a live scope that lived for `elapsed` milliseconds: its
    /// persistent fields go to its parent, if that is live, and the
    /// duration is recorded in its own storage.
    pub fn close_with_elapsed(&mut self, id: u64, elapsed: u128)
        requires
            old(self)@.scopes.contains_key(id),
        ensures
            final(self)@ == closed(old(self)@, id, elapsed),
    {
        broadcast use vstd::std_specs::hash::group_hash_axioms;

        proof {
            use_type_invariant(&*self);
        }
        let ghost before = self@;
        let mut scopes: HashMap<u64, ScopeState> = HashMap::new();
        core::mem::swap(&mut scopes, &mut self.scopes);
        match scopes.remove(&id) {
            Some(scope) => {
                let mut scope = scope;
                match scope.parent {
                    Some(p) => match scopes.remove(&p) {
                        Some(parent) => {
                            let mut parent = parent;
                            self.propagate(scope.storage.values(), &mut parent.storage);
                            proof {
                                use_type_invariant(&parent.storage);
                            }
                            scopes.insert(p, parent);
                        },
                        None => {},
                    },
                    None => {},
                }
                match value_from_u128(elapsed) {
                    Ok(value) => scope.storage.record_value(ELAPSED_MILLISECONDS, value),
                    Err(_) => {},
                }
                proof {
                    use_type_invariant(&scope.storage);
                }
                scopes.insert(id, scope);
            },
            None => {},
        }
        assert forall|other: u64| #[trigger]
            scope_views(scopes@).contains_key(other) implies storage_valid(
            scope_views(scopes@)[other].storage,
        ) by {
            if before.scopes.contains_key(other) {
                assert(storage_valid(before.scopes[other].storage));
            }
        }
        self.scopes = scopes;
        assert(self@.scopes =~= closed(old(self)@, id, elapsed).scopes);
    }

    /// The milliseconds since a live scope was first entered, or zero for
    /// one that never was.
    pub fn elapsed_millis(&self, id: u64) -> (elapsed: u128)
        requires
            self@.scopes.contains_key(id),
        ensures
            self@.scopes[id].started is None ==> elapsed == 0,
    {
        match &self.scope(id).started {
            Some(start) => {
                let duration = instant_elapsed(start);
                duration_millis(&duration)
            },
            None => 0,
        }
    }

    /// Closes a live scope now.
    pub fn on_close(&mut self, id: u64)
        requires
            old(self)@.scopes.contains_key(id),
        ensures
            exists|elapsed: u128|
                {
                    &&& final(self)@ == #[trigger] closed(old(self)@, id, elapsed)
                    &&& old(self)@.scopes[id].started is None ==> elapsed == 0
                },
    {
        let elapsed = self.elapsed_millis(id);
        self.close_with_elapsed(id, elapsed);
    }

    /// Forgets a scope.
    pub fn discard(&mut self, id: u64)
        ensures
            final(self)@ == discarded(old(self)@, id),
    {
        broadcast use vstd::std_specs::hash::group_hash_axioms;

        proof {
            use_type_invariant(&*self);
        }
        let ghost before = self@;
        let mut scopes: HashMap<u64, ScopeState> = HashMap::new();
        core::mem::swap(&mut scopes, &mut self.scopes);
        scopes.remove(&id);
        assert forall|other: u64| #[trigger]
            scope_views(scopes@).contains_key(other) implies storage_valid(
            scope_views(scopes@)[other].storage,
        ) by {
            if before.scopes.contains_key(other) {
                assert(storage_valid(before.scopes[other].storage));
            }
        }
        self.scopes = scopes;
        assert(self@.scopes =~= discarded(old(self)@, id).scopes);
    }
}

} // verus!
