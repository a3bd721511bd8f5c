//! Named JSON values, ordered collections of them without repeated keys,
//! and sets of keys.

use vstd::prelude::*;
use serde_json::Value;
use crate::keys::is_reserved;
use crate::text::str_eq;

verus! {

/// One named value.
#[derive(Debug)]
pub struct Field {
    /// The name.
    pub key: String,
    /// The value.
    pub value: Value,
}

/// What a list of fields holds: each key with its value, in order.
pub type FieldSeq = Seq<(Seq<char>, Value)>;

impl View for Field {
    type V = (Seq<char>, Value);

    open spec fn view(&self) -> (Seq<char>, Value) {
        (self.key@, self.value)
    }
}

impl Field {
    /// The field that gives `key` the value `value`.
    pub fn new(key: &str, value: Value) -> (field: Self)
        ensures
            field@ == (key@, value),
    {
        Field { key: String::from_str(key), value }
    }
}

impl Clone for Field {
    fn clone(&self) -> (copy: Self)
        ensures
            copy@ == self@,
    {
        Field { key: self.key.clone(), value: self.value.clone() }
    }
}

/// The keys and values of a list of fields, in order.
pub open spec fn fields_view(fields: Seq<Field>) -> FieldSeq {
    fields.map_values(|f: Field| f@)
}

/// Whether some field of the list is named `key`.
pub open spec fn has_key(fields: FieldSeq, key: Seq<char>) -> bool {
    exists|i: int| 0 <= i < fields.len() && (#[trigger] fields[i]).0 == key
}

/// The place of a field named `key`, where the list holds one.
pub open spec fn position(fields: FieldSeq, key: Seq<char>) -> int {
    choose|i: int| 0 <= i < fields.len() && (#[trigger] fields[i]).0 == key
}

/// No two fields of the list share a key.
pub open spec fn distinct_keys(fields: FieldSeq) -> bool {
    forall|i: int, j: int|
        0 <= i < j < fields.len() ==> (#[trigger] fields[i]).0 != (#[trigger] fields[j]).0
}

/// No field of the list has a reserved key.
pub open spec fn reserved_free(fields: FieldSeq) -> bool {
    forall|i: int| 0 <= i < fields.len() ==> !is_reserved((#[trigger] fields[i]).0)
}

/// The list after `key` is set to `value`: a field of that name keeps its
/// place and takes the new value, a new name goes to the end.
pub open spec fn upserted(fields: FieldSeq, key: Seq<char>, value: Value) -> FieldSeq {
    if has_key(fields, key) {
        fields.update(position(fields, key), (key, value))
    } else {
        fields.push((key, value))
    }
}

/// The list read as a map from key to value.
pub open spec fn as_map(fields: FieldSeq) -> Map<Seq<char>, Value> {
    Map::new(|k: Seq<char>| has_key(fields, k), |k: Seq<char>| fields[position(fields, k)].1)
}

/// In a list without repeated keys, a key is found only at its one place.
pub proof fn lemma_position_unique(fields: FieldSeq, i: int)
    requires
        distinct_keys(fields),
        0 <= i < fields.len(),
    ensures
        has_key(fields, fields[i].0),
        position(fields, fields[i].0) == i,
{
    let k = fields[i].0;
    let p = position(fields, k);
    assert(0 <= p < fields.len() && fields[p].0 == k);
    if p < i {
        assert(fields[p].0 != fields[i].0);
    } else if i < p {
        assert(fields[i].0 != fields[p].0);
    }
}

/// Setting a key keeps the keys distinct.
pub proof fn lemma_upserted_distinct(fields: FieldSeq, key: Seq<char>, value: Value)
    requires
        distinct_keys(fields),
    ensures
        distinct_keys(upserted(fields, key, value)),
{
    let after = upserted(fields, key, value);
    if has_key(fields, key) {
        let p = position(fields, key);
        assert(0 <= p < fields.len() && fields[p].0 == key);
        assert forall|i: int, j: int| 0 <= i < j < after.len() implies (#[trigger] after[i]).0 != (
        #[trigger] after[j]).0 by {
            assert(after[i].0 == fields[i].0);
            assert(after[j].0 == fields[j].0);
        }
    } else {
        assert forall|i: int, j: int| 0 <= i < j < after.len() implies (#[trigger] after[i]).0 != (
        #[trigger] after[j]).0 by {
            if j == fields.len() {
                assert(after[i] == fields[i]);
            } else {
                assert(after[i] == fields[i]);
                assert(after[j] == fields[j]);
            }
        }
    }
}

/// Read as a map, setting a key is the map's `insert`.
pub proof fn lemma_upserted_as_map(fields: FieldSeq, key: Seq<char>, value: Value)
    requires
        distinct_keys(fields),
    ensures
        as_map(upserted(fields, key, value)) == as_map(fields).insert(key, value),
{
    let after = upserted(fields, key, value);
    lemma_upserted_distinct(fields, key, value);
    let p = if has_key(fields, key) {
        position(fields, key)
    } else {
        fields.len() as int
    };
    assert(0 <= p < after.len() && after[p] == (key, value));
    assert forall|k: Seq<char>| has_key(after, k) <==> (k == key || has_key(fields, k)) by {
        if has_key(after, k) {
            let i = position(after, k);
            if i != p {
                assert(fields[i].0 == k);
            }
        }
        if has_key(fields, k) && k != key {
            let i = position(fields, k);
            assert(after[i].0 == k);
        }
    }
    assert forall|k: Seq<char>| has_key(after, k) implies #[trigger] as_map(after)[k] == as_map(
        fields,
    ).insert(key, value)[k] by {
        let i = position(after, k);
        lemma_position_unique(after, i);
        if k == key {
            lemma_position_unique(after, p);
        } else {
            assert(fields[i] == after[i]);
            lemma_position_unique(fields, i);
        }
    }
    assert(as_map(after) =~= as_map(fields).insert(key, value));
}

/// An ordered collection of fields in which no key occurs twice.
#[derive(Debug)]
pub struct FieldMap {
    entries: Vec<Field>,
}

impl View for FieldMap {
    type V = FieldSeq;

    closed spec fn view(&self) -> FieldSeq {
        fields_view(self.entries@)
    }
}

impl FieldMap {
    #[verifier::type_invariant]
    spec fn keys_kept_distinct(self) -> bool {
        distinct_keys(fields_view(self.entries@))
    }

    /// A collection without fields.
    pub fn new() -> (map: Self)
        ensures
            map@ == FieldSeq::empty(),
    {
        let map = FieldMap { entries: Vec::new() };
        assert(map@ =~= FieldSeq::empty());
        map
    }

    /// States what every collection satisfies: its keys are distinct.
    pub fn keys_are_distinct(&self)
        ensures
            distinct_keys(self@),
    {
        proof {
            use_type_invariant(self);
        }
    }

    /// The number of fields.
    pub fn len(&self) -> (n: usize)
        ensures
            n == self@.len(),
    {
        self.entries.len()
    }

    /// Whether the collection holds no field.
    pub fn is_empty(&self) -> (empty: bool)
        ensures
            empty == (self@.len() == 0),
    {
        self.entries.len() == 0
    }

    /// The field at place `i`.
    pub fn entry(&self, i: usize) -> (field: &Field)
        requires
            i < self@.len(),
        ensures
            field@ == self@[i as int],
    {
        &self.entries[i]
    }

    /// The place of the field named `key`, if there is one.
    pub fn find(&self, key: &str) -> (found: Option<usize>)
        ensures
            match found {
                Some(i) => i < self@.len() && self@[i as int].0 == key@ && position(self@, key@)
                    == i,
                None => !has_key(self@, key@),
            },
    {
        proof {
            use_type_invariant(self);
        }
        let n: usize = self.entries.len();
        let mut i: usize = 0;
        while i < n
            invariant
                n == self.entries@.len(),
                i <= n,
                distinct_keys(self@),
                forall|j: int| 0 <= j < i ==> (#[trigger] self@[j]).0 != key@,
            decreases n - i,
        {
            if str_eq(self.entries[i].key.as_str(), key) {
                proof {
                    lemma_position_unique(self@, i as int);
                }
                return Some(i);
            }
            i += 1;
        }
        None
    }

    /// Whether a field is named `key`.
    pub fn contains_key(&self, key: &str) -> (found: bool)
        ensures
            found == has_key(self@, key@),
    {
        self.find(key).is_some()
    }

    /// The value of the field named `key`, if there is one.
    pub fn get(&self, key: &str) -> (value: Option<&Value>)
        ensures
            match value {
                Some(v) => has_key(self@, key@) && *v == as_map(self@)[key@],
                None => !has_key(self@, key@),
            },
    {
        match self.find(key) {
            Some(i) => Some(&self.entries[i].value),
            None => None,
        }
    }

    /// Sets `key` to `value`. A field of that name keeps its place and takes
    /// the new value; a new name is added at the end.
    pub fn insert(&mut self, key: String, value: Value)
        ensures
            final(self)@ == upserted(old(self)@, key@, value),
    {
        proof {
            use_type_invariant(&*self);
            lemma_upserted_distinct(self@, key@, value);
        }
        let ghost before = self@;
        let found = self.find(key.as_str());
        let mut entries: Vec<Field> = Vec::new();
        core::mem::swap(&mut entries, &mut self.entries);
        match found {
            Some(i) => {
                entries.set(i, Field { key, value });
                assert(fields_view(entries@) =~= before.update(i as int, (key@, value)));
            },
            None => {
                entries.push(Field { key, value });
                assert(fields_view(entries@) =~= before.push((key@, value)));
            },
        }
        self.entries = entries;
    }
}

impl Clone for FieldMap {
    fn clone(&self) -> (copy: Self)
        ensures
            copy@ == self@,
    {
        proof {
            use_type_invariant(self);
        }
        let mut entries: Vec<Field> = Vec::new();
        let n: usize = self.entries.len();
        let mut i: usize = 0;
        while i < n
            invariant
                n == self.entries@.len(),
                i <= n,
                entries@.len() == i,
                forall|j: int| 0 <= j < i ==> (#[trigger] entries@[j])@ == self.entries@[j]@,
            decreases n - i,
        {
            entries.push(self.entries[i].clone());
            i += 1;
        }
        assert(fields_view(entries@) =~= fields_view(self.entries@));
        FieldMap { entries }
    }
}

/// A set of keys.
#[derive(Debug)]
pub struct KeySet {
    keys: Vec<String>,
}

impl View for KeySet {
    type V = Set<Seq<char>>;

    closed spec fn view(&self) -> Set<Seq<char>> {
        Set::new(
            |k: Seq<char>|
                exists|i: int| 0 <= i < self.keys@.len() && (#[trigger] self.keys@[i])@ == k,
        )
    }
}

impl KeySet {
    /// The set of the given keys.
    pub fn new(keys: Vec<String>) -> (set: Self)
        ensures
            forall|k: Seq<char>|
                set@.contains(k) <==> exists|i: int|
                    0 <= i < keys@.len() && (#[trigger] keys@[i])@ == k,
    {
        KeySet { keys }
    }

    /// Whether `key` is in the set.
    pub fn contains(&self, key: &str) -> (found: bool)
        ensures
            found == self@.contains(key@),
    {
        let n: usize = self.keys.len();
        let mut i: usize = 0;
        while i < n
            invariant
                n == self.keys@.len(),
                i <= n,
                forall|j: int| 0 <= j < i ==> (#[trigger] self.keys@[j])@ != key@,
            decreases n - i,
        {
            if str_eq(self.keys[i].as_str(), key) {
                return true;
            }
            i += 1;
        }
        false
    }
}

impl Clone for KeySet {
    fn clone(&self) -> (copy: Self)
        ensures
            copy@ == self@,
    {
        let mut keys: Vec<String> = Vec::new();
        let n: usize = self.keys.len();
        let mut i: usize = 0;
        while i < n
            invariant
                n == self.keys@.len(),
                i <= n,
                keys@.len() == i,
                forall|j: int| 0 <= j < i ==> #[trigger] keys@[j] == self.keys@[j],
            decreases n - i,
        {
            keys.push(self.keys[i].clone());
            i += 1;
        }
        assert(keys@ =~= self.keys@);
        KeySet { keys }
    }
}

} // verus!
