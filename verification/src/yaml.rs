//! The YAML document tree that the generator builds, and the calls into
//! `serde_yaml` that build and read it.
//!
//! `serde_yaml::Value` and `serde_yaml::Mapping` are opaque to the verifier.
//! Contracts speak of them through [`yaml_of`] and [`entries_of`], which give
//! a value as a mathematical tree.

use serde_yaml::{Mapping, Value};
use vstd::prelude::*;

verus! {

/// `serde_yaml::Value`, any YAML value.
#[verifier::external_type_specification]
#[verifier::external_body]
pub struct ExValue(serde_yaml::Value);

/// `serde_yaml::Mapping`, a YAML mapping that keeps the order in which its
/// keys were first inserted.
#[verifier::external_type_specification]
#[verifier::external_body]
pub struct ExMapping(serde_yaml::Mapping);

/// A YAML value as a tree.
///
/// The tree has what the documents of this library are made of: booleans,
/// non-negative integers, strings, lists, and mappings with string keys,
/// which are sequences of entries in document order. Every other value (a
/// float, a negative integer, a tagged value) is `Other`.
pub enum Yaml {
    Null,
    Bool(bool),
    Number(u64),
    Str(Seq<char>),
    List(Seq<Yaml>),
    Dict(Seq<(Seq<char>, Yaml)>),
    Other,
}

/// The tree that a `serde_yaml::Value` holds.
pub uninterp spec fn yaml_of(v: Value) -> Yaml;

/// The entries that a `serde_yaml::Mapping` holds under string keys, in the
/// mapping's order. A mapping has no two entries with the same key.
pub uninterp spec fn entries_of(m: Mapping) -> Seq<(Seq<char>, Yaml)>;

/// The trees of a sequence of values.
pub open spec fn yamls_of(items: Seq<Value>) -> Seq<Yaml> {
    items.map_values(|v: Value| yaml_of(v))
}

/// Whether some entry has the given key.
pub open spec fn has_key(entries: Seq<(Seq<char>, Yaml)>, key: Seq<char>) -> bool {
    exists|i: int| 0 <= i < entries.len() && (#[trigger] entries[i]).0 == key
}

/// No entry of an empty sequence has a key.
pub broadcast proof fn lemma_has_key_empty(key: Seq<char>)
    ensures
        !(#[trigger] has_key(Seq::empty(), key)),
{
}

/// The keys of a sequence with one more entry are those of the sequence and
/// the key of that entry.
pub broadcast proof fn lemma_has_key_push(
    entries: Seq<(Seq<char>, Yaml)>,
    entry: (Seq<char>, Yaml),
    key: Seq<char>,
)
    ensures
        #[trigger] has_key(entries.push(entry), key) == (entry.0 == key || has_key(entries, key)),
{
    let longer = entries.push(entry);
    if entry.0 == key {
        assert(longer[entries.len() as int].0 == key);
    }
    if has_key(entries, key) {
        let i = choose|i: int| 0 <= i < entries.len() && (#[trigger] entries[i]).0 == key;
        assert(longer[i].0 == key);
    }
    if has_key(longer, key) {
        let i = choose|i: int| 0 <= i < longer.len() && (#[trigger] longer[i]).0 == key;
        if i < entries.len() {
            assert(entries[i].0 == key);
        }
    }
}

/// The trees of no values.
pub broadcast proof fn lemma_yamls_of_empty()
    ensures
        #[trigger] yamls_of(Seq::empty()) == Seq::<Yaml>::empty(),
{
    assert(yamls_of(Seq::empty()) =~= Seq::<Yaml>::empty());
}

/// The trees of a sequence with one more value.
pub broadcast proof fn lemma_yamls_of_push(items: Seq<Value>, v: Value)
    ensures
        #[trigger] yamls_of(items.push(v)) == yamls_of(items).push(yaml_of(v)),
{
    assert(yamls_of(items.push(v)) =~= yamls_of(items).push(yaml_of(v)));
}

/// What holds of keys and of trees along a sequence that grows at its end.
pub broadcast group group_yaml {
    lemma_has_key_empty,
    lemma_has_key_push,
    lemma_yamls_of_empty,
    lemma_yamls_of_push,
}

/// The value of the first entry with the given key.
pub open spec fn lookup(entries: Seq<(Seq<char>, Yaml)>, key: Seq<char>) -> Option<Yaml>
    decreases entries.len(),
{
    if entries.len() == 0 {
        None
    } else if entries[0].0 == key {
        Some(entries[0].1)
    } else {
        lookup(entries.drop_first(), key)
    }
}

/// Nothing is found among no entries.
pub broadcast proof fn lemma_lookup_empty(key: Seq<char>)
    ensures
        #[trigger] lookup(Seq::empty(), key) is None,
{
}

/// What is found among entries with one more at the end: what is found
/// among the entries, else the value of the new entry if it has the key.
pub broadcast proof fn lemma_lookup_push(
    entries: Seq<(Seq<char>, Yaml)>,
    entry: (Seq<char>, Yaml),
    key: Seq<char>,
)
    ensures
        #[trigger] lookup(entries.push(entry), key) == match lookup(entries, key) {
            Some(v) => Some(v),
            None => if entry.0 == key {
                Some(entry.1)
            } else {
                None
            },
        },
    decreases entries.len(),
{
    let longer = entries.push(entry);
    if entries.len() == 0 {
        assert(longer.drop_first().len() == 0);
        reveal_with_fuel(lookup, 2);
    } else {
        assert(longer[0] == entries[0]);
        if entries[0].0 != key {
            lemma_lookup_push(entries.drop_first(), entry, key);
            assert(longer.drop_first() =~= entries.drop_first().push(entry));
        }
    }
}

/// What `lookup` finds along a sequence that grows at its end.
pub broadcast group group_lookup {
    lemma_lookup_empty,
    lemma_lookup_push,
}

/// `Value::String`: a YAML string with the given text.
#[verifier::external_body]
pub(crate) fn s(x: &str) -> (v: Value)
    ensures
        yaml_of(v) == Yaml::Str(x@),
{
    Value::String(x.to_string())
}

/// `Value::Number` over `Number::from(u64)`: a YAML number that is the given
/// non-negative integer.
#[verifier::external_body]
pub(crate) fn n(x: u64) -> (v: Value)
    ensures
        yaml_of(v) == Yaml::Number(x),
{
    Value::Number(serde_yaml::Number::from(x))
}

/// `Value::Bool`: a YAML boolean.
#[verifier::external_body]
pub(crate) fn b(x: bool) -> (v: Value)
    ensures
        yaml_of(v) == Yaml::Bool(x),
{
    Value::Bool(x)
}

/// `Value::Sequence`: a YAML sequence of the given items, in their order.
#[verifier::external_body]
pub(crate) fn sequence(items: Vec<Value>) -> (v: Value)
    ensures
        yaml_of(v) == Yaml::List(yamls_of(items@)),
{
    Value::Sequence(items)
}

/// `Value::Mapping`: a YAML mapping with the entries of `m`.
#[verifier::external_body]
pub(crate) fn mapping(m: Mapping) -> (v: Value)
    ensures
        yaml_of(v) == Yaml::Dict(entries_of(m)),
{
    Value::Mapping(m)
}

/// A match on `Value::Mapping`: the mapping inside the value, if the value
/// is of that variant. A value of any other variant is no `Dict`.
#[verifier::external_body]
pub(crate) fn as_mapping(v: &Value) -> (r: Option<&Mapping>)
    ensures
        match r {
            Some(m) => yaml_of(*v) == Yaml::Dict(entries_of(*m)),
            None => !(yaml_of(*v) is Dict),
        },
{
    match v {
        Value::Mapping(m) => Some(m),
        _ => None,
    }
}

/// A match on `Value::String`: the text inside the value, if the value is
/// of that variant. A value of any other variant is no `Str`.
#[verifier::external_body]
pub(crate) fn as_str(v: &Value) -> (r: Option<&str>)
    ensures
        match r {
            Some(t) => yaml_of(*v) == Yaml::Str(t@),
            None => !(yaml_of(*v) is Str),
        },
{
    match v {
        Value::String(t) => Some(t.as_str()),
        _ => None,
    }
}

/// `Mapping::get` with a string key: the value stored under the key, if
/// the mapping has the key. As a mapping has a key once at most, that is
/// the value of the first entry with the key.
#[verifier::external_body]
pub(crate) fn mapping_get<'a>(m: &'a Mapping, key: &str) -> (r: Option<&'a Value>)
    ensures
        match r {
            Some(v) => lookup(entries_of(*m), key@) == Some(yaml_of(*v)),
            None => lookup(entries_of(*m), key@) is None,
        },
{
    m.get(key)
}

/// `Mapping::new` makes an empty mapping.
pub assume_specification[ Mapping::new ]() -> (m: Mapping)
    ensures
        entries_of(m) == Seq::<(Seq<char>, Yaml)>::empty(),
;

/// `Mapping::insert` with a string key: a new key goes to the end; a key
/// that the mapping has already keeps its place and gets the new value. The
/// result tells whether the key was there.
pub assume_specification[ Mapping::insert ](m: &mut Mapping, k: Value, v: Value) -> (r: Option<
    Value,
>)
    ensures
        yaml_of(k) matches Yaml::Str(key) ==> {
            let before = entries_of(*old(m));
            let after = entries_of(*final(m));
            if has_key(before, key) {
                &&& r is Some
                &&& exists|i: int|
                    0 <= i < before.len() && (#[trigger] before[i]).0 == key && after
                        == before.update(i, (key, yaml_of(v)))
            } else {
                &&& r is None
                &&& after == before.push((key, yaml_of(v)))
            }
        },
;

/// Puts an entry with a key that the mapping does not have yet at its end.
pub(crate) fn put(m: &mut Mapping, key: &str, value: Value)
    requires
        !has_key(entries_of(*old(m)), key@),
    ensures
        entries_of(*final(m)) == entries_of(*old(m)).push((key@, yaml_of(value))),
{
    let _ = m.insert(s(key), value);
}

} // verus!
