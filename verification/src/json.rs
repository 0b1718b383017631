//! The shape of the upstream response as this library models it: a JSON
//! value built of plain values, so that the projection over it can be
//! reasoned about. Whatever decodes the wire bytes hands a value of this
//! type in.

use vstd::prelude::*;

verus! {

/// A decoded JSON value.
#[derive(Debug)]
pub enum JsonValue {
    Null,
    Bool(bool),
    /// A number, carried as its literal text; the projection never reads one.
    Number(String),
    Str(String),
    Array(Vec<JsonValue>),
    /// An object's fields in their order; a well-formed object names each
    /// field once, and a lookup takes the first match.
    Object(Vec<(String, JsonValue)>),
}

/// The value under the first field with the given name, if any.
pub open spec fn spec_lookup(fields: Seq<(String, JsonValue)>, key: Seq<char>) -> Option<
    JsonValue,
>
    decreases fields.len(),
{
    if fields.len() == 0 {
        None
    } else if fields[0].0@ == key {
        Some(fields[0].1)
    } else {
        spec_lookup(fields.drop_first(), key)
    }
}

proof fn lemma_lookup_skip(fields: Seq<(String, JsonValue)>, key: Seq<char>, i: int)
    requires
        0 <= i <= fields.len(),
        forall|j: int| 0 <= j < i ==> (#[trigger] fields[j]).0@ != key,
    ensures
        spec_lookup(fields, key) == spec_lookup(fields.skip(i), key),
    decreases i,
{
    if i == 0 {
        assert(fields.skip(0) =~= fields);
    } else {
        assert(fields[0].0@ != key);
        assert(fields.drop_first().skip(i - 1) =~= fields.skip(i));
        assert(forall|j: int|
            0 <= j < i - 1 ==> (#[trigger] fields.drop_first()[j]).0@ != key);
        lemma_lookup_skip(fields.drop_first(), key, i - 1);
    }
}

/// Finds the first field with the given name.
pub fn lookup<'a>(fields: &'a Vec<(String, JsonValue)>, key: &String) -> (r: Option<
    &'a JsonValue,
>)
    ensures
        r is Some <==> spec_lookup(fields@, key@) is Some,
        r is Some ==> Some(*r.unwrap()) == spec_lookup(fields@, key@),
{
    let mut i: usize = 0;
    while i < fields.len()
        invariant
            0 <= i <= fields@.len(),
            forall|j: int| 0 <= j < i ==> (#[trigger] fields@[j]).0@ != key@,
        decreases fields@.len() - i,
    {
        if fields[i].0 == *key {
            proof {
                lemma_lookup_skip(fields@, key@, i as int);
                assert(fields@.skip(i as int)[0] == fields@[i as int]);
            }
            return Some(&fields[i].1);
        }
        i = i + 1;
    }
    proof {
        lemma_lookup_skip(fields@, key@, fields@.len() as int);
    }
    None
}

} // verus!
