//! The names of fields: their identifiers, the fields that may be filtered
//! on, and the numbers that the values of a filter read as.

use crate::index::FieldId;
use crate::number::Number;
use vstd::prelude::*;
use vstd::string::StringSliceAdditionalSpecFns;
use vstd::utf8::encode_utf8_decode_utf8;

verus! {

/// The identifiers of the fields that documents have, by name.
pub struct FieldsIdsMap {
    pub fields: Vec<(String, FieldId)>,
}

/// What the values of a filter read as, where they read as numbers: each
/// text with its number.
pub struct NumberReadings {
    pub numbers: Vec<(String, Number)>,
}

/// What a list of names with values gives for `name`: the value that stands
/// with the first occurrence of the name.
pub open spec fn lookup<V>(pairs: Seq<(String, V)>, name: Seq<char>) -> Option<V>
    decreases pairs.len(),
{
    if pairs.len() == 0 {
        None
    } else if pairs[0].0@ == name {
        Some(pairs[0].1)
    } else {
        lookup(pairs.drop_first(), name)
    }
}

/// Whether `name` is one of the names.
pub open spec fn is_listed(names: Seq<String>, name: Seq<char>) -> bool {
    exists|i: int| 0 <= i < names.len() && (#[trigger] names[i])@ == name
}

/// The names, each as a sequence of characters.
pub open spec fn names_of(names: Seq<String>) -> Seq<Seq<char>> {
    Seq::new(names.len(), |i: int| names[i]@)
}

/// Finds what a list of names with values gives for `name`.
pub fn find<V: Copy>(pairs: &Vec<(String, V)>, name: &str) -> (r: Option<V>)
    ensures
        r == lookup(pairs@, name@),
{
    let mut i: usize = 0;
    assert(pairs@.subrange(0, pairs.len() as int) == pairs@);
    while i < pairs.len()
        invariant
            0 <= i <= pairs.len(),
            lookup(pairs@, name@) == lookup(pairs@.subrange(i as int, pairs.len() as int), name@),
        decreases pairs.len() - i,
    {
        let ghost rest = pairs@.subrange(i as int, pairs.len() as int);
        assert(rest[0] == pairs@[i as int]);
        assert(rest.drop_first() == pairs@.subrange(i + 1, pairs.len() as int));
        if text_is(pairs[i].0.as_str(), name) {
            return Some(pairs[i].1);
        }
        i += 1;
    }
    None
}

/// Tests whether two texts are the same, byte by byte.
pub fn text_is(a: &str, b: &str) -> (r: bool)
    ensures
        r == (a@ == b@),
{
    let left = a.as_bytes();
    let right = b.as_bytes();
    proof {
        encode_utf8_decode_utf8(a@);
        encode_utf8_decode_utf8(b@);
    }
    let n = left.len();
    if n != right.len() {
        return false;
    }
    let mut k: usize = 0;
    while k < n
        invariant
            0 <= k <= n,
            n == left@.len(),
            n == right@.len(),
            left@ == a.spec_bytes(),
            right@ == b.spec_bytes(),
            forall|j: int| 0 <= j < k ==> left@[j] == right@[j],
        decreases n - k,
    {
        if left[k] != right[k] {
            return false;
        }
        k += 1;
    }
    assert(left@ =~= right@);
    true
}

/// Tests whether `name` is one of the names.
pub fn contains_name(names: &Vec<String>, name: &str) -> (r: bool)
    ensures
        r == is_listed(names@, name@),
{
    let mut i: usize = 0;
    while i < names.len()
        invariant
            0 <= i <= names.len(),
            forall|j: int| 0 <= j < i ==> (#[trigger] names[j])@ != name@,
        decreases names.len() - i,
    {
        if text_is(names[i].as_str(), name) {
            return true;
        }
        i += 1;
    }
    false
}

/// Copies the names.
pub fn copy_names(names: &Vec<String>) -> (r: Vec<String>)
    ensures
        names_of(r@) == names_of(names@),
{
    let mut copy: Vec<String> = Vec::new();
    let mut i: usize = 0;
    while i < names.len()
        invariant
            0 <= i <= names.len(),
            copy.len() == i,
            forall|j: int| 0 <= j < i ==> (#[trigger] copy[j])@ == names[j]@,
        decreases names.len() - i,
    {
        copy.push(names[i].clone());
        i += 1;
    }
    assert(names_of(copy@) =~= names_of(names@));
    copy
}

impl FieldsIdsMap {
    /// The identifier of the field `name`, if documents have that field.
    pub fn id(&self, name: &str) -> (r: Option<FieldId>)
        ensures
            r == lookup(self.fields@, name@),
    {
        find(&self.fields, name)
    }
}

impl NumberReadings {
    /// The number that `text` reads as, if it reads as one.
    pub fn number(&self, text: &str) -> (r: Option<Number>)
        ensures
            r == lookup(self.numbers@, text@),
    {
        find(&self.numbers, text)
    }
}

} // verus!
