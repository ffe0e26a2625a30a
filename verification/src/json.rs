//! A plain JSON tree. The response schema is decoded from and encoded to
//! this tree; turning response bytes into a tree (and back) is the
//! caller's JSON library's work.
//!
//! An object is an ordered list of key–value pairs; looking a key up
//! finds its first binding, and later bindings of the same key are dead.

use vstd::prelude::*;

verus! {

/// One JSON value. Numbers are unsigned integers, which is all the
/// response schema carries.
pub enum Json {
    Null,
    Bool(bool),
    UInt(u64),
    Str(String),
    Arr(Vec<Json>),
    Obj(Vec<(String, Json)>),
}

/// The first value bound to `k` in an object's pairs, if any.
pub open spec fn obj_lookup(fs: Seq<(String, Json)>, k: Seq<char>) -> Option<Json>
    decreases fs.len(),
{
    if fs.len() == 0 {
        None
    } else if fs[0].0@ == k {
        Some(fs[0].1)
    } else {
        obj_lookup(fs.drop_first(), k)
    }
}

/// A key that first occurs at position `i` looks up to the value there.
pub proof fn lemma_obj_lookup_at(fs: Seq<(String, Json)>, k: Seq<char>, i: int)
    requires
        0 <= i < fs.len(),
        fs[i].0@ == k,
        forall|m: int| 0 <= m < i ==> (#[trigger] fs[m].0)@ != k,
    ensures
        obj_lookup(fs, k) == Some(fs[i].1),
    decreases i,
{
    if i > 0 {
        assert(fs[0].0@ != k);
        lemma_obj_lookup_at(fs.drop_first(), k, i - 1);
        assert(fs.drop_first()[i - 1] == fs[i]);
    }
}

/// A key bound at no position looks up to nothing.
pub proof fn lemma_obj_lookup_absent(fs: Seq<(String, Json)>, k: Seq<char>)
    requires
        forall|m: int| 0 <= m < fs.len() ==> (#[trigger] fs[m].0)@ != k,
    ensures
        obj_lookup(fs, k) is None,
    decreases fs.len(),
{
    if fs.len() > 0 {
        lemma_obj_lookup_absent(fs.drop_first(), k);
    }
}

/// Relies on str's PartialEq: two string slices are equal exactly when
/// their characters are.
#[verifier::external_body]
fn str_eq(a: &str, b: &str) -> (r: bool)
    ensures
        r == (a@ == b@),
{
    a == b
}

/// Finds the first value bound to `key` in an object's pairs.
pub fn obj_get<'a>(fields: &'a Vec<(String, Json)>, key: &str) -> (r: Option<&'a Json>)
    ensures
        match r {
            Some(v) => obj_lookup(fields@, key@) == Some(*v),
            None => obj_lookup(fields@, key@) is None,
        },
{
    let mut i: usize = 0;
    while i < fields.len()
        invariant
            i <= fields@.len(),
            forall|m: int| 0 <= m < i ==> (#[trigger] fields@[m].0)@ != key@,
        decreases fields@.len() - i,
    {
        if str_eq(fields[i].0.as_str(), key) {
            proof {
                lemma_obj_lookup_at(fields@, key@, i as int);
            }
            return Some(&fields[i].1);
        }
        i = i + 1;
    }
    proof {
        lemma_obj_lookup_absent(fields@, key@);
    }
    None
}

} // verus!
