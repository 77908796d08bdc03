//! A transport-independent model of JSON values.
//!
//! Client payloads and stored payload blobs are carried as `JsonValue` trees.
//! Objects keep their entries in order; a lookup takes the first entry whose
//! key matches.

use vstd::prelude::*;

verus! {

/// One JSON value. Numeric literals that fit a 64-bit signed integer are held
/// as `Int`; any other numeric literal keeps its decimal text in `Num` so that
/// opaque payloads pass through unchanged.
#[derive(Debug, PartialEq)]
pub enum JsonValue {
    Null,
    Bool(bool),
    Int(i64),
    Num(String),
    Str(String),
    Arr(Vec<JsonValue>),
    Obj(Vec<(String, JsonValue)>),
}

/// The value of the first entry whose key reads `key`, if any.
pub open spec fn lookup_entries(entries: Seq<(String, JsonValue)>, key: Seq<char>) -> Option<
    JsonValue,
>
    decreases entries.len(),
{
    if entries.len() == 0 {
        None
    } else if entries[0].0@ == key {
        Some(entries[0].1)
    } else {
        lookup_entries(entries.drop_first(), key)
    }
}

impl JsonValue {
    /// The field named `key` of an object; `None` for a missing field or a
    /// non-object value.
    pub open spec fn get_spec(self, key: Seq<char>) -> Option<JsonValue> {
        match self {
            JsonValue::Obj(entries) => lookup_entries(entries@, key),
            _ => None,
        }
    }
}

pub proof fn lemma_lookup_at_first_match(
    entries: Seq<(String, JsonValue)>,
    key: Seq<char>,
    i: int,
)
    requires
        0 <= i < entries.len(),
        entries[i].0@ == key,
        forall|j: int| 0 <= j < i ==> entries[j].0@ != key,
    ensures
        lookup_entries(entries, key) == Some(entries[i].1),
    decreases i,
{
    if i > 0 {
        lemma_lookup_at_first_match(entries.drop_first(), key, i - 1);
    }
}

pub proof fn lemma_lookup_no_match(entries: Seq<(String, JsonValue)>, key: Seq<char>)
    requires
        forall|j: int| 0 <= j < entries.len() ==> entries[j].0@ != key,
    ensures
        lookup_entries(entries, key) is None,
    decreases entries.len(),
{
    if entries.len() > 0 {
        lemma_lookup_no_match(entries.drop_first(), key);
    }
}

/// Removing an entry whose key differs from `key` leaves the lookup of `key`
/// unchanged.
pub proof fn lemma_lookup_remove_other(entries: Seq<(String, JsonValue)>, i: int, key: Seq<char>)
    requires
        0 <= i < entries.len(),
        entries[i].0@ != key,
    ensures
        lookup_entries(entries.remove(i), key) == lookup_entries(entries, key),
    decreases entries.len(),
{
    if i == 0 {
        assert(entries.remove(0) =~= entries.drop_first());
    } else {
        assert(entries.remove(i)[0] == entries[0]);
        assert(entries.remove(i).drop_first() =~= entries.drop_first().remove(i - 1));
        lemma_lookup_remove_other(entries.drop_first(), i - 1, key);
    }
}

/// True iff the key `k` reads the same characters as `lit`.
pub fn key_is(k: &String, lit: &str) -> (b: bool)
    ensures
        b == (k@ == lit@),
{
    let s = String::from_str(lit);
    *k == s
}

/// Removes and returns the first field named `key`, leaving every other
/// field's lookup unchanged.
pub fn take_field(entries: &mut Vec<(String, JsonValue)>, key: &str) -> (r: Option<JsonValue>)
    ensures
        r == lookup_entries(old(entries)@, key@),
        forall|k: Seq<char>| k != key@ ==> lookup_entries(final(entries)@, k)
            == #[trigger] lookup_entries(old(entries)@, k),
{
    let n = entries.len();
    let mut i: usize = 0;
    while i < n
        invariant
            entries@ == old(entries)@,
            n == entries.len(),
            i <= n,
            forall|j: int| 0 <= j < i ==> entries@[j].0@ != key@,
        decreases n - i,
    {
        if key_is(&entries[i].0, key) {
            proof {
                lemma_lookup_at_first_match(entries@, key@, i as int);
                assert forall|k: Seq<char>| k != key@ implies lookup_entries(
                    entries@.remove(i as int),
                    k,
                ) == lookup_entries(entries@, k) by {
                    if entries@[i as int].0@ == k {
                        assert(k == key@);
                    } else {
                        lemma_lookup_remove_other(entries@, i as int, k);
                    }
                }
            }
            let e = entries.remove(i);
            return Some(e.1);
        }
        i += 1;
    }
    proof {
        lemma_lookup_no_match(entries@, key@);
    }
    None
}

} // verus!
