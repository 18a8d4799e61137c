//! Association lists keyed by strings: the in-memory form of the two
//! persisted mappings. Keys are unique; lookup is by key view, so the
//! order of entries never shows in a contract.

use vstd::prelude::*;
use crate::text::str_eq;

verus! {

/// No two entries share a key.
pub open spec fn spec_unique_keys<T>(entries: Seq<(String, T)>) -> bool {
    forall|i: int, j: int| 0 <= i < j < entries.len() ==> entries[i].0@ != entries[j].0@
}

/// The value under `key`: the first entry whose key matches, if any.
pub open spec fn spec_assoc_get<T>(entries: Seq<(String, T)>, key: Seq<char>) -> Option<T>
    decreases entries.len(),
{
    if entries.len() == 0 {
        None
    } else if entries[0].0@ == key {
        Some(entries[0].1)
    } else {
        spec_assoc_get(entries.drop_first(), key)
    }
}

/// A lookup that finds nothing means no entry carries the key.
pub proof fn lemma_assoc_none_no_key<T>(entries: Seq<(String, T)>, key: Seq<char>)
    requires
        spec_assoc_get(entries, key) is None,
    ensures
        forall|i: int| 0 <= i < entries.len() ==> entries[i].0@ != key,
    decreases entries.len(),
{
    if entries.len() > 0 {
        lemma_assoc_none_no_key(entries.drop_first(), key);
        assert(forall|i: int|
            1 <= i < entries.len() ==> entries[i].0@ == entries.drop_first()[i - 1].0@);
    }
}

/// Replacing the entry at `i` by one with the same key changes only that
/// key's binding and keeps the keys unique.
pub proof fn lemma_assoc_update<T>(entries: Seq<(String, T)>, i: int, p: (String, T))
    requires
        spec_unique_keys(entries),
        0 <= i < entries.len(),
        entries[i].0@ == p.0@,
    ensures
        spec_unique_keys(entries.update(i, p)),
        spec_assoc_get(entries.update(i, p), p.0@) == Some(p.1),
        forall|k: Seq<char>|
            k != p.0@ ==> spec_assoc_get(entries.update(i, p), k) == spec_assoc_get(entries, k),
    decreases i,
{
    assert(forall|j: int|
        0 <= j < entries.len() ==> entries.update(i, p)[j].0@ == entries[j].0@);
    if i == 0 {
        assert(entries.update(0, p).drop_first() =~= entries.drop_first());
    } else {
        assert(entries.update(i, p)[0] == entries[0]);
        assert(entries.update(i, p).drop_first() =~= entries.drop_first().update(i - 1, p));
        assert(entries[0].0@ != entries[i].0@);
        lemma_assoc_update(entries.drop_first(), i - 1, p);
        assert(entries.drop_first()[i - 1] == entries[i]);
        assert forall|k: Seq<char>|
            k != p.0@ implies spec_assoc_get(entries.update(i, p), k) == spec_assoc_get(
            entries,
            k,
        ) by {
            if entries[0].0@ != k {
                assert(spec_assoc_get(entries.update(i, p), k) == spec_assoc_get(
                    entries.drop_first().update(i - 1, p),
                    k,
                ));
                assert(spec_assoc_get(entries.drop_first().update(i - 1, p), k)
                    == spec_assoc_get(entries.drop_first(), k));
            }
        }
    }
}

/// Appending an entry under a fresh key binds that key and changes no
/// other, keeping the keys unique.
pub proof fn lemma_assoc_push<T>(entries: Seq<(String, T)>, p: (String, T))
    requires
        spec_unique_keys(entries),
        spec_assoc_get(entries, p.0@) is None,
    ensures
        spec_unique_keys(entries.push(p)),
        spec_assoc_get(entries.push(p), p.0@) == Some(p.1),
        forall|k: Seq<char>|
            k != p.0@ ==> spec_assoc_get(entries.push(p), k) == spec_assoc_get(entries, k),
    decreases entries.len(),
{
    lemma_assoc_none_no_key(entries, p.0@);
    assert(forall|j: int| 0 <= j < entries.len() ==> entries.push(p)[j] == entries[j]);
    assert(entries.push(p)[entries.len() as int] == p);
    if entries.len() == 0 {
        assert(entries.push(p).drop_first() =~= entries);
    } else {
        assert(entries.push(p)[0] == entries[0]);
        assert(entries.push(p).drop_first() =~= entries.drop_first().push(p));
        lemma_assoc_push(entries.drop_first(), p);
        assert forall|k: Seq<char>|
            k != p.0@ implies spec_assoc_get(entries.push(p), k) == spec_assoc_get(
            entries,
            k,
        ) by {
            if entries[0].0@ != k {
                assert(spec_assoc_get(entries.push(p), k) == spec_assoc_get(
                    entries.drop_first().push(p),
                    k,
                ));
                assert(spec_assoc_get(entries.drop_first().push(p), k) == spec_assoc_get(
                    entries.drop_first(),
                    k,
                ));
            }
        }
    }
}

/// Finds the value under `key`, if any.
pub fn assoc_get<'a, T>(entries: &'a Vec<(String, T)>, key: &str) -> (r: Option<&'a T>)
    ensures
        match r {
            Some(v) => spec_assoc_get(entries@, key@) == Some(*v),
            None => spec_assoc_get(entries@, key@) is None,
        },
{
    let len = entries.len();
    let mut i: usize = 0;
    proof {
        assert(entries@.skip(0) =~= entries@);
    }
    while i < len
        invariant
            len == entries@.len(),
            i <= len,
            spec_assoc_get(entries@.skip(i as int), key@) == spec_assoc_get(entries@, key@),
        decreases len - i,
    {
        proof {
            assert(entries@.skip(i as int)[0] == entries@[i as int]);
            assert(entries@.skip(i as int).drop_first() =~= entries@.skip(i + 1));
        }
        if str_eq(entries[i].0.as_str(), key) {
            return Some(&entries[i].1);
        }
        i = i + 1;
    }
    proof {
        assert(entries@.skip(len as int) =~= Seq::<(String, T)>::empty());
    }
    None
}

/// Binds `key` to `value`, replacing any prior binding, and returns the
/// value previously bound.
pub fn assoc_set<T>(entries: &mut Vec<(String, T)>, key: String, value: T) -> (prev: Option<T>)
    requires
        spec_unique_keys(old(entries)@),
    ensures
        spec_unique_keys(final(entries)@),
        spec_assoc_get(final(entries)@, key@) == Some(value),
        forall|k: Seq<char>|
            k != key@ ==> spec_assoc_get(final(entries)@, k) == spec_assoc_get(old(entries)@, k),
        prev == spec_assoc_get(old(entries)@, key@),
{
    let len = entries.len();
    let mut i: usize = 0;
    proof {
        assert(entries@.skip(0) =~= entries@);
    }
    while i < len
        invariant
            len == entries@.len(),
            i <= len,
            entries@ == old(entries)@,
            spec_unique_keys(entries@),
            spec_assoc_get(entries@.skip(i as int), key@) == spec_assoc_get(entries@, key@),
            forall|j: int| 0 <= j < i ==> entries@[j].0@ != key@,
        decreases len - i,
    {
        proof {
            assert(entries@.skip(i as int)[0] == entries@[i as int]);
            assert(entries@.skip(i as int).drop_first() =~= entries@.skip(i + 1));
        }
        if str_eq(entries[i].0.as_str(), key.as_str()) {
            let mut pair = (key, value);
            proof {
                assert(entries@ == old(entries)@);
                assert(spec_unique_keys(entries@));
                assert(entries@[i as int].0@ == pair.0@);
                lemma_assoc_update(entries@, i as int, pair);
            }
            entries.set_and_swap(i, &mut pair);
            return Some(pair.1);
        }
        i = i + 1;
    }
    proof {
        assert(entries@.skip(len as int) =~= Seq::<(String, T)>::empty());
        lemma_assoc_push(entries@, (key, value));
    }
    entries.push((key, value));
    None
}

/// Whether no two entries share a key.
pub fn keys_unique<T>(entries: &Vec<(String, T)>) -> (r: bool)
    ensures
        r == spec_unique_keys(entries@),
{
    let len = entries.len();
    let mut i: usize = 0;
    while i < len
        invariant
            len == entries@.len(),
            i <= len,
            forall|a: int, b: int| 0 <= a < b < i ==> entries@[a].0@ != entries@[b].0@,
        decreases len - i,
    {
        let mut j: usize = 0;
        while j < i
            invariant
                len == entries@.len(),
                j <= i,
                i < len,
                forall|b: int| 0 <= b < j ==> entries@[b].0@ != entries@[i as int].0@,
            decreases i - j,
        {
            if str_eq(entries[j].0.as_str(), entries[i].0.as_str()) {
                proof {
                    assert(entries@[j as int].0@ == entries@[i as int].0@);
                    assert(!spec_unique_keys(entries@));
                }
                return false;
            }
            j = j + 1;
        }
        i = i + 1;
    }
    true
}

/// Whether `key` is bound.
pub fn assoc_contains<T>(entries: &Vec<(String, T)>, key: &str) -> (r: bool)
    ensures
        r == (spec_assoc_get(entries@, key@) is Some),
{
    match assoc_get(entries, key) {
        Some(_) => true,
        None => false,
    }
}

} // verus!
