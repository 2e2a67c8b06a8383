//! Lookup by name in keyed lists: the first entry whose key matches.

use vstd::prelude::*;

verus! {

/// The first index at or after `start` whose key is `id`.
pub open spec fn first_from(keys: Seq<Seq<char>>, id: Seq<char>, start: int) -> Option<int>
    decreases keys.len() - start,
{
    if start < 0 || start >= keys.len() {
        None
    } else if keys[start] == id {
        Some(start)
    } else {
        first_from(keys, id, start + 1)
    }
}

/// The first index whose key is `id`.
pub open spec fn first(keys: Seq<Seq<char>>, id: Seq<char>) -> Option<int> {
    first_from(keys, id, 0)
}

/// What the first match means.
pub proof fn lemma_first_from(keys: Seq<Seq<char>>, id: Seq<char>, start: int)
    requires
        0 <= start,
    ensures
        match first_from(keys, id, start) {
            Some(i) => start <= i < keys.len() && keys[i] == id && forall|j: int|
                start <= j < i ==> keys[j] != id,
            None => forall|j: int| start <= j < keys.len() ==> keys[j] != id,
        },
    decreases keys.len() - start,
{
    if start < keys.len() && keys[start] != id {
        lemma_first_from(keys, id, start + 1);
    }
}

/// The first match is determined by the keys before and at it.
pub proof fn lemma_first_unique(keys: Seq<Seq<char>>, id: Seq<char>, i: int)
    requires
        0 <= i < keys.len(),
        keys[i] == id,
        forall|j: int| 0 <= j < i ==> keys[j] != id,
    ensures
        first(keys, id) == Some(i),
{
    lemma_first_none_before(keys, id, 0, i);
}

proof fn lemma_first_none_before(keys: Seq<Seq<char>>, id: Seq<char>, start: int, i: int)
    requires
        0 <= start <= i < keys.len(),
        keys[i] == id,
        forall|j: int| start <= j < i ==> keys[j] != id,
    ensures
        first_from(keys, id, start) == Some(i),
    decreases i - start,
{
    if start < i {
        lemma_first_none_before(keys, id, start + 1, i);
    }
}

/// No key matches.
pub proof fn lemma_first_none(keys: Seq<Seq<char>>, id: Seq<char>, start: int)
    requires
        0 <= start,
        forall|j: int| start <= j < keys.len() ==> keys[j] != id,
    ensures
        first_from(keys, id, start) is None,
    decreases keys.len() - start,
{
    if start < keys.len() {
        lemma_first_none(keys, id, start + 1);
    }
}

/// Appending a key leaves earlier matches alone and matches the new key last.
pub proof fn lemma_first_push(keys: Seq<Seq<char>>, k: Seq<char>, id: Seq<char>)
    ensures
        first(keys.push(k), id) == (match first(keys, id) {
            Some(i) => Some(i),
            None => if k == id {
                Some(keys.len() as int)
            } else {
                None
            },
        }),
{
    let nk = keys.push(k);
    lemma_first_from(keys, id, 0);
    match first(keys, id) {
        Some(i) => {
            assert forall|j: int| 0 <= j < i implies nk[j] != id by {
                assert(nk[j] == keys[j]);
            }
            lemma_first_unique(nk, id, i);
        },
        None => {
            if k == id {
                assert forall|j: int| 0 <= j < keys.len() implies nk[j] != id by {
                    assert(nk[j] == keys[j]);
                }
                lemma_first_unique(nk, id, keys.len() as int);
            } else {
                assert forall|j: int| 0 <= j < nk.len() implies nk[j] != id by {
                    if j < keys.len() {
                        assert(nk[j] == keys[j]);
                    }
                }
                lemma_first_none(nk, id, 0);
            }
        },
    }
}

} // verus!
