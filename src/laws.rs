//! Laws of the trie's operations, stated over its view.
//!
//! Each law names the tries it relates: `before` is a trie ahead of a call
//! of `put`, and the `requires` says what that call did to it, as `put`
//! itself ensures.
use crate::trie::Trie;
use vstd::prelude::*;

verus! {

/// A trie that was just made (its view is empty, as `new` ensures) holds no
/// value under any key sequence, so `get` returns `None` for every key.
pub proof fn lemma_fresh_trie_holds_nothing<K, V>(trie: Trie<K, V>, key: Seq<K>)
    requires
        trie@ == Map::<Seq<K>, V>::empty(),
    ensures
        !trie@.contains_key(key),
{
}

/// After `put(key, value)`, `get(key)` returns `value`.
pub proof fn lemma_put_then_get<K, V>(before: Trie<K, V>, after: Trie<K, V>, key: Seq<K>, value: V)
    requires
        after@ == before@.insert(key, value),
    ensures
        after@.contains_key(key),
        after@[key] == value,
{
}

/// Of two `put`s under the same key, the last one wins: `get` returns the
/// second value, and the trie is as if only the second `put` had been made.
pub proof fn lemma_last_put_wins<K, V>(
    before: Trie<K, V>,
    middle: Trie<K, V>,
    after: Trie<K, V>,
    key: Seq<K>,
    first: V,
    second: V,
)
    requires
        middle@ == before@.insert(key, first),
        after@ == middle@.insert(key, second),
    ensures
        after@.contains_key(key),
        after@[key] == second,
        after@ == before@.insert(key, second),
{
    assert(after@ =~= before@.insert(key, second));
}

/// A `put` under a strict extension `long` of a key sequence `short` leaves
/// what `get(short)` returns unchanged: still `None` if nothing was stored
/// under `short`, still the same value otherwise.
pub proof fn lemma_prefix_independence<K, V>(
    before: Trie<K, V>,
    after: Trie<K, V>,
    short: Seq<K>,
    long: Seq<K>,
    value: V,
)
    requires
        short.len() < long.len(),
        short == long.subrange(0, short.len() as int),
        after@ == before@.insert(long, value),
    ensures
        after@.contains_key(short) == before@.contains_key(short),
        before@.contains_key(short) ==> after@[short] == before@[short],
{
    assert(short != long);
}

/// Two `put`s under different key sequences (whether or not they share a
/// prefix) both stay retrievable, each with its own value.
pub proof fn lemma_distinct_keys_independent<K, V>(
    before: Trie<K, V>,
    middle: Trie<K, V>,
    after: Trie<K, V>,
    key1: Seq<K>,
    value1: V,
    key2: Seq<K>,
    value2: V,
)
    requires
        key1 != key2,
        middle@ == before@.insert(key1, value1),
        after@ == middle@.insert(key2, value2),
    ensures
        after@.contains_key(key1),
        after@[key1] == value1,
        after@.contains_key(key2),
        after@[key2] == value2,
{
}

/// A `put` under the empty key sequence is returned by `get` of the empty
/// sequence, and changes nothing that `get` of a non-empty key returns.
pub proof fn lemma_empty_key<K, V>(before: Trie<K, V>, after: Trie<K, V>, value: V, other: Seq<K>)
    requires
        after@ == before@.insert(Seq::empty(), value),
        other.len() > 0,
    ensures
        after@.contains_key(Seq::empty()),
        after@[Seq::empty()] == value,
        after@.contains_key(other) == before@.contains_key(other),
        before@.contains_key(other) ==> after@[other] == before@[other],
{
    assert(other != Seq::<K>::empty());
}

} // verus!
