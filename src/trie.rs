use crate::node::TrieNode;
use std::hash::Hash;
use vstd::prelude::*;
use vstd::std_specs::hash::obeys_key_model;

verus! {

/// A map from key sequences to values, stored as a prefix tree.
///
/// Its view is the map of every key sequence that was given a value to the
/// last value given to it.
///
/// `put` and `get` ask that the key symbol type obey vstd's hash-table key
/// model (`obeys_key_model`): its `==` and `Hash` agree with identity, as they
/// do for the integer types and `bool`.
#[derive(Debug)]
pub struct Trie<K, V> {
    root_node: TrieNode<K, V>,
}

impl<K, V> View for Trie<K, V> {
    type V = Map<Seq<K>, V>;

    closed spec fn view(&self) -> Map<Seq<K>, V> {
        self.root_node.entries()
    }
}

impl<K: Eq + Hash + Copy, V> Default for Trie<K, V> {
    fn default() -> (trie: Self)
        ensures
            trie@ == Map::<Seq<K>, V>::empty(),
    {
        let trie = Trie { root_node: TrieNode::new() };
        assert(trie@ =~= Map::<Seq<K>, V>::empty());
        trie
    }
}

impl<K: Eq + Hash + Copy, V> Trie<K, V> {
    /// An empty trie.
    pub fn new() -> (trie: Self)
        ensures
            trie@ == Map::<Seq<K>, V>::empty(),
    {
        Trie::default()
    }

    /// Stores `data` under the exact key sequence `key_word`, replacing any
    /// value stored there before. Every other entry is left as it was.
    pub fn put(&mut self, key_word: &[K], data: V)
        requires
            obeys_key_model::<K>(),
        ensures
            final(self)@ == old(self)@.insert(key_word@, data),
    {
        self.root_node.put(key_word, data);
        assert(self@ =~= old(self)@.insert(key_word@, data));
    }

    /// The value stored under the exact key sequence `key_word`, or `None`
    /// where none was stored.
    pub fn get(&self, key_word: &[K]) -> (r: Option<&V>)
        requires
            obeys_key_model::<K>(),
        ensures
            r is Some <==> self@.contains_key(key_word@),
            r matches Some(v) ==> *v == self@[key_word@],
    {
        self.root_node.get(key_word)
    }
}

} // verus!
