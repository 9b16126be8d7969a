use std::collections::HashMap;
use std::hash::Hash;
use vstd::prelude::*;
use vstd::std_specs::hash::obeys_key_model;

verus! {

broadcast use vstd::std_specs::hash::group_hash_axioms;

/// One vertex of the tree: the value stored at the key sequence that ends
/// here, and the subtree under each symbol that can come next.
#[derive(Debug)]
pub(crate) struct TrieNode<K, V> {
    pub(crate) data: Option<V>,
    pub(crate) children: HashMap<K, TrieNode<K, V>>,
}

impl<K, V> TrieNode<K, V> {
    /// The value stored under `key`, counted from this vertex down.
    pub(crate) open spec fn lookup(self, key: Seq<K>) -> Option<V>
        decreases key.len(),
    {
        if key.len() == 0 {
            self.data
        } else if self.children@.contains_key(key[0]) {
            self.children@[key[0]].lookup(key.drop_first())
        } else {
            None
        }
    }

    /// Whether a vertex is reached from this one by following `path`, one
    /// symbol at a time. The empty path reaches this vertex itself.
    pub(crate) open spec fn has_path(self, path: Seq<K>) -> bool
        decreases path.len(),
    {
        if path.len() == 0 {
            true
        } else if self.children@.contains_key(path[0]) {
            self.children@[path[0]].has_path(path.drop_first())
        } else {
            false
        }
    }

    /// Every entry stored at or below this vertex, keyed by its path from here.
    pub(crate) open spec fn entries(self) -> Map<Seq<K>, V> {
        Map::new(|key: Seq<K>| self.lookup(key) is Some, |key: Seq<K>| self.lookup(key)->Some_0)
    }

    /// No value is stored under a path that reaches no vertex.
    pub(crate) proof fn lemma_no_path_no_value(self, path: Seq<K>)
        requires
            !self.has_path(path),
        ensures
            self.lookup(path) is None,
        decreases path.len(),
    {
        if path.len() > 0 && self.children@.contains_key(path[0]) {
            self.children@[path[0]].lemma_no_path_no_value(path.drop_first());
        }
    }
}

/// Whether `path` is a prefix of `key` (the empty path and `key` itself
/// included).
pub(crate) open spec fn is_prefix<K>(path: Seq<K>, key: Seq<K>) -> bool {
    path.len() <= key.len() && path == key.subrange(0, path.len() as int)
}

/// A non-empty path that starts with the first symbol of `key` is a prefix
/// of `key` exactly when the rest of it is a prefix of the rest of `key`.
proof fn lemma_prefix_step<K>(path: Seq<K>, key: Seq<K>)
    requires
        path.len() > 0,
        key.len() > 0,
        path[0] == key[0],
    ensures
        is_prefix(path, key) == is_prefix(path.drop_first(), key.drop_first()),
{
    let rest = path.drop_first();
    let tail = key.drop_first();
    if is_prefix(path, key) {
        assert(rest =~= tail.subrange(0, rest.len() as int));
    }
    if is_prefix(rest, tail) {
        assert forall|i: int| 0 <= i < path.len() implies path[i] == key[i] by {
            if i > 0 {
                assert(path[i] == rest[i - 1]);
            }
        }
        assert(path =~= key.subrange(0, path.len() as int));
    }
}

impl<K: Eq + Hash + Copy, V> TrieNode<K, V> {
    /// A vertex with no value and no children.
    pub(crate) fn new() -> (node: Self)
        ensures
            node.data is None,
            node.children@ == Map::<K, TrieNode<K, V>>::empty(),
            forall|key: Seq<K>| #[trigger] node.lookup(key) is None,
    {
        TrieNode { data: None, children: HashMap::new() }
    }

    /// Stores `data` under `key`, creating the missing vertices on its path.
    ///
    /// An empty key sets this vertex's value. Otherwise only the child under
    /// the key's first symbol changes, and it is added if it was missing.
    /// Afterwards a vertex exists for each prefix of `key`, and no other
    /// vertex is added or removed; the vertices added, but for the last,
    /// hold no value.
    pub(crate) fn put(&mut self, key: &[K], data: V)
        requires
            obeys_key_model::<K>(),
        ensures
            key@.len() == 0 ==> final(self).data == Some(data) && final(self).children@ == old(
                self,
            ).children@,
            key@.len() > 0 ==> {
                &&& final(self).data == old(self).data
                &&& final(self).children@.dom() == old(self).children@.dom().insert(key@[0])
                &&& forall|c: K|
                    c != key@[0] && #[trigger] old(self).children@.contains_key(c)
                        ==> final(self).children@[c] == old(self).children@[c]
            },
            forall|p: Seq<K>|
                #[trigger] final(self).has_path(p) == (old(self).has_path(p) || is_prefix(
                    p,
                    key@,
                )),
            forall|p: Seq<K>|
                !old(self).has_path(p) && p != key@ ==> #[trigger] final(self).lookup(p) is None,
            forall|k: Seq<K>|
                #[trigger] final(self).lookup(k) == if k == key@ {
                    Some(data)
                } else {
                    old(self).lookup(k)
                },
        decreases key@.len(),
    {
        if key.len() == 0 {
            self.data = Some(data);
            assert forall|k: Seq<K>| k.len() == 0 implies k == key@ by {
                assert(k =~= key@);
            }
            assert forall|p: Seq<K>| !old(self).has_path(p) && p != key@ implies #[trigger] self.lookup(
                p,
            ) is None by {
                old(self).lemma_no_path_no_value(p);
            }
        } else {
            let head = key[0];
            let tail = &key[1..key.len()];
            let mut child = match self.children.remove(&head) {
                Some(c) => c,
                None => TrieNode::new(),
            };
            let ghost before = child;
            child.put(tail, data);
            self.children.insert(head, child);
            proof {
                assert(self.children@ == old(self).children@.insert(head, child));
                assert forall|k: Seq<K>|
                    #[trigger] self.lookup(k) == if k == key@ {
                        Some(data)
                    } else {
                        old(self).lookup(k)
                    } by {
                    if k.len() > 0 && k[0] == head {
                        let rest = k.drop_first();
                        if rest == tail@ {
                            assert(k.len() == key@.len());
                            assert forall|i: int| 0 <= i < k.len() implies k[i] == key@[i] by {
                                if i > 0 {
                                    assert(k[i] == rest[i - 1]);
                                }
                            }
                            assert(k =~= key@);
                        }
                        assert(k == key@ ==> rest == tail@);
                        assert(before.lookup(rest) == old(self).lookup(k));
                        assert(self.lookup(k) == child.lookup(rest));
                    }
                }
                assert forall|p: Seq<K>|
                    #[trigger] self.has_path(p) == (old(self).has_path(p) || is_prefix(
                        p,
                        key@,
                    )) by {
                    if p.len() > 0 && p[0] == head {
                        let rest = p.drop_first();
                        lemma_prefix_step(p, key@);
                        assert(key@.drop_first() =~= tail@);
                        if rest.len() == 0 {
                            assert(rest =~= tail@.subrange(0, 0));
                        }
                        assert(self.has_path(p) == child.has_path(rest));
                    } else if p.len() > 0 && is_prefix(p, key@) {
                        assert(p[0] == key@.subrange(0, p.len() as int)[0]);
                    }
                }
                assert forall|p: Seq<K>|
                    !old(self).has_path(p) && p != key@ implies #[trigger] self.lookup(p) is None by {
                    old(self).lemma_no_path_no_value(p);
                }
            }
        }
    }

    /// The value stored under `key`, if there is one.
    pub(crate) fn get(&self, key: &[K]) -> (r: Option<&V>)
        requires
            obeys_key_model::<K>(),
        ensures
            match r {
                Some(v) => self.lookup(key@) == Some(*v),
                None => self.lookup(key@) is None,
            },
        decreases key@.len(),
    {
        if key.len() == 0 {
            self.data.as_ref()
        } else {
            match self.children.get(&key[0]) {
                Some(child) => child.get(&key[1..key.len()]),
                None => None,
            }
        }
    }
}

} // verus!
