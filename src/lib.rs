//! A prefix tree mapping sequences of key symbols to values, with exact-match
//! lookup. Its contents are modelled as a `Map<Seq<K>, V>`.
mod node;
pub mod laws;
mod trie;

pub use trie::Trie;
