use trie::Trie;

#[test]
fn fresh_trie_holds_nothing() {
    let trie: Trie<u8, u32> = Trie::new();
    assert_eq!(trie.get(&[]), None);
    assert_eq!(trie.get(&[0]), None);
    assert_eq!(trie.get(&[255, 255, 255]), None);
}

#[test]
fn put_then_get_returns_value() {
    let mut trie: Trie<u8, String> = Trie::new();
    trie.put(&[7, 8, 9], String::from("seven"));
    assert_eq!(trie.get(&[7, 8, 9]), Some(&String::from("seven")));
}

#[test]
fn last_put_wins() {
    let mut trie: Trie<u16, i64> = Trie::new();
    trie.put(&[3, 1], -5);
    trie.put(&[3, 1], 11);
    assert_eq!(trie.get(&[3, 1]), Some(&11));
}

#[test]
fn prefix_stays_absent_after_longer_put() {
    let mut trie: Trie<u8, u32> = Trie::new();
    trie.put(&[1, 2, 3], 100);
    assert_eq!(trie.get(&[1]), None);
    assert_eq!(trie.get(&[1, 2]), None);
    assert_eq!(trie.get(&[1, 2, 3]), Some(&100));
}

#[test]
fn prefix_keeps_value_after_longer_put() {
    let mut trie: Trie<u8, u32> = Trie::new();
    trie.put(&[1, 2], 5);
    trie.put(&[1, 2, 3, 4], 6);
    assert_eq!(trie.get(&[1, 2]), Some(&5));
    assert_eq!(trie.get(&[1, 2, 3]), None);
    assert_eq!(trie.get(&[1, 2, 3, 4]), Some(&6));
}

#[test]
fn distinct_branches_do_not_interfere() {
    let mut trie: Trie<u8, u32> = Trie::new();
    trie.put(b"cat", 1);
    trie.put(b"car", 2);
    assert_eq!(trie.get(b"cat"), Some(&1));
    assert_eq!(trie.get(b"car"), Some(&2));
    assert_eq!(trie.get(b"ca"), None);
    assert_eq!(trie.get(b"cab"), None);
}

#[test]
fn empty_key_sets_root_value_only() {
    let mut trie: Trie<u8, u32> = Trie::new();
    trie.put(&[4], 40);
    trie.put(&[], 9);
    assert_eq!(trie.get(&[]), Some(&9));
    assert_eq!(trie.get(&[4]), Some(&40));
    assert_eq!(trie.get(&[5]), None);
}

#[test]
fn lookup_longer_than_any_key_is_absent() {
    let mut trie: Trie<u8, u32> = Trie::new();
    trie.put(&[1, 2], 3);
    assert_eq!(trie.get(&[1, 2, 3]), None);
    assert_eq!(trie.get(&[2]), None);
}

#[test]
fn overwrite_does_not_touch_neighbours() {
    let mut trie: Trie<u8, &str> = Trie::default();
    trie.put(b"ab", "first");
    trie.put(b"ac", "other");
    trie.put(b"ab", "second");
    assert_eq!(trie.get(b"ab"), Some(&"second"));
    assert_eq!(trie.get(b"ac"), Some(&"other"));
}
