use slab::indexer::Indexer;
use slab::{Key, Slab};

#[test]
fn insert_returns_ascending_keys_from_empty() {
    let mut slab: Slab<char> = Slab::new();
    assert_eq!(slab.insert('a'), Key(0));
    assert_eq!(slab.insert('b'), Key(1));
    assert_eq!(slab.insert('c'), Key(2));
    assert_eq!(slab.get(Key(1)), Some(&'b'));
}

#[test]
fn remove_returns_the_value_once() {
    let mut slab: Slab<u32> = Slab::new();
    let key = slab.insert(42);
    assert_eq!(slab.remove(key), Some(42));
    assert_eq!(slab.remove(key), None);
    assert_eq!(slab.get(key), None);
}

#[test]
fn remove_with_out_of_range_key_is_a_no_op() {
    let mut slab: Slab<u32> = Slab::new();
    slab.insert(1);
    assert_eq!(slab.remove(Key(17)), None);
    assert_eq!(slab.get(Key(0)), Some(&1));
}

#[test]
fn freed_position_is_reused_and_old_key_sees_new_value() {
    let mut slab: Slab<&str> = Slab::new();
    slab.insert("first");
    let key = slab.insert("second");
    slab.insert("third");
    assert_eq!(slab.remove(key), Some("second"));
    let new_key = slab.insert("fresh");
    assert_eq!(new_key, key);
    assert_eq!(slab.get(key), Some(&"fresh"));
}

#[test]
fn key_converts_to_and_from_position() {
    let key: Key = 3usize.into();
    assert_eq!(key, Key(3));
    let pos: usize = key.into();
    assert_eq!(pos, 3);
}

#[test]
fn indexer_cursor_lists_occupied_ascending() {
    let mut indexer = Indexer::new();
    assert_eq!(indexer.len(), 0);
    assert_eq!(indexer.allocate(), 0);
    assert_eq!(indexer.allocate(), 1);
    assert_eq!(indexer.allocate(), 2);
    indexer.mark_vacant(1);
    assert!(indexer.is_occupied(0));
    assert!(!indexer.is_occupied(1));
    assert!(indexer.is_occupied(2));
    assert!(!indexer.is_occupied(3));
    let mut cursor = indexer.occupied();
    assert_eq!(cursor.next(), Some(0));
    assert_eq!(cursor.next(), Some(2));
    assert_eq!(cursor.next(), None);
    assert_eq!(cursor.next(), None);
}

#[test]
fn indexer_reuses_most_recently_freed_position() {
    let mut indexer = Indexer::new();
    indexer.allocate();
    indexer.allocate();
    indexer.allocate();
    indexer.mark_vacant(0);
    indexer.mark_vacant(2);
    assert_eq!(indexer.allocate(), 2);
    assert_eq!(indexer.allocate(), 0);
    assert_eq!(indexer.allocate(), 3);
    assert_eq!(indexer.len(), 4);
}

#[test]
fn indexer_mark_occupied_withdraws_from_reuse() {
    let mut indexer = Indexer::new();
    indexer.allocate();
    indexer.allocate();
    indexer.mark_vacant(0);
    indexer.mark_vacant(1);
    indexer.mark_occupied(0);
    assert!(indexer.is_occupied(0));
    assert!(!indexer.is_occupied(1));
    assert_eq!(indexer.allocate(), 1);
    assert_eq!(indexer.allocate(), 2);
}
