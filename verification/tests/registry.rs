use volo_client::registry::{shard_index, TxHashMap, SHARD_COUNT};
use volo_client::shard::Shard;

#[test]
fn test_txmap() {
    let mut mp = TxHashMap::default();
    mp.insert(-1, 1);
    assert_eq!(mp.remove(&-1).unwrap(), 1);

    mp.insert(1 << 31, 1);
    assert_eq!(mp.remove(&(1 << 31)).unwrap(), 1);
}

#[test]
fn remove_twice_returns_absent_the_second_time() {
    let mut mp = TxHashMap::default();
    assert_eq!(mp.insert(-1, 1), None);
    assert_eq!(mp.remove(&-1), Some(1));
    assert_eq!(mp.remove(&-1), None);
    assert!(mp.is_empty());
}

#[test]
fn minimum_identifier_round_trips_like_a_small_one() {
    let mut mp = TxHashMap::default();
    let lowest: i32 = 1 << 31;
    assert_eq!(lowest, i32::MIN);
    assert_eq!(mp.insert(lowest, 'a'), None);
    assert_eq!(mp.insert(5, 'b'), None);
    assert!(!mp.is_empty());
    assert_eq!(mp.remove(&lowest), Some('a'));
    assert_eq!(mp.remove(&5), Some('b'));
    assert_eq!(mp.remove(&lowest), None);
    assert_eq!(mp.remove(&5), None);
    assert!(mp.is_empty());
}

#[test]
fn shard_count_is_sixty_four() {
    assert_eq!(SHARD_COUNT, 64);
}

#[test]
fn shard_index_normalises_negative_identifiers() {
    assert_eq!(shard_index(0), 0);
    assert_eq!(shard_index(1), 1);
    assert_eq!(shard_index(63), 63);
    assert_eq!(shard_index(64), 0);
    assert_eq!(shard_index(65), 1);
    assert_eq!(shard_index(-1), 63);
    assert_eq!(shard_index(-63), 1);
    assert_eq!(shard_index(-64), 0);
    assert_eq!(shard_index(-65), 63);
    assert_eq!(shard_index(i32::MAX), 63);
    assert_eq!(shard_index(i32::MIN), 0);
    assert_eq!(shard_index(1 << 31), 0);
}

#[test]
fn shard_index_follows_the_normalisation_formula() {
    let mut key: i32 = -1000;
    while key <= 1000 {
        let expected = ((key % 64 + 64) % 64) as usize;
        assert_eq!(shard_index(key), expected);
        assert_eq!(shard_index(key) as i32, key.rem_euclid(64));
        key += 1;
    }
}

#[test]
fn a_new_registry_is_empty() {
    let mp: TxHashMap<u8> = TxHashMap::default();
    assert!(mp.is_empty());
}

#[test]
fn insert_returns_the_value_it_displaces() {
    let mut mp = TxHashMap::default();
    assert_eq!(mp.insert(7, "first"), None);
    assert_eq!(mp.insert(7, "second"), Some("first"));
    assert_eq!(mp.remove(&7), Some("second"));
    assert_eq!(mp.remove(&7), None);
}

#[test]
fn remove_never_returns_the_value_of_another_identifier() {
    let mut mp = TxHashMap::default();
    // 3, 67 and -61 all fall into partition 3.
    assert_eq!(shard_index(3), 3);
    assert_eq!(shard_index(67), 3);
    assert_eq!(shard_index(-61), 3);
    mp.insert(3, "three");
    mp.insert(67, "sixty-seven");
    mp.insert(-61, "minus sixty-one");
    mp.insert(4, "four");
    assert_eq!(mp.remove(&131), None);
    assert_eq!(mp.remove(&67), Some("sixty-seven"));
    assert_eq!(mp.remove(&-61), Some("minus sixty-one"));
    assert_eq!(mp.remove(&3), Some("three"));
    assert_eq!(mp.remove(&4), Some("four"));
    assert!(mp.is_empty());
}

#[test]
fn interleaved_pairs_return_the_latest_insert() {
    let mut mp = TxHashMap::default();
    let mut id: i32 = -200;
    while id < 200 {
        assert_eq!(mp.insert(id, id * 10), None);
        id += 1;
    }
    let mut id: i32 = 199;
    while id >= -200 {
        if id % 3 == 0 {
            assert_eq!(mp.insert(id, id * 10 + 1), Some(id * 10));
        }
        id -= 1;
    }
    let mut id: i32 = -200;
    while id < 200 {
        let expected = if id % 3 == 0 { id * 10 + 1 } else { id * 10 };
        assert_eq!(mp.remove(&id), Some(expected));
        assert_eq!(mp.remove(&id), None);
        id += 1;
    }
    assert!(mp.is_empty());
}

#[test]
fn is_empty_after_each_insert_was_removed() {
    let mut mp = TxHashMap::default();
    let ids = [0, 1, -1, 63, 64, -64, i32::MAX, i32::MIN, 12345, -54321];
    for id in ids {
        assert_eq!(mp.insert(id, id), None);
        assert!(!mp.is_empty());
        assert_eq!(mp.remove(&id), Some(id));
        assert!(mp.is_empty());
    }
    for id in ids {
        mp.insert(id, id);
    }
    assert!(!mp.is_empty());
    for id in ids {
        assert!(!mp.is_empty());
        mp.remove(&id);
    }
    assert!(mp.is_empty());
}

#[test]
fn is_empty_sees_an_entry_in_the_last_partition() {
    let mut mp = TxHashMap::default();
    mp.insert(63, ());
    assert!(!mp.is_empty());
    mp.remove(&63);
    assert!(mp.is_empty());
}

#[test]
fn for_all_drain_visits_each_value_once() {
    let mut mp = TxHashMap::default();
    let n: i32 = 500;
    let mut id: i32 = 0;
    while id < n {
        assert_eq!(mp.insert(id - 250, id), None);
        id += 1;
    }
    let mut seen: Vec<i32> = Vec::new();
    mp.for_all_drain(|value| seen.push(value));
    assert_eq!(seen.len(), 500);
    seen.sort();
    let expected: Vec<i32> = (0..n).collect();
    assert_eq!(seen, expected);
    assert!(mp.is_empty());
    assert_eq!(mp.remove(&0), None);
}

#[test]
fn for_all_drain_of_an_empty_registry_visits_nothing() {
    let mut mp: TxHashMap<u8> = TxHashMap::default();
    let mut visits = 0;
    mp.for_all_drain(|_| visits += 1);
    assert_eq!(visits, 0);
    assert!(mp.is_empty());
}

#[test]
fn for_all_drain_skips_what_was_removed_before() {
    let mut mp = TxHashMap::default();
    mp.insert(1, 'a');
    mp.insert(2, 'b');
    mp.insert(65, 'c');
    assert_eq!(mp.remove(&2), Some('b'));
    let mut seen = Vec::new();
    mp.for_all_drain(|value| seen.push(value));
    seen.sort();
    assert_eq!(seen, vec!['a', 'c']);
}

#[test]
fn drain_lists_each_entry_once_partition_by_partition() {
    let mut mp = TxHashMap::default();
    mp.insert(65, "b");
    mp.insert(-1, "d");
    mp.insert(0, "a");
    mp.insert(2, "c");
    let items = mp.drain();
    assert_eq!(items, vec![(0, "a"), (65, "b"), (2, "c"), (-1, "d")]);
    assert!(mp.is_empty());
    assert_eq!(mp.drain(), vec![]);
}

#[test]
fn a_drained_registry_can_be_used_again() {
    let mut mp = TxHashMap::default();
    mp.insert(9, 1);
    assert_eq!(mp.drain(), vec![(9, 1)]);
    assert_eq!(mp.insert(9, 2), None);
    assert_eq!(mp.remove(&9), Some(2));
}

#[test]
fn shard_insert_stores_and_displaces() {
    let mut shard = Shard::new();
    assert!(shard.is_empty());
    assert_eq!(shard.insert(1, 10), None);
    assert!(!shard.is_empty());
    assert_eq!(shard.insert(1, 11), Some(10));
    assert_eq!(shard.insert(2, 20), None);
    assert_eq!(shard.remove(&1), Some(11));
    assert_eq!(shard.remove(&2), Some(20));
    assert!(shard.is_empty());
}

#[test]
fn shard_remove_takes_the_entry_out() {
    let mut shard = Shard::new();
    shard.insert(-5, 'x');
    assert_eq!(shard.remove(&-4), None);
    assert_eq!(shard.remove(&-5), Some('x'));
    assert_eq!(shard.remove(&-5), None);
    assert!(shard.is_empty());
}

#[test]
fn shard_drain_hands_out_every_entry_and_empties_the_shard() {
    let mut shard = Shard::new();
    shard.insert(3, "c");
    shard.insert(1, "a");
    shard.insert(2, "b");
    shard.insert(2, "bb");
    let mut items = shard.drain();
    items.sort();
    assert_eq!(items, vec![(1, "a"), (2, "bb"), (3, "c")]);
    assert!(shard.is_empty());
    assert_eq!(shard.remove(&1), None);
    assert_eq!(shard.drain(), vec![]);
}
