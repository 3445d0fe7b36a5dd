use order_ledger::byte_map::ByteMap;
use order_ledger::bytes::{bytes_eq, copy_bytes};

#[test]
fn byte_map_keeps_the_last_value_of_a_key() {
    let mut map: ByteMap<u64> = ByteMap::new();
    assert_eq!(map.get(&vec![1]), None);
    map.insert(vec![1], 10);
    map.insert(vec![2], 20);
    map.insert(vec![1], 11);
    assert_eq!(map.get(&vec![1]), Some(&11));
    assert_eq!(map.get(&vec![2]), Some(&20));
    assert_eq!(map.get(&vec![3]), None);
    assert_eq!(map.get(&vec![]), None);
}

#[test]
fn byte_map_tells_keys_apart_by_every_byte() {
    let mut map: ByteMap<u64> = ByteMap::new();
    map.insert(vec![], 0);
    map.insert(vec![0], 1);
    map.insert(vec![0, 0], 2);
    assert_eq!(map.get(&vec![]), Some(&0));
    assert_eq!(map.get(&vec![0]), Some(&1));
    assert_eq!(map.get(&vec![0, 0]), Some(&2));
    assert_eq!(map.get(&vec![0, 0, 0]), None);
}

#[test]
fn byte_map_lists_each_key_once() {
    let mut map: ByteMap<u64> = ByteMap::new();
    assert_eq!(map.keys(), Vec::<Vec<u8>>::new());
    map.insert(vec![2], 20);
    map.insert(vec![1], 10);
    map.insert(vec![2], 21);
    let mut keys = map.keys();
    keys.sort();
    assert_eq!(keys, vec![vec![1u8], vec![2u8]]);
}

#[test]
fn bytes_are_compared_and_copied_whole() {
    let bytes: Vec<u8> = vec![1, 2, 3];
    assert_eq!(copy_bytes(&bytes), vec![1u8, 2, 3]);
    assert_eq!(copy_bytes(&vec![]), Vec::<u8>::new());
    assert!(bytes_eq(&bytes, &copy_bytes(&bytes)));
    assert!(bytes_eq(&vec![], &vec![]));
    assert!(!bytes_eq(&bytes, &vec![1, 2]));
    assert!(!bytes_eq(&bytes, &vec![1, 2, 4]));
    assert!(!bytes_eq(&bytes, &vec![1, 2, 3, 0]));
}
