use icu_provider_core::zeromap::ZeroMap;

#[test]
fn zeromap_get_and_insert() {
    let mut map: ZeroMap<u32, String> = ZeroMap::new();
    assert!(map.is_empty());
    assert_eq!(map.insert(2, "two".to_owned()), None);
    assert_eq!(map.insert(1, "one".to_owned()), None);
    assert_eq!(map.len(), 2);
    assert_eq!(map.get(&1).map(|s| s.as_str()), Some("one"));
    assert_eq!(map.get(&3), None);
    assert_eq!(map.insert(1, "uno".to_owned()), Some("one".to_owned()));
    assert_eq!(map.get(&1).map(|s| s.as_str()), Some("uno"));
    assert_eq!(map.keys(), vec![1, 2]);
}

#[test]
fn zeromap_contains_and_remove() {
    let mut map: ZeroMap<u32, String> = ZeroMap::with_capacity(4);
    map.insert(1, "one".to_owned());
    map.insert(2, "two".to_owned());
    assert!(map.contains_key(&1));
    assert!(!map.contains_key(&3));
    assert_eq!(map.remove(&1), Some("one".to_owned()));
    assert_eq!(map.get(&1), None);
    assert_eq!(map.remove(&1), None);
    map.reserve(10);
    assert_eq!(map.len(), 1);
    map.clear();
    assert!(map.is_empty());
}

#[test]
fn zeromap_try_append() {
    let mut map: ZeroMap<u32, String> = ZeroMap::new();
    assert!(map.try_append(1, "uno".to_owned()).is_none());
    assert!(map.try_append(3, "tres".to_owned()).is_none());
    let unsuccessful = map.try_append(3, "tres-updated".to_owned());
    assert_eq!(unsuccessful, Some((3, "tres-updated".to_owned())));
    let unsuccessful = map.try_append(2, "dos".to_owned());
    assert!(unsuccessful.is_some());
    assert_eq!(map.get(&1).map(|s| s.as_str()), Some("uno"));
    assert_eq!(map.get(&3).map(|s| s.as_str()), Some("tres"));
    assert_eq!(map.get(&2), None);
}

#[test]
fn zeromap_from_pairs_keeps_last() {
    let map = ZeroMap::from_pairs(vec![(5u32, 'a'), (1, 'b'), (5, 'c'), (3, 'd')]);
    assert_eq!(map.keys(), vec![1, 3, 5]);
    assert_eq!(map.get(&5), Some(&'c'));
}
