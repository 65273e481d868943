use seat_sync::text_map::TextMap;

#[test]
fn insert_keeps_the_order_of_first_insertion() {
    let mut map: TextMap<u32> = TextMap::new();
    assert_eq!(map.len(), 0);
    assert_eq!(map.insert("b".to_string(), 1), None);
    assert_eq!(map.insert("a".to_string(), 2), None);
    assert_eq!(map.insert("c".to_string(), 3), None);
    assert_eq!(map.insert("a".to_string(), 20), Some(2));
    assert_eq!(map.len(), 3);
    assert_eq!(map.key_at(0), "b");
    assert_eq!(map.key_at(1), "a");
    assert_eq!(map.key_at(2), "c");
    assert_eq!(*map.value_at(1), 20);
    assert_eq!(map.get("a"), Some(&20));
    assert_eq!(map.get("z"), None);
    assert_eq!(map.find("c"), Some(2));
    assert!(map.contains_key("b"));
    assert!(!map.contains_key(""));
}

#[test]
fn insert_replaces_the_last_entry_in_place() {
    let mut map: TextMap<u32> = TextMap::new();
    map.insert("a".to_string(), 1);
    map.insert("b".to_string(), 2);
    assert_eq!(map.insert("b".to_string(), 3), Some(2));
    assert_eq!(map.len(), 2);
    assert_eq!(map.key_at(1), "b");
    assert_eq!(*map.value_at(1), 3);
    assert_eq!(map.insert("a".to_string(), 4), Some(1));
    assert_eq!(map.key_at(0), "a");
    assert_eq!(*map.value_at(0), 4);
    assert_eq!(*map.value_at(1), 3);
}

#[test]
fn remove_keeps_the_order_of_the_rest() {
    let mut map: TextMap<&'static str> = TextMap::new();
    map.insert("1".to_string(), "one");
    map.insert("2".to_string(), "two");
    map.insert("3".to_string(), "three");
    assert_eq!(map.remove("2"), Some("two"));
    assert_eq!(map.remove("2"), None);
    assert_eq!(map.len(), 2);
    assert_eq!(map.key_at(0), "1");
    assert_eq!(map.key_at(1), "3");
    assert_eq!(*map.value_at(1), "three");
    assert_eq!(map.remove("1"), Some("one"));
    assert_eq!(map.remove("3"), Some("three"));
    assert_eq!(map.len(), 0);
}

#[test]
fn set_value_at_replaces_one_value() {
    let mut map: TextMap<u8> = TextMap::new();
    map.insert("x".to_string(), 1);
    map.insert("y".to_string(), 2);
    map.insert("z".to_string(), 3);
    assert_eq!(map.set_value_at(0, 10), 1);
    assert_eq!(map.set_value_at(2, 30), 3);
    assert_eq!(map.set_value_at(1, 20), 2);
    assert_eq!(map.key_at(0), "x");
    assert_eq!(map.key_at(1), "y");
    assert_eq!(map.key_at(2), "z");
    assert_eq!((*map.value_at(0), *map.value_at(1), *map.value_at(2)), (10, 20, 30));
}
