use taskmeister::text_map::TextMap;

#[test]
fn empty_table_holds_nothing() {
    let table: TextMap<u32> = TextMap::new();
    assert_eq!(table.len(), 0);
    assert!(!table.contains("a"));
    assert!(table.get("a").is_none());
    assert!(table.position("a").is_none());
}

#[test]
fn insert_files_and_replaces() {
    let mut table: TextMap<u32> = TextMap::new();
    assert_eq!(table.insert("a".to_string(), 1), None);
    assert_eq!(table.insert("b".to_string(), 2), None);
    assert_eq!(table.insert("a".to_string(), 3), Some(1));
    assert_eq!(table.len(), 2);
    assert_eq!(table.get("a"), Some(&3));
    assert_eq!(table.get("b"), Some(&2));
    assert_eq!(table.position("b"), Some(1));
    assert_eq!(table.alias_at(0), "a");
    assert_eq!(*table.value_at(1), 2);
}

#[test]
fn remove_takes_out_one_entry() {
    let mut table: TextMap<u32> = TextMap::new();
    table.insert("a".to_string(), 1);
    table.insert("b".to_string(), 2);
    table.insert("c".to_string(), 3);
    assert_eq!(table.remove("b"), Some(2));
    assert_eq!(table.remove("b"), None);
    assert_eq!(table.keys(), vec!["a".to_string(), "c".to_string()]);
    assert_eq!(table.get("c"), Some(&3));
}

#[test]
fn set_at_replaces_value_in_place() {
    let mut table: TextMap<u32> = TextMap::new();
    table.insert("a".to_string(), 1);
    table.insert("b".to_string(), 2);
    assert_eq!(table.set_at(0, 10), 1);
    assert_eq!(table.get("a"), Some(&10));
    assert_eq!(table.keys(), vec!["a".to_string(), "b".to_string()]);
    let entries = table.into_entries();
    assert_eq!(entries, vec![("a".to_string(), 10), ("b".to_string(), 2)]);
}
