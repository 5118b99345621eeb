use multisweeper::ws::table::Table;

fn keys(table: &Table<u32>) -> Vec<String> {
    (0..table.len()).map(|i| table.key_at(i).clone()).collect()
}

#[test]
fn a_new_table_is_empty() {
    let table: Table<u32> = Table::new();
    assert_eq!(table.len(), 0);
    assert_eq!(table.get(&"a".to_string()), None);
    assert!(!table.contains_key(&"a".to_string()));
    assert_eq!(table.position(&"a".to_string()), None);
}

#[test]
fn entries_keep_the_order_of_their_first_insert() {
    let mut table: Table<u32> = Table::new();
    assert_eq!(table.insert("b".to_string(), 2), None);
    assert_eq!(table.insert("a".to_string(), 1), None);
    assert_eq!(table.insert("c".to_string(), 3), None);
    assert_eq!(keys(&table), vec!["b", "a", "c"]);
    assert_eq!(table.insert("a".to_string(), 10), Some(1));
    assert_eq!(keys(&table), vec!["b", "a", "c"]);
    assert_eq!(table.get(&"a".to_string()), Some(&10));
    assert_eq!(table.get(&"b".to_string()), Some(&2));
    assert_eq!(table.position(&"c".to_string()), Some(2));
    assert_eq!(table.len(), 3);
}

#[test]
fn removing_keeps_the_order_of_the_rest() {
    let mut table: Table<u32> = Table::new();
    for (n, key) in ["a", "b", "c", "d"].iter().enumerate() {
        table.insert(key.to_string(), n as u32);
    }
    assert_eq!(table.remove(&"b".to_string()), Some(1));
    assert_eq!(keys(&table), vec!["a", "c", "d"]);
    assert_eq!(table.remove(&"b".to_string()), None);
    assert_eq!(table.remove(&"zz".to_string()), None);
    assert_eq!(table.remove(&"d".to_string()), Some(3));
    assert_eq!(table.remove(&"a".to_string()), Some(0));
    assert_eq!(keys(&table), vec!["c"]);
    assert_eq!(table.get(&"c".to_string()), Some(&2));
    assert!(table.contains_key(&"c".to_string()));
    assert!(!table.contains_key(&"a".to_string()));
}

#[test]
fn keys_are_compared_by_their_text() {
    let mut table: Table<u32> = Table::new();
    table.insert(String::new(), 0);
    table.insert("player 1".to_string(), 1);
    table.insert("player 10".to_string(), 10);
    assert_eq!(table.get(&"player 1".to_string()), Some(&1));
    assert_eq!(table.get(&"player 10".to_string()), Some(&10));
    assert_eq!(table.get(&String::new()), Some(&0));
    assert_eq!(table.get(&"player".to_string()), None);
}
