use host_telemetry::table::{Table, Value};

#[test]
fn new_table_is_empty() {
    let table = Table::new();
    assert_eq!(table.len(), 0);
    assert!(table.entries().is_empty());
    assert_eq!(table.get("cpu usage"), None);
    assert!(!table.contains_key("cpu usage"));
}

#[test]
fn insert_appends_a_new_key() {
    let mut table = Table::new();
    assert_eq!(table.insert("a".to_string(), Value::Integer(1)), None);
    assert_eq!(table.insert("b".to_string(), Value::Float(2.5f32.to_bits())), None);
    assert_eq!(table.len(), 2);
    assert_eq!(table.get("a"), Some(Value::Integer(1)));
    assert_eq!(table.get("b"), Some(Value::Float(2.5f32.to_bits())));
    assert!(table.contains_key("a"));
    assert!(table.contains_key("b"));
    assert!(!table.contains_key("c"));
    assert_eq!(table.get("c"), None);
}

#[test]
fn insert_replaces_in_place_and_returns_the_old_value() {
    let mut table = Table::new();
    table.insert("a".to_string(), Value::Integer(1));
    table.insert("b".to_string(), Value::Integer(2));
    table.insert("c".to_string(), Value::Integer(3));
    let previous = table.insert("b".to_string(), Value::Integer(20));
    assert_eq!(previous, Some(Value::Integer(2)));
    assert_eq!(table.len(), 3);
    assert_eq!(table.get("b"), Some(Value::Integer(20)));
    assert_eq!(table.get("a"), Some(Value::Integer(1)));
    assert_eq!(table.get("c"), Some(Value::Integer(3)));
    let keys: Vec<&str> = table.entries().iter().map(|e| e.key.as_str()).collect();
    assert_eq!(keys, vec!["a", "b", "c"]);
}

#[test]
fn entries_keep_first_insertion_order() {
    let mut table = Table::new();
    table.insert("zeta".to_string(), Value::Integer(1));
    table.insert("alpha".to_string(), Value::Integer(2));
    table.insert("mid".to_string(), Value::Integer(3));
    table.insert("alpha".to_string(), Value::Integer(4));
    let entries = table.entries();
    assert_eq!(entries.len(), 3);
    assert_eq!(entries[0].key, "zeta");
    assert_eq!(entries[0].value, Value::Integer(1));
    assert_eq!(entries[1].key, "alpha");
    assert_eq!(entries[1].value, Value::Integer(4));
    assert_eq!(entries[2].key, "mid");
    assert_eq!(entries[2].value, Value::Integer(3));
}

#[test]
fn keys_are_compared_exactly() {
    let mut table = Table::new();
    table.insert("CPU".to_string(), Value::Integer(1));
    table.insert("cpu".to_string(), Value::Integer(2));
    table.insert("".to_string(), Value::Integer(3));
    assert_eq!(table.len(), 3);
    assert_eq!(table.get("CPU"), Some(Value::Integer(1)));
    assert_eq!(table.get("cpu"), Some(Value::Integer(2)));
    assert_eq!(table.get(""), Some(Value::Integer(3)));
    assert_eq!(table.get("Cpu"), None);
}

#[test]
fn float_and_integer_values_differ() {
    assert_ne!(Value::Float(1), Value::Integer(1));
    assert_eq!(Value::Float(55.0f32.to_bits()), Value::Float(0x425c_0000));
}
