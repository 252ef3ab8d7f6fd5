use host_telemetry::snapshot::{
    build_table, skipped_labels, ComponentReading, Snapshot, AVAILABLE_MEMORY, CPU_USAGE,
    FREE_MEMORY, TOTAL_MEMORY, USED_MEMORY,
};
use host_telemetry::table::{Table, Value};

fn component(label: &str, temperature: Option<f32>) -> ComponentReading {
    ComponentReading { label: label.to_string(), temperature: temperature.map(f32::to_bits) }
}

fn snapshot(free_memory: Option<u64>, components: Vec<ComponentReading>) -> Snapshot {
    Snapshot {
        cpu_usage: 42.5f32.to_bits(),
        used_memory: 1000,
        total_memory: 2000,
        available_memory: 1500,
        free_memory,
        components,
    }
}

fn keys(table: &Table) -> Vec<String> {
    table.entries().iter().map(|e| e.key.clone()).collect()
}

fn float(table: &Table, key: &str) -> Option<f32> {
    match table.get(key) {
        Some(Value::Float(bits)) => Some(f32::from_bits(bits)),
        _ => None,
    }
}

#[test]
fn key_names() {
    assert_eq!(CPU_USAGE, "cpu usage");
    assert_eq!(USED_MEMORY, "used memory");
    assert_eq!(TOTAL_MEMORY, "total memory");
    assert_eq!(AVAILABLE_MEMORY, "available memory");
    assert_eq!(FREE_MEMORY, "free memory");
}

#[test]
fn fixed_readings_and_one_reporting_component() {
    let s = snapshot(None, vec![component("CPU", Some(55.0)), component("GPU", None)]);
    let table = build_table(&s);
    assert_eq!(table.len(), 5);
    assert_eq!(
        keys(&table),
        vec!["cpu usage", "used memory", "total memory", "available memory", "CPU"]
    );
    assert_eq!(float(&table, "cpu usage"), Some(42.5));
    assert_eq!(table.get("used memory"), Some(Value::Integer(1000)));
    assert_eq!(table.get("total memory"), Some(Value::Integer(2000)));
    assert_eq!(table.get("available memory"), Some(Value::Integer(1500)));
    assert_eq!(float(&table, "CPU"), Some(55.0));
    assert!(!table.contains_key("GPU"));
    assert_eq!(table.get("GPU"), None);
    assert!(!table.contains_key("free memory"));
}

#[test]
fn free_memory_is_written_where_reported() {
    let s = snapshot(Some(700), vec![]);
    let table = build_table(&s);
    assert_eq!(
        keys(&table),
        vec!["cpu usage", "used memory", "total memory", "available memory", "free memory"]
    );
    assert_eq!(table.get("free memory"), Some(Value::Integer(700)));
}

#[test]
fn no_components_gives_the_fixed_keys_only() {
    let table = build_table(&snapshot(None, vec![]));
    assert_eq!(table.len(), 4);
    assert_eq!(float(&table, "cpu usage"), Some(42.5));
}

#[test]
fn components_come_after_the_fixed_keys_in_order() {
    let s = snapshot(
        Some(1),
        vec![
            component("nvme", Some(30.5)),
            component("acpitz", None),
            component("coretemp Core 0", Some(61.0)),
        ],
    );
    let table = build_table(&s);
    assert_eq!(
        keys(&table),
        vec![
            "cpu usage",
            "used memory",
            "total memory",
            "available memory",
            "free memory",
            "nvme",
            "coretemp Core 0"
        ]
    );
    assert_eq!(float(&table, "nvme"), Some(30.5));
    assert_eq!(float(&table, "coretemp Core 0"), Some(61.0));
}

#[test]
fn a_repeated_label_keeps_the_last_temperature() {
    let s = snapshot(
        None,
        vec![
            component("core", Some(40.0)),
            component("fan", Some(20.0)),
            component("core", Some(45.0)),
            component("core", None),
        ],
    );
    let table = build_table(&s);
    assert_eq!(table.len(), 6);
    assert_eq!(float(&table, "core"), Some(45.0));
    assert_eq!(float(&table, "fan"), Some(20.0));
    assert_eq!(
        keys(&table),
        vec!["cpu usage", "used memory", "total memory", "available memory", "core", "fan"]
    );
}

#[test]
fn a_component_named_like_a_fixed_key_overwrites_it() {
    let s = snapshot(None, vec![component("used memory", Some(33.0))]);
    let table = build_table(&s);
    assert_eq!(table.len(), 4);
    assert_eq!(float(&table, "used memory"), Some(33.0));
    assert_eq!(
        keys(&table),
        vec!["cpu usage", "used memory", "total memory", "available memory"]
    );
}

#[test]
fn a_silent_component_named_like_a_fixed_key_changes_nothing() {
    let s = snapshot(None, vec![component("total memory", None)]);
    let table = build_table(&s);
    assert_eq!(table.get("total memory"), Some(Value::Integer(2000)));
    assert_eq!(table.len(), 4);
}

#[test]
fn temperatures_pass_through_bit_for_bit() {
    let nan = f32::NAN.to_bits();
    let s = Snapshot {
        cpu_usage: (-0.0f32).to_bits(),
        used_memory: 0,
        total_memory: u64::MAX,
        available_memory: 0,
        free_memory: Some(u64::MAX),
        components: vec![ComponentReading { label: "x".to_string(), temperature: Some(nan) }],
    };
    let table = build_table(&s);
    assert_eq!(table.get("cpu usage"), Some(Value::Float(0x8000_0000)));
    assert_eq!(table.get("x"), Some(Value::Float(nan)));
    assert_eq!(table.get("total memory"), Some(Value::Integer(u64::MAX)));
    assert_eq!(table.get("free memory"), Some(Value::Integer(u64::MAX)));
}

#[test]
fn each_table_is_built_from_its_own_snapshot() {
    let first = snapshot(
        Some(9),
        vec![component("CPU", Some(55.0)), component("GPU", Some(70.0))],
    );
    let second = snapshot(None, vec![component("CPU", Some(56.0)), component("GPU", None)]);
    let third = snapshot(None, vec![component("CPU", Some(57.0))]);
    let t1 = build_table(&first);
    let t2 = build_table(&second);
    let t3 = build_table(&third);
    assert!(t1.contains_key("GPU"));
    assert!(t1.contains_key("free memory"));
    assert!(!t2.contains_key("GPU"));
    assert!(!t2.contains_key("free memory"));
    assert!(!t3.contains_key("GPU"));
    assert_eq!(float(&t2, "CPU"), Some(56.0));
    assert_eq!(float(&t3, "CPU"), Some(57.0));
    assert_eq!(t2.len(), 5);
    assert_eq!(t3.len(), 5);
    // The earlier table is untouched by the later ones.
    assert_eq!(float(&t1, "GPU"), Some(70.0));
    assert_eq!(t1.len(), 7);
}

#[test]
fn building_twice_from_one_snapshot_gives_equal_tables() {
    let s = snapshot(Some(3), vec![component("a", Some(1.0)), component("b", None)]);
    let t1 = build_table(&s);
    let t2 = build_table(&s);
    assert_eq!(keys(&t1), keys(&t2));
    for entry in t1.entries() {
        assert_eq!(t2.get(&entry.key), Some(entry.value));
    }
}

#[test]
fn skipped_labels_are_those_without_a_temperature() {
    let s = snapshot(
        None,
        vec![
            component("CPU", Some(55.0)),
            component("GPU", None),
            component("nvme", None),
            component("fan", Some(1.0)),
            component("GPU", None),
        ],
    );
    assert_eq!(skipped_labels(&s), vec!["GPU", "nvme", "GPU"]);
    assert!(skipped_labels(&snapshot(None, vec![])).is_empty());
    assert!(skipped_labels(&snapshot(None, vec![component("CPU", Some(1.0))])).is_empty());
}
