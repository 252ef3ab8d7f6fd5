use host_telemetry::sampler::Sampler;
use host_telemetry::snapshot::build_table;
use host_telemetry::table::Value;

#[test]
fn a_snapshot_mirrors_the_refreshed_handles() {
    let mut sampler = Sampler::new();
    let snapshot = sampler.sample();
    let consistent = sampler.system.available_memory() <= sampler.system.total_memory();
    assert_eq!(snapshot.is_some(), consistent);
    if let Some(snapshot) = snapshot {
        assert_eq!(snapshot.cpu_usage, sampler.system.global_cpu_usage().to_bits());
        assert_eq!(snapshot.total_memory, sampler.system.total_memory());
        assert_eq!(snapshot.available_memory, sampler.system.available_memory());
        assert_eq!(snapshot.used_memory, sampler.system.used_memory());
        assert_eq!(snapshot.free_memory, Some(sampler.system.free_memory()));
        let list = sampler.components.list();
        assert_eq!(snapshot.components.len(), list.len());
        for (reading, component) in snapshot.components.iter().zip(list.iter()) {
            assert_eq!(reading.label, component.label());
            assert_eq!(reading.temperature, component.temperature().map(f32::to_bits));
        }
    }
}

#[test]
fn sampling_again_refreshes_again() {
    let mut sampler = Sampler::new();
    let _ = sampler.sample();
    let second = sampler.sample();
    if let Some(snapshot) = second {
        assert_eq!(snapshot.total_memory, sampler.system.total_memory());
        assert_eq!(snapshot.cpu_usage, sampler.system.global_cpu_usage().to_bits());
        assert_eq!(snapshot.components.len(), sampler.components.list().len());
    }
}

#[test]
fn a_sampled_snapshot_builds_a_table() {
    let mut sampler = Sampler::new();
    if let Some(snapshot) = sampler.sample() {
        let table = build_table(&snapshot);
        assert!(table.len() >= 5);
        assert_eq!(table.entries()[0].key, "cpu usage");
        assert_eq!(table.entries()[1].key, "used memory");
        assert_eq!(table.entries()[2].key, "total memory");
        assert_eq!(table.entries()[3].key, "available memory");
        assert_eq!(table.entries()[4].key, "free memory");
        assert_eq!(table.entries()[1].value, Value::Integer(snapshot.used_memory));
        assert_eq!(table.entries()[2].value, Value::Integer(snapshot.total_memory));
    }
}

#[test]
fn a_new_sampler_has_nothing_loaded() {
    let sampler = Sampler::new();
    assert_eq!(sampler.system.global_cpu_usage().to_bits(), 0);
    assert_eq!(sampler.system.total_memory(), 0);
    assert_eq!(sampler.system.available_memory(), 0);
    assert_eq!(sampler.system.free_memory(), 0);
    assert_eq!(sampler.system.used_memory(), 0);
    assert!(sampler.components.list().is_empty());
}
