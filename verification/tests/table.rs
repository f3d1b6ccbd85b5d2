use kv_router::membership::{gate_sources, KvEventSource, KvSourceStatus};
use kv_router::protocols::WorkerWithDpRank;
use kv_router::table::Table;

#[test]
fn table_holds_one_value_per_key() {
    let mut table: Table<u64, &str> = Table::default();
    assert_eq!(table.insert(1, "a"), None);
    assert_eq!(table.insert(2, "b"), None);
    assert_eq!(table.insert(1, "c"), Some("a"));
    assert_eq!(table.len(), 2);
    assert_eq!(table.get(&1), Some(&"c"));
    assert!(table.contains_key(&2));
    assert_eq!(table.remove(&2), Some("b"));
    assert_eq!(table.remove(&2), None);
    assert_eq!(table.keys(), vec![1]);
    assert_eq!(table.key_at(0), 1);
    assert_eq!(table.value_at(0), &"c");
}

#[test]
fn readiness_never_adds_a_source() {
    let worker = WorkerWithDpRank::new(1, 0);
    let other = WorkerWithDpRank::new(2, 0);
    let source = KvEventSource {
        kv_state_endpoint: 1,
        worker,
        publisher_id: 10,
        recovery_target: Some(3),
    };
    let mut sources = Table::new();
    sources.insert(worker, KvSourceStatus::ActiveRecoverable(source));
    sources.insert(other, KvSourceStatus::Suppressed);
    let closed = gate_sources(&sources, &vec![]);
    assert_eq!(closed.get(&worker), Some(&KvSourceStatus::Missing));
    assert_eq!(closed.get(&other), Some(&KvSourceStatus::Suppressed));
    let open = gate_sources(&sources, &vec![source.source_id()]);
    assert_eq!(
        open.get(&worker),
        Some(&KvSourceStatus::ActiveRecoverable(source))
    );
    let mut foreign = source.source_id();
    foreign.worker = other;
    assert_eq!(
        gate_sources(&sources, &vec![foreign]).get(&other),
        Some(&KvSourceStatus::Suppressed)
    );
}
