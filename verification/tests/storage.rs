use ersha::model::{
    DeviceId, DeviceStatus, DispatcherId, H3Cell, Percentage, ReadingId, SensorId, SensorMetric,
    SensorReading, StatusId, Timestamp,
};
use ersha::storage::{MemoryStorage, Migrator, schema_is_current, SCHEMA_V1_SQL};
use std::time::Duration;

fn reading(n: u128) -> SensorReading {
    SensorReading {
        id: ReadingId(n),
        device_id: DeviceId(1000 + n),
        dispatcher_id: DispatcherId(2000 + n),
        metric: SensorMetric::SoilMoisture { value: Percentage(42) },
        location: H3Cell(123),
        confidence: Percentage(95),
        timestamp: Timestamp { second: 1_700_000_000, nanosecond: 0 },
        sensor_id: SensorId(3000 + n),
    }
}

fn status(n: u128) -> DeviceStatus {
    DeviceStatus {
        id: StatusId(n),
        device_id: DeviceId(1000 + n),
        dispatcher_id: DispatcherId(2000 + n),
        battery_percent: Percentage(85),
        uptime_seconds: 3600,
        signal_rssi: -65,
        errors: vec![],
        timestamp: Timestamp { second: 1_700_000_000, nanosecond: 0 },
        sensor_statuses: vec![],
    }
}

fn check_memory_sensor_reading_lifecycle() {
    let mut storage = MemoryStorage::default();
    let r = reading(1);
    let id = r.id;
    storage.store_sensor_reading(r).unwrap();
    let pending = storage.fetch_pending_sensor_readings().unwrap();
    assert_eq!(pending.len(), 1);
    storage.mark_sensor_readings_uploaded(std::slice::from_ref(&id)).unwrap();
    let pending = storage.fetch_pending_sensor_readings().unwrap();
    assert_eq!(pending.len(), 0);
}

fn check_memory_device_status_lifecycle() {
    let mut storage = MemoryStorage::default();
    let s = status(1);
    let id = s.id;
    storage.store_device_status(s).unwrap();
    let pending = storage.fetch_pending_device_statuses().unwrap();
    assert_eq!(pending.len(), 1);
    storage.mark_device_statuses_uploaded(std::slice::from_ref(&id)).unwrap();
    let pending = storage.fetch_pending_device_statuses().unwrap();
    assert_eq!(pending.len(), 0);
}

fn check_memory_mixed_events() {
    let mut storage = MemoryStorage::default();
    storage.store_sensor_reading(reading(1)).unwrap();
    storage.store_device_status(status(1)).unwrap();
    assert_eq!(storage.fetch_pending_sensor_readings().unwrap().len(), 1);
    assert_eq!(storage.fetch_pending_device_statuses().unwrap().len(), 1);
}

fn check_memory_batch_sensor_readings() {
    let mut storage = MemoryStorage::default();
    storage.store_sensor_readings_batch(vec![reading(1), reading(2), reading(3)]).unwrap();
    assert_eq!(storage.fetch_pending_sensor_readings().unwrap().len(), 3);
}

fn check_memory_batch_device_statuses() {
    let mut storage = MemoryStorage::default();
    storage.store_device_statuses_batch(vec![status(1), status(2)]).unwrap();
    assert_eq!(storage.fetch_pending_device_statuses().unwrap().len(), 2);
}

fn check_memory_get_stats() {
    let mut storage = MemoryStorage::default();
    let stats = storage.get_stats().unwrap();
    assert_eq!(stats.sensor_readings_total, 0);
    assert_eq!(stats.device_statuses_total, 0);

    storage.store_sensor_reading(reading(1)).unwrap();
    storage.store_sensor_reading(reading(2)).unwrap();
    storage.store_device_status(status(1)).unwrap();

    let stats = storage.get_stats().unwrap();
    assert_eq!(stats.sensor_readings_total, 2);
    assert_eq!(stats.sensor_readings_pending, 2);
    assert_eq!(stats.sensor_readings_uploaded, 0);
    assert_eq!(stats.device_statuses_total, 1);
    assert_eq!(stats.device_statuses_pending, 1);
    assert_eq!(stats.device_statuses_uploaded, 0);

    let r = reading(3);
    let id = r.id;
    storage.store_sensor_reading(r).unwrap();
    storage.mark_sensor_readings_uploaded(std::slice::from_ref(&id)).unwrap();

    let stats = storage.get_stats().unwrap();
    assert_eq!(stats.sensor_readings_total, 3);
    assert_eq!(stats.sensor_readings_pending, 2);
    assert_eq!(stats.sensor_readings_uploaded, 1);
}

fn check_memory_cleanup_uploaded() {
    let mut storage = MemoryStorage::default();
    let r1 = reading(1);
    let r2 = reading(2);
    let r3 = reading(3);
    let id1 = r1.id;
    let id2 = r2.id;
    storage.store_sensor_reading(r1).unwrap();
    storage.store_sensor_reading(r2).unwrap();
    storage.store_sensor_reading(r3).unwrap();
    storage.store_device_status(status(1)).unwrap();
    storage.mark_sensor_readings_uploaded(&[id1, id2][..]).unwrap();

    let before = storage.get_stats().unwrap();
    assert_eq!(before.sensor_readings_total, 3);
    assert_eq!(before.sensor_readings_uploaded, 2);

    let cleanup = storage.cleanup_uploaded(Duration::ZERO).unwrap();
    assert_eq!(cleanup.sensor_readings_deleted, 2);
    assert_eq!(cleanup.device_statuses_deleted, 0);

    let after = storage.get_stats().unwrap();
    assert_eq!(after.sensor_readings_total, 1);
    assert_eq!(after.sensor_readings_pending, 1);
    assert_eq!(after.sensor_readings_uploaded, 0);
}

fn check_memory_zero_duration_cleanup() {
    let mut storage = MemoryStorage::default();
    let r = reading(1);
    let id = r.id;
    storage.store_sensor_reading(r).unwrap();
    storage.mark_sensor_readings_uploaded(std::slice::from_ref(&id)).unwrap();
    let cleanup = storage.cleanup_uploaded(Duration::ZERO).unwrap();
    assert_eq!(cleanup.sensor_readings_deleted, 1);
    assert_eq!(cleanup.device_statuses_deleted, 0);
    let stats = storage.get_stats().unwrap();
    assert_eq!(stats.sensor_readings_total, 0);
    assert_eq!(stats.sensor_readings_uploaded, 0);
}

#[test]
fn storing_again_replaces_and_makes_pending() {
    let mut storage = MemoryStorage::new();
    let r = reading(7);
    storage.store_sensor_reading(r).unwrap();
    storage.mark_sensor_readings_uploaded(&[r.id]).unwrap();
    assert_eq!(storage.fetch_pending_sensor_readings().unwrap().len(), 0);
    let mut changed = r;
    changed.confidence = Percentage(10);
    storage.store_sensor_reading(changed).unwrap();
    let pending = storage.fetch_pending_sensor_readings().unwrap();
    assert_eq!(pending, vec![changed]);
    assert_eq!(storage.get_stats().unwrap().sensor_readings_total, 1);
}

#[test]
fn marking_unknown_ids_changes_nothing() {
    let mut storage = MemoryStorage::new();
    storage.store_sensor_reading(reading(1)).unwrap();
    storage.mark_sensor_readings_uploaded(&[ReadingId(99)]).unwrap();
    storage.mark_sensor_readings_uploaded(&[]).unwrap();
    assert_eq!(storage.get_stats().unwrap().sensor_readings_pending, 1);
}

#[test]
fn pending_readings_keep_storage_order() {
    let mut storage = MemoryStorage::new();
    storage.store_sensor_readings_batch(vec![reading(3), reading(1), reading(2)]).unwrap();
    storage.mark_sensor_readings_uploaded(&[ReadingId(1)]).unwrap();
    let ids: Vec<u128> = storage
        .fetch_pending_sensor_readings()
        .unwrap()
        .iter()
        .map(|r| r.id.0)
        .collect();
    assert_eq!(ids, vec![3, 2]);
}

#[test]
fn status_cleanup_counts_statuses() {
    let mut storage = MemoryStorage::new();
    storage.store_device_statuses_batch(vec![status(1), status(2), status(3)]).unwrap();
    storage.mark_device_statuses_uploaded(&[StatusId(2), StatusId(3)]).unwrap();
    let cleanup = storage.cleanup_uploaded(Duration::from_secs(60)).unwrap();
    assert_eq!(cleanup.device_statuses_deleted, 2);
    assert_eq!(cleanup.sensor_readings_deleted, 0);
    let left = storage.fetch_pending_device_statuses().unwrap();
    assert_eq!(left.len(), 1);
    assert_eq!(left[0].id, StatusId(1));
}

#[test]
fn migrations_pending_by_version() {
    assert_eq!(Migrator::pending(0).len(), 1);
    assert_eq!(Migrator::pending(0)[0].version, 1);
    assert_eq!(Migrator::pending(1).len(), 0);
    assert_eq!(Migrator::version_from_row(None), 0);
    assert_eq!(Migrator::version_from_row(Some(1)), 1);
    assert!(schema_is_current(1));
    assert!(!schema_is_current(0));
}

#[test]
fn the_first_migration_creates_both_tables_and_their_indexes() {
    let all = Migrator::migrations();
    assert_eq!(all.len(), 1);
    assert_eq!(all[0].sql, SCHEMA_V1_SQL);
    for part in [
        "CREATE TABLE IF NOT EXISTS sensor_readings",
        "CREATE TABLE IF NOT EXISTS device_statuses",
        "state TEXT NOT NULL CHECK (state IN ('pending', 'uploaded'))",
        "CREATE INDEX IF NOT EXISTS idx_sensor_readings_state",
        "CREATE INDEX IF NOT EXISTS idx_device_statuses_uploaded_at",
    ] {
        assert!(all[0].sql.contains(part), "missing: {}", part);
    }
    assert_eq!(Migrator::pending(0)[0].sql, SCHEMA_V1_SQL);
}

#[test]
fn memory_memory_sensor_reading_lifecycle() {
    check_memory_sensor_reading_lifecycle();
}

#[test]
fn storage_memory_memory_sensor_reading_lifecycle() {
    check_memory_sensor_reading_lifecycle();
}

#[test]
fn memory_memory_device_status_lifecycle() {
    check_memory_device_status_lifecycle();
}

#[test]
fn storage_memory_memory_device_status_lifecycle() {
    check_memory_device_status_lifecycle();
}

#[test]
fn memory_memory_mixed_events() {
    check_memory_mixed_events();
}

#[test]
fn storage_memory_memory_mixed_events() {
    check_memory_mixed_events();
}

#[test]
fn memory_memory_batch_sensor_readings() {
    check_memory_batch_sensor_readings();
}

#[test]
fn storage_memory_memory_batch_sensor_readings() {
    check_memory_batch_sensor_readings();
}

#[test]
fn memory_memory_batch_device_statuses() {
    check_memory_batch_device_statuses();
}

#[test]
fn storage_memory_memory_batch_device_statuses() {
    check_memory_batch_device_statuses();
}

#[test]
fn memory_memory_get_stats() {
    check_memory_get_stats();
}

#[test]
fn storage_memory_memory_get_stats() {
    check_memory_get_stats();
}

#[test]
fn memory_memory_cleanup_uploaded() {
    check_memory_cleanup_uploaded();
}

#[test]
fn storage_memory_memory_cleanup_uploaded() {
    check_memory_cleanup_uploaded();
}

#[test]
fn memory_memory_zero_duration_cleanup() {
    check_memory_zero_duration_cleanup();
}

#[test]
fn storage_memory_memory_zero_duration_cleanup() {
    check_memory_zero_duration_cleanup();
}
