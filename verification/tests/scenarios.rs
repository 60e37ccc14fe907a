//! End-to-end scenarios through the two handlers, on concrete values.
use energy_events::aggregate::handle_measurement_delivery;
use energy_events::calendar::{Date, Timestamp};
use energy_events::consumer::Disposition;
use energy_events::envelope::{MeasurementMessage, SyncEnvelope};
use energy_events::store::{consumption_points, MonitorStore};
use energy_events::sync::handle_sync_delivery;

fn ts(year: u16, month: u8, day: u8, hour: u8, minute: u8, second: u8) -> Timestamp {
    Timestamp {
        date: Date { year, month, day },
        hour,
        minute,
        second,
    }
}

const D1: u128 = 0x123e4567e89b12d3a456426614174000;

#[test]
fn single_measurement_fills_its_hour_bucket() {
    // publish one 0.42-unit reading at 2024-01-01T10:15:00Z
    let mut store = MonitorStore::new();
    let m = MeasurementMessage {
        device_id: D1,
        timestamp: ts(2024, 1, 1, 10, 15, 0),
        value_micro: 420_000,
    };
    let now = ts(2024, 1, 1, 10, 16, 0);
    let disposition = handle_measurement_delivery(&mut store, Some(m), now);
    assert_eq!(disposition, Disposition::Ack);

    let day = Date { year: 2024, month: 1, day: 1 };
    let points = consumption_points(&store, D1, day);
    assert_eq!(points.len(), 24);
    assert_eq!(points[10].hour, 10);
    assert_eq!(points[10].value_micro, 420_000);
    for h in 0..24 {
        if h != 10 {
            assert_eq!(points[h].value_micro, 0);
        }
    }
}

#[test]
fn same_hour_twice_accumulates_instead_of_overwriting() {
    // 0.30 then 0.20 for the same device and hour total 0.50, not 0.20
    let mut store = MonitorStore::new();
    let day = Date { year: 2024, month: 3, day: 5 };
    let first = MeasurementMessage {
        device_id: D1,
        timestamp: ts(2024, 3, 5, 7, 0, 0),
        value_micro: 300_000,
    };
    let second = MeasurementMessage {
        device_id: D1,
        timestamp: ts(2024, 3, 5, 7, 45, 12),
        value_micro: 200_000,
    };
    let now = ts(2024, 3, 5, 8, 0, 0);
    assert_eq!(
        handle_measurement_delivery(&mut store, Some(first), now),
        Disposition::Ack
    );
    assert_eq!(
        handle_measurement_delivery(&mut store, Some(second), now),
        Disposition::Ack
    );

    let points = consumption_points(&store, D1, day);
    assert_eq!(points[7].value_micro, 500_000);
}

#[test]
fn accumulation_is_order_independent() {
    let day = Date { year: 2024, month: 3, day: 5 };
    let now = ts(2024, 3, 5, 8, 0, 0);
    let a = MeasurementMessage {
        device_id: D1,
        timestamp: ts(2024, 3, 5, 7, 0, 0),
        value_micro: 300_000,
    };
    let b = MeasurementMessage {
        device_id: D1,
        timestamp: ts(2024, 3, 5, 7, 30, 0),
        value_micro: 200_000,
    };

    let mut one = MonitorStore::new();
    handle_measurement_delivery(&mut one, Some(a), now);
    handle_measurement_delivery(&mut one, Some(b), now);

    let mut other = MonitorStore::new();
    handle_measurement_delivery(&mut other, Some(b), now);
    handle_measurement_delivery(&mut other, Some(a), now);

    assert_eq!(
        consumption_points(&one, D1, day)[7].value_micro,
        consumption_points(&other, D1, day)[7].value_micro
    );
    assert_eq!(consumption_points(&one, D1, day)[7].value_micro, 500_000);
}

#[test]
fn deleted_envelope_removes_the_directory_row() {
    // a DEVICE_DELETED envelope carrying only the device_id removes the row
    let mut store = MonitorStore::new();
    let now = ts(2024, 6, 1, 0, 0, 0);
    let created = SyncEnvelope::device_event(
        b"DEVICE_CREATED".to_vec(),
        D1,
        7,
        b"meter".to_vec(),
        2000,
        b"{}".to_vec(),
    );
    assert_eq!(
        handle_sync_delivery(&mut store, Some(created), now),
        Disposition::Ack
    );
    assert!(store.contains_device(D1));

    let deleted = SyncEnvelope::device_deleted(D1);
    assert!(deleted.payload.is_none());
    assert_eq!(
        handle_sync_delivery(&mut store, Some(deleted), now),
        Disposition::Ack
    );
    assert!(!store.contains_device(D1));
}

#[test]
fn measurement_before_lifecycle_event_creates_placeholder() {
    // out-of-order arrival: the reading lands before DEVICE_CREATED
    let mut store = MonitorStore::new();
    let t1 = ts(2024, 6, 2, 9, 0, 0);
    let m = MeasurementMessage {
        device_id: D1,
        timestamp: ts(2024, 6, 2, 8, 59, 0),
        value_micro: 150_000,
    };
    assert_eq!(
        handle_measurement_delivery(&mut store, Some(m), t1),
        Disposition::Ack
    );
    assert!(store.contains_device(D1));
    assert_eq!(store.devices.len(), 1);
    assert_eq!(store.devices[0].name, b"Unknown device".to_vec());
    assert_eq!(store.devices[0].user_id, None);
    assert_eq!(store.devices[0].max_consumption, None);

    // the authoritative event then overwrites the placeholder's fields
    // without resetting the accumulated value
    let t2 = ts(2024, 6, 2, 9, 5, 0);
    let created = SyncEnvelope::device_event(
        b"DEVICE_CREATED".to_vec(),
        D1,
        42,
        b"kitchen meter".to_vec(),
        1500,
        b"{}".to_vec(),
    );
    assert_eq!(
        handle_sync_delivery(&mut store, Some(created), t2),
        Disposition::Ack
    );
    assert_eq!(store.devices.len(), 1);
    assert_eq!(store.devices[0].name, b"kitchen meter".to_vec());
    assert_eq!(store.devices[0].user_id, Some(42));
    assert_eq!(store.devices[0].max_consumption, Some(1500));
    // created_at is kept from the placeholder, updated_at moves
    assert_eq!(store.devices[0].created_at, t1);
    assert_eq!(store.devices[0].updated_at, t2);

    let day = Date { year: 2024, month: 6, day: 2 };
    assert_eq!(consumption_points(&store, D1, day)[8].value_micro, 150_000);
}

#[test]
fn identical_upsert_twice_changes_only_updated_at() {
    let mut store = MonitorStore::new();
    let t1 = ts(2024, 7, 1, 12, 0, 0);
    let t2 = ts(2024, 7, 1, 12, 30, 0);
    let envelope = || {
        SyncEnvelope::device_event(
            b"DEVICE_CREATED".to_vec(),
            D1,
            9,
            b"heater".to_vec(),
            900,
            b"{\"room\":\"attic\"}".to_vec(),
        )
    };
    handle_sync_delivery(&mut store, Some(envelope()), t1);
    let first_row_name = store.devices[0].name.clone();
    let first_created = store.devices[0].created_at;
    handle_sync_delivery(&mut store, Some(envelope()), t2);
    assert_eq!(store.devices.len(), 1);
    assert_eq!(store.devices[0].name, first_row_name);
    assert_eq!(store.devices[0].created_at, first_created);
    assert_eq!(store.devices[0].updated_at, t2);
}

#[test]
fn delete_then_recreate_yields_fresh_row() {
    let mut store = MonitorStore::new();
    let t1 = ts(2024, 8, 1, 0, 0, 0);
    let t2 = ts(2024, 8, 2, 0, 0, 0);
    let t3 = ts(2024, 8, 3, 0, 0, 0);
    let created = SyncEnvelope::device_event(
        b"DEVICE_CREATED".to_vec(),
        D1,
        1,
        b"old name".to_vec(),
        100,
        b"{}".to_vec(),
    );
    handle_sync_delivery(&mut store, Some(created), t1);
    handle_sync_delivery(&mut store, Some(SyncEnvelope::device_deleted(D1)), t2);
    assert!(!store.contains_device(D1));

    let recreated = SyncEnvelope::device_event(
        b"DEVICE_CREATED".to_vec(),
        D1,
        2,
        b"new name".to_vec(),
        200,
        b"{}".to_vec(),
    );
    handle_sync_delivery(&mut store, Some(recreated), t3);
    assert_eq!(store.devices.len(), 1);
    assert_eq!(store.devices[0].name, b"new name".to_vec());
    // a fresh row: created_at is the recreation time, not the old one
    assert_eq!(store.devices[0].created_at, t3);
}

#[test]
fn undecodable_deliveries_are_requeued() {
    let mut store = MonitorStore::new();
    let now = ts(2024, 1, 1, 0, 0, 0);
    assert_eq!(
        handle_measurement_delivery(&mut store, None, now),
        Disposition::NackRequeue
    );
    assert_eq!(
        handle_sync_delivery(&mut store, None, now),
        Disposition::NackRequeue
    );
    assert!(store.devices.is_empty());
    assert!(store.buckets.is_empty());
}
