//! The store's primitive operations, the calendar, and the small
//! collaborator-facing types.
use energy_events::accounts::{ApiError, UserRole};
use energy_events::aggregate::handle_measurement_delivery;
use energy_events::calendar::{days_in_month, Date, HourBucket, Timestamp};
use energy_events::config::{default_interval_seconds, AppConfig};
use energy_events::consumer::Disposition;
use energy_events::envelope::{DevicePayload, MeasurementMessage, SyncEnvelope};
use energy_events::prefs::{HomeType, UnitEnergy};
use energy_events::store::{
    accumulate_measurement, delete_device, ensure_device_placeholder, fetch_consumption,
    upsert_device, MonitorStore, StorageError,
};
use energy_events::sync::{apply_sync_event, SyncOutcome};

fn ts(year: u16, month: u8, day: u8, hour: u8, minute: u8, second: u8) -> Timestamp {
    Timestamp {
        date: Date { year, month, day },
        hour,
        minute,
        second,
    }
}

const D1: u128 = 11;
const D2: u128 = 22;

#[test]
fn bucketing_takes_day_and_hour_in_utc() {
    let t = ts(2024, 1, 1, 10, 15, 0);
    let b = HourBucket::from_timestamp(t);
    assert_eq!(b.day, Date { year: 2024, month: 1, day: 1 });
    assert_eq!(b.hour, 10);
}

#[test]
fn calendar_knows_month_lengths_and_leap_years() {
    assert_eq!(days_in_month(2024, 2), 29);
    assert_eq!(days_in_month(2023, 2), 28);
    assert_eq!(days_in_month(1900, 2), 28);
    assert_eq!(days_in_month(2000, 2), 29);
    assert_eq!(days_in_month(2024, 4), 30);
    assert_eq!(days_in_month(2024, 12), 31);
    assert!(Date { year: 2024, month: 2, day: 29 }.valid());
    assert!(!Date { year: 2023, month: 2, day: 29 }.valid());
    assert!(!Date { year: 2024, month: 13, day: 1 }.valid());
    assert!(!Date { year: 2024, month: 0, day: 1 }.valid());
    assert!(!ts(2024, 1, 1, 24, 0, 0).valid());
}

#[test]
fn accumulate_without_directory_row_is_a_foreign_key_violation() {
    let mut store = MonitorStore::new();
    let bucket = HourBucket { day: Date { year: 2024, month: 1, day: 1 }, hour: 3 };
    let now = ts(2024, 1, 1, 3, 0, 0);
    assert_eq!(
        accumulate_measurement(&mut store, D1, &bucket, 100, now),
        Err(StorageError::ForeignKeyViolation)
    );
    assert!(store.buckets.is_empty());

    ensure_device_placeholder(&mut store, D1, now);
    assert_eq!(accumulate_measurement(&mut store, D1, &bucket, 100, now), Ok(()));
    assert_eq!(store.buckets.len(), 1);
    assert_eq!(store.buckets[0].state.value_micro, 100);
}

#[test]
fn accumulate_overflow_is_surfaced_and_requeued() {
    let mut store = MonitorStore::new();
    let now = ts(2024, 1, 1, 3, 0, 0);
    let bucket = HourBucket { day: Date { year: 2024, month: 1, day: 1 }, hour: 3 };
    ensure_device_placeholder(&mut store, D1, now);
    assert_eq!(
        accumulate_measurement(&mut store, D1, &bucket, i64::MAX, now),
        Ok(())
    );
    assert_eq!(
        accumulate_measurement(&mut store, D1, &bucket, 1, now),
        Err(StorageError::Overflow)
    );
    // an overflowing delivery is requeued, the store untouched
    let m = MeasurementMessage {
        device_id: D1,
        timestamp: ts(2024, 1, 1, 3, 30, 0),
        value_micro: 1,
    };
    assert_eq!(
        handle_measurement_delivery(&mut store, Some(m), now),
        Disposition::NackRequeue
    );
    assert_eq!(store.buckets[0].state.value_micro, i64::MAX);
}

#[test]
fn placeholder_insert_is_insert_if_absent() {
    let mut store = MonitorStore::new();
    let t1 = ts(2024, 1, 1, 0, 0, 0);
    let t2 = ts(2024, 1, 2, 0, 0, 0);
    ensure_device_placeholder(&mut store, D1, t1);
    ensure_device_placeholder(&mut store, D1, t2);
    assert_eq!(store.devices.len(), 1);
    assert_eq!(store.devices[0].created_at, t1);
}

#[test]
fn delete_cascades_to_the_device_buckets() {
    let mut store = MonitorStore::new();
    let now = ts(2024, 5, 5, 0, 0, 0);
    let bucket = HourBucket { day: Date { year: 2024, month: 5, day: 5 }, hour: 1 };
    ensure_device_placeholder(&mut store, D1, now);
    ensure_device_placeholder(&mut store, D2, now);
    accumulate_measurement(&mut store, D1, &bucket, 10, now).unwrap();
    accumulate_measurement(&mut store, D2, &bucket, 20, now).unwrap();
    delete_device(&mut store, D1);
    assert!(!store.contains_device(D1));
    assert!(store.contains_device(D2));
    assert_eq!(store.buckets.len(), 1);
    assert_eq!(store.buckets[0].key.device_id, D2);
    // deleting an absent device changes nothing
    delete_device(&mut store, D1);
    assert_eq!(store.devices.len(), 1);
    assert_eq!(store.buckets.len(), 1);
}

#[test]
fn upsert_overwrites_every_descriptive_field() {
    let mut store = MonitorStore::new();
    let t1 = ts(2024, 1, 1, 0, 0, 0);
    let t2 = ts(2024, 1, 2, 0, 0, 0);
    let first = DevicePayload {
        id: D1,
        user_id: Some(1),
        name: b"one".to_vec(),
        max_consumption: Some(10),
        metadata: b"{}".to_vec(),
    };
    let second = DevicePayload {
        id: D1,
        user_id: None,
        name: b"two".to_vec(),
        max_consumption: None,
        metadata: b"{\"k\":true}".to_vec(),
    };
    upsert_device(&mut store, &first, t1);
    upsert_device(&mut store, &second, t2);
    assert_eq!(store.devices.len(), 1);
    assert_eq!(store.devices[0].user_id, None);
    assert_eq!(store.devices[0].name, b"two".to_vec());
    assert_eq!(store.devices[0].max_consumption, None);
    assert_eq!(store.devices[0].metadata, b"{\"k\":true}".to_vec());
    assert_eq!(store.devices[0].created_at, t1);
    assert_eq!(store.devices[0].updated_at, t2);
}

#[test]
fn fetch_consumption_returns_present_hours_ascending() {
    let mut store = MonitorStore::new();
    let now = ts(2024, 5, 5, 0, 0, 0);
    let day = Date { year: 2024, month: 5, day: 5 };
    ensure_device_placeholder(&mut store, D1, now);
    accumulate_measurement(&mut store, D1, &HourBucket { day, hour: 9 }, 90, now).unwrap();
    accumulate_measurement(&mut store, D1, &HourBucket { day, hour: 3 }, 30, now).unwrap();
    accumulate_measurement(&mut store, D1, &HourBucket { day, hour: 17 }, 170, now).unwrap();
    let points = fetch_consumption(&store, D1, day);
    assert_eq!(points.len(), 3);
    assert_eq!((points[0].hour, points[0].value_micro), (3, 30));
    assert_eq!((points[1].hour, points[1].value_micro), (9, 90));
    assert_eq!((points[2].hour, points[2].value_micro), (17, 170));
    // another day or device sees nothing
    assert!(fetch_consumption(&store, D2, day).is_empty());
    assert!(fetch_consumption(&store, D1, Date { year: 2024, month: 5, day: 6 }).is_empty());
}

#[test]
fn sync_outcomes_name_what_happened() {
    let mut store = MonitorStore::new();
    let now = ts(2024, 1, 1, 0, 0, 0);
    // created/updated without payload: ignored, not an error
    let bare = SyncEnvelope {
        event_type: b"DEVICE_UPDATED".to_vec(),
        user_id: None,
        device_id: Some(D1),
        payload: None,
    };
    assert_eq!(apply_sync_event(&mut store, &bare, now), SyncOutcome::MissingPayload);
    assert!(store.devices.is_empty());
    // deleted with neither id: ignored
    let no_target = SyncEnvelope {
        event_type: b"DEVICE_DELETED".to_vec(),
        user_id: None,
        device_id: None,
        payload: None,
    };
    assert_eq!(
        apply_sync_event(&mut store, &no_target, now),
        SyncOutcome::MissingDeleteTarget
    );
    // deleted with only a payload id falls back to it
    ensure_device_placeholder(&mut store, D1, now);
    let by_payload = SyncEnvelope {
        event_type: b"DEVICE_DELETED".to_vec(),
        user_id: None,
        device_id: None,
        payload: Some(DevicePayload {
            id: D1,
            user_id: None,
            name: b"x".to_vec(),
            max_consumption: None,
            metadata: b"null".to_vec(),
        }),
    };
    assert_eq!(
        apply_sync_event(&mut store, &by_payload, now),
        SyncOutcome::DeviceDeleted
    );
    assert!(!store.contains_device(D1));
    // unknown tags are acknowledged and ignored
    let unknown = SyncEnvelope {
        event_type: b"MAINTENANCE_WINDOW".to_vec(),
        user_id: None,
        device_id: Some(D1),
        payload: None,
    };
    assert_eq!(
        apply_sync_event(&mut store, &unknown, now),
        SyncOutcome::Unrecognized
    );
}

#[test]
fn http_addr_joins_host_and_port() {
    let cfg = AppConfig {
        database_url: String::from("postgres://localhost/monitor"),
        sync_broker_url: String::from("amqp://localhost:5672"),
        data_broker_url: String::from("amqp://localhost:5672"),
        sync_queue: String::from("sync.events"),
        measurement_queue: String::from("device.measurements"),
        http_host: String::from("0.0.0.0"),
        http_port: 8080,
        max_db_connections: 10,
    };
    assert_eq!(cfg.http_addr(), "0.0.0.0:8080");
    assert_eq!(default_interval_seconds(), 600);
}

#[test]
fn collaborator_types_carry_their_tags() {
    assert_eq!(UserRole::Admin.as_str(), "ADMIN");
    assert_eq!(UserRole::Client.as_str(), "CLIENT");
    assert_eq!(UnitEnergy::KWH.as_str(), "KWH");
    assert_eq!(UnitEnergy::WH.as_str(), "WH");
    assert_eq!(HomeType::APARTMENT.as_str(), "APARTMENT");
    assert_eq!(HomeType::INDUSTRIAL.as_str(), "INDUSTRIAL");
    assert_eq!(ApiError::BadCredentials.message(), "bad credentials");
    assert_eq!(ApiError::Conflict.message(), "conflict");
    assert_eq!(ApiError::Internal.message(), "internal server error");
}
