//! The wire bytes of both message kinds, checked character for character and
//! cross-checked against an independent JSON parser and the UUID library.
use energy_events::calendar::{Date, Timestamp};
use energy_events::envelope::{MeasurementMessage, SyncEnvelope, UserCreatedEvent, UserPayload};
use energy_events::prefs::{HomeType, UnitEnergy};
use energy_events::wire::{
    decode_measurement, encode_measurement, encode_sync_envelope, encode_user_created,
    parse_rfc3339, parse_uuid, push_micro_decimal, push_rfc3339, push_uuid,
};

fn ts(year: u16, month: u8, day: u8, hour: u8, minute: u8, second: u8) -> Timestamp {
    Timestamp {
        date: Date { year, month, day },
        hour,
        minute,
        second,
    }
}

const D1: u128 = 0x123e4567e89b12d3a456426614174000;

#[test]
fn measurement_bytes_are_exact() {
    let m = MeasurementMessage {
        device_id: D1,
        timestamp: ts(2024, 1, 1, 10, 15, 0),
        value_micro: 420_000,
    };
    let bytes = encode_measurement(&m);
    assert_eq!(
        String::from_utf8(bytes).unwrap(),
        "{\"device_id\":\"123e4567-e89b-12d3-a456-426614174000\",\
         \"measurement_value\":0.42,\"timestamp\":\"2024-01-01T10:15:00Z\"}"
    );
}

#[test]
fn measurement_bytes_parse_back_with_serde() {
    let m = MeasurementMessage {
        device_id: D1,
        timestamp: ts(2024, 12, 31, 23, 59, 59),
        value_micro: 1_250_000,
    };
    let bytes = encode_measurement(&m);
    let v: serde_json::Value = serde_json::from_slice(&bytes).unwrap();
    assert_eq!(
        v["device_id"].as_str().unwrap(),
        uuid::Uuid::from_u128(D1).hyphenated().to_string()
    );
    assert_eq!(v["measurement_value"].as_f64().unwrap(), 1.25);
    let parsed = chrono::DateTime::parse_from_rfc3339(v["timestamp"].as_str().unwrap()).unwrap();
    assert_eq!(parsed.to_rfc3339(), "2024-12-31T23:59:59+00:00");
}

#[test]
fn uuid_text_matches_the_uuid_library() {
    for id in [0u128, 1, D1, u128::MAX, 0x00000000000000000000000000000010] {
        let mut out: Vec<u8> = Vec::new();
        push_uuid(&mut out, id);
        assert_eq!(
            String::from_utf8(out).unwrap(),
            uuid::Uuid::from_u128(id).hyphenated().to_string()
        );
    }
}

#[test]
fn micro_decimal_text() {
    let cases: [(i64, &str); 8] = [
        (0, "0"),
        (1_000_000, "1"),
        (420_000, "0.42"),
        (500_000, "0.5"),
        (123_456, "0.123456"),
        (1, "0.000001"),
        (-250_000, "-0.25"),
        (12_345_678, "12.345678"),
    ];
    for (v, expect) in cases {
        let mut out: Vec<u8> = Vec::new();
        push_micro_decimal(&mut out, v);
        assert_eq!(String::from_utf8(out).unwrap(), expect, "for {v}");
    }
}

#[test]
fn envelope_bytes_parse_back_with_serde() {
    let e = SyncEnvelope::device_event(
        b"DEVICE_CREATED".to_vec(),
        D1,
        7,
        b"say \"hi\"\\now".to_vec(),
        1500,
        b"{\"floor\":2}".to_vec(),
    );
    let bytes = encode_sync_envelope(&e);
    let v: serde_json::Value = serde_json::from_slice(&bytes).unwrap();
    assert_eq!(v["event_type"].as_str().unwrap(), "DEVICE_CREATED");
    assert_eq!(
        v["device_id"].as_str().unwrap(),
        uuid::Uuid::from_u128(D1).hyphenated().to_string()
    );
    assert_eq!(
        v["user_id"].as_str().unwrap(),
        uuid::Uuid::from_u128(7).hyphenated().to_string()
    );
    let p = &v["payload"];
    assert_eq!(p["name"].as_str().unwrap(), "say \"hi\"\\now");
    assert_eq!(p["max_consumption"].as_i64().unwrap(), 1500);
    assert_eq!(p["metadata"]["floor"].as_i64().unwrap(), 2);
}

#[test]
fn deleted_envelope_bytes() {
    let e = SyncEnvelope::device_deleted(D1);
    let bytes = encode_sync_envelope(&e);
    assert_eq!(
        String::from_utf8(bytes).unwrap(),
        format!(
            "{{\"event_type\":\"DEVICE_DELETED\",\"user_id\":null,\
             \"device_id\":\"{}\",\"payload\":null}}",
            uuid::Uuid::from_u128(D1).hyphenated()
        )
    );
}

#[test]
fn user_created_bytes_parse_back_with_serde() {
    let e = UserCreatedEvent {
        user_id: 7,
        payload: UserPayload {
            id: 7,
            username: b"ada".to_vec(),
            default_unit: UnitEnergy::KWH,
            default_home_type: HomeType::HOUSE,
            default_goal: 300,
        },
    };
    let bytes = encode_user_created(&e);
    let v: serde_json::Value = serde_json::from_slice(&bytes).unwrap();
    assert_eq!(v["event_type"].as_str().unwrap(), "USER_CREATED");
    assert_eq!(
        v["user_id"].as_str().unwrap(),
        uuid::Uuid::from_u128(7).hyphenated().to_string()
    );
    assert_eq!(v["payload"]["username"].as_str().unwrap(), "ada");
    assert_eq!(v["payload"]["default_unit"].as_str().unwrap(), "KWH");
    assert_eq!(v["payload"]["default_home_type"].as_str().unwrap(), "HOUSE");
    assert_eq!(v["payload"]["default_goal"].as_i64().unwrap(), 300);
}

#[test]
fn rfc3339_round_trip() {
    let t = ts(2024, 2, 29, 23, 7, 9);
    let mut out: Vec<u8> = Vec::new();
    push_rfc3339(&mut out, t);
    assert_eq!(String::from_utf8(out.clone()).unwrap(), "2024-02-29T23:07:09Z");
    assert_eq!(parse_rfc3339(&out), Some(t));
}

#[test]
fn rfc3339_rejects_bad_instants() {
    assert_eq!(parse_rfc3339(b"2024-01-01T10:15:00Z"), Some(ts(2024, 1, 1, 10, 15, 0)));
    // not a real calendar date
    assert_eq!(parse_rfc3339(b"2024-02-30T00:00:00Z"), None);
    // 2023 is no leap year
    assert_eq!(parse_rfc3339(b"2023-02-29T00:00:00Z"), None);
    // out-of-range time fields
    assert_eq!(parse_rfc3339(b"2024-01-01T24:00:00Z"), None);
    assert_eq!(parse_rfc3339(b"2024-01-01T10:60:00Z"), None);
    // malformed shapes
    assert_eq!(parse_rfc3339(b"2024-01-01 10:15:00Z"), None);
    assert_eq!(parse_rfc3339(b"2024-01-01T10:15:00"), None);
    assert_eq!(parse_rfc3339(b"2024-1-1T10:15:00Z"), None);
    assert_eq!(parse_rfc3339(b""), None);
}

#[test]
fn uuid_text_round_trips() {
    for id in [0u128, 1, D1, u128::MAX] {
        let mut out: Vec<u8> = Vec::new();
        push_uuid(&mut out, id);
        assert_eq!(parse_uuid(&out), Some(id));
    }
    assert_eq!(
        parse_uuid(b"123e4567-e89b-12d3-a456-426614174000"),
        Some(D1)
    );
    // wrong shape, wrong dashes, or non-canonical (uppercase) text
    assert_eq!(parse_uuid(b"123e4567-e89b-12d3-a456-42661417400"), None);
    assert_eq!(parse_uuid(b"123e4567ae89ba12d3aa456a426614174000"), None);
    assert_eq!(parse_uuid(b"123E4567-E89B-12D3-A456-426614174000"), None);
    assert_eq!(parse_uuid(b"123e4567-e89b-12d3-a456-42661417400g"), None);
    assert_eq!(parse_uuid(b""), None);
}

#[test]
fn decode_measurement_validates_its_parts() {
    let id_text = b"123e4567-e89b-12d3-a456-426614174000";
    let m = decode_measurement(id_text, b"2024-01-01T10:15:00Z", 420_000).unwrap();
    assert_eq!(m.device_id, D1);
    assert_eq!(m.value_micro, 420_000);
    assert_eq!(m.timestamp, ts(2024, 1, 1, 10, 15, 0));
    assert!(decode_measurement(id_text, b"2024-01-01T10:15:00Z", -1).is_none());
    assert!(decode_measurement(id_text, b"not a timestamp", 420_000).is_none());
    assert!(decode_measurement(b"not a uuid", b"2024-01-01T10:15:00Z", 420_000).is_none());
}
