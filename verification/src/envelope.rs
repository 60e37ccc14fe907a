//! Event envelopes and measurement messages: the values carried on the two
//! durable streams, and the classification of lifecycle event-type tags.
//!
//! Identifiers are 128-bit values (the numeric form of a UUID); strings are
//! carried as UTF-8 byte vectors, exactly as they travel on the wire.
use vstd::prelude::*;
use vstd::string::StringSliceAdditionalSpecFns;

use crate::calendar::Timestamp;

verus! {

/// The payload of a device lifecycle event: the full directory row the
/// producer wants projected.
pub struct DevicePayload {
    pub id: u128,
    pub user_id: Option<u128>,
    pub name: Vec<u8>,
    pub max_consumption: Option<i32>,
    /// UTF-8 JSON text of the free-form metadata object.
    pub metadata: Vec<u8>,
}

pub struct DevicePayloadModel {
    pub id: u128,
    pub user_id: Option<u128>,
    pub name: Seq<u8>,
    pub max_consumption: Option<i32>,
    pub metadata: Seq<u8>,
}

impl View for DevicePayload {
    type V = DevicePayloadModel;

    open spec fn view(&self) -> DevicePayloadModel {
        DevicePayloadModel {
            id: self.id,
            user_id: self.user_id,
            name: self.name@,
            max_consumption: self.max_consumption,
            metadata: self.metadata@,
        }
    }
}

/// The outer message structure on the lifecycle stream: an open string tag
/// plus optional ids and an optional payload. Unrecognized tags are valid
/// envelopes that consumers may ignore.
pub struct SyncEnvelope {
    pub event_type: Vec<u8>,
    pub user_id: Option<u128>,
    pub device_id: Option<u128>,
    pub payload: Option<DevicePayload>,
}

pub struct SyncEnvelopeModel {
    pub event_type: Seq<u8>,
    pub user_id: Option<u128>,
    pub device_id: Option<u128>,
    pub payload: Option<DevicePayloadModel>,
}

impl View for SyncEnvelope {
    type V = SyncEnvelopeModel;

    open spec fn view(&self) -> SyncEnvelopeModel {
        SyncEnvelopeModel {
            event_type: self.event_type@,
            user_id: self.user_id,
            device_id: self.device_id,
            payload: match self.payload {
                Some(ref p) => Some(p@),
                None => None,
            },
        }
    }
}

/// One physical reading from a device, with its value in micro-units
/// (one millionth of the measured unit), so that accumulation is exact.
#[derive(Clone, Copy, PartialEq, Eq, Structural, Debug)]
pub struct MeasurementMessage {
    pub device_id: u128,
    pub timestamp: Timestamp,
    pub value_micro: i64,
}

impl MeasurementMessage {
    /// A message the aggregator accepts: a real instant and a non-negative
    /// value, so that bucket totals only ever grow.
    pub open spec fn wf(self) -> bool {
        self.timestamp.wf() && self.value_micro >= 0
    }

    /// Decides `wf` executably.
    pub fn valid(&self) -> (r: bool)
        ensures
            r == self.wf(),
    {
        self.timestamp.valid() && self.value_micro >= 0
    }
}

impl SyncEnvelope {
    /// The envelope a producing service publishes for a device lifecycle
    /// event: both ids on the envelope and the full row in the payload.
    pub fn device_event(
        event_type: Vec<u8>,
        device_id: u128,
        user_id: u128,
        name: Vec<u8>,
        max_consumption: i32,
        metadata: Vec<u8>,
    ) -> (r: SyncEnvelope)
        ensures
            r@ == (SyncEnvelopeModel {
                event_type: event_type@,
                user_id: Some(user_id),
                device_id: Some(device_id),
                payload: Some(
                    DevicePayloadModel {
                        id: device_id,
                        user_id: Some(user_id),
                        name: name@,
                        max_consumption: Some(max_consumption),
                        metadata: metadata@,
                    },
                ),
            }),
    {
        SyncEnvelope {
            event_type,
            user_id: Some(user_id),
            device_id: Some(device_id),
            payload: Some(
                DevicePayload {
                    id: device_id,
                    user_id: Some(user_id),
                    name,
                    max_consumption: Some(max_consumption),
                    metadata,
                },
            ),
        }
    }

    /// The envelope a producing service publishes when a device is removed:
    /// the target id travels in the envelope's own `device_id` field and
    /// there is no payload.
    pub fn device_deleted(device_id: u128) -> (r: SyncEnvelope)
        ensures
            r@.event_type == "DEVICE_DELETED".spec_bytes(),
            r@.user_id is None,
            r@.device_id == Some(device_id),
            r@.payload is None,
            spec_classify(r@.event_type) is Deleted,
    {
        proof {
            reveal_strlit("DEVICE_DELETED");
            reveal_strlit("_CREATED");
            reveal_strlit("_UPDATED");
            reveal_strlit("_DELETED");
            vstd::string::is_ascii_spec_bytes("DEVICE_DELETED");
            vstd::string::is_ascii_spec_bytes("_CREATED");
            vstd::string::is_ascii_spec_bytes("_UPDATED");
            vstd::string::is_ascii_spec_bytes("_DELETED");
            let t = "DEVICE_DELETED".spec_bytes();
            assert(t.len() == 14);
            assert(t.subrange(6, 14) =~= deleted_suffix());
            assert(!has_suffix(t, created_suffix())) by {
                if has_suffix(t, created_suffix()) {
                    assert(t.subrange(6, 14)[1] == created_suffix()[1]);
                }
            }
            assert(!has_suffix(t, updated_suffix())) by {
                if has_suffix(t, updated_suffix()) {
                    assert(t.subrange(6, 14)[1] == updated_suffix()[1]);
                }
            }
        }
        SyncEnvelope {
            event_type: vstd::slice::slice_to_vec("DEVICE_DELETED".as_bytes()),
            user_id: None,
            device_id: Some(device_id),
            payload: None,
        }
    }
}

/// The payload of a user-created event: the identity plus the default
/// preferences the new account starts with.
pub struct UserPayload {
    pub id: u128,
    pub username: Vec<u8>,
    pub default_unit: crate::prefs::UnitEnergy,
    pub default_home_type: crate::prefs::HomeType,
    pub default_goal: i64,
}

pub struct UserPayloadModel {
    pub id: u128,
    pub username: Seq<u8>,
    pub default_unit: crate::prefs::UnitEnergy,
    pub default_home_type: crate::prefs::HomeType,
    pub default_goal: i64,
}

impl View for UserPayload {
    type V = UserPayloadModel;

    open spec fn view(&self) -> UserPayloadModel {
        UserPayloadModel {
            id: self.id,
            username: self.username@,
            default_unit: self.default_unit,
            default_home_type: self.default_home_type,
            default_goal: self.default_goal,
        }
    }
}

/// The envelope the identity service publishes when an account is created.
pub struct UserCreatedEvent {
    pub user_id: u128,
    pub payload: UserPayload,
}

pub struct UserCreatedEventModel {
    pub user_id: u128,
    pub payload: UserPayloadModel,
}

impl View for UserCreatedEvent {
    type V = UserCreatedEventModel;

    open spec fn view(&self) -> UserCreatedEventModel {
        UserCreatedEventModel { user_id: self.user_id, payload: self.payload@ }
    }
}

/// The closed classification of an open event-type tag.
#[derive(Clone, Copy, PartialEq, Eq, Structural, Debug)]
pub enum EventKind {
    Created,
    Updated,
    Deleted,
    /// A forward-compatible producer change: logged and acknowledged,
    /// never an error.
    Unrecognized,
}

pub open spec fn created_suffix() -> Seq<u8> {
    "_CREATED".spec_bytes()
}

pub open spec fn updated_suffix() -> Seq<u8> {
    "_UPDATED".spec_bytes()
}

pub open spec fn deleted_suffix() -> Seq<u8> {
    "_DELETED".spec_bytes()
}

pub open spec fn has_suffix(t: Seq<u8>, suffix: Seq<u8>) -> bool {
    t.len() >= suffix.len() && t.subrange(t.len() - suffix.len(), t.len() as int) == suffix
}

/// How a consumer reads an event-type tag: by its suffix, so that
/// `DEVICE_CREATED` and any other `*_CREATED` tag dispatch alike.
pub open spec fn spec_classify(t: Seq<u8>) -> EventKind {
    if has_suffix(t, created_suffix()) {
        EventKind::Created
    } else if has_suffix(t, updated_suffix()) {
        EventKind::Updated
    } else if has_suffix(t, deleted_suffix()) {
        EventKind::Deleted
    } else {
        EventKind::Unrecognized
    }
}

/// Whether `t` ends with `suffix`.
fn ends_with(t: &Vec<u8>, suffix: &[u8]) -> (r: bool)
    ensures
        r == has_suffix(t@, suffix@),
{
    if t.len() < suffix.len() {
        assert(!has_suffix(t@, suffix@));
        return false;
    }
    let offset: usize = t.len() - suffix.len();
    let mut i: usize = 0;
    while i < suffix.len()
        invariant
            t@.len() <= usize::MAX,
            t@.len() >= suffix@.len(),
            offset == t@.len() - suffix@.len(),
            i <= suffix@.len(),
            forall|j: int| 0 <= j < i ==> t@[offset + j] == suffix@[j],
        decreases suffix@.len() - i,
    {
        if *vstd::slice::slice_index_get(t.as_slice(), offset + i) != *vstd::slice::slice_index_get(
            suffix,
            i,
        ) {
            assert(t@.subrange(t@.len() - suffix@.len(), t@.len() as int)[i as int] != suffix@[i as int]);
            return false;
        }
        i = i + 1;
    }
    assert(t@.subrange(t@.len() - suffix@.len(), t@.len() as int) =~= suffix@);
    true
}

/// Classifies an event-type tag by its suffix.
pub fn classify_event_type(t: &Vec<u8>) -> (r: EventKind)
    ensures
        r == spec_classify(t@),
{
    proof {
        reveal_strlit("_CREATED");
        reveal_strlit("_UPDATED");
        reveal_strlit("_DELETED");
        vstd::string::is_ascii_spec_bytes("_CREATED");
        vstd::string::is_ascii_spec_bytes("_UPDATED");
        vstd::string::is_ascii_spec_bytes("_DELETED");
    }
    if ends_with(t, "_CREATED".as_bytes()) {
        EventKind::Created
    } else if ends_with(t, "_UPDATED".as_bytes()) {
        EventKind::Updated
    } else if ends_with(t, "_DELETED".as_bytes()) {
        EventKind::Deleted
    } else {
        EventKind::Unrecognized
    }
}

} // verus!
