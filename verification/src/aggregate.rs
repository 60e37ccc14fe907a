//! The measurement aggregator handler: folds one raw measurement into its
//! per-device-per-hour bucket, creating a placeholder directory row when the
//! measurement arrives before any lifecycle event for its device.
use vstd::prelude::*;

use crate::calendar::{HourBucket, Timestamp};
use crate::consumer::Disposition;
use crate::envelope::{spec_classify, MeasurementMessage, SyncEnvelopeModel};
use crate::store::{
    is_placeholder, record_measurement, spec_accumulate, spec_bucket_total,
    spec_ensure_placeholder, BucketKey, MonitorStore, StoreModel,
};
use crate::sync::spec_apply_sync;

verus! {

/// The bucket key a measurement falls into: its calendar day and hour, in
/// UTC.
pub open spec fn spec_measurement_key(m: MeasurementMessage) -> BucketKey {
    BucketKey { device_id: m.device_id, day: m.timestamp.date, hour: m.timestamp.hour }
}

/// Out-of-order tolerance: a measurement for a device that no lifecycle
/// event has introduced yet creates a placeholder directory row and a valid
/// bucket holding the measurement's value; a subsequent `*_CREATED` event for
/// that device overwrites the placeholder's descriptive fields without
/// resetting the accumulated value.
pub proof fn lemma_out_of_order_measurement(
    s: StoreModel,
    m: MeasurementMessage,
    e: SyncEnvelopeModel,
    t1: Timestamp,
    t2: Timestamp,
)
    requires
        m.wf(),
        !s.devices.dom().contains(m.device_id),
        !s.buckets.dom().contains(spec_measurement_key(m)),
        spec_classify(e.event_type) is Created,
        e.payload is Some,
        e.payload->0.id == m.device_id,
    ensures
        ({
            let k = spec_measurement_key(m);
            let p = e.payload->0;
            // the store after the measurement is delivered first
            let s1 = StoreModel {
                devices: spec_ensure_placeholder(s.devices, m.device_id, t1),
                buckets: spec_accumulate(s.buckets, k, m.value_micro, t1),
            };
            // ... and after the lifecycle event arrives second
            let s2 = spec_apply_sync(s1, e, t2);
            &&& is_placeholder(s1.devices[m.device_id])
            &&& s1.buckets[k].value_micro == m.value_micro
            &&& s2.devices[p.id].user_id == p.user_id
            &&& s2.devices[p.id].name == p.name
            &&& s2.devices[p.id].max_consumption == p.max_consumption
            &&& s2.devices[p.id].metadata == p.metadata
            &&& s2.devices[p.id].updated_at == t2
            &&& s2.buckets == s1.buckets
            &&& s2.buckets[k].value_micro == m.value_micro
        }),
{
}

/// Runs the aggregator for one delivery, already decoded (or not) from its
/// bytes, and turns the outcome into the runner's disposition.
///
/// A decoded, well-formed measurement is accumulated — resolving a reference
/// to a not-yet-synced device by inserting a placeholder row — and
/// acknowledged; a payload that did not decode to a well-formed measurement,
/// or a storage failure, is negative-acknowledged with requeue.
pub fn handle_measurement_delivery(
    store: &mut MonitorStore,
    decoded: Option<MeasurementMessage>,
    now: Timestamp,
) -> (r: Disposition)
    requires
        old(store).wf(),
    ensures
        final(store).wf(),
        match decoded {
            Some(m) => {
                if m.wf() {
                    let k = spec_measurement_key(m);
                    &&& final(store)@.devices == spec_ensure_placeholder(
                        old(store)@.devices,
                        m.device_id,
                        now,
                    )
                    &&& r == Disposition::Ack <==> spec_bucket_total(old(store)@.buckets, k)
                        + m.value_micro <= i64::MAX
                    &&& r == Disposition::Ack ==> final(store)@.buckets == spec_accumulate(
                        old(store)@.buckets,
                        k,
                        m.value_micro,
                        now,
                    )
                    &&& r == Disposition::NackRequeue ==> final(store)@.buckets == old(
                        store,
                    )@.buckets
                } else {
                    r == Disposition::NackRequeue && final(store)@ == old(store)@
                }
            },
            None => r == Disposition::NackRequeue && final(store)@ == old(store)@,
        },
{
    match decoded {
        Some(m) => {
            if !m.valid() {
                return Disposition::NackRequeue;
            }
            let bucket = HourBucket::from_timestamp(m.timestamp);
            match record_measurement(store, m.device_id, &bucket, m.value_micro, now) {
                Ok(()) => Disposition::Ack,
                Err(_) => Disposition::NackRequeue,
            }
        },
        None => Disposition::NackRequeue,
    }
}

} // verus!
