//! The device directory sync handler: projects lifecycle events into the
//! local device table, ignoring malformed-but-harmless events so they never
//! block the queue.
use vstd::prelude::*;

use crate::calendar::Timestamp;
use crate::consumer::Disposition;
use crate::envelope::{classify_event_type, spec_classify, EventKind, SyncEnvelope, SyncEnvelopeModel};
use crate::store::{
    delete_device, spec_cascade_delete, spec_upsert, upsert_device, BucketKey, DeviceRecordModel,
    MonitorStore, StoreModel,
};

verus! {

/// What the sync handler did with one envelope.
#[derive(Clone, Copy, PartialEq, Eq, Structural, Debug)]
pub enum SyncOutcome {
    /// A `*_CREATED` or `*_UPDATED` event with a payload: the full row was
    /// upserted.
    DeviceUpserted,
    /// A `*_DELETED` event with a target id: the row was removed.
    DeviceDeleted,
    /// A `*_CREATED` or `*_UPDATED` event without a payload: logged and
    /// ignored.
    MissingPayload,
    /// A `*_DELETED` event with neither a `device_id` nor a payload: logged
    /// and ignored.
    MissingDeleteTarget,
    /// An unrecognized event-type tag: logged and ignored, never an error.
    Unrecognized,
}

/// The id a `*_DELETED` event targets: preferentially the envelope's
/// `device_id` field, falling back to the payload's `id`.
pub open spec fn spec_delete_target(e: SyncEnvelopeModel) -> Option<u128> {
    if e.device_id is Some {
        e.device_id
    } else {
        match e.payload {
            Some(p) => Some(p.id),
            None => None,
        }
    }
}

/// What the handler answers for one envelope.
pub open spec fn spec_sync_outcome(e: SyncEnvelopeModel) -> SyncOutcome {
    match spec_classify(e.event_type) {
        EventKind::Created | EventKind::Updated => {
            if e.payload is Some {
                SyncOutcome::DeviceUpserted
            } else {
                SyncOutcome::MissingPayload
            }
        },
        EventKind::Deleted => {
            if spec_delete_target(e) is Some {
                SyncOutcome::DeviceDeleted
            } else {
                SyncOutcome::MissingDeleteTarget
            }
        },
        EventKind::Unrecognized => SyncOutcome::Unrecognized,
    }
}

/// How one envelope changes the store: upsert on `*_CREATED` / `*_UPDATED`
/// with a payload, delete (with cascading buckets) on `*_DELETED` with a
/// target, and no change otherwise.
pub open spec fn spec_apply_sync(
    s: StoreModel,
    e: SyncEnvelopeModel,
    now: Timestamp,
) -> StoreModel {
    match spec_classify(e.event_type) {
        EventKind::Created | EventKind::Updated => {
            match e.payload {
                Some(p) => StoreModel { devices: spec_upsert(s.devices, p, now), buckets: s.buckets },
                None => s,
            }
        },
        EventKind::Deleted => {
            match spec_delete_target(e) {
                Some(id) => StoreModel {
                    devices: s.devices.remove(id),
                    buckets: spec_cascade_delete(s.buckets, id),
                },
                None => s,
            }
        },
        EventKind::Unrecognized => s,
    }
}

/// Idempotent directory upsert: applying an identical `*_CREATED` (or
/// `*_UPDATED`) envelope twice yields the same store — same bucket table,
/// same directory rows — except that the target row's `updated_at` carries
/// the later time.
pub proof fn lemma_upsert_idempotent(
    s: StoreModel,
    e: SyncEnvelopeModel,
    t1: Timestamp,
    t2: Timestamp,
)
    requires
        spec_classify(e.event_type) is Created || spec_classify(e.event_type) is Updated,
        e.payload is Some,
    ensures
        ({
            let p = e.payload->0;
            let s1 = spec_apply_sync(s, e, t1);
            let s2 = spec_apply_sync(s1, e, t2);
            &&& s2.buckets == s1.buckets
            &&& s2.devices.dom() == s1.devices.dom()
            &&& s1.devices.dom().contains(p.id)
            &&& s2.devices[p.id] == DeviceRecordModel { updated_at: t2, ..s1.devices[p.id] }
            &&& forall|id: u128|
                id != p.id && s1.devices.dom().contains(id) ==> s2.devices[id] == s1.devices[id]
        }),
{
    let p = e.payload->0;
    let s1 = spec_apply_sync(s, e, t1);
    let s2 = spec_apply_sync(s1, e, t2);
    assert(s2.devices.dom() =~= s1.devices.dom());
}

/// Delete/recreate: a `*_DELETED` event removes the directory row for its
/// target id — and, cascading, every bucket of that device — and a later
/// `*_CREATED` for the same id recreates a fresh, materialized row whose
/// `created_at` is the creation time, not anything older.
pub proof fn lemma_delete_recreate(
    s: StoreModel,
    del: SyncEnvelopeModel,
    cre: SyncEnvelopeModel,
    t1: Timestamp,
    t2: Timestamp,
)
    requires
        spec_classify(del.event_type) is Deleted,
        spec_delete_target(del) is Some,
        spec_classify(cre.event_type) is Created,
        cre.payload is Some,
        cre.payload->0.id == spec_delete_target(del)->0,
    ensures
        ({
            let id = spec_delete_target(del)->0;
            let p = cre.payload->0;
            let s1 = spec_apply_sync(s, del, t1);
            let s2 = spec_apply_sync(s1, cre, t2);
            &&& !s1.devices.dom().contains(id)
            &&& forall|k: BucketKey| k.device_id == id ==> !s1.buckets.dom().contains(k)
            &&& s2.devices.dom().contains(id)
            &&& s2.devices[id] == DeviceRecordModel {
                id,
                user_id: p.user_id,
                name: p.name,
                max_consumption: p.max_consumption,
                metadata: p.metadata,
                created_at: t2,
                updated_at: t2,
            }
            &&& s2.buckets == s1.buckets
        }),
{
}

/// Applies one decoded lifecycle envelope to the store.
pub fn apply_sync_event(store: &mut MonitorStore, event: &SyncEnvelope, now: Timestamp) -> (r:
    SyncOutcome)
    requires
        old(store).wf(),
    ensures
        final(store).wf(),
        final(store)@ == spec_apply_sync(old(store)@, event@, now),
        r == spec_sync_outcome(event@),
{
    match classify_event_type(&event.event_type) {
        EventKind::Created | EventKind::Updated => {
            match &event.payload {
                Some(payload) => {
                    upsert_device(store, payload, now);
                    SyncOutcome::DeviceUpserted
                },
                None => SyncOutcome::MissingPayload,
            }
        },
        EventKind::Deleted => {
            if let Some(device_id) = event.device_id {
                delete_device(store, device_id);
                SyncOutcome::DeviceDeleted
            } else {
                match &event.payload {
                    Some(payload) => {
                        delete_device(store, payload.id);
                        SyncOutcome::DeviceDeleted
                    },
                    None => SyncOutcome::MissingDeleteTarget,
                }
            }
        },
        EventKind::Unrecognized => SyncOutcome::Unrecognized,
    }
}

/// Runs the sync handler for one delivery, already decoded (or not) from its
/// bytes, and turns the outcome into the runner's disposition: a decoded
/// envelope is applied and acknowledged — whatever its outcome — while a
/// payload that did not decode is negative-acknowledged with requeue.
pub fn handle_sync_delivery(
    store: &mut MonitorStore,
    decoded: Option<SyncEnvelope>,
    now: Timestamp,
) -> (r: Disposition)
    requires
        old(store).wf(),
    ensures
        final(store).wf(),
        match decoded {
            Some(e) => r == Disposition::Ack && final(store)@ == spec_apply_sync(
                old(store)@,
                e@,
                now,
            ),
            None => r == Disposition::NackRequeue && final(store)@ == old(store)@,
        },
{
    match decoded {
        Some(event) => {
            apply_sync_event(store, &event, now);
            Disposition::Ack
        },
        None => Disposition::NackRequeue,
    }
}

} // verus!
