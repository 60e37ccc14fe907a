//! The local projection store of the monitoring service: a device directory
//! and per-device-per-hour consumption buckets, with the exact semantics of
//! the upserts the consumers perform — insert-or-overwrite for lifecycle
//! events, insert-if-absent for placeholders, and additive accumulation for
//! measurements.
use vstd::prelude::*;
use vstd::string::StringSliceAdditionalSpecFns;

use crate::calendar::{Date, HourBucket, Timestamp};
use crate::envelope::{DevicePayload, DevicePayloadModel};

verus! {

// ---------------------------------------------------------------------------
// Directory rows
// ---------------------------------------------------------------------------
/// One row of the device directory projection.
pub struct DeviceRecord {
    pub id: u128,
    pub user_id: Option<u128>,
    pub name: Vec<u8>,
    pub max_consumption: Option<i32>,
    /// UTF-8 JSON text of the free-form metadata object.
    pub metadata: Vec<u8>,
    pub created_at: Timestamp,
    pub updated_at: Timestamp,
}

pub struct DeviceRecordModel {
    pub id: u128,
    pub user_id: Option<u128>,
    pub name: Seq<u8>,
    pub max_consumption: Option<i32>,
    pub metadata: Seq<u8>,
    pub created_at: Timestamp,
    pub updated_at: Timestamp,
}

impl View for DeviceRecord {
    type V = DeviceRecordModel;

    open spec fn view(&self) -> DeviceRecordModel {
        DeviceRecordModel {
            id: self.id,
            user_id: self.user_id,
            name: self.name@,
            max_consumption: self.max_consumption,
            metadata: self.metadata@,
            created_at: self.created_at,
            updated_at: self.updated_at,
        }
    }
}

/// The sentinel name a placeholder row carries.
pub open spec fn placeholder_name() -> Seq<u8> {
    "Unknown device".spec_bytes()
}

/// The metadata text of a row whose event carried none.
pub open spec fn null_metadata() -> Seq<u8> {
    "null".spec_bytes()
}

/// The row created implicitly to satisfy a measurement's reference before
/// the authoritative creation event has arrived: a sentinel name and null
/// optional fields.
pub open spec fn spec_placeholder(id: u128, now: Timestamp) -> DeviceRecordModel {
    DeviceRecordModel {
        id,
        user_id: None,
        name: placeholder_name(),
        max_consumption: None,
        metadata: null_metadata(),
        created_at: now,
        updated_at: now,
    }
}

/// Whether a directory row is a placeholder rather than a materialized row.
pub open spec fn is_placeholder(r: DeviceRecordModel) -> bool {
    r.name == placeholder_name() && r.user_id is None && r.max_consumption is None
}

/// The row a lifecycle upsert leaves for `p`: every descriptive field is
/// overwritten from the payload, `updated_at` is set to `now`, and
/// `created_at` is kept from the existing row if the id was present.
pub open spec fn spec_upserted(
    m: Map<u128, DeviceRecordModel>,
    p: DevicePayloadModel,
    now: Timestamp,
) -> DeviceRecordModel {
    DeviceRecordModel {
        id: p.id,
        user_id: p.user_id,
        name: p.name,
        max_consumption: p.max_consumption,
        metadata: p.metadata,
        created_at: if m.dom().contains(p.id) {
            m[p.id].created_at
        } else {
            now
        },
        updated_at: now,
    }
}

/// The directory after a lifecycle upsert: insert if absent, else overwrite.
/// A materialized upsert always wins over a placeholder and over any older
/// materialized row for the same id.
pub open spec fn spec_upsert(
    m: Map<u128, DeviceRecordModel>,
    p: DevicePayloadModel,
    now: Timestamp,
) -> Map<u128, DeviceRecordModel> {
    m.insert(p.id, spec_upserted(m, p, now))
}

/// The directory after a placeholder insert-if-absent: unchanged when the id
/// is already present, so concurrent placeholder creation is safe.
pub open spec fn spec_ensure_placeholder(
    m: Map<u128, DeviceRecordModel>,
    id: u128,
    now: Timestamp,
) -> Map<u128, DeviceRecordModel> {
    if m.dom().contains(id) {
        m
    } else {
        m.insert(id, spec_placeholder(id, now))
    }
}

// ---------------------------------------------------------------------------
// Bucket rows
// ---------------------------------------------------------------------------
/// The unique key of an hourly consumption bucket.
#[derive(Clone, Copy, PartialEq, Eq, Structural, Debug)]
pub struct BucketKey {
    pub device_id: u128,
    pub day: Date,
    pub hour: u8,
}

/// The mutable part of a bucket row.
#[derive(Clone, Copy, PartialEq, Eq, Structural, Debug)]
pub struct BucketState {
    /// Accumulated consumption in micro-units.
    pub value_micro: i64,
    pub updated_at: Timestamp,
}

/// One row of the hourly consumption table.
#[derive(Clone, Copy, PartialEq, Eq, Structural, Debug)]
pub struct BucketRow {
    pub key: BucketKey,
    pub state: BucketState,
}

/// The bucket table after delivering one measurement for `k`: a new row with
/// the value itself, or the value added to the existing row — never
/// overwritten.
pub open spec fn spec_accumulate(
    b: Map<BucketKey, BucketState>,
    k: BucketKey,
    value_micro: i64,
    now: Timestamp,
) -> Map<BucketKey, BucketState>
    recommends
        spec_bucket_total(b, k) + value_micro <= i64::MAX,
{
    b.insert(
        k,
        BucketState { value_micro: (spec_bucket_total(b, k) + value_micro) as i64, updated_at: now },
    )
}

/// The accumulated value for `k`, zero when no bucket exists yet.
pub open spec fn spec_bucket_total(b: Map<BucketKey, BucketState>, k: BucketKey) -> int {
    if b.dom().contains(k) {
        b[k].value_micro as int
    } else {
        0
    }
}

// ---------------------------------------------------------------------------
// Sequence-to-map views
// ---------------------------------------------------------------------------
pub open spec fn dir_map(s: Seq<DeviceRecord>) -> Map<u128, DeviceRecordModel>
    decreases s.len(),
{
    if s.len() == 0 {
        Map::empty()
    } else {
        dir_map(s.drop_last()).insert(s.last().id, s.last()@)
    }
}

pub open spec fn bucket_map(s: Seq<BucketRow>) -> Map<BucketKey, BucketState>
    decreases s.len(),
{
    if s.len() == 0 {
        Map::empty()
    } else {
        bucket_map(s.drop_last()).insert(s.last().key, s.last().state)
    }
}

pub open spec fn unique_ids(s: Seq<DeviceRecord>) -> bool {
    forall|i: int, j: int| 0 <= i < j < s.len() ==> s[i].id != s[j].id
}

pub open spec fn unique_keys(s: Seq<BucketRow>) -> bool {
    forall|i: int, j: int| 0 <= i < j < s.len() ==> s[i].key != s[j].key
}

proof fn lemma_dir_map_absent(s: Seq<DeviceRecord>, id: u128)
    requires
        forall|i: int| 0 <= i < s.len() ==> s[i].id != id,
    ensures
        !dir_map(s).dom().contains(id),
    decreases s.len(),
{
    if s.len() > 0 {
        lemma_dir_map_absent(s.drop_last(), id);
    }
}

proof fn lemma_dir_map_index(s: Seq<DeviceRecord>, i: int)
    requires
        unique_ids(s),
        0 <= i < s.len(),
    ensures
        dir_map(s).dom().contains(s[i].id),
        dir_map(s)[s[i].id] == s[i]@,
    decreases s.len(),
{
    if i == s.len() - 1 {
    } else {
        lemma_dir_map_index(s.drop_last(), i);
    }
}

proof fn lemma_dir_map_contains(s: Seq<DeviceRecord>, id: u128)
    requires
        dir_map(s).dom().contains(id),
    ensures
        exists|i: int| 0 <= i < s.len() && s[i].id == id,
    decreases s.len(),
{
    if s.len() > 0 {
        if s.last().id == id {
            assert(s[s.len() - 1].id == id);
        } else {
            lemma_dir_map_contains(s.drop_last(), id);
            let i = choose|i: int| 0 <= i < s.drop_last().len() && s.drop_last()[i].id == id;
            assert(s[i].id == id);
        }
    }
}

proof fn lemma_dir_map_update(s: Seq<DeviceRecord>, i: int, r: DeviceRecord)
    requires
        unique_ids(s),
        0 <= i < s.len(),
        r.id == s[i].id,
    ensures
        dir_map(s.update(i, r)) =~= dir_map(s).insert(r.id, r@),
    decreases s.len(),
{
    let t = s.update(i, r);
    if i == s.len() - 1 {
        assert(t.drop_last() =~= s.drop_last());
        assert(t.last() == r);
    } else {
        assert(t.drop_last() =~= s.drop_last().update(i, r));
        assert(t.last() == s.last());
        lemma_dir_map_update(s.drop_last(), i, r);
        // the two inserted keys differ, so the inserts commute
        assert(s.last().id != r.id);
    }
}

proof fn lemma_dir_map_remove(s: Seq<DeviceRecord>, i: int)
    requires
        unique_ids(s),
        0 <= i < s.len(),
    ensures
        dir_map(s.remove(i)) =~= dir_map(s).remove(s[i].id),
    decreases s.len(),
{
    let t = s.remove(i);
    if i == s.len() - 1 {
        assert(t =~= s.drop_last());
        lemma_dir_map_absent(s.drop_last(), s[i].id);
    } else {
        assert(t.drop_last() =~= s.drop_last().remove(i));
        assert(t.last() == s.last());
        lemma_dir_map_remove(s.drop_last(), i);
        assert(s.last().id != s[i].id);
    }
}

proof fn lemma_bucket_map_absent(s: Seq<BucketRow>, k: BucketKey)
    requires
        forall|i: int| 0 <= i < s.len() ==> s[i].key != k,
    ensures
        !bucket_map(s).dom().contains(k),
    decreases s.len(),
{
    if s.len() > 0 {
        lemma_bucket_map_absent(s.drop_last(), k);
    }
}

proof fn lemma_bucket_map_index(s: Seq<BucketRow>, i: int)
    requires
        unique_keys(s),
        0 <= i < s.len(),
    ensures
        bucket_map(s).dom().contains(s[i].key),
        bucket_map(s)[s[i].key] == s[i].state,
    decreases s.len(),
{
    if i == s.len() - 1 {
    } else {
        lemma_bucket_map_index(s.drop_last(), i);
    }
}

proof fn lemma_bucket_map_contains(s: Seq<BucketRow>, k: BucketKey)
    requires
        bucket_map(s).dom().contains(k),
    ensures
        exists|i: int| 0 <= i < s.len() && s[i].key == k,
    decreases s.len(),
{
    if s.len() > 0 {
        if s.last().key == k {
            assert(s[s.len() - 1].key == k);
        } else {
            lemma_bucket_map_contains(s.drop_last(), k);
            let i = choose|i: int| 0 <= i < s.drop_last().len() && s.drop_last()[i].key == k;
            assert(s[i].key == k);
        }
    }
}

proof fn lemma_bucket_map_update(s: Seq<BucketRow>, i: int, r: BucketRow)
    requires
        unique_keys(s),
        0 <= i < s.len(),
        r.key == s[i].key,
    ensures
        bucket_map(s.update(i, r)) =~= bucket_map(s).insert(r.key, r.state),
    decreases s.len(),
{
    let t = s.update(i, r);
    if i == s.len() - 1 {
        assert(t.drop_last() =~= s.drop_last());
        assert(t.last() == r);
    } else {
        assert(t.drop_last() =~= s.drop_last().update(i, r));
        assert(t.last() == s.last());
        lemma_bucket_map_update(s.drop_last(), i, r);
        assert(s.last().key != r.key);
    }
}

// ---------------------------------------------------------------------------
// The store
// ---------------------------------------------------------------------------
/// The abstract contents of a [`MonitorStore`].
#[verifier::ext_equal]
pub struct StoreModel {
    pub devices: Map<u128, DeviceRecordModel>,
    pub buckets: Map<BucketKey, BucketState>,
}

/// The projection store the two consumers write and the consumption query
/// reads.
pub struct MonitorStore {
    pub devices: Vec<DeviceRecord>,
    pub buckets: Vec<BucketRow>,
}

impl View for MonitorStore {
    type V = StoreModel;

    open spec fn view(&self) -> StoreModel {
        StoreModel { devices: dir_map(self.devices@), buckets: bucket_map(self.buckets@) }
    }
}

impl MonitorStore {
    /// Well-formedness: row keys are unique, hours are in range, and every
    /// bucket's device id resolves to a directory row — never dangling.
    pub open spec fn wf(self) -> bool {
        &&& unique_ids(self.devices@)
        &&& unique_keys(self.buckets@)
        &&& forall|i: int| 0 <= i < self.buckets@.len() ==> (#[trigger] self.buckets@[i]).key.hour
            < 24
        &&& forall|i: int|
            0 <= i < self.buckets@.len() ==> exists|j: int|
                0 <= j < self.devices@.len() && (#[trigger] self.devices@[j]).id
                    == (#[trigger] self.buckets@[i]).key.device_id
    }

    /// An empty store.
    pub fn new() -> (r: MonitorStore)
        ensures
            r.wf(),
            r@.devices == Map::<u128, DeviceRecordModel>::empty(),
            r@.buckets == Map::<BucketKey, BucketState>::empty(),
    {
        MonitorStore { devices: Vec::new(), buckets: Vec::new() }
    }

    fn find_device_index(&self, id: u128) -> (r: Option<usize>)
        ensures
            match r {
                Some(i) => i < self.devices@.len() && self.devices@[i as int].id == id,
                None => forall|i: int| 0 <= i < self.devices@.len() ==> self.devices@[i].id != id,
            },
    {
        let mut i: usize = 0;
        while i < self.devices.len()
            invariant
                i <= self.devices@.len(),
                forall|j: int| 0 <= j < i ==> self.devices@[j].id != id,
            decreases self.devices@.len() - i,
        {
            if self.devices[i].id == id {
                return Some(i);
            }
            i = i + 1;
        }
        None
    }

    fn find_bucket_index(&self, key: BucketKey) -> (r: Option<usize>)
        ensures
            match r {
                Some(i) => i < self.buckets@.len() && self.buckets@[i as int].key == key,
                None => forall|i: int| 0 <= i < self.buckets@.len() ==> self.buckets@[i].key != key,
            },
    {
        let mut i: usize = 0;
        while i < self.buckets.len()
            invariant
                i <= self.buckets@.len(),
                forall|j: int| 0 <= j < i ==> self.buckets@[j].key != key,
            decreases self.buckets@.len() - i,
        {
            let row = self.buckets[i];
            if row.key.device_id == key.device_id && row.key.day == key.day && row.key.hour
                == key.hour {
                assert(row.key == key);
                return Some(i);
            }
            i = i + 1;
        }
        None
    }

    /// Whether the directory holds a row (placeholder or materialized) for
    /// `id`.
    pub fn contains_device(&self, id: u128) -> (r: bool)
        ensures
            r == self@.devices.dom().contains(id),
    {
        proof {
            if self@.devices.dom().contains(id) {
                lemma_dir_map_contains(self.devices@, id);
            }
        }
        match self.find_device_index(id) {
            Some(i) => {
                proof {
                    lemma_dir_map_contains_from_index(self.devices@, i as int);
                }
                true
            },
            None => {
                proof {
                    lemma_dir_map_absent(self.devices@, id);
                }
                false
            },
        }
    }
}

proof fn lemma_dir_map_contains_from_index(s: Seq<DeviceRecord>, i: int)
    requires
        0 <= i < s.len(),
    ensures
        dir_map(s).dom().contains(s[i].id),
    decreases s.len(),
{
    if i < s.len() - 1 {
        lemma_dir_map_contains_from_index(s.drop_last(), i);
        if s.last().id != s[i].id {
        }
    }
}

fn clone_bytes(v: &Vec<u8>) -> (r: Vec<u8>)
    ensures
        r@ == v@,
{
    let mut r: Vec<u8> = Vec::new();
    let mut i: usize = 0;
    while i < v.len()
        invariant
            i <= v@.len(),
            r@ == v@.take(i as int),
        decreases v@.len() - i,
    {
        r.push(v[i]);
        proof {
            assert(v@.take(i + 1 as int) =~= v@.take(i as int).push(v@[i as int]));
        }
        i = i + 1;
    }
    proof {
        assert(v@.take(v@.len() as int) =~= v@);
    }
    r
}

/// Projects a lifecycle payload into the directory: insert a full row if the
/// id is absent, else overwrite every descriptive field and set `updated_at`,
/// keeping `created_at`. This overwrite always supersedes a placeholder.
pub fn upsert_device(store: &mut MonitorStore, payload: &DevicePayload, now: Timestamp)
    requires
        old(store).wf(),
    ensures
        final(store).wf(),
        final(store)@.devices == spec_upsert(old(store)@.devices, payload@, now),
        final(store)@.buckets == old(store)@.buckets,
{
    let idx = store.find_device_index(payload.id);
    match idx {
        Some(i) => {
            proof {
                lemma_dir_map_index(store.devices@, i as int);
            }
            let created_at = store.devices[i].created_at;
            let rec = DeviceRecord {
                id: payload.id,
                user_id: payload.user_id,
                name: clone_bytes(&payload.name),
                max_consumption: payload.max_consumption,
                metadata: clone_bytes(&payload.metadata),
                created_at,
                updated_at: now,
            };
            proof {
                lemma_dir_map_update(store.devices@, i as int, rec);
            }
            let ghost olddev = store.devices@;
            store.devices.set(i, rec);
            proof {
                assert forall|a: int, b: int|
                    0 <= a < b < store.devices@.len() implies store.devices@[a].id
                    != store.devices@[b].id by {
                    assert(olddev[a].id != olddev[b].id);
                }
                assert forall|a: int| 0 <= a < store.buckets@.len() implies exists|j: int|
                    0 <= j < store.devices@.len() && store.devices@[j].id
                        == (#[trigger] store.buckets@[a]).key.device_id by {
                    let j = choose|j: int|
                        0 <= j < olddev.len() && olddev[j].id == store.buckets@[a].key.device_id;
                    assert(store.devices@[j].id == store.buckets@[a].key.device_id);
                }
            }
        },
        None => {
            proof {
                lemma_dir_map_absent(store.devices@, payload.id);
            }
            let rec = DeviceRecord {
                id: payload.id,
                user_id: payload.user_id,
                name: clone_bytes(&payload.name),
                max_consumption: payload.max_consumption,
                metadata: clone_bytes(&payload.metadata),
                created_at: now,
                updated_at: now,
            };
            let ghost olddev = store.devices@;
            store.devices.push(rec);
            proof {
                assert(store.devices@.drop_last() =~= olddev);
                assert forall|a: int| 0 <= a < store.buckets@.len() implies exists|j: int|
                    0 <= j < store.devices@.len() && store.devices@[j].id
                        == (#[trigger] store.buckets@[a]).key.device_id by {
                    let j = choose|j: int|
                        0 <= j < olddev.len() && olddev[j].id == store.buckets@[a].key.device_id;
                    assert(store.devices@[j].id == store.buckets@[a].key.device_id);
                }
            }
        },
    }
}

/// An error surfaced by the storage layer. Any error other than the
/// foreign-key violation the aggregator recovers from inline is surfaced to
/// the consumer runner, which requeues the delivery.
#[derive(Clone, Copy, PartialEq, Eq, Structural, Debug)]
pub enum StorageError {
    /// The measurement references a device id with no directory row.
    ForeignKeyViolation,
    /// The accumulated value left the representable range.
    Overflow,
}

/// One point of a consumption read: an hour of the day and the accumulated
/// value for that hour, in micro-units.
#[derive(Clone, Copy, PartialEq, Eq, Structural, Debug)]
pub struct HourlyPoint {
    pub hour: u8,
    pub value_micro: i64,
}

/// The bucket table with every bucket of `device_id` removed.
pub open spec fn spec_cascade_delete(
    b: Map<BucketKey, BucketState>,
    device_id: u128,
) -> Map<BucketKey, BucketState> {
    Map::new(|k: BucketKey| b.dom().contains(k) && k.device_id != device_id, |k: BucketKey| b[k])
}

/// The accumulated value for hour `hour` of `day`, zero when no bucket
/// exists.
pub open spec fn spec_hour_total(
    b: Map<BucketKey, BucketState>,
    device_id: u128,
    day: Date,
    hour: u8,
) -> int {
    spec_bucket_total(b, BucketKey { device_id, day, hour })
}

spec fn drop_device_buckets(s: Seq<BucketRow>, device_id: u128) -> Seq<BucketRow>
    decreases s.len(),
{
    if s.len() == 0 {
        Seq::empty()
    } else {
        let rest = drop_device_buckets(s.drop_last(), device_id);
        if s.last().key.device_id == device_id {
            rest
        } else {
            rest.push(s.last())
        }
    }
}

proof fn lemma_drop_buckets(s: Seq<BucketRow>, device_id: u128)
    requires
        unique_keys(s),
    ensures
        unique_keys(drop_device_buckets(s, device_id)),
        forall|i: int|
            0 <= i < drop_device_buckets(s, device_id).len()
                ==> (#[trigger] drop_device_buckets(s, device_id)[i]).key.device_id != device_id,
        forall|i: int|
            0 <= i < drop_device_buckets(s, device_id).len() ==> s.contains(
                #[trigger] drop_device_buckets(s, device_id)[i],
            ),
        bucket_map(drop_device_buckets(s, device_id)) =~= spec_cascade_delete(
            bucket_map(s),
            device_id,
        ),
    decreases s.len(),
{
    let d = drop_device_buckets(s, device_id);
    if s.len() == 0 {
    } else {
        let prefix = s.drop_last();
        let rest = drop_device_buckets(prefix, device_id);
        lemma_drop_buckets(prefix, device_id);
        assert forall|i: int| 0 <= i < rest.len() implies s.contains(#[trigger] rest[i]) by {
            let j = choose|j: int| 0 <= j < prefix.len() && prefix[j] == rest[i];
            assert(s[j] == rest[i]);
        }
        lemma_bucket_map_absent(prefix, s.last().key);
        if s.last().key.device_id == device_id {
        } else {
            assert(d == rest.push(s.last()));
            assert(d.drop_last() =~= rest);
            assert forall|i: int, j: int| 0 <= i < j < d.len() implies d[i].key != d[j].key by {
                if j < d.len() - 1 {
                    assert(rest[i].key != rest[j].key);
                } else {
                    // d[i] is an element of the prefix, whose key differs
                    // from the last row's key by uniqueness of s
                    let l = choose|l: int| 0 <= l < prefix.len() && prefix[l] == rest[i];
                    assert(s[l] == d[i]);
                    assert(s[l].key != s.last().key);
                }
            }
            assert(s.contains(s.last())) by {
                assert(s[s.len() - 1] == s.last());
            }
        }
    }
}

proof fn lemma_drop_buckets_noop(s: Seq<BucketRow>, device_id: u128)
    requires
        forall|i: int| 0 <= i < s.len() ==> (#[trigger] s[i]).key.device_id != device_id,
    ensures
        drop_device_buckets(s, device_id) =~= s,
    decreases s.len(),
{
    if s.len() > 0 {
        lemma_drop_buckets_noop(s.drop_last(), device_id);
    }
}

/// The invariant that a device id referenced by any bucket resolves to a
/// directory row — never dangling.
pub proof fn lemma_no_dangling_device(store: MonitorStore, k: BucketKey)
    requires
        store.wf(),
        store@.buckets.dom().contains(k),
    ensures
        store@.devices.dom().contains(k.device_id),
{
    lemma_bucket_map_contains(store.buckets@, k);
    let i = choose|i: int| 0 <= i < store.buckets@.len() && store.buckets@[i].key == k;
    let j = choose|j: int|
        0 <= j < store.devices@.len() && store.devices@[j].id == store.buckets@[i].key.device_id;
    lemma_dir_map_contains_from_index(store.devices@, j);
}

/// Removes the directory row for `device_id` and, cascading, every bucket of
/// that device; does nothing when no such row exists.
pub fn delete_device(store: &mut MonitorStore, device_id: u128)
    requires
        old(store).wf(),
    ensures
        final(store).wf(),
        final(store)@.devices == old(store)@.devices.remove(device_id),
        final(store)@.buckets == spec_cascade_delete(old(store)@.buckets, device_id),
{
    let idx = store.find_device_index(device_id);
    match idx {
        Some(i) => {
            let ghost olddev = store.devices@;
            let ghost oldbuckets = store.buckets@;
            proof {
                lemma_dir_map_remove(store.devices@, i as int);
            }
            store.devices.remove(i);
            // cascade: drop every bucket of the deleted device
            let mut kept: Vec<BucketRow> = Vec::new();
            let mut n: usize = 0;
            while n < store.buckets.len()
                invariant
                    n <= store.buckets@.len(),
                    kept@ == drop_device_buckets(store.buckets@.take(n as int), device_id),
                decreases store.buckets@.len() - n,
            {
                let row = store.buckets[n];
                proof {
                    assert(store.buckets@.take(n + 1 as int) =~= store.buckets@.take(
                        n as int,
                    ).push(row));
                    assert(store.buckets@.take(n + 1 as int).drop_last() =~= store.buckets@.take(
                        n as int,
                    ));
                }
                if row.key.device_id != device_id {
                    kept.push(row);
                }
                n = n + 1;
            }
            proof {
                assert(store.buckets@.take(store.buckets@.len() as int) =~= store.buckets@);
                lemma_drop_buckets(store.buckets@, device_id);
            }
            store.buckets = kept;
            proof {
                assert forall|a: int| 0 <= a < store.buckets@.len() implies exists|j: int|
                    0 <= j < store.devices@.len() && store.devices@[j].id
                        == (#[trigger] store.buckets@[a]).key.device_id by {
                    let l = choose|l: int|
                        0 <= l < oldbuckets.len() && oldbuckets[l] == store.buckets@[a];
                    let j = choose|j: int|
                        0 <= j < olddev.len() && olddev[j].id == oldbuckets[l].key.device_id;
                    assert(olddev[j].id != device_id);
                    assert(j != i);
                    if j < i as int {
                        assert(store.devices@[j] == olddev[j]);
                    } else {
                        assert(store.devices@[j - 1] == olddev[j]);
                    }
                }
            }
        },
        None => {
            proof {
                lemma_dir_map_absent(store.devices@, device_id);
                assert(old(store)@.devices.remove(device_id) =~= old(store)@.devices);
                // no bucket can reference the absent device, so the cascade
                // removes nothing
                assert forall|k: BucketKey|
                    store@.buckets.dom().contains(k) implies k.device_id != device_id by {
                    lemma_bucket_map_contains(store.buckets@, k);
                }
                assert(spec_cascade_delete(old(store)@.buckets, device_id) =~= old(
                    store,
                )@.buckets);
            }
        },
    }
}

/// Performs the bucket upsert for one measurement: insert a new row with the
/// value, or add the value to the row for `(device_id, day, hour)`. Fails
/// with a foreign-key violation when `device_id` has no directory row, and
/// with an overflow when the accumulated value would leave the representable
/// range; either failure leaves the store unchanged.
pub fn accumulate_measurement(
    store: &mut MonitorStore,
    device_id: u128,
    bucket: &HourBucket,
    value_micro: i64,
    now: Timestamp,
) -> (r: Result<(), StorageError>)
    requires
        old(store).wf(),
        bucket.hour < 24,
        value_micro >= 0,
    ensures
        final(store).wf(),
        final(store)@.devices == old(store)@.devices,
        ({
            let k = BucketKey { device_id, day: bucket.day, hour: bucket.hour };
            match r {
                Ok(()) => old(store)@.devices.dom().contains(device_id) && spec_bucket_total(
                    old(store)@.buckets,
                    k,
                ) + value_micro <= i64::MAX && final(store)@.buckets == spec_accumulate(
                    old(store)@.buckets,
                    k,
                    value_micro,
                    now,
                ),
                Err(StorageError::ForeignKeyViolation) => !old(store)@.devices.dom().contains(
                    device_id,
                ) && final(store)@.buckets == old(store)@.buckets,
                Err(StorageError::Overflow) => old(store)@.devices.dom().contains(device_id)
                    && spec_bucket_total(old(store)@.buckets, k) + value_micro > i64::MAX
                    && final(store)@.buckets == old(store)@.buckets,
            }
        }),
{
    let key = BucketKey { device_id, day: bucket.day, hour: bucket.hour };
    let present = store.contains_device(device_id);
    if !present {
        return Err(StorageError::ForeignKeyViolation);
    }
    let idx = store.find_bucket_index(key);
    match idx {
        Some(i) => {
            proof {
                lemma_bucket_map_index(store.buckets@, i as int);
            }
            let row = store.buckets[i];
            if row.state.value_micro > i64::MAX - value_micro {
                return Err(StorageError::Overflow);
            }
            let updated = BucketRow {
                key,
                state: BucketState {
                    value_micro: row.state.value_micro + value_micro,
                    updated_at: now,
                },
            };
            proof {
                lemma_bucket_map_update(store.buckets@, i as int, updated);
            }
            let ghost oldbuckets = store.buckets@;
            store.buckets.set(i, updated);
            proof {
                assert forall|a: int, b: int|
                    0 <= a < b < store.buckets@.len() implies store.buckets@[a].key
                    != store.buckets@[b].key by {
                    assert(oldbuckets[a].key != oldbuckets[b].key);
                }
                assert forall|a: int| 0 <= a < store.buckets@.len() implies exists|j: int|
                    0 <= j < store.devices@.len() && store.devices@[j].id
                        == (#[trigger] store.buckets@[a]).key.device_id by {
                    let j = choose|j: int|
                        0 <= j < store.devices@.len() && store.devices@[j].id
                            == oldbuckets[a].key.device_id;
                    assert(store.devices@[j].id == store.buckets@[a].key.device_id);
                }
            }
            Ok(())
        },
        None => {
            proof {
                lemma_bucket_map_absent(store.buckets@, key);
                lemma_dir_map_contains(store.devices@, device_id);
            }
            let row = BucketRow {
                key,
                state: BucketState { value_micro, updated_at: now },
            };
            let ghost oldbuckets = store.buckets@;
            store.buckets.push(row);
            proof {
                assert(store.buckets@.drop_last() =~= oldbuckets);
                assert forall|a: int| 0 <= a < store.buckets@.len() implies exists|j: int|
                    0 <= j < store.devices@.len() && store.devices@[j].id
                        == (#[trigger] store.buckets@[a]).key.device_id by {
                    if a < oldbuckets.len() {
                        let j = choose|j: int|
                            0 <= j < store.devices@.len() && store.devices@[j].id
                                == oldbuckets[a].key.device_id;
                        assert(store.devices@[j].id == store.buckets@[a].key.device_id);
                    } else {
                        let j = choose|j: int|
                            0 <= j < store.devices@.len() && store.devices@[j].id == device_id;
                        assert(store.devices@[j].id == store.buckets@[a].key.device_id);
                    }
                }
            }
            Ok(())
        },
    }
}

/// The aggregator's recovery path: try the bucket upsert; on a foreign-key
/// violation insert a placeholder directory row for the device, then retry
/// the upsert exactly once. Any other failure propagates.
pub fn record_measurement(
    store: &mut MonitorStore,
    device_id: u128,
    bucket: &HourBucket,
    value_micro: i64,
    now: Timestamp,
) -> (r: Result<(), StorageError>)
    requires
        old(store).wf(),
        bucket.hour < 24,
        value_micro >= 0,
    ensures
        final(store).wf(),
        final(store)@.devices == spec_ensure_placeholder(old(store)@.devices, device_id, now),
        ({
            let k = BucketKey { device_id, day: bucket.day, hour: bucket.hour };
            &&& r is Ok <==> spec_bucket_total(old(store)@.buckets, k) + value_micro <= i64::MAX
            &&& r is Ok ==> final(store)@.buckets == spec_accumulate(
                old(store)@.buckets,
                k,
                value_micro,
                now,
            )
            &&& r is Err ==> r == Err::<(), StorageError>(StorageError::Overflow)
                && final(store)@.buckets == old(store)@.buckets
        }),
{
    let ghost k = BucketKey { device_id, day: bucket.day, hour: bucket.hour };
    proof {
        if old(store)@.buckets.dom().contains(k) {
            lemma_no_dangling_device(*old(store), k);
        }
    }
    match accumulate_measurement(store, device_id, bucket, value_micro, now) {
        Ok(()) => Ok(()),
        Err(StorageError::ForeignKeyViolation) => {
            // the device has not been synced yet: create its placeholder row
            // and retry once
            ensure_device_placeholder(store, device_id, now);
            accumulate_measurement(store, device_id, bucket, value_micro, now)
        },
        Err(e) => Err(e),
    }
}

/// Reads the buckets of `device_id` on `day`: one point per existing bucket,
/// in ascending hour order.
pub fn fetch_consumption(store: &MonitorStore, device_id: u128, day: Date) -> (r: Vec<HourlyPoint>)
    requires
        store.wf(),
    ensures
        forall|a: int, b: int| 0 <= a < b < r@.len() ==> r@[a].hour < r@[b].hour,
        forall|j: int|
            0 <= j < r@.len() ==> (#[trigger] r@[j]).hour < 24 && store@.buckets.dom().contains(
                BucketKey { device_id, day, hour: r@[j].hour },
            ) && r@[j].value_micro == store@.buckets[BucketKey {
                device_id,
                day,
                hour: r@[j].hour,
            }].value_micro,
        forall|h: u8|
            h < 24 && store@.buckets.dom().contains(BucketKey { device_id, day, hour: h })
                ==> exists|j: int| 0 <= j < r@.len() && (#[trigger] r@[j]).hour == h,
{
    let mut out: Vec<HourlyPoint> = Vec::new();
    let mut h: u8 = 0;
    while h < 24
        invariant
            store.wf(),
            h <= 24,
            forall|a: int, b: int| 0 <= a < b < out@.len() ==> out@[a].hour < out@[b].hour,
            forall|j: int| 0 <= j < out@.len() ==> (#[trigger] out@[j]).hour < h,
            forall|j: int|
                0 <= j < out@.len() ==> store@.buckets.dom().contains(
                    BucketKey { device_id, day, hour: (#[trigger] out@[j]).hour },
                ) && out@[j].value_micro == store@.buckets[BucketKey {
                    device_id,
                    day,
                    hour: out@[j].hour,
                }].value_micro,
            forall|g: u8|
                g < h && store@.buckets.dom().contains(BucketKey { device_id, day, hour: g })
                    ==> exists|j: int| 0 <= j < out@.len() && (#[trigger] out@[j]).hour == g,
        decreases 24 - h,
    {
        let key = BucketKey { device_id, day, hour: h };
        let ghost oldout = out@;
        match store.find_bucket_index(key) {
            Some(i) => {
                proof {
                    lemma_bucket_map_index(store.buckets@, i as int);
                }
                let row = store.buckets[i];
                out.push(HourlyPoint { hour: h, value_micro: row.state.value_micro });
            },
            None => {
                proof {
                    lemma_bucket_map_absent(store.buckets@, key);
                }
            },
        }
        proof {
            assert forall|g: u8|
                g < h + 1 && store@.buckets.dom().contains(
                    BucketKey { device_id, day, hour: g },
                ) implies exists|j: int| 0 <= j < out@.len() && (#[trigger] out@[j]).hour == g by {
                if g < h {
                    let j = choose|j: int| 0 <= j < oldout.len() && oldout[j].hour == g;
                    assert(out@[j].hour == g);
                } else {
                    assert(out@[out@.len() - 1].hour == h);
                }
            }
        }
        h = h + 1;
    }
    out
}

/// The consumption read query: given a device and a calendar day, returns 24
/// entries for hours 0–23, defaulting unseen hours to zero.
pub fn consumption_points(store: &MonitorStore, device_id: u128, day: Date) -> (r: Vec<HourlyPoint>)
    requires
        store.wf(),
    ensures
        r@.len() == 24,
        forall|h: int| 0 <= h < 24 ==> (#[trigger] r@[h]).hour == h,
        forall|h: int|
            0 <= h < 24 ==> (#[trigger] r@[h]).value_micro == spec_hour_total(
                store@.buckets,
                device_id,
                day,
                h as u8,
            ),
{
    let mut out: Vec<HourlyPoint> = Vec::new();
    let mut h: u8 = 0;
    while h < 24
        invariant
            store.wf(),
            h <= 24,
            out@.len() == h,
            forall|g: int| 0 <= g < h ==> (#[trigger] out@[g]).hour == g,
            forall|g: int|
                0 <= g < h ==> (#[trigger] out@[g]).value_micro == spec_hour_total(
                    store@.buckets,
                    device_id,
                    day,
                    g as u8,
                ),
        decreases 24 - h,
    {
        let key = BucketKey { device_id, day, hour: h };
        let value_micro: i64 = match store.find_bucket_index(key) {
            Some(i) => {
                proof {
                    lemma_bucket_map_index(store.buckets@, i as int);
                }
                store.buckets[i].state.value_micro
            },
            None => {
                proof {
                    lemma_bucket_map_absent(store.buckets@, key);
                }
                0
            },
        };
        out.push(HourlyPoint { hour: h, value_micro });
        h = h + 1;
    }
    out
}

/// Commutative accumulation: delivering measurement values `v1` then `v2`
/// for the same bucket key, in either order, yields the same bucket table,
/// with a total of `v1 + v2` on top of whatever the bucket held before.
pub proof fn lemma_accumulate_commutes(
    b: Map<BucketKey, BucketState>,
    k: BucketKey,
    v1: i64,
    v2: i64,
    t1: Timestamp,
    t2: Timestamp,
)
    requires
        v1 >= 0,
        v2 >= 0,
        spec_bucket_total(b, k) + v1 + v2 <= i64::MAX,
        spec_bucket_total(b, k) >= 0,
    ensures
        spec_bucket_total(spec_accumulate(spec_accumulate(b, k, v1, t1), k, v2, t2), k)
            == spec_bucket_total(b, k) + v1 + v2,
        spec_accumulate(spec_accumulate(b, k, v1, t1), k, v2, t2) == spec_accumulate(
            spec_accumulate(b, k, v2, t1),
            k,
            v1,
            t2,
        ),
        forall|other: BucketKey|
            other != k ==> spec_bucket_total(
                spec_accumulate(spec_accumulate(b, k, v1, t1), k, v2, t2),
                other,
            ) == spec_bucket_total(b, other),
{
    assert(spec_accumulate(spec_accumulate(b, k, v1, t1), k, v2, t2) =~= spec_accumulate(
        spec_accumulate(b, k, v2, t1),
        k,
        v1,
        t2,
    ));
}

/// Inserts a placeholder directory row for `device_id` if absent; does
/// nothing when any row for that id already exists.
pub fn ensure_device_placeholder(store: &mut MonitorStore, device_id: u128, now: Timestamp)
    requires
        old(store).wf(),
    ensures
        final(store).wf(),
        final(store)@.devices == spec_ensure_placeholder(old(store)@.devices, device_id, now),
        final(store)@.buckets == old(store)@.buckets,
{
    let idx = store.find_device_index(device_id);
    match idx {
        Some(i) => {
            proof {
                lemma_dir_map_index(store.devices@, i as int);
            }
        },
        None => {
            proof {
                lemma_dir_map_absent(store.devices@, device_id);
                reveal_strlit("Unknown device");
                reveal_strlit("null");
                vstd::string::is_ascii_spec_bytes("Unknown device");
                vstd::string::is_ascii_spec_bytes("null");
            }
            let rec = DeviceRecord {
                id: device_id,
                user_id: None,
                name: vstd::slice::slice_to_vec("Unknown device".as_bytes()),
                max_consumption: None,
                metadata: vstd::slice::slice_to_vec("null".as_bytes()),
                created_at: now,
                updated_at: now,
            };
            assert(rec@ == spec_placeholder(device_id, now));
            let ghost olddev = store.devices@;
            store.devices.push(rec);
            proof {
                assert(store.devices@.drop_last() =~= olddev);
                assert forall|a: int| 0 <= a < store.buckets@.len() implies exists|j: int|
                    0 <= j < store.devices@.len() && store.devices@[j].id
                        == (#[trigger] store.buckets@[a]).key.device_id by {
                    let j = choose|j: int|
                        0 <= j < olddev.len() && olddev[j].id == store.buckets@[a].key.device_id;
                    assert(store.devices@[j].id == store.buckets@[a].key.device_id);
                }
            }
        },
    }
}

} // verus!
