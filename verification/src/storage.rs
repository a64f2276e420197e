//! The dispatcher's local store of events awaiting upload: every sensor
//! reading and device status is kept under its own id, first as pending,
//! then as uploaded once the prime service has acknowledged it, until a
//! cleanup drops the uploaded ones.
use vstd::prelude::*;

use crate::model::{DeviceStatus, DeviceStatusView, ReadingId, SensorReading, StatusId};
use crate::text::concat;

verus! {

/// Upload state of a stored event.
#[derive(Debug, Clone, Copy, PartialEq, Eq, Structural)]
pub enum StorageState {
    Pending,
    Uploaded,
}

/// A sensor reading as kept by the store.
#[derive(Debug, Clone, Copy)]
pub struct StoredSensorReading {
    pub id: ReadingId,
    pub reading: SensorReading,
    pub state: StorageState,
}

/// A device status as kept by the store.
#[derive(Debug, Clone)]
pub struct StoredDeviceStatus {
    pub id: StatusId,
    pub status: DeviceStatus,
    pub state: StorageState,
}

/// The abstract content of a stored event: its id, what it carries and its
/// upload state.
pub struct Entry<P> {
    pub id: u128,
    pub payload: P,
    pub state: StorageState,
}

impl View for StoredSensorReading {
    type V = Entry<SensorReading>;

    open spec fn view(&self) -> Entry<SensorReading> {
        Entry { id: self.id.0, payload: self.reading, state: self.state }
    }
}

impl View for StoredDeviceStatus {
    type V = Entry<DeviceStatusView>;

    open spec fn view(&self) -> Entry<DeviceStatusView> {
        Entry { id: self.id.0, payload: self.status@, state: self.state }
    }
}

/// Statistics about stored data.
#[derive(Debug, Clone, Copy, PartialEq, Eq, Structural)]
pub struct StorageStats {
    /// Number of pending sensor readings.
    pub sensor_readings_pending: usize,
    /// Number of uploaded sensor readings.
    pub sensor_readings_uploaded: usize,
    /// Total number of sensor readings.
    pub sensor_readings_total: usize,
    /// Number of pending device statuses.
    pub device_statuses_pending: usize,
    /// Number of uploaded device statuses.
    pub device_statuses_uploaded: usize,
    /// Total number of device statuses.
    pub device_statuses_total: usize,
}

/// Statistics about a cleanup.
#[derive(Debug, Clone, Copy, PartialEq, Eq, Structural)]
pub struct CleanupStats {
    /// Number of sensor readings deleted.
    pub sensor_readings_deleted: usize,
    /// Number of device statuses deleted.
    pub device_statuses_deleted: usize,
}

/// Why a store operation failed.
#[derive(Debug, Clone)]
pub enum MemoryStorageError {
    MutexPoisoned(String),
}

impl MemoryStorageError {
    /// The error as text.
    pub fn message(&self) -> (s: String)
        ensures
            s@ == match *self {
                MemoryStorageError::MutexPoisoned(m) => "Mutex poisoned: "@ + m@,
            },
    {
        match self {
            MemoryStorageError::MutexPoisoned(m) => concat("Mutex poisoned: ", m.as_str()),
        }
    }
}

// ---------------------------------------------------------------------------
// The abstract store
// ---------------------------------------------------------------------------

/// No id occurs twice.
pub open spec fn ids_unique<P>(s: Seq<Entry<P>>) -> bool {
    forall|i: int, j: int| 0 <= i < j < s.len() ==> s[i].id != s[j].id
}

/// Whether some entry has id `id`.
pub open spec fn holds_id<P>(s: Seq<Entry<P>>, id: u128) -> bool {
    exists|i: int| 0 <= i < s.len() && #[trigger] s[i].id == id
}

/// The position of the entry with id `id` (meaningful when there is one).
pub open spec fn id_index<P>(s: Seq<Entry<P>>, id: u128) -> int {
    choose|i: int| 0 <= i < s.len() && #[trigger] s[i].id == id
}

/// `s` after storing `payload` as pending under `id`: an entry with that
/// id is replaced in place, otherwise the new entry goes last.
pub open spec fn store_entry<P>(s: Seq<Entry<P>>, id: u128, payload: P) -> Seq<Entry<P>> {
    let e = Entry { id, payload, state: StorageState::Pending };
    if holds_id(s, id) {
        s.update(id_index(s, id), e)
    } else {
        s.push(e)
    }
}

/// `s` after storing each reading of `rs` in turn.
pub open spec fn store_readings(s: Seq<Entry<SensorReading>>, rs: Seq<SensorReading>) -> Seq<Entry<SensorReading>>
    decreases rs.len(),
{
    if rs.len() == 0 {
        s
    } else {
        let last = rs.last();
        store_entry(store_readings(s, rs.drop_last()), last.id.0, last)
    }
}

/// `s` after storing each status of `ss` in turn.
pub open spec fn store_statuses(s: Seq<Entry<DeviceStatusView>>, ss: Seq<DeviceStatusView>) -> Seq<
    Entry<DeviceStatusView>,
>
    decreases ss.len(),
{
    if ss.len() == 0 {
        s
    } else {
        let last = ss.last();
        store_entry(store_statuses(s, ss.drop_last()), last.id.0, last)
    }
}

/// Whether an entry is still waiting for upload.
pub open spec fn is_pending<P>(e: Entry<P>) -> bool {
    e.state == StorageState::Pending
}

/// The pending entries, in storage order.
pub open spec fn pending_entries<P>(s: Seq<Entry<P>>) -> Seq<Entry<P>> {
    s.filter(|e: Entry<P>| is_pending(e))
}

/// What the pending entries carry, in storage order.
pub open spec fn pending_payloads<P>(s: Seq<Entry<P>>) -> Seq<P> {
    pending_entries(s).map_values(|e: Entry<P>| e.payload)
}

/// `s` with every entry whose id is in `ids` marked as uploaded.
pub open spec fn mark_entries<P>(s: Seq<Entry<P>>, ids: Set<u128>) -> Seq<Entry<P>> {
    s.map_values(
        |e: Entry<P>|
            if ids.contains(e.id) {
                Entry { id: e.id, payload: e.payload, state: StorageState::Uploaded }
            } else {
                e
            },
    )
}

/// The ids named by a list of reading ids.
pub open spec fn reading_id_set(ids: Seq<ReadingId>) -> Set<u128> {
    Set::new(|x: u128| exists|i: int| 0 <= i < ids.len() && #[trigger] ids[i].0 == x)
}

/// The ids named by a list of status ids.
pub open spec fn status_id_set(ids: Seq<StatusId>) -> Set<u128> {
    Set::new(|x: u128| exists|i: int| 0 <= i < ids.len() && #[trigger] ids[i].0 == x)
}

/// Statistics of a store with these entries.
pub open spec fn stats_of(
    readings: Seq<Entry<SensorReading>>,
    statuses: Seq<Entry<DeviceStatusView>>,
) -> StorageStats {
    StorageStats {
        sensor_readings_pending: pending_entries(readings).len() as usize,
        sensor_readings_uploaded: (readings.len() - pending_entries(readings).len()) as usize,
        sensor_readings_total: readings.len() as usize,
        device_statuses_pending: pending_entries(statuses).len() as usize,
        device_statuses_uploaded: (statuses.len() - pending_entries(statuses).len()) as usize,
        device_statuses_total: statuses.len() as usize,
    }
}

proof fn lemma_pending_len<P>(s: Seq<Entry<P>>)
    ensures
        pending_entries(s).len() <= s.len(),
{
    s.lemma_filter_len(|e: Entry<P>| is_pending(e));
}

/// The pending entries of a store with unique ids again have unique ids.
proof fn lemma_pending_subsequence<P>(s: Seq<Entry<P>>)
    requires
        ids_unique(s),
    ensures
        ids_unique(pending_entries(s)),
    decreases s.len(),
{
    reveal_with_fuel(Seq::filter, 1);
    if s.len() > 0 {
        let d = s.drop_last();
        assert(ids_unique(d));
        lemma_pending_subsequence(d);
        let f = pending_entries(d);
        assert forall|k: int| 0 <= k < f.len() implies #[trigger] f[k].id != s.last().id by {
            d.lemma_filter_contains_rev(|e: Entry<P>| is_pending(e), f[k]);
            assert(f.contains(f[k]));
        }
    }
}

proof fn lemma_store_entry<P>(s: Seq<Entry<P>>, id: u128, payload: P)
    requires
        ids_unique(s),
    ensures
        ids_unique(store_entry(s, id, payload)),
        holds_id(store_entry(s, id, payload), id),
        forall|k: u128| holds_id(s, k) ==> holds_id(#[trigger] store_entry(s, id, payload), k),
        store_entry(s, id, payload).len() == if holds_id(s, id) { s.len() } else { s.len() + 1 },
{
    let t = store_entry(s, id, payload);
    if holds_id(s, id) {
        let p = id_index(s, id);
        assert(t[p].id == id);
        assert forall|k: u128| holds_id(s, k) implies holds_id(t, k) by {
            let q = choose|q: int| 0 <= q < s.len() && #[trigger] s[q].id == k;
            assert(t[q].id == k);
        }
    } else {
        assert(t[s.len() as int].id == id);
        assert forall|k: u128| holds_id(s, k) implies holds_id(t, k) by {
            let q = choose|q: int| 0 <= q < s.len() && #[trigger] s[q].id == k;
            assert(t[q].id == k);
        }
    }
}

/// An event just stored is pending: fetching the pending events gives it
/// back.
pub proof fn law_stored_event_is_pending<P>(s: Seq<Entry<P>>, id: u128, payload: P)
    ensures
        pending_payloads(store_entry(s, id, payload)).contains(payload),
{
    let t = store_entry(s, id, payload);
    let pred = |e: Entry<P>| is_pending(e);
    let p = if holds_id(s, id) { id_index(s, id) } else { s.len() as int };
    assert(t[p] == Entry { id, payload, state: StorageState::Pending });
    t.lemma_filter_contains(pred, p);
    let f = t.filter(pred);
    let k = choose|k: int| 0 <= k < f.len() && f[k] == t[p];
    assert(pending_payloads(t)[k] == payload);
}

/// After marking a set of ids as uploaded, no pending event has one of
/// those ids, and every event that was pending under another id still is.
pub proof fn law_marked_events_leave_pending<P>(s: Seq<Entry<P>>, ids: Set<u128>)
    ensures
        forall|i: int|
            0 <= i < pending_entries(mark_entries(s, ids)).len() ==> !ids.contains(
                #[trigger] pending_entries(mark_entries(s, ids))[i].id,
            ),
        forall|i: int|
            0 <= i < s.len() && is_pending(s[i]) && !ids.contains(s[i].id) ==> pending_entries(
                mark_entries(s, ids),
            ).contains(#[trigger] s[i]),
{
    let m = mark_entries(s, ids);
    let pred = |e: Entry<P>| is_pending(e);
    assert forall|i: int| 0 <= i < pending_entries(m).len() implies !ids.contains(
        #[trigger] pending_entries(m)[i].id,
    ) by {
        m.lemma_filter_pred(pred, i);
        let e = pending_entries(m)[i];
        m.lemma_filter_contains_rev(pred, e);
        let j = choose|j: int| 0 <= j < m.len() && m[j] == e;
        assert(m[j] == e);
    }
    assert forall|i: int| 0 <= i < s.len() && is_pending(s[i]) && !ids.contains(s[i].id) implies pending_entries(
        m,
    ).contains(#[trigger] s[i]) by {
        assert(m[i] == s[i]);
        m.lemma_filter_contains(pred, i);
    }
}

proof fn lemma_pending_idempotent<P>(s: Seq<Entry<P>>)
    ensures
        pending_entries(pending_entries(s)) == pending_entries(s),
    decreases s.len(),
{
    reveal_with_fuel(Seq::filter, 1);
    let pred = |e: Entry<P>| is_pending(e);
    if s.len() > 0 {
        lemma_pending_idempotent(s.drop_last());
        let f = s.drop_last().filter(pred);
        if is_pending(s.last()) {
            assert(f.push(s.last()).drop_last() =~= f);
        }
    }
}

/// After a cleanup nothing uploaded is left, and what is left is exactly
/// what was pending before.
pub proof fn law_cleanup_keeps_only_pending(
    readings: Seq<Entry<SensorReading>>,
    statuses: Seq<Entry<DeviceStatusView>>,
)
    requires
        readings.len() <= usize::MAX,
        statuses.len() <= usize::MAX,
    ensures
        ({
            let before = stats_of(readings, statuses);
            let after = stats_of(pending_entries(readings), pending_entries(statuses));
            &&& after.sensor_readings_uploaded == 0
            &&& after.device_statuses_uploaded == 0
            &&& after.sensor_readings_total == before.sensor_readings_pending
            &&& after.device_statuses_total == before.device_statuses_pending
            &&& after.sensor_readings_pending == before.sensor_readings_pending
            &&& after.device_statuses_pending == before.device_statuses_pending
        }),
{
    lemma_pending_idempotent(readings);
    lemma_pending_idempotent(statuses);
    lemma_pending_len(readings);
    lemma_pending_len(statuses);
}

// ---------------------------------------------------------------------------
// The store
// ---------------------------------------------------------------------------

/// An in-memory store of readings and statuses awaiting upload.
pub struct MemoryStorage {
    sensor_readings: Vec<StoredSensorReading>,
    device_statuses: Vec<StoredDeviceStatus>,
}

impl MemoryStorage {
    /// The stored readings, in storage order.
    pub closed spec fn readings(&self) -> Seq<Entry<SensorReading>> {
        self.sensor_readings@.map_values(|e: StoredSensorReading| e@)
    }

    /// The stored statuses, in storage order.
    pub closed spec fn statuses(&self) -> Seq<Entry<DeviceStatusView>> {
        self.device_statuses@.map_values(|e: StoredDeviceStatus| e@)
    }

    #[verifier::type_invariant]
    closed spec fn well_formed(&self) -> bool {
        &&& ids_unique(self.readings())
        &&& ids_unique(self.statuses())
        &&& forall|i: int|
            0 <= i < self.sensor_readings@.len() ==> #[trigger] self.sensor_readings@[i].id
                == self.sensor_readings@[i].reading.id
        &&& forall|i: int|
            0 <= i < self.device_statuses@.len() ==> #[trigger] self.device_statuses@[i].id
                == self.device_statuses@[i].status.id
    }

    /// An empty store.
    pub fn new() -> (s: MemoryStorage)
        ensures
            s.readings() == Seq::<Entry<SensorReading>>::empty(),
            s.statuses() == Seq::<Entry<DeviceStatusView>>::empty(),
    {
        let s = MemoryStorage { sensor_readings: Vec::new(), device_statuses: Vec::new() };
        assert(s.readings() =~= Seq::<Entry<SensorReading>>::empty());
        assert(s.statuses() =~= Seq::<Entry<DeviceStatusView>>::empty());
        s
    }

    fn reading_position(&self, id: ReadingId) -> (r: Option<usize>)
        ensures
            match r {
                Some(i) => i < self.readings().len() && self.readings()[i as int].id == id.0 && holds_id(
                    self.readings(),
                    id.0,
                ) && id_index(self.readings(), id.0) == i,
                None => !holds_id(self.readings(), id.0),
            },
    {
        proof {
            use_type_invariant(self);
        }
        let mut i: usize = 0;
        while i < self.sensor_readings.len()
            invariant
                i <= self.sensor_readings@.len(),
                ids_unique(self.readings()),
                forall|k: int| 0 <= k < i ==> self.readings()[k].id != id.0,
            decreases self.sensor_readings@.len() - i,
        {
            if self.sensor_readings[i].id.0 == id.0 {
                proof {
                    assert(self.readings()[i as int].id == id.0);
                    let p = id_index(self.readings(), id.0);
                    assert(self.readings()[p].id == id.0);
                }
                return Some(i);
            }
            i = i + 1;
        }
        None
    }

    fn status_position(&self, id: StatusId) -> (r: Option<usize>)
        ensures
            match r {
                Some(i) => i < self.statuses().len() && self.statuses()[i as int].id == id.0 && holds_id(
                    self.statuses(),
                    id.0,
                ) && id_index(self.statuses(), id.0) == i,
                None => !holds_id(self.statuses(), id.0),
            },
    {
        proof {
            use_type_invariant(self);
        }
        let mut i: usize = 0;
        while i < self.device_statuses.len()
            invariant
                i <= self.device_statuses@.len(),
                ids_unique(self.statuses()),
                forall|k: int| 0 <= k < i ==> self.statuses()[k].id != id.0,
            decreases self.device_statuses@.len() - i,
        {
            if self.device_statuses[i].id.0 == id.0 {
                proof {
                    assert(self.statuses()[i as int].id == id.0);
                    let p = id_index(self.statuses(), id.0);
                    assert(self.statuses()[p].id == id.0);
                }
                return Some(i);
            }
            i = i + 1;
        }
        None
    }

    fn put_reading(&mut self, reading: SensorReading)
        ensures
            final(self).readings() == store_entry(old(self).readings(), reading.id.0, reading),
            final(self).statuses() == old(self).statuses(),
    {
        proof {
            use_type_invariant(&*self);
            lemma_store_entry(self.readings(), reading.id.0, reading);
        }
        let e = StoredSensorReading { id: reading.id, reading, state: StorageState::Pending };
        let ghost before = self.readings();
        let pos = self.reading_position(reading.id);
        let mut entries: Vec<StoredSensorReading> = Vec::new();
        std::mem::swap(&mut entries, &mut self.sensor_readings);
        match pos {
            Some(i) => {
                entries.set(i, e);
            },
            None => {
                entries.push(e);
            },
        }
        proof {
            assert(entries@.map_values(|x: StoredSensorReading| x@) =~= store_entry(
                before,
                reading.id.0,
                reading,
            ));
        }
        self.sensor_readings = entries;
    }

    fn put_status(&mut self, status: DeviceStatus)
        ensures
            final(self).statuses() == store_entry(old(self).statuses(), status.id.0, status@),
            final(self).readings() == old(self).readings(),
    {
        proof {
            use_type_invariant(&*self);
            lemma_store_entry(self.statuses(), status.id.0, status@);
        }
        let id = status.id;
        let ghost sv = status@;
        let e = StoredDeviceStatus { id, status, state: StorageState::Pending };
        let ghost before = self.statuses();
        let pos = self.status_position(id);
        let mut entries: Vec<StoredDeviceStatus> = Vec::new();
        std::mem::swap(&mut entries, &mut self.device_statuses);
        match pos {
            Some(i) => {
                entries.set(i, e);
            },
            None => {
                entries.push(e);
            },
        }
        proof {
            assert(entries@.map_values(|x: StoredDeviceStatus| x@) =~= store_entry(before, id.0, sv));
        }
        self.device_statuses = entries;
    }

    /// Stores a reading as pending under its own id, replacing any earlier
    /// event with that id.
    pub fn store_sensor_reading(&mut self, reading: SensorReading) -> (r: Result<(), MemoryStorageError>)
        ensures
            r is Ok,
            final(self).readings() == store_entry(old(self).readings(), reading.id.0, reading),
            final(self).statuses() == old(self).statuses(),
    {
        self.put_reading(reading);
        Ok(())
    }

    /// Stores a device status as pending under its own id, replacing any
    /// earlier event with that id.
    pub fn store_device_status(&mut self, status: DeviceStatus) -> (r: Result<(), MemoryStorageError>)
        ensures
            r is Ok,
            final(self).statuses() == store_entry(old(self).statuses(), status.id.0, status@),
            final(self).readings() == old(self).readings(),
    {
        self.put_status(status);
        Ok(())
    }

    /// Stores each reading in turn.
    pub fn store_sensor_readings_batch(&mut self, readings: Vec<SensorReading>) -> (r: Result<
        (),
        MemoryStorageError,
    >)
        ensures
            r is Ok,
            final(self).readings() == store_readings(old(self).readings(), readings@),
            final(self).statuses() == old(self).statuses(),
    {
        let mut i: usize = 0;
        while i < readings.len()
            invariant
                i <= readings@.len(),
                self.readings() == store_readings(old(self).readings(), readings@.take(i as int)),
                self.statuses() == old(self).statuses(),
            decreases readings@.len() - i,
        {
            self.put_reading(readings[i]);
            proof {
                assert(readings@.take(i + 1).drop_last() =~= readings@.take(i as int));
            }
            i = i + 1;
        }
        assert(readings@.take(readings@.len() as int) =~= readings@);
        Ok(())
    }

    /// Stores each device status in turn.
    pub fn store_device_statuses_batch(&mut self, statuses: Vec<DeviceStatus>) -> (r: Result<
        (),
        MemoryStorageError,
    >)
        ensures
            r is Ok,
            final(self).statuses() == store_statuses(
                old(self).statuses(),
                statuses@.map_values(|s: DeviceStatus| s@),
            ),
            final(self).readings() == old(self).readings(),
    {
        let ghost views = statuses@.map_values(|s: DeviceStatus| s@);
        let mut i: usize = 0;
        while i < statuses.len()
            invariant
                i <= statuses@.len(),
                views == statuses@.map_values(|s: DeviceStatus| s@),
                self.statuses() == store_statuses(old(self).statuses(), views.take(i as int)),
                self.readings() == old(self).readings(),
            decreases statuses@.len() - i,
        {
            let st = statuses[i].duplicate();
            self.put_status(st);
            proof {
                assert(views.take(i + 1).drop_last() =~= views.take(i as int));
                assert(views.take(i + 1).last() == st@);
            }
            i = i + 1;
        }
        assert(views.take(views.len() as int) =~= views);
        Ok(())
    }

    /// The pending readings, in storage order.
    pub fn fetch_pending_sensor_readings(&self) -> (r: Result<Vec<SensorReading>, MemoryStorageError>)
        ensures
            r matches Ok(v) && v@ == pending_payloads(self.readings()),
    {
        let ghost pred = |e: Entry<SensorReading>| is_pending(e);
        let mut out: Vec<SensorReading> = Vec::new();
        let mut i: usize = 0;
        while i < self.sensor_readings.len()
            invariant
                i <= self.sensor_readings@.len(),
                pred == (|e: Entry<SensorReading>| is_pending(e)),
                out@ == self.readings().take(i as int).filter(pred).map_values(
                    |e: Entry<SensorReading>| e.payload,
                ),
            decreases self.sensor_readings@.len() - i,
        {
            proof {
                reveal_with_fuel(Seq::filter, 1);
                assert(self.readings().take(i + 1).drop_last() =~= self.readings().take(i as int));
            }
            if self.sensor_readings[i].state == StorageState::Pending {
                out.push(self.sensor_readings[i].reading);
            }
            i = i + 1;
            proof {
                let t = self.readings().take(i as int).filter(pred);
                assert(out@ =~= t.map_values(|e: Entry<SensorReading>| e.payload));
            }
        }
        assert(self.readings().take(i as int) =~= self.readings());
        Ok(out)
    }

    /// The pending device statuses, in storage order.
    pub fn fetch_pending_device_statuses(&self) -> (r: Result<Vec<DeviceStatus>, MemoryStorageError>)
        ensures
            r matches Ok(v) && v@.map_values(|s: DeviceStatus| s@) == pending_payloads(self.statuses()),
    {
        let ghost pred = |e: Entry<DeviceStatusView>| is_pending(e);
        let mut out: Vec<DeviceStatus> = Vec::new();
        let mut i: usize = 0;
        while i < self.device_statuses.len()
            invariant
                i <= self.device_statuses@.len(),
                pred == (|e: Entry<DeviceStatusView>| is_pending(e)),
                out@.map_values(|s: DeviceStatus| s@) == self.statuses().take(i as int).filter(
                    pred,
                ).map_values(|e: Entry<DeviceStatusView>| e.payload),
            decreases self.device_statuses@.len() - i,
        {
            proof {
                reveal_with_fuel(Seq::filter, 1);
                assert(self.statuses().take(i + 1).drop_last() =~= self.statuses().take(i as int));
            }
            let ghost before_v = out@.map_values(|s: DeviceStatus| s@);
            let ghost prev = self.statuses().take(i as int).filter(pred);
            if self.device_statuses[i].state == StorageState::Pending {
                let d = self.device_statuses[i].status.duplicate();
                out.push(d);
                proof {
                    assert(out@.map_values(|s: DeviceStatus| s@) =~= before_v.push(d@));
                    let t = self.statuses().take(i + 1).filter(pred);
                    assert(t == prev.push(self.statuses()[i as int]));
                    assert(t.map_values(|e: Entry<DeviceStatusView>| e.payload) =~= prev.map_values(
                        |e: Entry<DeviceStatusView>| e.payload,
                    ).push(d@));
                }
            }
            i = i + 1;
        }
        assert(self.statuses().take(i as int) =~= self.statuses());
        Ok(out)
    }

    /// Marks every stored reading whose id is in `ids` as uploaded; ids that
    /// name no stored reading are ignored.
    pub fn mark_sensor_readings_uploaded(&mut self, ids: &[ReadingId]) -> (r: Result<(), MemoryStorageError>)
        ensures
            r is Ok,
            final(self).readings() == mark_entries(old(self).readings(), reading_id_set(ids@)),
            final(self).statuses() == old(self).statuses(),
    {
        proof {
            use_type_invariant(&*self);
        }
        let ghost set = reading_id_set(ids@);
        let ghost before = self.readings();
        let mut entries: Vec<StoredSensorReading> = Vec::new();
        std::mem::swap(&mut entries, &mut self.sensor_readings);
        let mut i: usize = 0;
        while i < entries.len()
            invariant
                i <= entries@.len(),
                entries@.len() == before.len(),
                set == reading_id_set(ids@),
                forall|k: int| 0 <= k < i ==> #[trigger] entries@[k]@ == mark_entries(before, set)[k],
                forall|k: int| i <= k < entries@.len() ==> #[trigger] entries@[k]@ == before[k],
                forall|k: int| 0 <= k < entries@.len() ==> #[trigger] entries@[k].id == entries@[k].reading.id,
            decreases entries@.len() - i,
        {
            let e = entries[i];
            assert(e@ == before[i as int]);
            if names_reading(ids, e.id) {
                entries.set(i, StoredSensorReading { id: e.id, reading: e.reading, state: StorageState::Uploaded });
            }
            assert(entries@[i as int]@ == mark_entries(before, set)[i as int]);
            i = i + 1;
        }
        proof {
            assert(entries@.map_values(|x: StoredSensorReading| x@) =~= mark_entries(before, set));
        }
        self.sensor_readings = entries;
        Ok(())
    }

    /// Marks every stored status whose id is in `ids` as uploaded; ids that
    /// name no stored status are ignored.
    pub fn mark_device_statuses_uploaded(&mut self, ids: &[StatusId]) -> (r: Result<(), MemoryStorageError>)
        ensures
            r is Ok,
            final(self).statuses() == mark_entries(old(self).statuses(), status_id_set(ids@)),
            final(self).readings() == old(self).readings(),
    {
        proof {
            use_type_invariant(&*self);
        }
        let ghost set = status_id_set(ids@);
        let ghost before = self.statuses();
        let mut entries: Vec<StoredDeviceStatus> = Vec::new();
        std::mem::swap(&mut entries, &mut self.device_statuses);
        let mut i: usize = 0;
        while i < entries.len()
            invariant
                i <= entries@.len(),
                entries@.len() == before.len(),
                set == status_id_set(ids@),
                forall|k: int| 0 <= k < i ==> #[trigger] entries@[k]@ == mark_entries(before, set)[k],
                forall|k: int| i <= k < entries@.len() ==> #[trigger] entries@[k]@ == before[k],
                forall|k: int| 0 <= k < entries@.len() ==> #[trigger] entries@[k].id == entries@[k].status.id,
            decreases entries@.len() - i,
        {
            let id = entries[i].id;
            assert(entries@[i as int]@ == before[i as int]);
            if names_status(ids, id) {
                let st = entries[i].status.duplicate();
                entries.set(i, StoredDeviceStatus { id, status: st, state: StorageState::Uploaded });
            }
            assert(entries@[i as int]@ == mark_entries(before, set)[i as int]);
            i = i + 1;
        }
        proof {
            assert(entries@.map_values(|x: StoredDeviceStatus| x@) =~= mark_entries(before, set));
        }
        self.device_statuses = entries;
        Ok(())
    }

    /// Counts of pending, uploaded and stored events of each kind.
    pub fn get_stats(&self) -> (r: Result<StorageStats, MemoryStorageError>)
        ensures
            r matches Ok(st) && st == stats_of(self.readings(), self.statuses())
                && st.sensor_readings_pending + st.sensor_readings_uploaded == st.sensor_readings_total
                && st.device_statuses_pending + st.device_statuses_uploaded == st.device_statuses_total,
    {
        let ghost rp = |e: Entry<SensorReading>| is_pending(e);
        let ghost sp = |e: Entry<DeviceStatusView>| is_pending(e);
        let mut readings_pending: usize = 0;
        let mut i: usize = 0;
        while i < self.sensor_readings.len()
            invariant
                i <= self.sensor_readings@.len(),
                rp == (|e: Entry<SensorReading>| is_pending(e)),
                readings_pending == self.readings().take(i as int).filter(rp).len(),
                readings_pending <= i,
            decreases self.sensor_readings@.len() - i,
        {
            proof {
                reveal_with_fuel(Seq::filter, 1);
                assert(self.readings().take(i + 1).drop_last() =~= self.readings().take(i as int));
            }
            if self.sensor_readings[i].state == StorageState::Pending {
                readings_pending = readings_pending + 1;
            }
            i = i + 1;
        }
        assert(self.readings().take(i as int) =~= self.readings());
        let mut statuses_pending: usize = 0;
        let mut j: usize = 0;
        while j < self.device_statuses.len()
            invariant
                j <= self.device_statuses@.len(),
                sp == (|e: Entry<DeviceStatusView>| is_pending(e)),
                statuses_pending == self.statuses().take(j as int).filter(sp).len(),
                statuses_pending <= j,
            decreases self.device_statuses@.len() - j,
        {
            proof {
                reveal_with_fuel(Seq::filter, 1);
                assert(self.statuses().take(j + 1).drop_last() =~= self.statuses().take(j as int));
            }
            if self.device_statuses[j].state == StorageState::Pending {
                statuses_pending = statuses_pending + 1;
            }
            j = j + 1;
        }
        assert(self.statuses().take(j as int) =~= self.statuses());
        let readings_total = self.sensor_readings.len();
        let statuses_total = self.device_statuses.len();
        Ok(StorageStats {
            sensor_readings_pending: readings_pending,
            sensor_readings_uploaded: readings_total - readings_pending,
            sensor_readings_total: readings_total,
            device_statuses_pending: statuses_pending,
            device_statuses_uploaded: statuses_total - statuses_pending,
            device_statuses_total: statuses_total,
        })
    }

    /// Drops every uploaded event, keeping the pending ones in order, and
    /// says how many of each kind went. This store keeps no upload times,
    /// so `_older_than` is not consulted: every uploaded event counts as
    /// old enough.
    pub fn cleanup_uploaded(&mut self, _older_than: std::time::Duration) -> (r: Result<CleanupStats, MemoryStorageError>)
        ensures
            final(self).readings() == pending_entries(old(self).readings()),
            final(self).statuses() == pending_entries(old(self).statuses()),
            r matches Ok(c) && c.sensor_readings_deleted == old(self).readings().len() - pending_entries(
                old(self).readings(),
            ).len() && c.device_statuses_deleted == old(self).statuses().len() - pending_entries(
                old(self).statuses(),
            ).len(),
    {
        proof {
            use_type_invariant(&*self);
        }
        let ghost rp = |e: Entry<SensorReading>| is_pending(e);
        let ghost sp = |e: Entry<DeviceStatusView>| is_pending(e);
        let ghost old_readings = self.readings();
        let ghost old_statuses = self.statuses();
        let mut readings: Vec<StoredSensorReading> = Vec::new();
        std::mem::swap(&mut readings, &mut self.sensor_readings);
        let mut kept_readings: Vec<StoredSensorReading> = Vec::new();
        let mut i: usize = 0;
        while i < readings.len()
            invariant
                i <= readings@.len(),
                rp == (|e: Entry<SensorReading>| is_pending(e)),
                old_readings == readings@.map_values(|x: StoredSensorReading| x@),
                kept_readings@.map_values(|x: StoredSensorReading| x@) == old_readings.take(i as int).filter(rp),
                kept_readings@.len() <= i,
                forall|k: int| 0 <= k < readings@.len() ==> #[trigger] readings@[k].id == readings@[k].reading.id,
                forall|k: int| 0 <= k < kept_readings@.len() ==> #[trigger] kept_readings@[k].id == kept_readings@[k].reading.id,
            decreases readings@.len() - i,
        {
            proof {
                reveal_with_fuel(Seq::filter, 1);
                assert(old_readings.take(i + 1).drop_last() =~= old_readings.take(i as int));
            }
            let ghost before = kept_readings@;
            let e = readings[i];
            if e.state == StorageState::Pending {
                kept_readings.push(e);
                proof {
                    assert(kept_readings@.map_values(|x: StoredSensorReading| x@) =~= before.map_values(
                        |x: StoredSensorReading| x@,
                    ).push(e@));
                }
            }
            i = i + 1;
        }
        assert(old_readings.take(i as int) =~= old_readings);
        let readings_deleted = readings.len() - kept_readings.len();
        let mut statuses: Vec<StoredDeviceStatus> = Vec::new();
        std::mem::swap(&mut statuses, &mut self.device_statuses);
        let mut kept_statuses: Vec<StoredDeviceStatus> = Vec::new();
        let mut j: usize = 0;
        while j < statuses.len()
            invariant
                j <= statuses@.len(),
                sp == (|e: Entry<DeviceStatusView>| is_pending(e)),
                old_statuses == statuses@.map_values(|x: StoredDeviceStatus| x@),
                kept_statuses@.map_values(|x: StoredDeviceStatus| x@) == old_statuses.take(j as int).filter(sp),
                kept_statuses@.len() <= j,
                forall|k: int| 0 <= k < statuses@.len() ==> #[trigger] statuses@[k].id == statuses@[k].status.id,
                forall|k: int| 0 <= k < kept_statuses@.len() ==> #[trigger] kept_statuses@[k].id == kept_statuses@[k].status.id,
            decreases statuses@.len() - j,
        {
            proof {
                reveal_with_fuel(Seq::filter, 1);
                assert(old_statuses.take(j + 1).drop_last() =~= old_statuses.take(j as int));
            }
            let ghost before = kept_statuses@;
            if statuses[j].state == StorageState::Pending {
                let e = StoredDeviceStatus {
                    id: statuses[j].id,
                    status: statuses[j].status.duplicate(),
                    state: StorageState::Pending,
                };
                proof {
                    assert(e@ == old_statuses[j as int]);
                }
                kept_statuses.push(e);
                proof {
                    assert(kept_statuses@.map_values(|x: StoredDeviceStatus| x@) =~= before.map_values(
                        |x: StoredDeviceStatus| x@,
                    ).push(e@));
                }
            }
            j = j + 1;
        }
        assert(old_statuses.take(j as int) =~= old_statuses);
        let statuses_deleted = statuses.len() - kept_statuses.len();
        proof {
            lemma_pending_subsequence(old_readings);
            lemma_pending_subsequence(old_statuses);
        }
        self.sensor_readings = kept_readings;
        self.device_statuses = kept_statuses;
        Ok(CleanupStats { sensor_readings_deleted: readings_deleted, device_statuses_deleted: statuses_deleted })
    }
}

impl Default for MemoryStorage {
    fn default() -> (s: MemoryStorage)
        ensures
            s.readings() == Seq::<Entry<SensorReading>>::empty(),
            s.statuses() == Seq::<Entry<DeviceStatusView>>::empty(),
    {
        MemoryStorage::new()
    }
}

/// Whether `id` is one of `ids`.
fn names_reading(ids: &[ReadingId], id: ReadingId) -> (b: bool)
    ensures
        b == reading_id_set(ids@).contains(id.0),
{
    let mut i: usize = 0;
    while i < ids.len()
        invariant
            i <= ids@.len(),
            forall|k: int| 0 <= k < i ==> ids@[k].0 != id.0,
        decreases ids@.len() - i,
    {
        if ids[i].0 == id.0 {
            assert(ids@[i as int].0 == id.0);
            return true;
        }
        i = i + 1;
    }
    false
}

/// Whether `id` is one of `ids`.
fn names_status(ids: &[StatusId], id: StatusId) -> (b: bool)
    ensures
        b == status_id_set(ids@).contains(id.0),
{
    let mut i: usize = 0;
    while i < ids.len()
        invariant
            i <= ids@.len(),
            forall|k: int| 0 <= k < i ==> ids@[k].0 != id.0,
        decreases ids@.len() - i,
    {
        if ids[i].0 == id.0 {
            assert(ids@[i as int].0 == id.0);
            return true;
        }
        i = i + 1;
    }
    false
}


// ---------------------------------------------------------------------------
// The SQLite store and its schema
// ---------------------------------------------------------------------------

/// Why the SQLite store failed (each with the underlying message).
#[derive(Debug, Clone, PartialEq, Eq)]
pub enum SqliteStorageError {
    ConnectionFailed(String),
    SchemaCreationFailed(String),
    SerializationFailed(String),
    DeserializationFailed(String),
    QueryFailed(String),
    TransactionFailed(String),
    UpdateFailed(String),
    RowProcessingFailed(String),
    TimeConversionFailed(String),
    PoolError(String),
}

/// A storage error as text: what failed, then the detail it carries.
pub open spec fn sqlite_storage_error_text(e: SqliteStorageError) -> Seq<char> {
    match e {
        SqliteStorageError::ConnectionFailed(m) => "Connection failed: "@ + m@,
        SqliteStorageError::SchemaCreationFailed(m) => "Schema creation failed: "@ + m@,
        SqliteStorageError::SerializationFailed(m) => "Serialization failed: "@ + m@,
        SqliteStorageError::DeserializationFailed(m) => "Deserialization failed: "@ + m@,
        SqliteStorageError::QueryFailed(m) => "Query failed: "@ + m@,
        SqliteStorageError::TransactionFailed(m) => "Transaction failed: "@ + m@,
        SqliteStorageError::UpdateFailed(m) => "Update failed: "@ + m@,
        SqliteStorageError::RowProcessingFailed(m) => "Row processing failed: "@ + m@,
        SqliteStorageError::TimeConversionFailed(m) => "Time conversion failed: "@ + m@,
        SqliteStorageError::PoolError(m) => "Pool error: "@ + m@,
    }
}

impl SqliteStorageError {
    /// The error as text.
    pub fn message(&self) -> (s: String)
        ensures
            s@ == sqlite_storage_error_text(*self),
    {
        match self {
            SqliteStorageError::ConnectionFailed(m) => concat("Connection failed: ", m.as_str()),
            SqliteStorageError::SchemaCreationFailed(m) => concat("Schema creation failed: ", m.as_str()),
            SqliteStorageError::SerializationFailed(m) => concat("Serialization failed: ", m.as_str()),
            SqliteStorageError::DeserializationFailed(m) => concat("Deserialization failed: ", m.as_str()),
            SqliteStorageError::QueryFailed(m) => concat("Query failed: ", m.as_str()),
            SqliteStorageError::TransactionFailed(m) => concat("Transaction failed: ", m.as_str()),
            SqliteStorageError::UpdateFailed(m) => concat("Update failed: ", m.as_str()),
            SqliteStorageError::RowProcessingFailed(m) => concat("Row processing failed: ", m.as_str()),
            SqliteStorageError::TimeConversionFailed(m) => concat("Time conversion failed: ", m.as_str()),
            SqliteStorageError::PoolError(m) => concat("Pool error: ", m.as_str()),
        }
    }
}

/// Why migrating the schema failed.
#[derive(Debug, Clone, PartialEq, Eq)]
pub enum MigrationError {
    /// The database reported an error (its message).
    Sqlx(String),
    VersionError(String),
}

impl MigrationError {
    /// The error as text.
    pub fn message(&self) -> (s: String)
        ensures
            s@ == match *self {
                MigrationError::Sqlx(m) => "SQLx error: "@ + m@,
                MigrationError::VersionError(m) => "Version error: "@ + m@,
            },
    {
        match self {
            MigrationError::Sqlx(m) => concat("SQLx error: ", m.as_str()),
            MigrationError::VersionError(m) => concat("Version error: ", m.as_str()),
        }
    }
}

/// One step of the schema: the version it brings the database to, and
/// the statements that do it.
#[derive(Debug, Clone, Copy)]
pub struct Migration {
    pub version: i64,
    pub sql: &'static str,
}

/// Brings the schema of the SQLite store up to date.
pub struct Migrator;

/// The statements that create the store's tables and indexes (version 1).
pub const SCHEMA_V1_SQL: &'static str = "
            CREATE TABLE IF NOT EXISTS sensor_readings (
                id TEXT PRIMARY KEY,
                reading_json TEXT NOT NULL,
                state TEXT NOT NULL CHECK (state IN ('pending', 'uploaded')),
                created_at TIMESTAMP DEFAULT CURRENT_TIMESTAMP,
                uploaded_at TIMESTAMP
            );

            CREATE TABLE IF NOT EXISTS device_statuses (
                id TEXT PRIMARY KEY,
                status_json TEXT NOT NULL,
                state TEXT NOT NULL CHECK (state IN ('pending', 'uploaded')),
                created_at TIMESTAMP DEFAULT CURRENT_TIMESTAMP,
                uploaded_at TIMESTAMP
            );

            CREATE INDEX IF NOT EXISTS idx_sensor_readings_state
            ON sensor_readings(state);

            CREATE INDEX IF NOT EXISTS idx_device_statuses_state
            ON device_statuses(state);

            CREATE INDEX IF NOT EXISTS idx_sensor_readings_created_at
            ON sensor_readings(created_at);

            CREATE INDEX IF NOT EXISTS idx_device_statuses_created_at
            ON device_statuses(created_at);

            CREATE INDEX IF NOT EXISTS idx_sensor_readings_uploaded_at
            ON sensor_readings(uploaded_at);

            CREATE INDEX IF NOT EXISTS idx_device_statuses_uploaded_at
            ON device_statuses(uploaded_at);
        ";

/// The schema steps, in order.
pub open spec fn all_migrations() -> Seq<Migration> {
    seq![Migration { version: 1, sql: SCHEMA_V1_SQL }]
}

/// The versions of the schema steps, in order.
pub open spec fn migration_versions() -> Seq<i64> {
    seq![1i64]
}

/// The schema version a database is at: what its version row holds, or
/// zero when it has none.
pub open spec fn version_of(row: Option<i64>) -> i64 {
    match row {
        Some(v) => v,
        None => 0,
    }
}

/// The versions still to apply to a database at `current`, in order.
pub open spec fn pending_versions(current: i64) -> Seq<i64> {
    migration_versions().filter(|v: i64| v > current)
}

impl Migrator {
    /// The steps of the schema, in order: each with its version and the
    /// statements it runs.
    pub fn migrations() -> (r: Vec<Migration>)
        ensures
            r@ == all_migrations(),
            r@.map_values(|m: Migration| m.version) == migration_versions(),
    {
        let mut r: Vec<Migration> = Vec::new();
        r.push(Migration { version: 1, sql: SCHEMA_V1_SQL });
        assert(r@ =~= all_migrations());
        assert(r@.map_values(|m: Migration| m.version) =~= migration_versions());
        r
    }

    /// The schema version a database is at, from its version row.
    pub fn version_from_row(row: Option<i64>) -> (v: i64)
        ensures
            v == version_of(row),
    {
        match row {
            Some(v) => v,
            None => 0,
        }
    }

    /// The steps still to apply to a database at version `current`: those
    /// of a later version, in order.
    pub fn pending(current: i64) -> (r: Vec<Migration>)
        ensures
            r@ == all_migrations().filter(|m: Migration| m.version > current),
            r@.map_values(|m: Migration| m.version) == pending_versions(current),
    {
        let all = Migrator::migrations();
        let ghost pred = |m: Migration| m.version > current;
        let mut r: Vec<Migration> = Vec::new();
        let mut i: usize = 0;
        while i < all.len()
            invariant
                i <= all@.len(),
                all@ == all_migrations(),
                pred == (|m: Migration| m.version > current),
                r@ == all@.take(i as int).filter(pred),
            decreases all@.len() - i,
        {
            proof {
                reveal_with_fuel(Seq::filter, 1);
                assert(all@.take(i + 1).drop_last() =~= all@.take(i as int));
            }
            let m = all[i];
            if m.version > current {
                r.push(m);
            }
            i = i + 1;
        }
        assert(all@.take(i as int) =~= all@);
        proof {
            reveal_with_fuel(Seq::filter, 2);
            assert(all_migrations().drop_last() =~= Seq::<Migration>::empty());
            if 1 > current {
                assert(r@.map_values(|m: Migration| m.version) =~= pending_versions(current));
            } else {
                assert(r@.map_values(|m: Migration| m.version) =~= pending_versions(current));
            }
        }
        r
    }
}

/// Whether a database at this schema version has the current schema.
pub fn schema_is_current(version: i64) -> (b: bool)
    ensures
        b == (version >= 1),
{
    version >= 1
}

/// Once every pending step is applied, none is pending any more: the
/// last version applied is the newest.
pub proof fn law_migrations_reach_current()
    ensures
        pending_versions(0) == seq![1i64],
        pending_versions(1) == Seq::<i64>::empty(),
{
    reveal_with_fuel(Seq::filter, 2);
    assert(seq![1i64].drop_last() =~= Seq::<i64>::empty());
}

} // verus!
