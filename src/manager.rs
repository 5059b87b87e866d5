//! The dataset manager: the registry of datasets, their inboxes and published
//! snapshots, and the debounced pass that applies queued mutations and republishes.

use vstd::prelude::*;
use std::sync::Arc;
use rusqlite::Connection;
use crossbeam_channel::{Receiver, Sender};
use crate::channel::{ChannelFault, DatasetSender, bounded_channel, clone_sender, try_receive};
use crate::identity::{DatasetError, DatasetKind, DatasetTag, DatasetType, table_name_of};
use crate::model::{Snapshot, Update};
use crate::storage::{apply, ensure_schema, is_loaded, load, open_file, open_memory};

verus! {

/// The debounce window that a new manager starts with, in milliseconds.
pub const DEFAULT_DEBOUNCE_MILLIS: u64 = 5000;

/// How many mutations an inbox holds before senders wait.
pub const INBOX_CAPACITY: usize = 128;

/// The most mutations taken from one inbox in one pass; the rest wait for the next flush.
pub const DRAIN_LIMIT: usize = 4096;

/// Relies on chrono's `Utc::now` and `timestamp_millis`: the wall-clock time in
/// milliseconds since the Unix epoch.
#[verifier::external_body]
pub(crate) fn now_millis() -> (r: i64) {
    chrono::Utc::now().timestamp_millis()
}

/// Relies on `Arc::clone`: a second owner of the same value.
#[verifier::external_body]
fn share(a: &Arc<Snapshot>) -> (r: Arc<Snapshot>)
    ensures
        *r == **a,
{
    Arc::clone(a)
}

/// What the manager holds for one registered dataset, as readers and callers see it.
pub struct DatasetState {
    pub identity: (DatasetTag, Seq<char>),
    pub kind: DatasetKind,
    pub last_flush_millis: i64,
    pub version: u64,
    pub snapshot: Snapshot,
}

struct Slot {
    identity: DatasetType,
    kind: DatasetKind,
    table: String,
    last_flush_millis: i64,
    version: u64,
    sender: Sender<Update>,
    receiver: Receiver<Update>,
    snapshot: Arc<Snapshot>,
}

impl Slot {
    spec fn state(&self) -> DatasetState {
        DatasetState {
            identity: self.identity@,
            kind: self.kind,
            last_flush_millis: self.last_flush_millis,
            version: self.version,
            snapshot: *self.snapshot,
        }
    }

    spec fn wf(&self) -> bool {
        &&& self.identity@.0.kind() == Some(self.kind)
        &&& table_name_of(self.identity@) == Ok::<Seq<char>, DatasetError>(self.table@)
        &&& self.snapshot.kind == self.kind
        &&& self.snapshot.wf()
    }
}

/// Whether a dataset last rebuilt at `last` is due for a flush at `now`: its debounce
/// window has elapsed, or the flush is forced.
pub open spec fn is_due(last: i64, now: i64, debounce: u64, force: bool) -> bool {
    force || now as int >= last as int + debounce as int
}

/// The version that follows `v`; it stays at the largest value once there.
pub open spec fn next_version(v: u64) -> u64 {
    if v < u64::MAX {
        (v + 1) as u64
    } else {
        v
    }
}

/// Whether `id` is among the registered datasets.
pub open spec fn is_registered(s: Seq<DatasetState>, id: (DatasetTag, Seq<char>)) -> bool {
    exists|i: int| 0 <= i < s.len() && (#[trigger] s[i]).identity == id
}

/// Every published snapshot is well formed and has the kind that its identity
/// determines, and no identity is registered twice.
pub open spec fn states_consistent(s: Seq<DatasetState>) -> bool {
    &&& forall|i: int|
        0 <= i < s.len() ==> (#[trigger] s[i]).identity.0.kind() == Some(s[i].kind)
            && s[i].snapshot.kind == s[i].kind && s[i].snapshot.wf()
    &&& forall|i: int, j: int| 0 <= i < j < s.len() ==> s[i].identity != s[j].identity
}

/// What one pass of the update loop did: for each registered dataset, in registration
/// order, how many of its queued mutations the store applied and how many it refused (0
/// and 0 for a dataset that was not due), and how many datasets were republished.
#[derive(Clone, Debug, PartialEq, Eq)]
pub struct TickReport {
    pub applied: Vec<usize>,
    pub refused: Vec<usize>,
    pub republished: usize,
}

/// What one receive of a drain came to: the inbox was empty, or disconnected, or it held
/// a mutation that the store then applied or refused.
#[derive(PartialEq, Eq, Structural, Clone, Copy, Debug)]
pub enum DrainEvent {
    Empty,
    Disconnected,
    Applied,
    Refused,
}

/// What a drain of one inbox has come to so far.
#[derive(PartialEq, Eq, Structural, Clone, Copy, Debug)]
pub struct DrainTally {
    pub applied: usize,
    pub refused: usize,
    pub disconnected: bool,
    pub finished: bool,
}

/// The tally before anything was received.
pub open spec fn no_drain() -> DrainTally {
    DrainTally { applied: 0, refused: 0, disconnected: false, finished: false }
}

/// The tally after one more event: an applied or refused mutation is counted, and an
/// empty or disconnected inbox ends the drain.
pub open spec fn drain_step(t: DrainTally, e: DrainEvent) -> DrainTally {
    match e {
        DrainEvent::Empty => DrainTally {
            applied: t.applied,
            refused: t.refused,
            disconnected: t.disconnected,
            finished: true,
        },
        DrainEvent::Disconnected => DrainTally {
            applied: t.applied,
            refused: t.refused,
            disconnected: true,
            finished: true,
        },
        DrainEvent::Applied => DrainTally {
            applied: (t.applied + 1) as usize,
            refused: t.refused,
            disconnected: t.disconnected,
            finished: t.finished,
        },
        DrainEvent::Refused => DrainTally {
            applied: t.applied,
            refused: (t.refused + 1) as usize,
            disconnected: t.disconnected,
            finished: t.finished,
        },
    }
}

/// The tally of a sequence of events.
pub open spec fn drain_of(events: Seq<DrainEvent>) -> DrainTally
    decreases events.len(),
{
    if events.len() == 0 {
        no_drain()
    } else {
        drain_step(drain_of(events.drop_last()), events.last())
    }
}

/// Whether an event took a mutation from the inbox.
pub open spec fn took(e: DrainEvent) -> bool {
    e is Applied || e is Refused
}

/// The events of one drain: mutations are taken, each applied or refused, until the
/// inbox is found empty or disconnected, or `DRAIN_LIMIT` of them have been taken.
pub open spec fn is_drain(events: Seq<DrainEvent>) -> bool {
    &&& 0 < events.len() <= DRAIN_LIMIT
    &&& forall|j: int| 0 <= j < events.len() - 1 ==> took(#[trigger] events[j])
    &&& events.len() < DRAIN_LIMIT ==> !took(events.last())
}

/// `a + b`, or the largest `u64` where that does not fit.
pub open spec fn saturating_sum(a: u64, b: nat) -> u64 {
    if a + b <= u64::MAX {
        (a + b) as u64
    } else {
        u64::MAX
    }
}

/// The sum of the counts.
pub open spec fn total(s: Seq<usize>) -> nat
    decreases s.len(),
{
    if s.len() == 0 {
        0
    } else {
        total(s.drop_last()) + s.last() as nat
    }
}

/// The tally after one more event (see `drain_step`).
pub fn next_tally(t: DrainTally, e: DrainEvent) -> (r: DrainTally)
    requires
        t.applied < usize::MAX,
        t.refused < usize::MAX,
    ensures
        r == drain_step(t, e),
{
    match e {
        DrainEvent::Empty => DrainTally { finished: true, ..t },
        DrainEvent::Disconnected => DrainTally { disconnected: true, finished: true, ..t },
        DrainEvent::Applied => DrainTally { applied: t.applied + 1, ..t },
        DrainEvent::Refused => DrainTally { refused: t.refused + 1, ..t },
    }
}

/// How many of the counts are positive.
pub open spec fn count_positive(s: Seq<usize>) -> nat
    decreases s.len(),
{
    if s.len() == 0 {
        0
    } else {
        count_positive(s.drop_last()) + if s.last() > 0 {
            1nat
        } else {
            0nat
        }
    }
}

/// A dataset republished at `now`: the same identity and kind, a freshly loaded snapshot,
/// stamped `now` with the next version.
pub open spec fn republished(old: DatasetState, new: DatasetState, now: i64) -> bool {
    &&& new.identity == old.identity
    &&& new.kind == old.kind
    &&& new.last_flush_millis == now
    &&& new.version == next_version(old.version)
    &&& is_loaded(old.kind, new.snapshot)
}

/// How one dataset fares in a pass at `now` that applied `applied` of its mutations: a
/// dataset that is not due is not drained; one with no mutation applied is left as it
/// was; one with at least one is reloaded and republished.
pub open spec fn flush_step(
    old: DatasetState,
    new: DatasetState,
    now: i64,
    debounce: u64,
    force: bool,
    applied: usize,
) -> bool {
    &&& !is_due(old.last_flush_millis, now, debounce, force) ==> applied == 0
    &&& applied == 0 ==> new == old
    &&& applied > 0 ==> republished(old, new, now)
}

/// The counts a pass reports for one dataset: none where it was not due; otherwise those
/// of a drain that ended without finding the inbox disconnected.
pub open spec fn drained(
    old: DatasetState,
    now: i64,
    debounce: u64,
    force: bool,
    applied: usize,
    refused: usize,
) -> bool {
    if is_due(old.last_flush_millis, now, debounce, force) {
        exists|events: Seq<DrainEvent>|
            #![trigger drain_of(events)]
            is_drain(events) && drain_of(events).applied == applied && drain_of(events).refused
                == refused && !drain_of(events).disconnected
    } else {
        applied == 0 && refused == 0
    }
}

/// A pass at `now` over the datasets `old` (debounce window `debounce`) that ended in `r`
/// and left the datasets `new`. A pass in which nothing is due succeeds. A failed pass
/// (`ChannelClosed` or `StorageLoadFailed`) may have republished due datasets before it
/// stopped.
pub open spec fn pass_result(
    old: Seq<DatasetState>,
    new: Seq<DatasetState>,
    debounce: u64,
    now: i64,
    force: bool,
    r: Result<TickReport, DatasetError>,
) -> bool {
    &&& new.len() == old.len()
    &&& forall|i: int|
        0 <= i < old.len() ==> (#[trigger] new[i]).identity == old[i].identity && new[i].kind
            == old[i].kind && new[i].version >= old[i].version
    &&& (forall|i: int|
        0 <= i < old.len() ==> !is_due(
            (#[trigger] old[i]).last_flush_millis,
            now,
            debounce,
            force,
        )) ==> r is Ok
    &&& match r {
        Ok(rep) => {
            &&& rep.applied@.len() == old.len()
            &&& rep.refused@.len() == old.len()
            &&& rep.republished == count_positive(rep.applied@)
            &&& forall|i: int|
                0 <= i < old.len() ==> drained(
                    #[trigger] old[i],
                    now,
                    debounce,
                    force,
                    rep.applied@[i],
                    rep.refused@[i],
                )
            &&& forall|i: int|
                0 <= i < old.len() ==> flush_step(
                    old[i],
                    #[trigger] new[i],
                    now,
                    debounce,
                    force,
                    rep.applied@[i],
                )
        },
        Err(e) => {
            &&& e == DatasetError::ChannelClosed || e == DatasetError::StorageLoadFailed
            &&& forall|i: int|
                0 <= i < old.len() ==> #[trigger] new[i] == old[i] || (is_due(
                    old[i].last_flush_millis,
                    now,
                    debounce,
                    force,
                ) && republished(old[i], new[i], now))
        },
    }
}

/// The outcome of registering `id` at `now` over the datasets `old`, which ended in `r`
/// and left the datasets `new`.
pub open spec fn registration_result(
    old: Seq<DatasetState>,
    new: Seq<DatasetState>,
    id: (DatasetTag, Seq<char>),
    now: i64,
    r: Result<(), DatasetError>,
) -> bool {
    &&& is_registered(old, id) ==> r is Ok && new == old
    &&& !is_registered(old, id) ==> match r {
        Ok(()) => {
            &&& new.len() == old.len() + 1
            &&& new.drop_last() == old
            &&& new.last().identity == id
            &&& Some(new.last().kind) == id.0.kind()
            &&& table_name_of(id) is Ok
            &&& new.last().last_flush_millis == now
            &&& new.last().version == 0
            &&& is_loaded(new.last().kind, new.last().snapshot)
        },
        Err(e) => {
            &&& new == old
            &&& (e == DatasetError::UnknownKind <==> id.0.kind() is None)
            &&& (e == DatasetError::InvalidName <==> table_name_of(id) == Err::<
                Seq<char>,
                DatasetError,
            >(DatasetError::InvalidName))
            &&& (e == DatasetError::UnknownKind || e == DatasetError::InvalidName || e
                == DatasetError::StorageApplyFailed || e == DatasetError::StorageLoadFailed)
        },
    }
}

/// What a flush of one due dataset comes to, from what came back: whether its inbox was
/// found disconnected, how many mutations the store applied, and, where it was reloaded,
/// the reload's result. `Ok(Some(s))`: publish `s`; `Ok(None)`: leave the dataset as it is.
pub open spec fn flush_decision(
    disconnected: bool,
    applied: usize,
    reload: Option<Result<Snapshot, DatasetError>>,
) -> Result<Option<Snapshot>, DatasetError> {
    if disconnected {
        Err(DatasetError::ChannelClosed)
    } else if applied == 0 {
        Ok(None)
    } else {
        match reload {
            Some(Ok(s)) => Ok(Some(s)),
            _ => Err(DatasetError::StorageLoadFailed),
        }
    }
}

/// Decides a flush of one due dataset (see `flush_decision`).
pub fn decide_flush(
    disconnected: bool,
    applied: usize,
    reload: Option<Result<Snapshot, DatasetError>>,
) -> (r: Result<Option<Snapshot>, DatasetError>)
    ensures
        r == flush_decision(disconnected, applied, reload),
{
    if disconnected {
        Err(DatasetError::ChannelClosed)
    } else if applied == 0 {
        Ok(None)
    } else {
        match reload {
            Some(Ok(s)) => Ok(Some(s)),
            _ => Err(DatasetError::StorageLoadFailed),
        }
    }
}

/// The manager of a set of datasets stored in one SQLite database.
pub struct SqliteDatasetManager {
    conn: Connection,
    slots: Vec<Slot>,
    debounce_millis: u64,
    rebuilds: u64,
    failed_updates: u64,
}

impl View for SqliteDatasetManager {
    type V = Seq<DatasetState>;

    closed spec fn view(&self) -> Seq<DatasetState> {
        self.slots@.map_values(|s: Slot| s.state())
    }
}

impl SqliteDatasetManager {
    /// The manager's internal invariant.
    pub closed spec fn wf(&self) -> bool {
        &&& forall|i: int| 0 <= i < self.slots@.len() ==> (#[trigger] self.slots@[i]).wf()
        &&& forall|i: int, j: int|
            0 <= i < j < self.slots@.len() ==> self.slots@[i].identity@ != self.slots@[j].identity@
    }

    /// The debounce window, in milliseconds.
    pub closed spec fn debounce(&self) -> u64 {
        self.debounce_millis
    }

    /// How many snapshots have been rebuilt since the manager was made.
    pub closed spec fn rebuild_count(&self) -> u64 {
        self.rebuilds
    }

    /// How many queued mutations the store has refused since the manager was made.
    pub closed spec fn failed_count(&self) -> u64 {
        self.failed_updates
    }

    /// Every published snapshot has the kind that its identity determines.
    pub proof fn lemma_consistent(&self)
        requires
            self.wf(),
        ensures
            states_consistent(self@),
    {
        assert forall|i: int, j: int| 0 <= i < j < self@.len() implies self@[i].identity
            != self@[j].identity by {
            assert(self@[i] == self.slots@[i].state());
            assert(self@[j] == self.slots@[j].state());
        }
        assert forall|i: int| 0 <= i < self@.len() implies (#[trigger] self@[i]).identity.0.kind()
            == Some(self@[i].kind) && self@[i].snapshot.kind == self@[i].kind
            && self@[i].snapshot.wf() by {
            assert(self.slots@[i].wf());
        }
    }

    fn with_connection(conn: Connection) -> (r: SqliteDatasetManager)
        ensures
            r.wf(),
            r@ == Seq::<DatasetState>::empty(),
            r.debounce() == DEFAULT_DEBOUNCE_MILLIS,
            r.rebuild_count() == 0,
    {
        let r = SqliteDatasetManager {
            conn,
            slots: Vec::new(),
            debounce_millis: DEFAULT_DEBOUNCE_MILLIS,
            rebuilds: 0,
            failed_updates: 0,
        };
        assert(r@ =~= Seq::<DatasetState>::empty());
        r
    }

    /// A manager over the database file at `path`, created where it does not exist.
    pub fn new(path: String) -> (r: Result<SqliteDatasetManager, DatasetError>)
        ensures
            r matches Ok(m) ==> m.wf() && m@ == Seq::<DatasetState>::empty() && m.debounce()
                == DEFAULT_DEBOUNCE_MILLIS && m.rebuild_count() == 0,
            r matches Err(e) ==> e == DatasetError::StorageOpenFailed,
    {
        match open_file(path.as_str()) {
            Ok(conn) => Ok(SqliteDatasetManager::with_connection(conn)),
            Err(_) => Err(DatasetError::StorageOpenFailed),
        }
    }

    /// A manager over a fresh database held in memory.
    pub fn debug() -> (r: Result<SqliteDatasetManager, DatasetError>)
        ensures
            r matches Ok(m) ==> m.wf() && m@ == Seq::<DatasetState>::empty() && m.debounce()
                == DEFAULT_DEBOUNCE_MILLIS && m.rebuild_count() == 0,
            r matches Err(e) ==> e == DatasetError::StorageOpenFailed,
    {
        match open_memory() {
            Ok(conn) => Ok(SqliteDatasetManager::with_connection(conn)),
            Err(_) => Err(DatasetError::StorageOpenFailed),
        }
    }

    /// A manager over a fresh database held in memory (the same as `debug`).
    pub fn in_memory() -> (r: Result<SqliteDatasetManager, DatasetError>)
        ensures
            r matches Ok(m) ==> m.wf() && m@ == Seq::<DatasetState>::empty() && m.debounce()
                == DEFAULT_DEBOUNCE_MILLIS && m.rebuild_count() == 0,
            r matches Err(e) ==> e == DatasetError::StorageOpenFailed,
    {
        SqliteDatasetManager::debug()
    }

    /// Sets the debounce window.
    pub fn set_debounce_millis(&mut self, millis: u64)
        requires
            old(self).wf(),
        ensures
            final(self).wf(),
            final(self)@ == old(self)@,
            final(self).debounce() == millis,
            final(self).rebuild_count() == old(self).rebuild_count(),
    {
        self.debounce_millis = millis;
    }

    /// The debounce window, in milliseconds.
    pub fn debounce_millis(&self) -> (r: u64)
        ensures
            r == self.debounce(),
    {
        self.debounce_millis
    }

    /// How many snapshots have been rebuilt since the manager was made.
    pub fn rebuilds(&self) -> (r: u64)
        ensures
            r == self.rebuild_count(),
    {
        self.rebuilds
    }

    /// How many queued mutations the store refused (and that were dropped), up to the
    /// largest `u64`.
    pub fn failed_updates(&self) -> (r: u64)
        ensures
            r == self.failed_count(),
    {
        self.failed_updates
    }

    /// The number of registered datasets.
    pub fn dataset_count(&self) -> (r: usize)
        ensures
            r == self@.len(),
    {
        self.slots.len()
    }

    fn find(&self, id: &DatasetType) -> (r: Option<usize>)
        ensures
            r matches Some(i) ==> i < self@.len() && self@[i as int].identity == id@,
            r is None <==> !is_registered(self@, id@),
    {
        let mut i: usize = 0;
        while i < self.slots.len()
            invariant
                i <= self.slots@.len(),
                forall|j: int| 0 <= j < i ==> (#[trigger] self.slots@[j]).identity@ != id@,
            decreases self.slots@.len() - i,
        {
            if self.slots[i].identity.same_as(id) {
                assert(self@[i as int] == self.slots@[i as int].state());
                return Some(i);
            }
            i = i + 1;
        }
        assert forall|j: int| 0 <= j < self@.len() implies (#[trigger] self@[j]).identity
            != id@ by {
            assert(self@[j] == self.slots@[j].state());
        }
        None
    }

    /// Whether `id` is registered.
    pub fn is_registered(&self, id: &DatasetType) -> (r: bool)
        ensures
            r == is_registered(self@, id@),
    {
        self.find(id).is_some()
    }

    /// Registers `dataset_type`, whose debounce window starts at the current time (see
    /// `register_dataset_at`).
    pub fn register_dataset(&mut self, dataset_type: DatasetType) -> (r: Result<(), DatasetError>)
        requires
            old(self).wf(),
        ensures
            final(self).wf(),
            final(self).debounce() == old(self).debounce(),
            final(self).rebuild_count() == old(self).rebuild_count(),
            exists|now: i64| registration_result(old(self)@, final(self)@, dataset_type@, now, r),
    {
        let now = now_millis();
        self.register_dataset_at(dataset_type, now)
    }

    /// Registers `dataset_type`, whose debounce window starts at `now`: creates its
    /// tables, loads its first snapshot, opens its inbox and publishes. Registering an
    /// identity again changes nothing. Fails with `UnknownKind` for an identity of no
    /// supported kind, with `InvalidName` for a custom name that is not made of ASCII
    /// letters, digits and `_` or that spells a well-known tag, and with a storage error
    /// when the store fails.
    pub fn register_dataset_at(&mut self, dataset_type: DatasetType, now: i64) -> (r: Result<
        (),
        DatasetError,
    >)
        requires
            old(self).wf(),
        ensures
            final(self).wf(),
            final(self).debounce() == old(self).debounce(),
            final(self).rebuild_count() == old(self).rebuild_count(),
            registration_result(old(self)@, final(self)@, dataset_type@, now, r),
    {
        if self.find(&dataset_type).is_some() {
            return Ok(());
        }
        let kind = match dataset_type.kind() {
            Ok(k) => k,
            Err(e) => return Err(e),
        };
        let table = match dataset_type.table_name() {
            Ok(t) => t,
            Err(e) => return Err(e),
        };
        if let Err(e) = ensure_schema(&self.conn, kind, table.as_str()) {
            return Err(e);
        }
        let snapshot = match load(&self.conn, kind, table.as_str()) {
            Ok(s) => s,
            Err(e) => return Err(e),
        };
        let (sender, receiver) = bounded_channel(INBOX_CAPACITY);
        let slot = Slot {
            identity: dataset_type,
            kind,
            table,
            last_flush_millis: now,
            version: 0,
            sender,
            receiver,
            snapshot: Arc::new(snapshot),
        };
        let ghost before = self.slots@;
        self.slots.push(slot);
        proof {
            assert(self.slots@ == before.push(slot));
            assert(self@.drop_last() =~= old(self)@);
            assert forall|i: int| 0 <= i < self.slots@.len() - 1 implies self.slots@[i].identity@
                != slot.identity@ by {
                assert(old(self)@[i] == before[i].state());
            }
        }
        Ok(())
    }

    /// A handle that queues mutations for `id`; `NotRegistered` where it is not registered.
    pub fn sender_for(&self, id: &DatasetType) -> (r: Result<DatasetSender, DatasetError>)
        requires
            self.wf(),
        ensures
            r matches Ok(s) ==> exists|i: int|
                0 <= i < self@.len() && (#[trigger] self@[i]).identity == id@ && s.spec_kind()
                    == self@[i].kind,
            r is Err <==> !is_registered(self@, id@),
            r is Err ==> r == Err::<DatasetSender, DatasetError>(DatasetError::NotRegistered),
    {
        match self.find(id) {
            Some(i) => {
                let s = DatasetSender::new(self.slots[i].kind, clone_sender(&self.slots[i].sender));
                assert(self@[i as int] == self.slots@[i as int].state());
                Ok(s)
            },
            None => Err(DatasetError::NotRegistered),
        }
    }

    /// The snapshot currently published for `id`, shared with the manager.
    pub fn get(&self, id: &DatasetType) -> (r: Option<Arc<Snapshot>>)
        ensures
            r matches Some(s) ==> exists|i: int|
                0 <= i < self@.len() && (#[trigger] self@[i]).identity == id@ && *s
                    == self@[i].snapshot,
            r is None <==> !is_registered(self@, id@),
    {
        match self.find(id) {
            Some(i) => {
                assert(self@[i as int] == self.slots@[i as int].state());
                Some(share(&self.slots[i].snapshot))
            },
            None => None,
        }
    }

    /// The version of the snapshot published for `id`: 0 at registration, one more at
    /// each rebuild.
    pub fn version_of(&self, id: &DatasetType) -> (r: Option<u64>)
        ensures
            r matches Some(v) ==> exists|i: int|
                0 <= i < self@.len() && (#[trigger] self@[i]).identity == id@ && v
                    == self@[i].version,
            r is None <==> !is_registered(self@, id@),
    {
        match self.find(id) {
            Some(i) => {
                assert(self@[i as int] == self.slots@[i as int].state());
                Some(self.slots[i].version)
            },
            None => None,
        }
    }

    /// When the snapshot of `id` was last rebuilt (or registered), in milliseconds.
    pub fn last_flush_of(&self, id: &DatasetType) -> (r: Option<i64>)
        ensures
            r matches Some(t) ==> exists|i: int|
                0 <= i < self@.len() && (#[trigger] self@[i]).identity == id@ && t
                    == self@[i].last_flush_millis,
            r is None <==> !is_registered(self@, id@),
    {
        match self.find(id) {
            Some(i) => {
                assert(self@[i as int] == self.slots@[i as int].state());
                Some(self.slots[i].last_flush_millis)
            },
            None => None,
        }
    }

    /// Takes up to `DRAIN_LIMIT` queued mutations of dataset `i` and applies each in
    /// order, counting those the store refuses; returns the tally of the drain, with the
    /// events it went through.
    fn drain_slot(&mut self, i: usize) -> (r: (DrainTally, Ghost<Seq<DrainEvent>>))
        requires
            old(self).wf(),
            i < old(self).slots@.len(),
        ensures
            final(self).slots@ == old(self).slots@,
            final(self).debounce_millis == old(self).debounce_millis,
            final(self).rebuilds == old(self).rebuilds,
            is_drain(r.1@),
            r.0 == drain_of(r.1@),
            final(self).failed_updates == saturating_sum(old(self).failed_updates, r.0.refused as nat),
    {
        let mut t = DrainTally { applied: 0, refused: 0, disconnected: false, finished: false };
        let ghost mut events: Seq<DrainEvent> = Seq::empty();
        let mut n: usize = 0;
        while n < DRAIN_LIMIT
            invariant
                self.slots@ == old(self).slots@,
                self.debounce_millis == old(self).debounce_millis,
                self.rebuilds == old(self).rebuilds,
                i < self.slots@.len(),
                n <= DRAIN_LIMIT,
                events.len() == n,
                forall|j: int| 0 <= j < n ==> took(#[trigger] events[j]),
                t == drain_of(events),
                t.applied + t.refused == n,
                self.failed_updates == saturating_sum(old(self).failed_updates, t.refused as nat),
            decreases DRAIN_LIMIT - n,
        {
            let e = match try_receive(&self.slots[i].receiver) {
                Ok(u) => {
                    let slot = &self.slots[i];
                    if apply(&self.conn, slot.kind, slot.table.as_str(), &u).is_ok() {
                        DrainEvent::Applied
                    } else {
                        DrainEvent::Refused
                    }
                },
                Err(ChannelFault::Empty) => DrainEvent::Empty,
                Err(_) => DrainEvent::Disconnected,
            };
            if e == DrainEvent::Refused && self.failed_updates < u64::MAX {
                self.failed_updates = self.failed_updates + 1;
            }
            let ghost before = events;
            t = next_tally(t, e);
            proof {
                events = events.push(e);
                assert(events.drop_last() =~= before);
            }
            if e == DrainEvent::Empty || e == DrainEvent::Disconnected {
                return (t, Ghost(events));
            }
            n = n + 1;
        }
        (t, Ghost(events))
    }

    /// One pass of the update loop at time `now`. Each dataset that is due (its debounce
    /// window has elapsed, or `force` is set) has its inbox drained, up to `DRAIN_LIMIT`
    /// mutations, each applied to the store in order (one that the store refuses is
    /// dropped and counted). Where at least one was applied, the dataset is reloaded from
    /// the store and its new snapshot published, stamped `now` with the next version (see
    /// `decide_flush`). The report gives, per dataset, the tally of its drain (see
    /// `drained`), and `failed_count` grows by the refused mutations. A closed inbox
    /// (`ChannelClosed`) or a failed reload (`StorageLoadFailed`) ends the pass and is
    /// fatal to the manager.
    pub fn tick(&mut self, now: i64, force: bool) -> (r: Result<TickReport, DatasetError>)
        requires
            old(self).wf(),
        ensures
            final(self).wf(),
            final(self).debounce() == old(self).debounce(),
            final(self).rebuild_count() >= old(self).rebuild_count(),
            pass_result(old(self)@, final(self)@, old(self).debounce(), now, force, r),
            r matches Ok(rep) ==> final(self).failed_count() == saturating_sum(
                old(self).failed_count(),
                total(rep.refused@),
            ),
    {
        let ghost start = *self;
        let mut applied: Vec<usize> = Vec::new();
        let mut refused: Vec<usize> = Vec::new();
        let mut count: usize = 0;
        let mut i: usize = 0;
        while i < self.slots.len()
            invariant
                start == *old(self),
                self.wf(),
                self.slots@.len() == start.slots@.len(),
                self.debounce_millis == start.debounce_millis,
                self.rebuilds >= start.rebuilds,
                i <= self.slots@.len(),
                applied@.len() == i,
                refused@.len() == i,
                count <= i,
                self.failed_updates == saturating_sum(start.failed_updates, total(refused@)),
                forall|j: int|
                    0 <= j < i ==> drained(
                        #[trigger] start@[j],
                        now,
                        start.debounce(),
                        force,
                        applied@[j],
                        refused@[j],
                    ),
                count == count_positive(applied@),
                forall|j: int|
                    0 <= j < i ==> flush_step(
                        start@[j],
                        #[trigger] self@[j],
                        now,
                        start.debounce(),
                        force,
                        applied@[j],
                    ),
                forall|j: int| i <= j < self.slots@.len() ==> self.slots@[j] == start.slots@[j],
            decreases self.slots@.len() - i,
        {
            let ghost entry = *self;
            proof {
                assert(start@[i as int] == start.slots@[i as int].state());
            }
            let last = self.slots[i].last_flush_millis;
            let due = force || now as i128 >= last as i128 + self.debounce_millis as i128;
            let mut n: usize = 0;
            let mut m: usize = 0;
            let ghost events: Seq<DrainEvent> = Seq::empty();
            if due {
                let (tally, evs) = self.drain_slot(i);
                proof {
                    events = evs@;
                }
                let disconnected = tally.disconnected;
                let k = tally.applied;
                m = tally.refused;
                let reload = if !disconnected && k > 0 {
                    Some(load(&self.conn, self.slots[i].kind, self.slots[i].table.as_str()))
                } else {
                    None
                };
                match decide_flush(disconnected, k, reload) {
                    Err(e) => {
                        proof {
                            self.lemma_failed_pass(start, entry, i as int, applied@, now, force);
                        }
                        return Err(e);
                    },
                    Ok(None) => {
                        n = k;
                    },
                    Ok(Some(snapshot)) => {
                        let v = self.slots[i].version;
                        self.slots[i].snapshot = Arc::new(snapshot);
                        self.slots[i].last_flush_millis = now;
                        self.slots[i].version = if v < u64::MAX {
                            v + 1
                        } else {
                            v
                        };
                        if self.rebuilds < u64::MAX {
                            self.rebuilds = self.rebuilds + 1;
                        }
                        n = k;
                    },
                }
            }
            let ghost before = applied@;
            let ghost refused_before = refused@;
            applied.push(n);
            refused.push(m);
            if n > 0 {
                count = count + 1;
            }
            proof {
                assert(applied@.drop_last() =~= before);
                assert(refused@.drop_last() =~= refused_before);
                assert forall|j: int|
                    0 <= j < i + 1 implies drained(
                    #[trigger] start@[j],
                    now,
                    start.debounce(),
                    force,
                    applied@[j],
                    refused@[j],
                ) by {
                    if j < i {
                        assert(applied@[j] == before[j]);
                        assert(refused@[j] == refused_before[j]);
                    } else if due {
                        assert(drain_of(events).applied == applied@[j]);
                    }
                }
                assert(self@[i as int] == self.slots@[i as int].state());
                assert forall|j: int|
                    0 <= j < i + 1 implies flush_step(
                    start@[j],
                    #[trigger] self@[j],
                    now,
                    start.debounce(),
                    force,
                    applied@[j],
                ) by {
                    assert(self@[j] == self.slots@[j].state());
                    if j < i {
                        assert(entry@[j] == entry.slots@[j].state());
                        assert(applied@[j] == before[j]);
                    }
                }
            }
            i = i + 1;
        }
        proof {
            assert forall|j: int| 0 <= j < start@.len() implies (#[trigger] self@[j]).identity
                == start@[j].identity && self@[j].kind == start@[j].kind && self@[j].version
                >= start@[j].version by {
                assert(flush_step(start@[j], self@[j], now, start.debounce(), force, applied@[j]));
            }
        }
        Ok(TickReport { applied, refused, republished: count })
    }

    proof fn lemma_failed_pass(
        &self,
        start: SqliteDatasetManager,
        entry: SqliteDatasetManager,
        i: int,
        applied: Seq<usize>,
        now: i64,
        force: bool,
    )
        requires
            self.slots@ == entry.slots@,
            self.slots@.len() == start.slots@.len(),
            0 <= i < self.slots@.len(),
            applied.len() == i,
            is_due(start@[i].last_flush_millis, now, start.debounce(), force),
            forall|j: int|
                0 <= j < i ==> flush_step(
                    start@[j],
                    #[trigger] entry@[j],
                    now,
                    start.debounce(),
                    force,
                    applied[j],
                ),
            forall|j: int| i <= j < self.slots@.len() ==> self.slots@[j] == start.slots@[j],
        ensures
            forall|e: DatasetError|
                e == DatasetError::ChannelClosed || e == DatasetError::StorageLoadFailed
                    ==> #[trigger] pass_result(
                    start@,
                    self@,
                    start.debounce(),
                    now,
                    force,
                    Err(e),
                ),
    {
        assert(self@ =~= entry@);
        assert forall|j: int| 0 <= j < start@.len() implies #[trigger] self@[j] == start@[j] || (
        is_due(start@[j].last_flush_millis, now, start.debounce(), force) && republished(
            start@[j],
            self@[j],
            now,
        )) by {
            if j >= i {
                assert(self@[j] == self.slots@[j].state());
                assert(start@[j] == start.slots@[j].state());
            } else {
                assert(flush_step(start@[j], self@[j], now, start.debounce(), force, applied[j]));
            }
        }
        assert forall|j: int| 0 <= j < start@.len() implies (#[trigger] self@[j]).identity
            == start@[j].identity && self@[j].kind == start@[j].kind && self@[j].version
            >= start@[j].version by {
            if j >= i {
                assert(self@[j] == self.slots@[j].state());
                assert(start@[j] == start.slots@[j].state());
            } else {
                assert(flush_step(start@[j], self@[j], now, start.debounce(), force, applied[j]));
            }
        }
        assert(!is_due(start@[i].last_flush_millis, now, start.debounce(), force) == false);
    }

    /// One pass of the update loop at the current time (see `tick`).
    pub fn run_once(&mut self) -> (r: Result<TickReport, DatasetError>)
        requires
            old(self).wf(),
        ensures
            final(self).wf(),
            final(self).debounce() == old(self).debounce(),
            exists|now: i64|
                pass_result(old(self)@, final(self)@, old(self).debounce(), now, false, r),
    {
        let now = now_millis();
        self.tick(now, false)
    }

    /// The last pass before the manager stops: every dataset is due, whatever its debounce
    /// window, so every inbox is drained and every dataset with an applied mutation is
    /// republished (see `tick`).
    pub fn stop(&mut self) -> (r: Result<TickReport, DatasetError>)
        requires
            old(self).wf(),
        ensures
            final(self).wf(),
            final(self).debounce() == old(self).debounce(),
            exists|now: i64|
                pass_result(old(self)@, final(self)@, old(self).debounce(), now, true, r),
    {
        let now = now_millis();
        self.tick(now, true)
    }
}

} // verus!
