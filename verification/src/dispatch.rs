//! The dispatcher service: which devices are connected, which events wait
//! to be sent to the prime service, the edge handshake, and the decisions
//! of the uploader loop.
use vstd::prelude::*;

use crate::model::{
    DeviceId, DeviceStatus, DispatcherId, H3Cell, Percentage, ReadingId, SensorId, SensorMetric,
    SensorReading, StatusId, Timestamp,
};
use crate::text::{bytes_list, bytes_text, concat, hex_u16, hex_u16_text, owned};

verus! {

// ---------------------------------------------------------------------------
// I/O errors
// ---------------------------------------------------------------------------

/// The kinds of I/O error that accepting a connection can report.
#[derive(Debug, Clone, Copy, PartialEq, Eq, Structural)]
pub enum IoErrorKind {
    ConnectionRefused,
    ConnectionAborted,
    ConnectionReset,
    OutOfMemory,
    Other,
    /// Any other kind.
    Unlisted,
}

/// Whether an error of this kind is expected to go away, so that accepting
/// connections should go on after a short pause.
pub open spec fn transient(kind: IoErrorKind) -> bool {
    match kind {
        IoErrorKind::ConnectionRefused => true,
        IoErrorKind::ConnectionAborted => true,
        IoErrorKind::ConnectionReset => true,
        IoErrorKind::OutOfMemory => true,
        IoErrorKind::Other => true,
        IoErrorKind::Unlisted => false,
    }
}

/// Whether an error of this kind is transient.
pub fn is_transient_error(kind: IoErrorKind) -> (b: bool)
    ensures
        b == transient(kind),
{
    match kind {
        IoErrorKind::ConnectionRefused | IoErrorKind::ConnectionAborted | IoErrorKind::ConnectionReset
        | IoErrorKind::OutOfMemory | IoErrorKind::Other => true,
        IoErrorKind::Unlisted => false,
    }
}

// ---------------------------------------------------------------------------
// Connected devices and pending events
// ---------------------------------------------------------------------------

/// Why a device went away.
#[derive(Debug, Clone, PartialEq, Eq)]
pub enum DisconnectionReason {
    GracefulClose,
    Error(String),
}

/// An alert raised about a device, to be forwarded to the prime service.
#[derive(Debug, Clone)]
pub struct AlertRequest {
    pub id: u128,
    pub dispatcher_id: DispatcherId,
    pub device_id: DeviceId,
    pub message: String,
}

/// An event to be sent to the prime service.
#[derive(Debug, Clone)]
pub enum PrimeEvent {
    DeviceDisconnection { device_id: DeviceId, reason: DisconnectionReason },
    Alert(AlertRequest),
}

/// The abstract content of a disconnection reason.
pub enum ReasonView {
    GracefulClose,
    Error(Seq<char>),
}

/// The abstract content of an event.
pub enum PrimeEventView {
    DeviceDisconnection { device_id: DeviceId, reason: ReasonView },
    Alert { id: u128, dispatcher_id: DispatcherId, device_id: DeviceId, message: Seq<char> },
}

impl View for DisconnectionReason {
    type V = ReasonView;

    open spec fn view(&self) -> ReasonView {
        match self {
            DisconnectionReason::GracefulClose => ReasonView::GracefulClose,
            DisconnectionReason::Error(m) => ReasonView::Error(m@),
        }
    }
}

impl View for PrimeEvent {
    type V = PrimeEventView;

    open spec fn view(&self) -> PrimeEventView {
        match self {
            PrimeEvent::DeviceDisconnection { device_id, reason } => PrimeEventView::DeviceDisconnection {
                device_id: *device_id,
                reason: reason@,
            },
            PrimeEvent::Alert(a) => PrimeEventView::Alert {
                id: a.id,
                dispatcher_id: a.dispatcher_id,
                device_id: a.device_id,
                message: a.message@,
            },
        }
    }
}

/// The abstract content of a list of events.
pub open spec fn event_views(v: Seq<PrimeEvent>) -> Seq<PrimeEventView> {
    v.map_values(|e: PrimeEvent| e@)
}

/// The abstract content of the dispatcher's state: the connected devices
/// in the order they connected, and the events waiting to be sent, oldest
/// first.
pub struct DispatcherStateView {
    pub connected: Seq<DeviceId>,
    pub pending: Seq<PrimeEventView>,
}

/// One call that changes the dispatcher's state.
pub enum StateOp {
    /// `device_connected`.
    Connect(DeviceId),
    /// `device_disconnected`, with the reason's view.
    Disconnect(DeviceId, ReasonView),
    /// `queue_alert`, with the alert's fields.
    Alert { id: u128, dispatcher_id: DispatcherId, device_id: DeviceId, message: Seq<char> },
}

/// The connected devices after a connect or a disconnect: a connect adds
/// a device not yet there at the end; a disconnect removes the device and
/// keeps every other one.
pub open spec fn connection_step(before: Seq<DeviceId>, op: StateOp, after: Seq<DeviceId>) -> bool {
    match op {
        StateOp::Connect(d) => after == if before.contains(d) {
            before
        } else {
            before.push(d)
        },
        StateOp::Disconnect(d, _) => !after.contains(d) && forall|x: DeviceId|
            x != d ==> (#[trigger] after.contains(x) <==> before.contains(x)),
        StateOp::Alert { .. } => after == before,
    }
}

/// The events a call queues: none for a connect, a disconnection event for
/// a disconnect, the alert for an alert.
pub open spec fn queued_by(op: StateOp) -> Seq<PrimeEventView> {
    match op {
        StateOp::Connect(_) => Seq::empty(),
        StateOp::Disconnect(d, r) => seq![PrimeEventView::DeviceDisconnection { device_id: d, reason: r }],
        StateOp::Alert { id, dispatcher_id, device_id, message } => seq![
            PrimeEventView::Alert { id, dispatcher_id, device_id, message },
        ],
    }
}

/// How one call changes the state: the connected devices as above (never
/// holding a device twice), and the events it queues appended.
pub open spec fn state_step(before: DispatcherStateView, op: StateOp, after: DispatcherStateView) -> bool {
    &&& connection_step(before.connected, op, after.connected)
    &&& after.connected.no_duplicates()
    &&& after.pending == before.pending + queued_by(op)
}

/// The events queued by a sequence of calls, in call order.
pub open spec fn queued_by_all(ops: Seq<StateOp>) -> Seq<PrimeEventView>
    decreases ops.len(),
{
    if ops.len() == 0 {
        Seq::empty()
    } else {
        queued_by_all(ops.drop_last()) + queued_by(ops.last())
    }
}

/// The devices connected after a sequence of calls from an empty state:
/// those whose latest connect or disconnect was a connect.
pub open spec fn connected_after(ops: Seq<StateOp>) -> Set<DeviceId>
    decreases ops.len(),
{
    if ops.len() == 0 {
        Set::empty()
    } else {
        let s = connected_after(ops.drop_last());
        match ops.last() {
            StateOp::Connect(d) => s.insert(d),
            StateOp::Disconnect(d, _) => s.remove(d),
            StateOp::Alert { .. } => s,
        }
    }
}

/// Whether `states` is a run of the calls `ops`: one state more than
/// calls, each call taking the state before it to the one after.
pub open spec fn is_run(states: Seq<DispatcherStateView>, ops: Seq<StateOp>) -> bool {
    &&& states.len() == ops.len() + 1
    &&& forall|i: int| 0 <= i < ops.len() ==> #[trigger] state_step(states[i], ops[i], states[i + 1])
}

/// How taking the pending events changes the state: the events come out
/// oldest first, none stay pending, the connected devices stay.
pub open spec fn take_step(before: DispatcherStateView, taken: Seq<PrimeEventView>, after: DispatcherStateView) -> bool {
    &&& taken == before.pending
    &&& after.pending == Seq::<PrimeEventView>::empty()
    &&& after.connected == before.connected
}

/// The devices currently connected, and the events waiting to be sent.
pub struct DispatcherState {
    connected_devices: Vec<DeviceId>,
    pending_events: Vec<PrimeEvent>,
    startup_second: u64,
}

impl DispatcherState {
    /// The connected devices, in the order they connected.
    pub closed spec fn connected(&self) -> Seq<DeviceId> {
        self.connected_devices@
    }

    /// The events waiting to be sent, oldest first.
    pub closed spec fn pending(&self) -> Seq<PrimeEventView> {
        event_views(self.pending_events@)
    }

    /// The connected devices and pending events together.
    pub open spec fn snapshot(&self) -> DispatcherStateView {
        DispatcherStateView { connected: self.connected(), pending: self.pending() }
    }

    /// The second (of a monotonic clock) at which the dispatcher started.
    pub closed spec fn started_at(&self) -> u64 {
        self.startup_second
    }

    #[verifier::type_invariant]
    closed spec fn well_formed(&self) -> bool {
        self.connected_devices@.no_duplicates()
    }

    /// A state with nothing connected and nothing pending, started at
    /// `startup_second`.
    pub fn new(startup_second: u64) -> (s: DispatcherState)
        ensures
            s.connected() == Seq::<DeviceId>::empty(),
            s.pending() == Seq::<PrimeEventView>::empty(),
            s.started_at() == startup_second,
            s.connected().no_duplicates(),
    {
        let s = DispatcherState {
            connected_devices: Vec::new(),
            pending_events: Vec::new(),
            startup_second,
        };
        assert(s.pending() =~= Seq::<PrimeEventView>::empty());
        s
    }

    fn position(&self, device_id: DeviceId) -> (r: Option<usize>)
        ensures
            match r {
                Some(i) => i < self.connected().len() && self.connected()[i as int] == device_id,
                None => !self.connected().contains(device_id),
            },
    {
        let mut i: usize = 0;
        while i < self.connected_devices.len()
            invariant
                i <= self.connected_devices@.len(),
                forall|k: int| 0 <= k < i ==> self.connected_devices@[k] != device_id,
            decreases self.connected_devices@.len() - i,
        {
            if self.connected_devices[i].0 == device_id.0 {
                return Some(i);
            }
            i = i + 1;
        }
        None
    }

    /// Records that a device has connected (once, however often it does).
    pub fn device_connected(&mut self, device_id: DeviceId)
        ensures
            final(self).connected() == if old(self).connected().contains(device_id) {
                old(self).connected()
            } else {
                old(self).connected().push(device_id)
            },
            final(self).pending() == old(self).pending(),
            final(self).started_at() == old(self).started_at(),
            state_step(old(self).snapshot(), StateOp::Connect(device_id), final(self).snapshot()),
    {
        proof {
            use_type_invariant(&*self);
        }
        if self.position(device_id).is_none() {
            let mut v: Vec<DeviceId> = Vec::new();
            std::mem::swap(&mut v, &mut self.connected_devices);
            let ghost before = v@;
            v.push(device_id);
            proof {
                assert forall|i: int, j: int| 0 <= i < v@.len() && 0 <= j < v@.len() && i != j implies v@[i]
                    != v@[j] by {
                    if i < before.len() && j < before.len() {
                        assert(before[i] != before[j]);
                    } else if i == before.len() {
                        assert(v@[j] == before[j]);
                        if before[j] == device_id {
                            assert(before.contains(device_id));
                        }
                    } else {
                        assert(v@[i] == before[i]);
                        if before[i] == device_id {
                            assert(before.contains(device_id));
                        }
                    }
                }
            }
            self.connected_devices = v;
        }
    }

    /// Records that a device has disconnected, and queues the event that
    /// says so.
    pub fn device_disconnected(&mut self, device_id: DeviceId, reason: DisconnectionReason)
        ensures
            !final(self).connected().contains(device_id),
            forall|d: DeviceId| d != device_id ==> (final(self).connected().contains(d) <==> old(
                self,
            ).connected().contains(d)),
            final(self).pending() == old(self).pending().push(
                PrimeEventView::DeviceDisconnection { device_id, reason: reason@ },
            ),
            final(self).started_at() == old(self).started_at(),
            state_step(old(self).snapshot(), StateOp::Disconnect(device_id, reason@), final(self).snapshot()),
    {
        proof {
            use_type_invariant(&*self);
        }
        let ghost rv = reason@;
        match self.position(device_id) {
            Some(i) => {
                let mut v: Vec<DeviceId> = Vec::new();
                std::mem::swap(&mut v, &mut self.connected_devices);
                let ghost before = v@;
                v.remove(i);
                proof {
                    assert(v@ == before.remove(i as int));
                    assert forall|k: int| 0 <= k < v@.len() implies v@[k] != device_id by {
                        if k < i {
                            assert(before[k] != before[i as int]);
                        } else {
                            assert(v@[k] == before[k + 1]);
                            assert(before[k + 1] != before[i as int]);
                        }
                    }
                    assert forall|d: DeviceId| d != device_id implies (v@.contains(d) <==> before.contains(d)) by {
                        if before.contains(d) {
                            let k = choose|k: int| 0 <= k < before.len() && before[k] == d;
                            if k < i {
                                assert(v@[k] == d);
                            } else {
                                assert(k != i);
                                assert(v@[k - 1] == d);
                            }
                        }
                        if v@.contains(d) {
                            let k = choose|k: int| 0 <= k < v@.len() && v@[k] == d;
                            if k < i {
                                assert(before[k] == d);
                            } else {
                                assert(before[k + 1] == d);
                            }
                        }
                    }
                    assert forall|a: int, b: int| 0 <= a < v@.len() && 0 <= b < v@.len() && a != b implies v@[a]
                        != v@[b] by {
                        let a2 = if a < i { a } else { a + 1 };
                        let b2 = if b < i { b } else { b + 1 };
                        assert(v@[a] == before[a2]);
                        assert(v@[b] == before[b2]);
                    }
                }
                self.connected_devices = v;
            },
            None => {},
        }
        let ghost pb = event_views(self.pending_events@);
        let e = PrimeEvent::DeviceDisconnection { device_id, reason };
        let ghost ev = e@;
        let mut events: Vec<PrimeEvent> = Vec::new();
        std::mem::swap(&mut events, &mut self.pending_events);
        events.push(e);
        self.pending_events = events;
        assert(event_views(self.pending_events@) =~= pb.push(ev));
        proof {
            use_type_invariant(&*self);
            assert(self.pending() =~= pb + seq![ev]);
        }
    }

    /// Queues an alert to be sent to the prime service.
    pub fn queue_alert(&mut self, alert: AlertRequest)
        ensures
            final(self).pending() == old(self).pending().push(
                PrimeEventView::Alert {
                    id: alert.id,
                    dispatcher_id: alert.dispatcher_id,
                    device_id: alert.device_id,
                    message: alert.message@,
                },
            ),
            final(self).connected() == old(self).connected(),
            final(self).started_at() == old(self).started_at(),
            state_step(
                old(self).snapshot(),
                (StateOp::Alert {
                    id: alert.id,
                    dispatcher_id: alert.dispatcher_id,
                    device_id: alert.device_id,
                    message: alert.message@,
                }),
                final(self).snapshot(),
            ),
    {
        proof {
            use_type_invariant(&*self);
        }
        let ghost pb = event_views(self.pending_events@);
        let e = PrimeEvent::Alert(alert);
        let ghost ev = e@;
        let mut events: Vec<PrimeEvent> = Vec::new();
        std::mem::swap(&mut events, &mut self.pending_events);
        events.push(e);
        self.pending_events = events;
        assert(event_views(self.pending_events@) =~= pb.push(ev));
        proof {
            use_type_invariant(&*self);
            assert(self.pending() =~= pb + seq![ev]);
        }
    }

    /// Takes every pending event, oldest first, leaving none.
    pub fn take_pending_events(&mut self) -> (r: Vec<PrimeEvent>)
        ensures
            event_views(r@) == old(self).pending(),
            final(self).pending() == Seq::<PrimeEventView>::empty(),
            final(self).connected() == old(self).connected(),
            final(self).started_at() == old(self).started_at(),
            final(self).connected().no_duplicates(),
            take_step(old(self).snapshot(), event_views(r@), final(self).snapshot()),
    {
        proof {
            use_type_invariant(&*self);
        }
        let mut r: Vec<PrimeEvent> = Vec::new();
        std::mem::swap(&mut r, &mut self.pending_events);
        assert(event_views(self.pending_events@) =~= Seq::<PrimeEventView>::empty());
        r
    }

    /// How many devices are connected (as a 32-bit count).
    pub fn connected_count(&self) -> (n: u32)
        ensures
            n == self.connected().len() as u32,
            self.connected().no_duplicates(),
    {
        proof {
            use_type_invariant(self);
        }
        self.connected_devices.len() as u32
    }

    /// Whole seconds since the dispatcher started, given the current second
    /// of the same monotonic clock (zero if the clock reads earlier).
    pub fn uptime_secs(&self, now_second: u64) -> (s: u64)
        ensures
            s == if now_second >= self.started_at() {
                (now_second - self.started_at()) as u64
            } else {
                0
            },
    {
        if now_second >= self.startup_second {
            now_second - self.startup_second
        } else {
            0
        }
    }
}

/// What the first `k` calls of a run have done: the devices they left
/// connected, and the events they queued after those already pending.
proof fn lemma_run_prefix(states: Seq<DispatcherStateView>, ops: Seq<StateOp>, k: int)
    requires
        is_run(states, ops),
        states[0].connected == Seq::<DeviceId>::empty(),
        0 <= k <= ops.len(),
    ensures
        states[k].connected.to_set() == connected_after(ops.take(k)),
        states[k].pending == states[0].pending + queued_by_all(ops.take(k)),
    decreases k,
{
    if k == 0 {
        assert(ops.take(0) =~= Seq::<StateOp>::empty());
        assert(states[0].connected.to_set() =~= Set::<DeviceId>::empty());
        assert(states[0].pending =~= states[0].pending + Seq::<PrimeEventView>::empty());
    } else {
        lemma_run_prefix(states, ops, k - 1);
        let before = states[k - 1];
        let after = states[k];
        let op = ops[k - 1];
        assert(state_step(states[k - 1], ops[k - 1], states[(k - 1) + 1]));
        assert(ops.take(k).drop_last() =~= ops.take(k - 1));
        assert(ops.take(k).last() == op);
        assert(after.pending =~= states[0].pending + queued_by_all(ops.take(k)));
        let prev = connected_after(ops.take(k - 1));
        match op {
            StateOp::Connect(d) => {
                broadcast use vstd::seq_lib::group_seq_properties;
                assert(after.connected.to_set() =~= prev.insert(d));
            },
            StateOp::Disconnect(d, _) => {
                assert forall|x: DeviceId| after.connected.to_set().contains(x) == prev.remove(d).contains(x) by {
                    if x != d {
                        assert(after.connected.contains(x) <==> before.connected.contains(x));
                    }
                }
                assert(after.connected.to_set() =~= prev.remove(d));
            },
            StateOp::Alert { .. } => {
                assert(after.connected.to_set() =~= prev);
            },
        }
    }
}

/// A device connected twice is counted once: from an empty state, after
/// any run of connects, disconnects and alerts, the devices connected are
/// exactly those whose latest connect or disconnect was a connect, each
/// held once, so their number is the number of such devices (which
/// `connected_count` reports).
pub proof fn law_connected_devices_counted_once(states: Seq<DispatcherStateView>, ops: Seq<StateOp>)
    requires
        is_run(states, ops),
        states[0].connected == Seq::<DeviceId>::empty(),
    ensures
        states.last().connected.to_set() == connected_after(ops),
        states.last().connected.no_duplicates(),
        states.last().connected.len() == connected_after(ops).len(),
{
    lemma_run_prefix(states, ops, ops.len() as int);
    assert(ops.take(ops.len() as int) =~= ops);
    if ops.len() > 0 {
        assert(state_step(states[ops.len() - 1], ops[ops.len() - 1], states[(ops.len() - 1) + 1]));
    }
    states.last().connected.unique_seq_to_set();
}

/// A device session leaves the count of connected devices as it found it:
/// a device not yet connected that connects and whose session then ends
/// (for any reason) leaves the same devices connected, and exactly one
/// disconnection event queued.
pub proof fn law_session_restores_connected(
    before: DispatcherStateView,
    during: DispatcherStateView,
    after: DispatcherStateView,
    d: DeviceId,
    reason: ReasonView,
)
    requires
        before.connected.no_duplicates(),
        !before.connected.contains(d),
        state_step(before, StateOp::Connect(d), during),
        state_step(during, StateOp::Disconnect(d, reason), after),
    ensures
        after.connected.to_set() == before.connected.to_set(),
        after.connected.len() == before.connected.len(),
        after.pending == before.pending.push(PrimeEventView::DeviceDisconnection { device_id: d, reason }),
{
    broadcast use vstd::seq_lib::group_seq_properties;
    assert forall|x: DeviceId| after.connected.to_set().contains(x) == before.connected.to_set().contains(x) by {
        if x != d {
            assert(after.connected.contains(x) <==> during.connected.contains(x));
            assert(during.connected == before.connected.push(d));
        }
    }
    assert(after.connected.to_set() =~= before.connected.to_set());
    after.connected.unique_seq_to_set();
    before.connected.unique_seq_to_set();
    assert(after.pending =~= before.pending.push(PrimeEventView::DeviceDisconnection { device_id: d, reason }));
}

/// Events are handed over in the order they were queued: from a state
/// with nothing pending, after any run of connects, disconnects and
/// alerts, taking the pending events returns exactly the events those
/// calls queued, in call order, and leaves nothing pending and the
/// connected devices as they were.
pub proof fn law_events_taken_in_call_order(
    states: Seq<DispatcherStateView>,
    ops: Seq<StateOp>,
    taken: Seq<PrimeEventView>,
    after: DispatcherStateView,
)
    requires
        is_run(states, ops),
        states[0].connected == Seq::<DeviceId>::empty(),
        states[0].pending == Seq::<PrimeEventView>::empty(),
        take_step(states.last(), taken, after),
    ensures
        taken == queued_by_all(ops),
        after.pending == Seq::<PrimeEventView>::empty(),
        after.connected == states.last().connected,
{
    lemma_run_prefix(states, ops, ops.len() as int);
    assert(ops.take(ops.len() as int) =~= ops);
    assert(states.last().pending =~= queued_by_all(ops));
}

// ---------------------------------------------------------------------------
// The uploader
// ---------------------------------------------------------------------------

/// The pause before the first retry of a failed connection, in seconds.
pub const INITIAL_BACKOFF_SECS: u64 = 1;

/// The longest pause between retries, in seconds.
pub const MAX_BACKOFF_SECS: u64 = 60;

/// The pause after one more failure: twice the last one, at most the
/// longest.
pub open spec fn next_backoff(b: u64) -> u64 {
    if 2 * b < MAX_BACKOFF_SECS {
        (2 * b) as u64
    } else {
        MAX_BACKOFF_SECS
    }
}

/// What the uploader does next.
#[derive(Debug, Clone, Copy, PartialEq, Eq, Structural)]
pub enum UploaderAction {
    /// Connect to the prime service and say hello.
    Connect,
    /// Fetch the pending readings and statuses and upload them.
    Fetch,
    /// Wait this many seconds, then for the next tick.
    Sleep { secs: u64 },
}

/// The state of the uploader loop: whether it holds a registered
/// connection, and how long it waits after the next failed attempt.
pub struct Uploader {
    connected: bool,
    backoff_secs: u64,
}

impl Uploader {
    pub closed spec fn is_connected(&self) -> bool {
        self.connected
    }

    pub closed spec fn backoff(&self) -> u64 {
        self.backoff_secs
    }

    #[verifier::type_invariant]
    closed spec fn well_formed(&self) -> bool {
        INITIAL_BACKOFF_SECS <= self.backoff_secs <= MAX_BACKOFF_SECS
    }

    /// An uploader that has not connected yet.
    pub fn new() -> (u: Uploader)
        ensures
            !u.is_connected(),
            u.backoff() == INITIAL_BACKOFF_SECS,
    {
        Uploader { connected: false, backoff_secs: INITIAL_BACKOFF_SECS }
    }

    /// The pause is always between the first and the longest.
    pub fn current_backoff(&self) -> (b: u64)
        ensures
            b == self.backoff(),
            INITIAL_BACKOFF_SECS <= b <= MAX_BACKOFF_SECS,
    {
        proof {
            use_type_invariant(self);
        }
        self.backoff_secs
    }

    /// On a tick: connect first if there is no connection, else fetch.
    pub fn on_tick(&self) -> (a: UploaderAction)
        ensures
            a == if self.is_connected() {
                UploaderAction::Fetch
            } else {
                UploaderAction::Connect
            },
    {
        if self.connected {
            UploaderAction::Fetch
        } else {
            UploaderAction::Connect
        }
    }

    /// After an attempt to connect: on success the pause is reset and the
    /// pending data is fetched; on failure the uploader waits the current
    /// pause, which then doubles up to the longest.
    pub fn on_connect(&mut self, ok: bool) -> (a: UploaderAction)
        ensures
            ok ==> final(self).is_connected() && final(self).backoff() == INITIAL_BACKOFF_SECS && a
                == UploaderAction::Fetch,
            !ok ==> final(self).is_connected() == old(self).is_connected() && final(self).backoff()
                == next_backoff(old(self).backoff()) && a == (UploaderAction::Sleep { secs: old(self).backoff() }),
    {
        proof {
            use_type_invariant(&*self);
        }
        if ok {
            self.connected = true;
            self.backoff_secs = INITIAL_BACKOFF_SECS;
            UploaderAction::Fetch
        } else {
            let wait = self.backoff_secs;
            let doubled = self.backoff_secs * 2;
            self.backoff_secs = if doubled < MAX_BACKOFF_SECS {
                doubled
            } else {
                MAX_BACKOFF_SECS
            };
            UploaderAction::Sleep { secs: wait }
        }
    }

    /// After an upload of the batch whose identifiers are `planned`: when
    /// the prime service accepted it, those readings and statuses are the
    /// ones to mark uploaded; when it failed, nothing is marked and the
    /// connection is dropped, to be made again on the next tick.
    pub fn on_upload(&mut self, ok: bool, planned: (Vec<ReadingId>, Vec<StatusId>)) -> (m: Option<
        (Vec<ReadingId>, Vec<StatusId>),
    >)
        ensures
            ok ==> m == Some(planned),
            !ok ==> m is None,
            final(self).is_connected() == (old(self).is_connected() && ok),
            final(self).backoff() == old(self).backoff(),
    {
        proof {
            use_type_invariant(&*self);
        }
        if ok {
            Some(planned)
        } else {
            self.connected = false;
            None
        }
    }
}

/// The identifiers of the readings and statuses of a batch, in order, or
/// `None` when there is nothing to upload.
pub fn plan_batch(readings: &Vec<SensorReading>, statuses: &Vec<DeviceStatus>) -> (r: Option<
    (Vec<ReadingId>, Vec<StatusId>),
>)
    ensures
        readings@.len() == 0 && statuses@.len() == 0 <==> r is None,
        r matches Some(p) ==> p.0@ == readings@.map_values(|x: SensorReading| x.id) && p.1@
            == statuses@.map_values(|x: DeviceStatus| x.id),
{
    if readings.len() == 0 && statuses.len() == 0 {
        return None;
    }
    let mut reading_ids: Vec<ReadingId> = Vec::new();
    let mut i: usize = 0;
    while i < readings.len()
        invariant
            i <= readings@.len(),
            reading_ids@ == readings@.take(i as int).map_values(|x: SensorReading| x.id),
        decreases readings@.len() - i,
    {
        reading_ids.push(readings[i].id);
        i = i + 1;
        assert(reading_ids@ =~= readings@.take(i as int).map_values(|x: SensorReading| x.id));
    }
    assert(readings@.take(i as int) =~= readings@);
    let mut status_ids: Vec<StatusId> = Vec::new();
    let mut j: usize = 0;
    while j < statuses.len()
        invariant
            j <= statuses@.len(),
            status_ids@ == statuses@.take(j as int).map_values(|x: DeviceStatus| x.id),
        decreases statuses@.len() - j,
    {
        status_ids.push(statuses[j].id);
        j = j + 1;
        assert(status_ids@ =~= statuses@.take(j as int).map_values(|x: DeviceStatus| x.id));
    }
    assert(statuses@.take(j as int) =~= statuses@);
    Some((reading_ids, status_ids))
}

/// However many attempts fail in a row, the pause stays between the first
/// and the longest, never shrinks, and reaches the longest.
pub proof fn law_backoff_bounded(b: u64)
    requires
        INITIAL_BACKOFF_SECS <= b <= MAX_BACKOFF_SECS,
    ensures
        INITIAL_BACKOFF_SECS <= next_backoff(b) <= MAX_BACKOFF_SECS,
        b <= next_backoff(b),
        b == MAX_BACKOFF_SECS ==> next_backoff(b) == MAX_BACKOFF_SECS,
        b * 2 <= MAX_BACKOFF_SECS ==> next_backoff(b) == b * 2,
{
}

// ---------------------------------------------------------------------------
// The edge protocol
// ---------------------------------------------------------------------------

/// Why a connection with an edge device failed.
#[derive(Debug, Clone, PartialEq, Eq)]
pub enum EdgeConnectionError {
    /// The device did not open with `HELLO`; what it sent instead.
    HandshakeMismatch([u8; 5]),
    /// A message could not be decoded (the decoder's message).
    Postcard(String),
    /// Reading from the device failed (the error's message).
    Io(String),
    InvalidPreamble(u16),
    ChannelClosed,
}

/// A connection error as text: what failed, then the detail it carries.
pub open spec fn edge_connection_error_text(e: EdgeConnectionError) -> Seq<char> {
    match e {
        EdgeConnectionError::HandshakeMismatch(b) => "Handshake failed: expected HELLO, got "@ + "["@
            + bytes_text(b@) + "]"@,
        EdgeConnectionError::Postcard(m) => "Postcard deserialization failed: "@ + m@,
        EdgeConnectionError::Io(m) => "IO error: "@ + m@,
        EdgeConnectionError::InvalidPreamble(v) => "Invalid packet preamble: "@ + hex_u16_text(v),
        EdgeConnectionError::ChannelClosed => "Internal data channel closed"@,
    }
}

impl EdgeConnectionError {
    /// The error as text.
    pub fn message(&self) -> (s: String)
        ensures
            s@ == edge_connection_error_text(*self),
    {
        match self {
            EdgeConnectionError::HandshakeMismatch(b) => {
                let list = bytes_list(b.as_slice());
                concat("Handshake failed: expected HELLO, got ", list.as_str())
            },
            EdgeConnectionError::Postcard(m) => concat("Postcard deserialization failed: ", m.as_str()),
            EdgeConnectionError::Io(m) => concat("IO error: ", m.as_str()),
            EdgeConnectionError::InvalidPreamble(v) => {
                let hex = hex_u16(*v);
                concat("Invalid packet preamble: ", hex.as_str())
            },
            EdgeConnectionError::ChannelClosed => owned("Internal data channel closed"),
        }
    }
}

/// The bytes a device opens with.
pub open spec fn hello_bytes() -> Seq<u8> {
    seq![72u8, 69u8, 76u8, 76u8, 79u8]
}

/// Checks that a device opened with `HELLO`.
pub fn check_handshake(hello: [u8; 5]) -> (r: Result<(), EdgeConnectionError>)
    ensures
        r is Ok <==> hello@ == hello_bytes(),
        r is Err ==> r == Err::<(), EdgeConnectionError>(EdgeConnectionError::HandshakeMismatch(hello)),
{
    if hello[0] == 72 && hello[1] == 69 && hello[2] == 76 && hello[3] == 76 && hello[4] == 79 {
        assert(hello@ =~= hello_bytes());
        Ok(())
    } else {
        Err(EdgeConnectionError::HandshakeMismatch(hello))
    }
}

/// The number eight bytes hold, most significant first.
pub open spec fn u64_from_be(b: Seq<u8>) -> u64 {
    ((b[0] as u64) << 56u64) | ((b[1] as u64) << 48u64) | ((b[2] as u64) << 40u64) | ((b[3] as u64)
        << 32u64) | ((b[4] as u64) << 24u64) | ((b[5] as u64) << 16u64) | ((b[6] as u64) << 8u64)
        | (b[7] as u64)
}

/// The location cell a device sends after `HELLO`: eight bytes, most
/// significant first.
pub fn location_from_be_bytes(b: [u8; 8]) -> (r: u64)
    ensures
        r == u64_from_be(b@),
{
    ((b[0] as u64) << 56u64) | ((b[1] as u64) << 48u64) | ((b[2] as u64) << 40u64) | ((b[3] as u64)
        << 32u64) | ((b[4] as u64) << 24u64) | ((b[5] as u64) << 16u64) | ((b[6] as u64) << 8u64)
        | (b[7] as u64)
}

/// Byte `i` (of sixteen, most significant first) of a 128-bit number.
pub open spec fn be_byte(v: u128, i: int) -> u8 {
    ((v >> ((8 * (15 - i)) as u128)) & 0xffu128) as u8
}

/// The identifier assigned to a device, as the sixteen bytes sent back to
/// it, most significant first.
pub fn device_id_be_bytes(id: u128) -> (r: [u8; 16])
    ensures
        forall|i: int| 0 <= i < 16 ==> #[trigger] r@[i] == be_byte(id, i),
{
    let mut r = [0u8; 16];
    let mut i: usize = 0;
    while i < 16
        invariant
            i <= 16,
            r@.len() == 16,
            forall|k: int| 0 <= k < i ==> #[trigger] r@[k] == be_byte(id, k),
        decreases 16 - i,
    {
        let shift: u128 = (8 * (15 - i)) as u128;
        let byte = ((id >> shift) & 0xffu128) as u8;
        r.set(i, byte);
        i = i + 1;
    }
    r
}

/// How a session with a device ended.
#[derive(Debug, Clone, PartialEq, Eq)]
pub enum SessionEnd {
    /// The dispatcher is shutting down.
    Cancelled,
    /// The device closed the connection.
    Closed,
    /// Reading failed (the error's message).
    ReadFailed(String),
    /// A frame could not be decoded (the decoder's message).
    FrameFailed(String),
    /// A frame carried another preamble.
    BadPreamble(u16),
    /// The payload of a reading could not be decoded (the decoder's message).
    PayloadFailed(String),
    /// The channel to the rest of the dispatcher is closed.
    ChannelClosed,
}

/// The abstract reason recorded when a session ends: a graceful close
/// when the device or the dispatcher closed it, the error otherwise.
pub open spec fn recorded_reason(end: SessionEnd) -> ReasonView {
    match end {
        SessionEnd::Cancelled => ReasonView::GracefulClose,
        SessionEnd::Closed => ReasonView::GracefulClose,
        SessionEnd::ReadFailed(m) => ReasonView::Error(m@),
        SessionEnd::FrameFailed(m) => ReasonView::Error(m@),
        SessionEnd::BadPreamble(_) => ReasonView::Error("Invalid preamble"@),
        SessionEnd::PayloadFailed(m) => ReasonView::Error(m@),
        SessionEnd::ChannelClosed => ReasonView::Error("Channel closed"@),
    }
}

/// Ends the session of a device, however it ended: the device is no
/// longer connected, its disconnection is queued with the reason that
/// fits, and the result says whether the session failed.
pub fn end_session(state: &mut DispatcherState, device_id: DeviceId, end: SessionEnd) -> (r: Result<
    (),
    EdgeConnectionError,
>)
    ensures
        state_step(old(state).snapshot(), StateOp::Disconnect(device_id, recorded_reason(end)), final(state).snapshot()),
        !final(state).connected().contains(device_id),
        final(state).pending() == old(state).pending().push(
            PrimeEventView::DeviceDisconnection { device_id, reason: recorded_reason(end) },
        ),
        final(state).started_at() == old(state).started_at(),
        match end {
            SessionEnd::Cancelled => r is Ok,
            SessionEnd::Closed => r is Ok,
            SessionEnd::ReadFailed(m) => (r matches Err(EdgeConnectionError::Io(x)) && x@ == m@),
            SessionEnd::FrameFailed(m) => (r matches Err(EdgeConnectionError::Postcard(x)) && x@ == m@),
            SessionEnd::BadPreamble(p) => r == Err::<(), EdgeConnectionError>(EdgeConnectionError::InvalidPreamble(p)),
            SessionEnd::PayloadFailed(m) => (r matches Err(EdgeConnectionError::Postcard(x)) && x@ == m@),
            SessionEnd::ChannelClosed => r == Err::<(), EdgeConnectionError>(EdgeConnectionError::ChannelClosed),
        },
{
    match end {
        SessionEnd::Cancelled => {
            state.device_disconnected(device_id, DisconnectionReason::GracefulClose);
            Ok(())
        },
        SessionEnd::Closed => {
            state.device_disconnected(device_id, DisconnectionReason::GracefulClose);
            Ok(())
        },
        SessionEnd::ReadFailed(m) => {
            state.device_disconnected(device_id, DisconnectionReason::Error(m.clone()));
            Err(EdgeConnectionError::Io(m))
        },
        SessionEnd::FrameFailed(m) => {
            state.device_disconnected(device_id, DisconnectionReason::Error(m.clone()));
            Err(EdgeConnectionError::Postcard(m))
        },
        SessionEnd::BadPreamble(p) => {
            state.device_disconnected(device_id, DisconnectionReason::Error("Invalid preamble".to_string()));
            Err(EdgeConnectionError::InvalidPreamble(p))
        },
        SessionEnd::PayloadFailed(m) => {
            state.device_disconnected(device_id, DisconnectionReason::Error(m.clone()));
            Err(EdgeConnectionError::Postcard(m))
        },
        SessionEnd::ChannelClosed => {
            state.device_disconnected(device_id, DisconnectionReason::Error("Channel closed".to_string()));
            Err(EdgeConnectionError::ChannelClosed)
        },
    }
}

/// The reading a device reports: stamped with the device's connection
/// (its id, the dispatcher, the location it sent at hello), full
/// confidence, and the id and time given.
pub fn reading_from_packet(
    id: ReadingId,
    device_id: DeviceId,
    dispatcher_id: DispatcherId,
    location_raw: u64,
    sensor_id: u128,
    metric: SensorMetric,
    timestamp: Timestamp,
) -> (r: SensorReading)
    ensures
        r == (SensorReading {
            id,
            device_id,
            dispatcher_id,
            metric,
            location: H3Cell(location_raw),
            confidence: Percentage(100),
            timestamp,
            sensor_id: SensorId(sensor_id),
        }),
{
    SensorReading {
        id,
        device_id,
        dispatcher_id,
        metric,
        location: H3Cell(location_raw),
        confidence: Percentage(100),
        timestamp,
        sensor_id: SensorId(sensor_id),
    }
}

} // verus!
