//! Decision core of the process-backed registry: the reference-counted
//! connection tracker with its debounced-shutdown rule, and the singleton
//! backend process slot as an explicit state machine. Both are mutated only
//! inside one exclusive critical section, held by the caller; any concurrent
//! interleaving of connects and disconnects is therefore some serialization,
//! and the contracts here speak about every serialization.

use vstd::prelude::*;

verus! {

/// How handling one accepted client connection ended.
#[derive(Debug, Clone, Copy, PartialEq, Eq, Structural)]
pub enum ConnectOutcome {
    /// The initial message was answered from the cache; no backend
    /// connection was made and the connection counter was never touched.
    Cached,
    /// A backend connection was opened and the relay ran to completion.
    Proxied,
    /// No backend connection could be established.
    Failed,
}

/// Whether the listener owes the registry a disconnect for this outcome:
/// only a completed relay does. A cache hit never touched the counter, and
/// a failed connect already rolled its increment back.
pub fn owes_disconnect(outcome: ConnectOutcome) -> (r: bool)
    ensures
        r == (outcome == ConnectOutcome::Proxied),
{
    matches!(outcome, ConnectOutcome::Proxied)
}

/// The count of in-flight client connections together with the last-activity
/// instant the debounced shutdown is measured from. Timestamps come from a
/// monotone clock, in milliseconds.
pub struct ConnectionTracker {
    /// Number of in-flight client connections: connects minus completed
    /// disconnects, never negative.
    pub active: usize,
    /// Instant of the most recent disconnect.
    pub last_activity_millis: u64,
    /// Idle window that must elapse after the last disconnect before the
    /// backend may be shut down.
    pub debounce_millis: u64,
}

impl ConnectionTracker {
    /// A tracker with no connections yet.
    pub fn new(debounce_millis: u64) -> (r: Self)
        ensures
            r.active == 0,
            r.last_activity_millis == 0,
            r.debounce_millis == debounce_millis,
    {
        ConnectionTracker { active: 0, last_activity_millis: 0, debounce_millis }
    }

    /// Registers one new client. The caller must do this before its first
    /// suspension point, so no concurrent disconnect can observe a zero
    /// count while this connection is still establishing.
    pub fn record_connect(&mut self)
        requires
            old(self).active < usize::MAX,
        ensures
            final(self).active == old(self).active + 1,
            final(self).last_activity_millis == old(self).last_activity_millis,
            final(self).debounce_millis == old(self).debounce_millis,
    {
        self.active = self.active + 1;
    }

    /// Registers the end of one client connection and stamps the idle clock.
    /// Owed exactly once per successful connect, so the count is positive.
    /// Returns the number of connections remaining: zero means the caller
    /// should sleep out the debounce window and then re-check.
    pub fn record_disconnect(&mut self, now_millis: u64) -> (remaining: usize)
        requires
            old(self).active >= 1,
        ensures
            final(self).active == old(self).active - 1,
            remaining == final(self).active,
            final(self).last_activity_millis == now_millis,
            final(self).debounce_millis == old(self).debounce_millis,
    {
        self.active = self.active - 1;
        self.last_activity_millis = now_millis;
        self.active
    }

    /// The shutdown rule: no connection is in flight and the debounce window
    /// has fully elapsed since the last disconnect.
    pub open spec fn spec_shutdown_due(self, now_millis: u64) -> bool {
        self.active == 0 && now_millis >= self.last_activity_millis + self.debounce_millis
    }

    /// The mandatory re-check after the debounce sleep: shut the backend
    /// down only if the count is still zero and the window has elapsed.
    pub fn shutdown_due(&self, now_millis: u64) -> (r: bool)
        ensures
            r == self.spec_shutdown_due(now_millis),
    {
        self.active == 0 && now_millis >= self.last_activity_millis
            && now_millis - self.last_activity_millis >= self.debounce_millis
    }

    /// The current reference count, for observability.
    pub fn active_connections(&self) -> (r: usize)
        ensures
            r == self.active,
    {
        self.active
    }
}

/// A disconnect that left the count at zero makes shutdown due once the
/// debounce window has elapsed with no event in between.
pub proof fn lemma_idle_window_triggers_shutdown(t: ConnectionTracker, now_millis: u64)
    requires
        t.active == 0,
        now_millis >= t.last_activity_millis + t.debounce_millis,
    ensures
        t.spec_shutdown_due(now_millis),
{
}

/// A connect that arrives during the debounce wait vetoes the shutdown:
/// while any connection is in flight the re-check never fires.
pub proof fn lemma_live_connection_blocks_shutdown(t: ConnectionTracker, now_millis: u64)
    requires
        t.active >= 1,
    ensures
        !t.spec_shutdown_due(now_millis),
{
}

/// A disconnect during the wait pushes the window out: until a full debounce
/// window has passed since the latest activity, the re-check never fires.
pub proof fn lemma_recent_activity_blocks_shutdown(t: ConnectionTracker, now_millis: u64)
    requires
        now_millis < t.last_activity_millis + t.debounce_millis,
    ensures
        !t.spec_shutdown_due(now_millis),
{
}

/// One serialized connection-lifecycle event: a connect, or a disconnect
/// carrying the instant it happened.
#[derive(Debug, Clone, Copy, PartialEq, Eq, Structural)]
pub enum ConnEvent {
    Connect,
    Disconnect(u64),
}

/// Connects minus disconnects over a serialized history.
pub open spec fn net_count(events: Seq<ConnEvent>) -> int
    decreases events.len(),
{
    if events.len() == 0 {
        0
    } else {
        net_count(events.drop_last()) + match events.last() {
            ConnEvent::Connect => 1int,
            ConnEvent::Disconnect(_) => -1int,
        }
    }
}

/// The instant of the last disconnect in a history, or `default` when the
/// history holds none.
pub open spec fn last_disconnect_at(events: Seq<ConnEvent>, default: u64) -> u64
    decreases events.len(),
{
    if events.len() == 0 {
        default
    } else {
        match events.last() {
            ConnEvent::Connect => last_disconnect_at(events.drop_last(), default),
            ConnEvent::Disconnect(at) => at,
        }
    }
}

/// A history is balanced when no prefix completes more disconnects than
/// connects: every disconnect ends a connection that was opened before.
pub open spec fn balanced(events: Seq<ConnEvent>, start: int) -> bool {
    forall|i: int| 0 <= i <= events.len() ==> start + net_count(#[trigger] events.take(i)) >= 0
}

impl ConnectionTracker {
    /// Replays a serialized history of connect and disconnect events. Under
    /// any balanced interleaving that keeps the count within machine range,
    /// the counter never goes negative and ends at exactly its start plus
    /// connects minus completed disconnects.
    pub fn apply_events(&mut self, events: &Vec<ConnEvent>)
        requires
            balanced(events@, old(self).active as int),
            forall|i: int|
                0 <= i <= events@.len() ==> old(self).active + net_count(
                    #[trigger] events@.take(i),
                ) <= usize::MAX,
        ensures
            final(self).active == old(self).active + net_count(events@),
            final(self).last_activity_millis == last_disconnect_at(
                events@,
                old(self).last_activity_millis,
            ),
            final(self).debounce_millis == old(self).debounce_millis,
    {
        let ghost start = self.active as int;
        let n = events.len();
        let mut i: usize = 0;
        proof {
            assert(events@.take(0) =~= Seq::<ConnEvent>::empty());
        }
        while i < n
            invariant
                i <= n,
                n == events@.len(),
                balanced(events@, start),
                forall|j: int|
                    0 <= j <= events@.len() ==> start + net_count(#[trigger] events@.take(j))
                        <= usize::MAX,
                self.active as int == start + net_count(events@.take(i as int)),
                self.last_activity_millis == last_disconnect_at(
                    events@.take(i as int),
                    old(self).last_activity_millis,
                ),
                self.debounce_millis == old(self).debounce_millis,
            decreases n - i,
        {
            proof {
                assert(events@.take(i + 1).drop_last() =~= events@.take(i as int));
                assert(events@.take(i + 1).last() == events@[i as int]);
                assert(start + net_count(events@.take(i + 1)) >= 0);
                assert(start + net_count(events@.take(i + 1)) <= usize::MAX);
            }
            match events[i] {
                ConnEvent::Connect => {
                    self.record_connect();
                }
                ConnEvent::Disconnect(at) => {
                    self.record_disconnect(at);
                }
            }
            i += 1;
        }
        proof {
            assert(events@.take(n as int) =~= events@);
        }
    }
}

/// Where the singleton backend process stands in its life cycle.
#[derive(Debug, Clone, Copy, PartialEq, Eq, Structural)]
pub enum ProcessState {
    /// No process exists; the next connect spawns a fresh one.
    Stopped,
    /// A process was spawned and its console output is being watched for
    /// the ready pattern.
    Starting,
    /// The process reported ready and accepts backend connections.
    Ready,
    /// The shutdown command was sent and the process is being waited out.
    Stopping,
}

/// The singleton backend slot as an explicit state machine. At most one
/// process exists at any time; all transitions run under one exclusive
/// lock, held by the caller, so concurrent first connects serialize and
/// only one spawns.
pub struct ProcessSlot {
    /// The recorded life-cycle state.
    pub state: ProcessState,
}

impl ProcessSlot {
    /// An empty slot: nothing has been spawned.
    pub fn new() -> (r: Self)
        ensures
            r.state == ProcessState::Stopped,
    {
        ProcessSlot { state: ProcessState::Stopped }
    }

    /// Whether a connect must spawn a process before it can proceed.
    pub fn needs_spawn(&self) -> (r: bool)
        ensures
            r == (self.state == ProcessState::Stopped),
    {
        matches!(self.state, ProcessState::Stopped)
    }

    /// Records the spawn: only an empty slot may spawn, which is what keeps
    /// the backend a singleton.
    pub fn begin_start(&mut self)
        requires
            old(self).state == ProcessState::Stopped,
        ensures
            final(self).state == ProcessState::Starting,
    {
        self.state = ProcessState::Starting;
    }

    /// Records readiness, observed in the console output or at its end.
    pub fn mark_ready(&mut self)
        requires
            old(self).state == ProcessState::Starting,
        ensures
            final(self).state == ProcessState::Ready,
    {
        self.state = ProcessState::Ready;
    }

    /// Records that the shutdown command is being written to the process.
    pub fn begin_shutdown(&mut self)
        requires
            old(self).state == ProcessState::Ready,
        ensures
            final(self).state == ProcessState::Stopping,
    {
        self.state = ProcessState::Stopping;
    }

    /// Clears the slot once the process has been waited out. Runs whether or
    /// not the shutdown I/O succeeded, so a stale handle never lingers and
    /// the next connect can respawn.
    pub fn finish_shutdown(&mut self)
        requires
            old(self).state == ProcessState::Stopping,
        ensures
            final(self).state == ProcessState::Stopped,
    {
        self.state = ProcessState::Stopped;
    }
}

} // verus!
