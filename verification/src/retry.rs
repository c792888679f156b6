//! When a node is connected to, and how long is waited between two attempts.

use crate::types::Parachain;
use vstd::arithmetic::power2::*;
use vstd::prelude::*;

verus! {

/// The wait after the first failure, in seconds.
pub const FIRST_DELAY_SECS: u64 = 1;

/// The longest wait, in seconds.
pub const MAX_DELAY_SECS: u64 = 60;

/// Where the tracking of one parachain stands.
#[derive(Clone, Copy, Debug, PartialEq, Eq, Structural)]
pub enum Phase {
    /// Its node is being connected to.
    Connecting,
    /// Its blocks are being tracked.
    Tracking,
    /// The next attempt is being waited for.
    Waiting,
}

/// The tracking of one parachain, which is taken up again whenever it ends.
#[derive(Clone, Copy, Debug, PartialEq, Eq)]
pub struct Connection<'a> {
    /// The node that is asked, at every attempt.
    pub url: &'a String,
    pub phase: Phase,
    /// The wait that comes next, in seconds.
    pub delay_secs: u64,
}

/// What happened to the tracking of a parachain.
#[derive(Clone, Copy, Debug, PartialEq, Eq, Structural)]
pub enum ConnectionEvent {
    Connected,
    ConnectFailed,
    /// The subscription to blocks ended without an error.
    TrackingEnded,
    /// The subscription to blocks ended with an error.
    TrackingFailed,
    /// The wait is over.
    Waited,
}

/// What is to be done for the tracking of a parachain.
#[derive(Clone, Copy, Debug, PartialEq, Eq)]
pub enum ConnectionAction<'a> {
    /// Connect to this node.
    Connect { url: &'a String },
    TrackBlocks,
    Sleep { secs: u64 },
}

/// The wait that comes after a wait of `secs` seconds.
pub open spec fn longer_delay(secs: nat) -> nat {
    if 2 * secs < MAX_DELAY_SECS {
        2 * secs
    } else {
        MAX_DELAY_SECS as nat
    }
}

/// Doubles a wait, up to the longest one.
pub fn lengthen_delay(secs: u64) -> (longer: u64)
    ensures
        longer == longer_delay(secs as nat),
        secs < 30 ==> longer == 2 * secs,
        secs >= 30 ==> longer == 60,
{
    if secs < MAX_DELAY_SECS / 2 {
        secs * 2
    } else {
        MAX_DELAY_SECS
    }
}

impl<'a> Connection<'a> {
    /// A wait is never shorter than the first one nor longer than the longest.
    pub open spec fn wf(self) -> bool {
        FIRST_DELAY_SECS <= self.delay_secs <= MAX_DELAY_SECS
    }

    /// Whether an event is one that can happen now.
    pub open spec fn expects(self, event: ConnectionEvent) -> bool {
        match self.phase {
            Phase::Connecting => event is Connected || event is ConnectFailed,
            Phase::Tracking => event is TrackingEnded || event is TrackingFailed,
            Phase::Waiting => event is Waited,
        }
    }

    /// Where the tracking stands after an event: a connection brings the first wait back, and
    /// every wait makes the next one longer.
    pub open spec fn after(self, event: ConnectionEvent) -> Connection<'a> {
        match event {
            ConnectionEvent::Connected => Connection {
                phase: Phase::Tracking,
                delay_secs: FIRST_DELAY_SECS,
                ..self
            },
            ConnectionEvent::Waited => Connection {
                phase: Phase::Connecting,
                delay_secs: longer_delay(self.delay_secs as nat) as u64,
                ..self
            },
            _ => Connection { phase: Phase::Waiting, ..self },
        }
    }

    /// What is to be done where the tracking stands.
    pub open spec fn action(self) -> ConnectionAction<'a> {
        match self.phase {
            Phase::Connecting => ConnectionAction::Connect { url: self.url },
            Phase::Tracking => ConnectionAction::TrackBlocks,
            Phase::Waiting => ConnectionAction::Sleep { secs: self.delay_secs },
        }
    }

    /// Starts to track a parachain through its node at `rpc_index`, which is to be connected
    /// to first. A parachain without such a node is not tracked.
    pub fn start(para: &'a Parachain, rpc_index: usize) -> (started: Option<
        (Connection<'a>, ConnectionAction<'a>),
    >)
        ensures
            started == if rpc_index < para.rpcs@.len() {
                let connection = Connection {
                    url: &para.rpcs@[rpc_index as int],
                    phase: Phase::Connecting,
                    delay_secs: FIRST_DELAY_SECS,
                };
                Some((connection, connection.action()))
            } else {
                None
            },
            started is Some <==> rpc_index < para.rpcs@.len(),
            started matches Some((connection, action)) ==> {
                &&& connection.wf()
                &&& connection.url@ == para.rpcs@[rpc_index as int]@
                &&& connection.phase is Connecting
                &&& connection.delay_secs == 1
                &&& action matches ConnectionAction::Connect { url }
                &&& url@ == para.rpcs@[rpc_index as int]@
            },
    {
        match para.rpc(rpc_index) {
            Some(url) => Some(
                (
                    Connection { url, phase: Phase::Connecting, delay_secs: FIRST_DELAY_SECS },
                    ConnectionAction::Connect { url },
                ),
            ),
            None => None,
        }
    }
}

/// Decides what is to be done after an event in the tracking of a parachain: a node that was
/// reached has its blocks tracked, and whatever goes wrong or ends is tried again after a wait.
pub fn track_weight_consumption<'a>(
    connection: &mut Connection<'a>,
    event: ConnectionEvent,
) -> (action: ConnectionAction<'a>)
    requires
        old(connection).wf(),
        old(connection).expects(event),
    ensures
        final(connection).wf(),
        *final(connection) == old(connection).after(event),
        action == final(connection).action(),
        final(connection).url == old(connection).url,
        event is Connected ==> {
            &&& action is TrackBlocks
            &&& final(connection).phase is Tracking
            &&& final(connection).delay_secs == 1
        },
        event is ConnectFailed || event is TrackingEnded || event is TrackingFailed ==> {
            &&& action matches ConnectionAction::Sleep { secs }
            &&& secs == old(connection).delay_secs
            &&& final(connection).phase is Waiting
            &&& final(connection).delay_secs == old(connection).delay_secs
        },
        event is Waited ==> {
            &&& action matches ConnectionAction::Connect { url }
            &&& url@ == old(connection).url@
            &&& final(connection).phase is Connecting
            &&& old(connection).delay_secs < 30 ==> final(connection).delay_secs == 2 * old(
                connection,
            ).delay_secs
            &&& old(connection).delay_secs >= 30 ==> final(connection).delay_secs == 60
        },
{
    match event {
        ConnectionEvent::Connected => {
            connection.delay_secs = FIRST_DELAY_SECS;
            connection.phase = Phase::Tracking;
            ConnectionAction::TrackBlocks
        },
        ConnectionEvent::ConnectFailed
        | ConnectionEvent::TrackingEnded
        | ConnectionEvent::TrackingFailed => {
            connection.phase = Phase::Waiting;
            ConnectionAction::Sleep { secs: connection.delay_secs }
        },
        ConnectionEvent::Waited => {
            connection.delay_secs = lengthen_delay(connection.delay_secs);
            connection.phase = Phase::Connecting;
            ConnectionAction::Connect { url: connection.url }
        },
    }
}

/// Whether `events` can happen one after the other, starting from `connection`.
pub open spec fn possible(connection: Connection, events: Seq<ConnectionEvent>) -> bool
    decreases events.len(),
{
    events.len() == 0 || (possible(connection, events.drop_last()) && after_all(
        connection,
        events.drop_last(),
    ).expects(events.last()))
}

/// Where the tracking stands after `events`.
pub open spec fn after_all(connection: Connection, events: Seq<ConnectionEvent>) -> Connection
    decreases events.len(),
{
    if events.len() == 0 {
        connection
    } else {
        after_all(connection, events.drop_last()).after(events.last())
    }
}

/// The number of waits since the last connection.
pub open spec fn waits_since_connected(events: Seq<ConnectionEvent>) -> nat
    decreases events.len(),
{
    if events.len() == 0 || events.last() is Connected {
        0
    } else if events.last() is Waited {
        waits_since_connected(events.drop_last()) + 1
    } else {
        waits_since_connected(events.drop_last())
    }
}

/// The wait that comes after `waits` waits without a connection in between: twice as long each
/// time, but never longer than the longest.
pub open spec fn delay_after(waits: nat) -> nat {
    if pow2(waits) < MAX_DELAY_SECS {
        pow2(waits)
    } else {
        MAX_DELAY_SECS as nat
    }
}

proof fn lemma_delay_doubles(waits: nat)
    ensures
        delay_after(0) == FIRST_DELAY_SECS,
        delay_after(waits + 1) == longer_delay(delay_after(waits)),
        FIRST_DELAY_SECS <= delay_after(waits) <= MAX_DELAY_SECS,
{
    lemma2_to64();
    lemma_pow2_pos(waits);
    lemma_pow2_unfold(waits + 1);
}

/// However a parachain was tracked so far, the next wait is set by the number of waits since
/// its node was last reached alone.
pub proof fn lemma_delay_schedule(connection: Connection, events: Seq<ConnectionEvent>)
    requires
        connection.phase == Phase::Connecting,
        connection.delay_secs == FIRST_DELAY_SECS,
        possible(connection, events),
    ensures
        after_all(connection, events).delay_secs == delay_after(waits_since_connected(events)),
        after_all(connection, events).wf(),
    decreases events.len(),
{
    lemma_delay_doubles(0);
    if events.len() > 0 {
        let earlier = events.drop_last();
        lemma_delay_schedule(connection, earlier);
        lemma_delay_doubles(waits_since_connected(earlier));
    }
}

/// Tracking never ends for good: whether the node was not reached, its blocks ended or they
/// failed, after one wait it is connected to again.
pub proof fn lemma_always_tried_again(connection: Connection, event: ConnectionEvent)
    requires
        connection.wf(),
        connection.expects(event),
        event is ConnectFailed || event is TrackingEnded || event is TrackingFailed,
    ensures
        connection.after(event).action() == (ConnectionAction::Sleep {
            secs: connection.delay_secs,
        }),
        connection.after(event).expects(ConnectionEvent::Waited),
        connection.after(event).after(ConnectionEvent::Waited).action() == (
        ConnectionAction::Connect { url: connection.url }),
{
}

/// Every attempt, the first and each later one, is to the node that the tracking started with.
pub proof fn lemma_same_node_at_every_attempt(
    connection: Connection,
    events: Seq<ConnectionEvent>,
)
    ensures
        after_all(connection, events).url == connection.url,
        after_all(connection, events).action() matches ConnectionAction::Connect { url }
            ==> url == connection.url,
    decreases events.len(),
{
    if events.len() > 0 {
        lemma_same_node_at_every_attempt(connection, events.drop_last());
    }
}

/// Blocks are tracked once for each time that the node was reached: right after it was, and at
/// no other time.
pub proof fn lemma_tracked_once_reached(connection: Connection, events: Seq<ConnectionEvent>)
    requires
        connection.phase == Phase::Connecting,
        possible(connection, events),
    ensures
        after_all(connection, events).action() is TrackBlocks <==> events.len() > 0
            && events.last() is Connected,
{
}

/// A wait is followed by one that is twice as long, or by a minute where that would be longer:
/// it is never shortened, never more than doubled and never longer than a minute.
pub proof fn lemma_waits_grow_to_a_minute(secs: nat)
    ensures
        longer_delay(secs) <= 60,
        longer_delay(secs) <= 2 * secs || longer_delay(secs) == 60,
        2 * secs <= 60 ==> longer_delay(secs) == 2 * secs,
        secs <= 60 ==> secs <= longer_delay(secs),
        secs > 30 ==> longer_delay(secs) == 60,
{
}

/// After `waits` waits without a connection, the next one is one second, doubled as many times,
/// or a minute where that would be longer.
pub proof fn lemma_schedule_in_seconds(
    connection: Connection,
    events: Seq<ConnectionEvent>,
)
    requires
        connection.phase is Connecting,
        connection.delay_secs == 1,
        possible(connection, events),
    ensures
        ({
            let doubled = pow2(waits_since_connected(events));
            let next = after_all(connection, events).delay_secs;
            &&& doubled <= 60 ==> next == doubled
            &&& doubled > 60 ==> next == 60
        }),
{
    lemma_delay_schedule(connection, events);
}

/// Each event can happen in exactly one phase.
pub proof fn lemma_events_belong_to_phases(connection: Connection)
    ensures
        connection.expects(ConnectionEvent::Connected) <==> connection.phase is Connecting,
        connection.expects(ConnectionEvent::ConnectFailed) <==> connection.phase is Connecting,
        connection.expects(ConnectionEvent::TrackingEnded) <==> connection.phase is Tracking,
        connection.expects(ConnectionEvent::TrackingFailed) <==> connection.phase is Tracking,
        connection.expects(ConnectionEvent::Waited) <==> connection.phase is Waiting,
        connection.wf() <==> 1 <= connection.delay_secs <= 60,
{
}

/// A round without a connection, an attempt that fails and the wait after it, leads back to an
/// attempt on the same node, after a sleep for the wait that was due; only that wait has grown.
/// A round with a connection ends with a sleep of one second, however long the waits had become.
pub proof fn lemma_rounds(connection: Connection)
    requires
        connection.phase is Connecting,
        connection.wf(),
    ensures
        ({
            let failed = connection.after(ConnectionEvent::ConnectFailed);
            let again = failed.after(ConnectionEvent::Waited);
            let reached = connection.after(ConnectionEvent::Connected);
            &&& failed.action() == (ConnectionAction::Sleep { secs: connection.delay_secs })
            &&& again.phase is Connecting
            &&& again.url == connection.url
            &&& again.action() == (ConnectionAction::Connect { url: connection.url })
            &&& connection.delay_secs <= again.delay_secs <= 2 * connection.delay_secs
            &&& reached.action() is TrackBlocks
            &&& reached.after(ConnectionEvent::TrackingEnded).action() == (
            ConnectionAction::Sleep { secs: 1 })
            &&& reached.after(ConnectionEvent::TrackingFailed).action() == (
            ConnectionAction::Sleep { secs: 1 })
        }),
{
}

} // verus!
