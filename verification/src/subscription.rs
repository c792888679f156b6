//! Following the finalized blocks of a parachain through one connection to its node.

use vstd::prelude::*;

verus! {

/// How long a block is waited for, in seconds, before the node is connected to anew.
pub const BLOCK_TIMEOUT_SECS: u64 = 60;

/// Where a subscription to blocks stands.
#[derive(Clone, Copy, Debug, PartialEq, Eq, Structural)]
pub enum Subscription {
    /// The blocks are being subscribed to.
    Subscribing,
    /// The next block is being waited for.
    Awaiting,
    /// A block is being noted.
    Noting,
    /// The subscription is over.
    Finished,
}

/// What happened to a subscription. Where an error came with it, it is carried along.
#[derive(Debug)]
pub enum BlockEvent<E> {
    Subscribed,
    SubscribeFailed(E),
    BlockReceived,
    BlockFailed(E),
    StreamEnded,
    TimedOut,
    Noted,
    NoteFailed(E),
}

/// What is to be done for a subscription.
#[derive(Debug)]
pub enum BlockAction<E> {
    /// Subscribe to the finalized blocks.
    Subscribe,
    /// Wait for the next block, for so many seconds at most where a number is given.
    AwaitBlock { timeout_secs: Option<u64> },
    /// Note the block that was received.
    NoteBlock,
    /// Give the subscription up, with this outcome.
    Finish(Result<(), E>),
}

impl Subscription {
    /// Whether an event is one that can happen now.
    pub open spec fn expects<E>(self, event: BlockEvent<E>) -> bool {
        match self {
            Subscription::Subscribing => event is Subscribed || event is SubscribeFailed,
            Subscription::Awaiting => event is BlockReceived || event is BlockFailed
                || event is StreamEnded || event is TimedOut,
            Subscription::Noting => event is Noted || event is NoteFailed,
            Subscription::Finished => false,
        }
    }

    /// A subscription that is yet to be made, and what is to be done for it.
    pub fn start<E>() -> (started: (Subscription, BlockAction<E>))
        ensures
            started == (Subscription::Subscribing, BlockAction::<E>::Subscribe),
    {
        (Subscription::Subscribing, BlockAction::Subscribe)
    }
}

/// Where a subscription stands once an action was decided on.
pub open spec fn standing<E>(action: BlockAction<E>) -> Subscription {
    match action {
        BlockAction::Subscribe => Subscription::Subscribing,
        BlockAction::AwaitBlock { .. } => Subscription::Awaiting,
        BlockAction::NoteBlock => Subscription::Noting,
        BlockAction::Finish(_) => Subscription::Finished,
    }
}

/// What is done after an event: every block that is received is noted, and whether or not that
/// worked the next block is waited for. A subscription that could not be made and a block that
/// could not be read end it with their error; blocks that end or do not come end it without.
pub open spec fn followed_by<E>(event: BlockEvent<E>) -> BlockAction<E> {
    match event {
        BlockEvent::Subscribed | BlockEvent::Noted | BlockEvent::NoteFailed(_) => {
            BlockAction::AwaitBlock { timeout_secs: Some(BLOCK_TIMEOUT_SECS) }
        },
        BlockEvent::BlockReceived => BlockAction::NoteBlock,
        BlockEvent::SubscribeFailed(error) | BlockEvent::BlockFailed(error) => {
            BlockAction::Finish(Err(error))
        },
        BlockEvent::StreamEnded | BlockEvent::TimedOut => BlockAction::Finish(Ok(())),
    }
}

/// Decides what is to be done after an event in a subscription to blocks.
pub fn track_blocks<E>(subscription: &mut Subscription, event: BlockEvent<E>) -> (action:
    BlockAction<E>)
    requires
        old(subscription).expects(event),
    ensures
        action == followed_by(event),
        *final(subscription) == standing(action),
        event is Subscribed || event is Noted || event is NoteFailed ==> {
            &&& action matches BlockAction::AwaitBlock { timeout_secs: Some(secs) }
            &&& secs == 60
            &&& *final(subscription) is Awaiting
        },
        event is BlockReceived ==> action is NoteBlock && *final(subscription) is Noting,
        event matches BlockEvent::SubscribeFailed(error) ==> {
            &&& action matches BlockAction::Finish(Err(reported))
            &&& reported == error
            &&& *final(subscription) is Finished
        },
        event matches BlockEvent::BlockFailed(error) ==> {
            &&& action matches BlockAction::Finish(Err(reported))
            &&& reported == error
            &&& *final(subscription) is Finished
        },
        event is StreamEnded || event is TimedOut ==> {
            &&& action matches BlockAction::Finish(Ok(()))
            &&& *final(subscription) is Finished
        },
{
    match event {
        BlockEvent::Subscribed | BlockEvent::Noted | BlockEvent::NoteFailed(_) => {
            *subscription = Subscription::Awaiting;
            BlockAction::AwaitBlock { timeout_secs: Some(BLOCK_TIMEOUT_SECS) }
        },
        BlockEvent::BlockReceived => {
            *subscription = Subscription::Noting;
            BlockAction::NoteBlock
        },
        BlockEvent::SubscribeFailed(error) => {
            *subscription = Subscription::Finished;
            BlockAction::Finish(Err(error))
        },
        BlockEvent::BlockFailed(error) => {
            *subscription = Subscription::Finished;
            BlockAction::Finish(Err(error))
        },
        BlockEvent::StreamEnded | BlockEvent::TimedOut => {
            *subscription = Subscription::Finished;
            BlockAction::Finish(Ok(()))
        },
    }
}

/// Where a subscription stands after `events`.
pub open spec fn standing_after<E>(events: Seq<BlockEvent<E>>) -> Subscription {
    if events.len() == 0 {
        Subscription::Subscribing
    } else {
        standing(followed_by(events.last()))
    }
}

/// Whether `events` can happen one after the other in a subscription.
pub open spec fn possible<E>(events: Seq<BlockEvent<E>>) -> bool {
    forall|i: int|
        0 <= i < events.len() ==> standing_after(events.take(i)).expects(#[trigger] events[i])
}

/// A subscription goes on for as long as blocks come: no event but the last one is other than
/// the subscription made, a block received or a block noted, well or badly.
pub proof fn lemma_goes_on<E>(events: Seq<BlockEvent<E>>, i: int)
    requires
        possible(events),
        0 <= i < events.len() - 1,
    ensures
        events[i] is Subscribed || events[i] is BlockReceived || events[i] is Noted
            || events[i] is NoteFailed,
{
    assert(standing_after(events.take(i + 1)).expects(events[i + 1]));
    assert(events.take(i + 1).last() == events[i]);
}

/// The number of blocks that were received.
pub open spec fn blocks_received<E>(events: Seq<BlockEvent<E>>) -> nat
    decreases events.len(),
{
    if events.len() == 0 {
        0
    } else {
        blocks_received(events.drop_last()) + if events.last() is BlockReceived {
            1nat
        } else {
            0nat
        }
    }
}

/// The number of blocks that were noted, well or badly.
pub open spec fn blocks_noted<E>(events: Seq<BlockEvent<E>>) -> nat
    decreases events.len(),
{
    if events.len() == 0 {
        0
    } else {
        blocks_noted(events.drop_last()) + if events.last() is Noted || events.last() is NoteFailed {
            1nat
        } else {
            0nat
        }
    }
}

/// Every block that is received is noted, and none twice: but for one that is being noted, as
/// many blocks were noted as were received.
pub proof fn lemma_every_block_noted<E>(events: Seq<BlockEvent<E>>)
    requires
        possible(events),
    ensures
        blocks_received(events) == blocks_noted(events) + if standing_after(events) is Noting {
            1nat
        } else {
            0nat
        },
    decreases events.len(),
{
    if events.len() > 0 {
        let earlier = events.drop_last();
        let last = events.len() - 1;
        assert forall|i: int| 0 <= i < earlier.len() implies standing_after(
            earlier.take(i),
        ).expects(#[trigger] earlier[i]) by {
            assert(standing_after(events.take(i)).expects(events[i]));
            assert(earlier.take(i) =~= events.take(i));
        }
        lemma_every_block_noted(earlier);
        assert(standing_after(events.take(last)).expects(events[last]));
        assert(events.take(last) =~= earlier);
    }
}

/// Each event can happen in exactly one standing, and none once a subscription is over.
pub proof fn lemma_events_belong_to_standings<E>(subscription: Subscription, error: E)
    ensures
        subscription.expects(BlockEvent::<E>::Subscribed) <==> subscription is Subscribing,
        subscription.expects(BlockEvent::SubscribeFailed(error)) <==> subscription is Subscribing,
        subscription.expects(BlockEvent::<E>::BlockReceived) <==> subscription is Awaiting,
        subscription.expects(BlockEvent::BlockFailed(error)) <==> subscription is Awaiting,
        subscription.expects(BlockEvent::<E>::StreamEnded) <==> subscription is Awaiting,
        subscription.expects(BlockEvent::<E>::TimedOut) <==> subscription is Awaiting,
        subscription.expects(BlockEvent::<E>::Noted) <==> subscription is Noting,
        subscription.expects(BlockEvent::NoteFailed(error)) <==> subscription is Noting,
{
}

/// A subscription is given up with an error exactly where the subscription itself or a block
/// failed, and with that very error; it is given up without one exactly where the blocks end or
/// do not come; and in every other case it goes on, with a minute for each block to come.
pub proof fn lemma_how_subscriptions_end<E>(event: BlockEvent<E>, error: E)
    ensures
        followed_by(event) == BlockAction::Finish(Err(error)) <==> (event
            == BlockEvent::SubscribeFailed(error) || event == BlockEvent::BlockFailed(error)),
        followed_by(event) == BlockAction::<E>::Finish(Ok(())) <==> (event is StreamEnded
            || event is TimedOut),
        followed_by(event) is NoteBlock <==> event is BlockReceived,
        followed_by(event) == (BlockAction::<E>::AwaitBlock { timeout_secs: Some(60u64) }) <==> (
        event is Subscribed || event is Noted || event is NoteFailed),
        !(followed_by(event) is Subscribe),
{
}

/// Where a subscription stands tells which answer it waits for: the answer to what was last
/// decided on.
pub proof fn lemma_standings_follow_actions<E>(event: BlockEvent<E>)
    ensures
        standing(followed_by(event)) is Awaiting <==> followed_by(event) is AwaitBlock,
        standing(followed_by(event)) is Noting <==> followed_by(event) is NoteBlock,
        standing(followed_by(event)) is Finished <==> followed_by(event) is Finish,
        standing(BlockAction::<E>::Subscribe) is Subscribing,
{
}

} // verus!
