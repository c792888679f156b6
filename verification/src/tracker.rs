//! Tracking for clients on websockets: the finalized blocks of each parachain, told of to every
//! client in turn. Here the first failure ends the tracking of a parachain.

use crate::in_order::InOrder;
use crate::query::{require, MissingValue, QueryError};
use crate::subscription::{BlockAction, BlockEvent, Subscription};
use crate::types::{ConsumptionUpdate, Parachain, ProofSize, RefTime, WeightConsumption};
use crate::weights::{proof_size_of, ref_time_of, BlockWeight, Weight};
use vstd::prelude::*;

verus! {

/// Why a tracking task did not come to a good end.
#[derive(Debug)]
pub enum TaskError<J, E> {
    /// It was cut off before it could tell how it went.
    Aborted(J),
    /// It failed by itself.
    Failed(E),
}

/// Takes the end of the tracking task that was waited for. The tasks are waited for in the
/// order of their parachains, and the first that did not end well ends it all.
pub fn start_tracking<J, E>(tasks: &mut InOrder, ended: Result<Result<(), E>, J>) -> (outcome:
    Result<(), TaskError<J, E>>)
    requires
        old(tasks).wf(),
        old(tasks).done < old(tasks).total,
    ensures
        final(tasks).wf(),
        *final(tasks) == old(tasks).after(outcome),
        final(tasks).total == old(tasks).total,
        outcome is Ok ==> final(tasks).done == old(tasks).done + 1,
        outcome is Err ==> final(tasks).done == old(tasks).done,
        outcome == match ended {
            Ok(Ok(())) => Ok(()),
            Ok(Err(error)) => Err(TaskError::Failed(error)),
            Err(error) => Err(TaskError::Aborted(error)),
        },
{
    let outcome = match ended {
        Ok(Ok(())) => Ok(()),
        Ok(Err(error)) => Err(TaskError::Failed(error)),
        Err(error) => Err(TaskError::Aborted(error)),
    };
    tasks.advance(outcome)
}

/// What happened to the tracking of one parachain.
#[derive(Debug)]
pub enum TrackingEvent<E> {
    Connected,
    ConnectFailed(E),
    /// Its blocks came to an end, with this outcome.
    BlocksFinished(Result<(), E>),
}

/// What is to be done for the tracking of one parachain.
#[derive(Debug)]
pub enum TrackingAction<'a, E> {
    /// Connect to this node.
    Connect(&'a String),
    TrackBlocks,
    Finish(Result<(), E>),
}

/// Begins to track a parachain: through its node at `rpc_index`, or not at all where it has no
/// such node.
pub fn begin_tracking<'a, E>(para: &'a Parachain, rpc_index: usize) -> (action: TrackingAction<
    'a,
    E,
>)
    ensures
        action == if rpc_index < para.rpcs@.len() {
            TrackingAction::<E>::Connect(&para.rpcs@[rpc_index as int])
        } else {
            TrackingAction::<E>::Finish(Ok(()))
        },
{
    match para.rpc(rpc_index) {
        Some(url) => TrackingAction::Connect(url),
        None => TrackingAction::Finish(Ok(())),
    }
}

/// Decides what is to be done after an event in the tracking of a parachain: a node that was
/// reached has its blocks tracked, anything else ends the tracking.
pub fn track_weight_consumption<E>(event: TrackingEvent<E>) -> (action: TrackingAction<'static, E>)
    ensures
        action == match event {
            TrackingEvent::Connected => TrackingAction::TrackBlocks,
            TrackingEvent::ConnectFailed(error) => TrackingAction::Finish(Err(error)),
            TrackingEvent::BlocksFinished(outcome) => TrackingAction::Finish(outcome),
        },
{
    match event {
        TrackingEvent::Connected => TrackingAction::TrackBlocks,
        TrackingEvent::ConnectFailed(error) => TrackingAction::Finish(Err(error)),
        TrackingEvent::BlocksFinished(outcome) => TrackingAction::Finish(outcome),
    }
}

/// What is done after an event: every block that is received is noted, and the next one is
/// waited for, however long it takes. A subscription that could not be made and a block that
/// could not be noted end it with their error; blocks that end or cannot be read end it without.
pub open spec fn followed_by<E>(event: BlockEvent<E>) -> BlockAction<E> {
    match event {
        BlockEvent::Subscribed | BlockEvent::Noted | BlockEvent::TimedOut => {
            BlockAction::AwaitBlock { timeout_secs: None }
        },
        BlockEvent::BlockReceived => BlockAction::NoteBlock,
        BlockEvent::SubscribeFailed(error) | BlockEvent::NoteFailed(error) => {
            BlockAction::Finish(Err(error))
        },
        BlockEvent::StreamEnded | BlockEvent::BlockFailed(_) => BlockAction::Finish(Ok(())),
    }
}

/// Decides what is to be done after an event in a subscription to finalized blocks.
pub fn track_blocks<E>(subscription: &mut Subscription, event: BlockEvent<E>) -> (action:
    BlockAction<E>)
    requires
        old(subscription).expects(event),
        !(event is TimedOut),
    ensures
        action == followed_by(event),
        *final(subscription) == crate::subscription::standing(action),
        event is Subscribed || event is Noted ==> {
            &&& action matches BlockAction::AwaitBlock { timeout_secs }
            &&& timeout_secs is None
            &&& *final(subscription) is Awaiting
        },
        event is BlockReceived ==> action is NoteBlock && *final(subscription) is Noting,
        event matches BlockEvent::SubscribeFailed(error) ==> {
            &&& action matches BlockAction::Finish(Err(reported))
            &&& reported == error
            &&& *final(subscription) is Finished
        },
        event matches BlockEvent::NoteFailed(error) ==> {
            &&& action matches BlockAction::Finish(Err(reported))
            &&& reported == error
            &&& *final(subscription) is Finished
        },
        event is StreamEnded || event is BlockFailed ==> {
            &&& action matches BlockAction::Finish(Ok(()))
            &&& *final(subscription) is Finished
        },
{
    match event {
        BlockEvent::Subscribed | BlockEvent::Noted | BlockEvent::TimedOut => {
            *subscription = Subscription::Awaiting;
            BlockAction::AwaitBlock { timeout_secs: None }
        },
        BlockEvent::BlockReceived => {
            *subscription = Subscription::Noting;
            BlockAction::NoteBlock
        },
        BlockEvent::SubscribeFailed(error) => {
            *subscription = Subscription::Finished;
            BlockAction::Finish(Err(error))
        },
        BlockEvent::NoteFailed(error) => {
            *subscription = Subscription::Finished;
            BlockAction::Finish(Err(error))
        },
        BlockEvent::StreamEnded | BlockEvent::BlockFailed(_) => {
            *subscription = Subscription::Finished;
            BlockAction::Finish(Ok(()))
        },
    }
}

/// Where a subscription stands after `events`.
pub open spec fn standing_after<E>(events: Seq<BlockEvent<E>>) -> Subscription {
    if events.len() == 0 {
        Subscription::Subscribing
    } else {
        crate::subscription::standing(followed_by(events.last()))
    }
}

/// Whether `events` can happen one after the other in a subscription. A wait without a limit
/// does not time out.
pub open spec fn possible<E>(events: Seq<BlockEvent<E>>) -> bool {
    forall|i: int|
        0 <= i < events.len() ==> standing_after(events.take(i)).expects(#[trigger] events[i])
            && !(events[i] is TimedOut)
}

/// A subscription goes on for as long as blocks come and are noted: no event but the last one is
/// other than the subscription made, a block received or a block noted. A block that could not
/// be noted is the last event.
pub proof fn lemma_goes_on<E>(events: Seq<BlockEvent<E>>, i: int)
    requires
        possible(events),
        0 <= i < events.len() - 1,
    ensures
        events[i] is Subscribed || events[i] is BlockReceived || events[i] is Noted,
{
    assert(standing_after(events.take(i + 1)).expects(events[i + 1]));
    assert(events.take(i + 1).last() == events[i]);
    assert(!(events[i] is TimedOut));
}

/// Every block that is received is noted, and none twice: but for one that is being noted, as
/// many blocks were noted, the last one perhaps badly, as were received.
pub proof fn lemma_every_block_noted<E>(events: Seq<BlockEvent<E>>)
    requires
        possible(events),
    ensures
        crate::subscription::blocks_received(events) == crate::subscription::blocks_noted(events)
            + if standing_after(events) is Noting {
            1nat
        } else {
            0nat
        },
    decreases events.len(),
{
    if events.len() > 0 {
        let earlier = events.drop_last();
        let last = events.len() - 1;
        assert forall|i: int| 0 <= i < earlier.len() implies standing_after(
            earlier.take(i),
        ).expects(#[trigger] earlier[i]) && !(earlier[i] is TimedOut) by {
            assert(standing_after(events.take(i)).expects(events[i]) && !(events[i] is TimedOut));
            assert(earlier.take(i) =~= events.take(i));
        }
        lemma_every_block_noted(earlier);
        assert(standing_after(events.take(last)).expects(events[last]));
        assert(events.take(last) =~= earlier);
    }
}

/// The update that tells websocket clients of a consumption.
pub open spec fn update_of(para_id: u32, consumption: WeightConsumption) -> ConsumptionUpdate {
    ConsumptionUpdate {
        para_id,
        ref_time: RefTime {
            normal: consumption.ref_time.0,
            operational: consumption.ref_time.1,
            mandatory: consumption.ref_time.2,
        },
        proof_size: ProofSize {
            normal: consumption.proof_size.0,
            operational: consumption.proof_size.1,
            mandatory: consumption.proof_size.2,
        },
    }
}

/// Makes the update that tells websocket clients of a block.
pub fn note_new_block(para: &Parachain, consumption: &WeightConsumption) -> (update:
    ConsumptionUpdate)
    ensures
        update == update_of(para.para_id, *consumption),
        update.para_id == para.para_id,
        update.ref_time.normal == consumption.ref_time.0,
        update.ref_time.operational == consumption.ref_time.1,
        update.ref_time.mandatory == consumption.ref_time.2,
        update.proof_size.normal == consumption.proof_size.0,
        update.proof_size.operational == consumption.proof_size.1,
        update.proof_size.mandatory == consumption.proof_size.2,
{
    ConsumptionUpdate {
        para_id: para.para_id,
        ref_time: RefTime {
            normal: consumption.ref_time.0,
            operational: consumption.ref_time.1,
            mandatory: consumption.ref_time.2,
        },
        proof_size: ProofSize {
            normal: consumption.proof_size.0,
            operational: consumption.proof_size.1,
            mandatory: consumption.proof_size.2,
        },
    }
}

/// The consumption of a block that consumed `weight` on a chain whose blocks may consume
/// `limit`.
pub open spec fn consumption_of(weight: BlockWeight, limit: Weight, block_number: u32) -> WeightConsumption {
    let ref_time = crate::weights::ref_time_shares(weight, limit);
    let proof_size = crate::weights::proof_size_shares(weight, limit);
    WeightConsumption {
        block_number,
        ref_time: (ref_time.normal, ref_time.operational, ref_time.mandatory),
        proof_size: (proof_size.normal, proof_size.operational, proof_size.mandatory),
    }
}

/// What a block consumed of its chain's limits, out of what its node answered when asked for
/// the consumed weight and for the largest weight of a block. A consumed weight that could not
/// be had is reported before a limit that could not be had.
pub fn weight_consumption<E>(
    consumed: Result<Option<BlockWeight>, E>,
    max_block: Result<Weight, E>,
    block_number: u32,
) -> (consumption: Result<WeightConsumption, QueryError<E>>)
    ensures
        match (crate::query::found(consumed, MissingValue::Consumption), max_block) {
            (Err(error), _) => consumption == Err::<WeightConsumption, _>(error),
            (Ok(_), Err(error)) => consumption == Err::<WeightConsumption, _>(
                QueryError::Failed(error),
            ),
            (Ok(weight), Ok(limit)) => consumption == Ok::<_, QueryError<E>>(
                consumption_of(weight, limit, block_number),
            ),
        },
        consumed matches Err(error) ==> consumption == Err::<WeightConsumption, _>(
            QueryError::Failed(error),
        ),
        consumed matches Ok(None) ==> consumption == Err::<WeightConsumption, _>(
            QueryError::<E>::Missing(MissingValue::Consumption),
        ),
        consumed matches Ok(Some(_)) ==> (max_block matches Err(error) ==> consumption == Err::<
            WeightConsumption,
            _,
        >(QueryError::Failed(error))),
        consumed matches Ok(Some(weight)) ==> (max_block matches Ok(limit) ==> {
            &&& consumption matches Ok(shares)
            &&& shares.block_number == block_number
            &&& shares.ref_time.0 == (crate::types::Share {
                consumed: weight.normal.ref_time,
                limit: limit.ref_time,
            })
            &&& shares.ref_time.1 == (crate::types::Share {
                consumed: weight.operational.ref_time,
                limit: limit.ref_time,
            })
            &&& shares.ref_time.2 == (crate::types::Share {
                consumed: weight.mandatory.ref_time,
                limit: limit.ref_time,
            })
            &&& shares.proof_size.0 == (crate::types::Share {
                consumed: weight.normal.proof_size,
                limit: limit.proof_size,
            })
            &&& shares.proof_size.1 == (crate::types::Share {
                consumed: weight.operational.proof_size,
                limit: limit.proof_size,
            })
            &&& shares.proof_size.2 == (crate::types::Share {
                consumed: weight.mandatory.proof_size,
                limit: limit.proof_size,
            })
        }),
{
    let weight = match require(consumed, MissingValue::Consumption) {
        Ok(weight) => weight,
        Err(error) => {
            return Err(error);
        },
    };
    let limit = match max_block {
        Ok(limit) => limit,
        Err(error) => {
            return Err(QueryError::Failed(error));
        },
    };
    let ref_time = ref_time_of(&weight, &limit);
    let proof_size = proof_size_of(&weight, &limit);
    Ok(
        WeightConsumption {
            block_number,
            ref_time: (ref_time.normal, ref_time.operational, ref_time.mandatory),
            proof_size: (proof_size.normal, proof_size.operational, proof_size.mandatory),
        },
    )
}

/// The consumption that websocket clients are told of is a lossless account of what the node
/// told: from it the weight of each dispatch class and the limit are read back exactly as they
/// were, each in its own place.
pub proof fn lemma_consumption_reads_back(weight: BlockWeight, limit: Weight, block_number: u32)
    ensures
        ({
            let told = consumption_of(weight, limit, block_number);
            let read_back = BlockWeight {
                normal: Weight {
                    ref_time: told.ref_time.0.consumed,
                    proof_size: told.proof_size.0.consumed,
                },
                operational: Weight {
                    ref_time: told.ref_time.1.consumed,
                    proof_size: told.proof_size.1.consumed,
                },
                mandatory: Weight {
                    ref_time: told.ref_time.2.consumed,
                    proof_size: told.proof_size.2.consumed,
                },
            };
            &&& read_back == weight
            &&& told.block_number == block_number
            &&& told.ref_time.0.limit == limit.ref_time
            &&& told.ref_time.1.limit == limit.ref_time
            &&& told.ref_time.2.limit == limit.ref_time
            &&& told.proof_size.0.limit == limit.proof_size
            &&& told.proof_size.1.limit == limit.proof_size
            &&& told.proof_size.2.limit == limit.proof_size
        }),
{
}

/// A websocket client reads out of an update, for each dispatch class, the weight that the node
/// gave for that class and the limit that it gave, and the parachain.
pub proof fn lemma_update_tells_what_node_gave(
    para_id: u32,
    weight: BlockWeight,
    limit: Weight,
    block_number: u32,
)
    ensures
        ({
            let update = update_of(para_id, consumption_of(weight, limit, block_number));
            &&& update.para_id == para_id
            &&& update.ref_time.normal.consumed == weight.normal.ref_time
            &&& update.ref_time.operational.consumed == weight.operational.ref_time
            &&& update.ref_time.mandatory.consumed == weight.mandatory.ref_time
            &&& update.ref_time.normal.limit == limit.ref_time
            &&& update.ref_time.operational.limit == limit.ref_time
            &&& update.ref_time.mandatory.limit == limit.ref_time
            &&& update.proof_size.normal.consumed == weight.normal.proof_size
            &&& update.proof_size.operational.consumed == weight.operational.proof_size
            &&& update.proof_size.mandatory.consumed == weight.mandatory.proof_size
            &&& update.proof_size.normal.limit == limit.proof_size
            &&& update.proof_size.operational.limit == limit.proof_size
            &&& update.proof_size.mandatory.limit == limit.proof_size
        }),
{
}

/// Clients on websockets and clients of the event server are told the same shares of a block,
/// class by class.
pub proof fn lemma_both_servers_agree(weight: BlockWeight, limit: Weight, block_number: u32)
    ensures
        ({
            let told = consumption_of(weight, limit, block_number);
            let report = crate::weights::report_of(weight, limit, block_number);
            &&& told.block_number == report.block_number
            &&& told.ref_time.0 == report.ref_time.normal
            &&& told.ref_time.1 == report.ref_time.operational
            &&& told.ref_time.2 == report.ref_time.mandatory
            &&& told.proof_size.0 == report.proof_size.normal
            &&& told.proof_size.1 == report.proof_size.operational
            &&& told.proof_size.2 == report.proof_size.mandatory
        }),
{
}

/// A subscription is given up with an error exactly where the subscription itself or the noting
/// of a block failed, and with that very error; it is given up without one exactly where the
/// blocks end or cannot be read; and else it goes on, with no limit on the wait for a block.
pub proof fn lemma_how_subscriptions_end<E>(event: BlockEvent<E>, error: E)
    requires
        !(event is TimedOut),
    ensures
        followed_by(event) == BlockAction::Finish(Err(error)) <==> (event
            == BlockEvent::SubscribeFailed(error) || event == BlockEvent::NoteFailed(error)),
        followed_by(event) == BlockAction::<E>::Finish(Ok(())) <==> (event is StreamEnded
            || event is BlockFailed),
        followed_by(event) is NoteBlock <==> event is BlockReceived,
        followed_by(event) == (BlockAction::<E>::AwaitBlock { timeout_secs: None }) <==> (
        event is Subscribed || event is Noted),
        !(followed_by(event) is Subscribe),
{
}

} // verus!
