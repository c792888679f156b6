//! From blocks to the updates that clients of the event server get: how long a block took,
//! what is said of it, and which update of each parachain is the latest.

use crate::query::{authorities_num, timestamp_at, MissingValue, QueryError};
use crate::types::{Parachain, ProofSize, RefTime, Share};
use crate::weights::ConsumptionReport;
use std::collections::HashMap;
use vstd::prelude::*;

verus! {

broadcast use vstd::std_specs::hash::group_hash_axioms;

/// The block of a parachain that was noted last, and the time that the latest block whose
/// predecessor had been noted just before it took.
#[derive(Clone, Copy, Debug, PartialEq, Eq, Structural)]
pub struct LastBlock {
    pub block_number: u32,
    /// In milliseconds.
    pub timestamp: u64,
    pub block_time_ms: Option<u64>,
}

/// What stands for the last block of a parachain of which no block was noted yet.
pub open spec fn no_block() -> LastBlock {
    LastBlock { block_number: 0, timestamp: 0, block_time_ms: None }
}

/// Whether a block comes right after the last one.
pub open spec fn follows(last: LastBlock, block_number: u32) -> bool {
    last.block_number + 1 == block_number
}

/// Whether a block can be noted after the last one: block numbers do not run out, and a block
/// that follows the last one is not older.
pub open spec fn can_follow(last: LastBlock, block_number: u32, timestamp: u64) -> bool {
    &&& last.block_number < u32::MAX
    &&& follows(last, block_number) ==> last.timestamp <= timestamp
}

/// The last block once a block was noted after `last`: a block that follows took the time
/// between the two timestamps; after any other the block time known so far stands.
pub open spec fn noted(last: LastBlock, block_number: u32, timestamp: u64) -> LastBlock {
    LastBlock {
        block_number,
        timestamp,
        block_time_ms: if follows(last, block_number) {
            Some((timestamp - last.timestamp) as u64)
        } else {
            last.block_time_ms
        },
    }
}

/// The last noted block of each parachain.
pub struct TimestampCache {
    entries: HashMap<u32, LastBlock>,
}

impl View for TimestampCache {
    type V = Map<u32, LastBlock>;

    closed spec fn view(&self) -> Map<u32, LastBlock> {
        self.entries@
    }
}

/// The last noted block of one parachain.
pub open spec fn last_block_of(noted_blocks: Map<u32, LastBlock>, para_id: u32) -> LastBlock {
    if noted_blocks.contains_key(para_id) {
        noted_blocks[para_id]
    } else {
        no_block()
    }
}

impl TimestampCache {
    /// A cache of which no block was noted.
    pub fn new() -> (cache: TimestampCache)
        ensures
            cache@ == Map::<u32, LastBlock>::empty(),
    {
        TimestampCache { entries: HashMap::new() }
    }

    /// The last noted block of a parachain; block 0 at time 0 where none was noted.
    pub fn last_block(&self, para_id: u32) -> (last: LastBlock)
        ensures
            last == last_block_of(self@, para_id),
            self@.contains_key(para_id) ==> last == self@[para_id],
            !self@.contains_key(para_id) ==> last.block_number == 0 && last.timestamp == 0
                && last.block_time_ms is None,
    {
        match self.entries.get(&para_id) {
            Some(last) => *last,
            None => LastBlock { block_number: 0, timestamp: 0, block_time_ms: None },
        }
    }

    /// Notes a block of a parachain, and tells the block time that is now known of it.
    pub fn note(&mut self, para_id: u32, block_number: u32, timestamp: u64) -> (block_time_ms:
        Option<u64>)
        requires
            can_follow(last_block_of(old(self)@, para_id), block_number, timestamp),
        ensures
            final(self)@ == old(self)@.insert(
                para_id,
                noted(last_block_of(old(self)@, para_id), block_number, timestamp),
            ),
            block_time_ms == final(self)@[para_id].block_time_ms,
            final(self)@.dom() == old(self)@.dom().insert(para_id),
            final(self)@[para_id].block_number == block_number,
            final(self)@[para_id].timestamp == timestamp,
            forall|other: u32|
                other != para_id && #[trigger] old(self)@.contains_key(other)
                    ==> final(self)@[other] == old(self)@[other],
            old(self)@.contains_key(para_id) ==> {
                let last = old(self)@[para_id];
                if last.block_number + 1 == block_number {
                    block_time_ms matches Some(ms) && ms == timestamp - last.timestamp
                } else {
                    block_time_ms == last.block_time_ms
                }
            },
            !old(self)@.contains_key(para_id) ==> if block_number == 1 {
                block_time_ms == Some(timestamp)
            } else {
                block_time_ms is None
            },
    {
        let last = self.last_block(para_id);
        let block_time_ms = if last.block_number + 1 == block_number {
            Some(timestamp - last.timestamp)
        } else {
            last.block_time_ms
        };
        self.entries.insert(para_id, LastBlock { block_number, timestamp, block_time_ms });
        block_time_ms
    }
}

/// What is read of a block itself.
#[derive(Clone, Copy, Debug, PartialEq, Eq, Structural)]
pub struct BlockFacts {
    pub block_number: u32,
    pub extrinsics_num: usize,
    pub authorities_num: usize,
    /// In milliseconds.
    pub timestamp: u64,
}

/// What clients of the event server are told of a block.
#[derive(Debug)]
pub struct ConsumptionUpdate {
    pub para_id: u32,
    pub relay: String,
    pub block_number: u32,
    pub extrinsics_num: usize,
    pub authorities_num: usize,
    /// In milliseconds.
    pub timestamp: u64,
    pub block_time_ms: Option<u64>,
    pub ref_time: RefTime,
    pub proof_size: ProofSize,
    pub total_proof_size: Share,
}

/// Whether an update tells of a block of a parachain, of which `last` was noted: it takes over
/// everything that is known of the block, and the block time that is known of its parachain.
pub open spec fn tells_of(
    update: ConsumptionUpdate,
    para: Parachain,
    block: BlockFacts,
    consumption: ConsumptionReport,
    last: LastBlock,
) -> bool {
    &&& update.para_id == para.para_id
    &&& update.relay@ == para.relay_chain@
    &&& update.block_number == block.block_number
    &&& update.extrinsics_num == block.extrinsics_num
    &&& update.authorities_num == block.authorities_num
    &&& update.timestamp == block.timestamp
    &&& update.block_time_ms == last.block_time_ms
    &&& update.ref_time == consumption.ref_time
    &&& update.proof_size == consumption.proof_size
    &&& update.total_proof_size == consumption.total_proof_size
}

/// What is read of a block, out of what its node answered. Extrinsics that could not be had are
/// reported before a timestamp that could not be had; validators that could not be had count as
/// none.
pub fn block_facts<V, E>(
    block_number: u32,
    extrinsics_num: Result<usize, E>,
    validators: &Result<Option<Vec<V>>, E>,
    timestamp: Result<Option<u64>, E>,
) -> (facts: Result<BlockFacts, QueryError<E>>)
    ensures
        match (extrinsics_num, crate::query::found(timestamp, MissingValue::Timestamp)) {
            (Err(error), _) => facts == Err::<BlockFacts, _>(QueryError::Failed(error)),
            (Ok(_), Err(error)) => facts == Err::<BlockFacts, _>(error),
            (Ok(number), Ok(time)) => facts == Ok::<_, QueryError<E>>(
                BlockFacts {
                    block_number,
                    extrinsics_num: number,
                    authorities_num: crate::query::known_validators(*validators) as usize,
                    timestamp: time,
                },
            ),
        },
        facts is Ok <==> extrinsics_num is Ok && timestamp matches Ok(Some(_)),
        facts matches Ok(read) ==> {
            &&& read.block_number == block_number
            &&& extrinsics_num == Ok::<usize, E>(read.extrinsics_num)
            &&& timestamp == Ok::<Option<u64>, E>(Some(read.timestamp))
            &&& *validators matches Ok(Some(accounts)) ==> read.authorities_num == accounts@.len()
            &&& *validators matches Ok(None) ==> read.authorities_num == 0
            &&& *validators is Err ==> read.authorities_num == 0
        },
        extrinsics_num matches Err(error) ==> facts == Err::<BlockFacts, _>(
            QueryError::Failed(error),
        ),
        extrinsics_num is Ok ==> (timestamp matches Err(error) ==> facts == Err::<BlockFacts, _>(
            QueryError::Failed(error),
        )),
        extrinsics_num is Ok ==> (timestamp matches Ok(None) ==> facts == Err::<BlockFacts, _>(
            QueryError::<E>::Missing(MissingValue::Timestamp),
        )),
{
    let extrinsics_num = match extrinsics_num {
        Ok(number) => number,
        Err(error) => {
            return Err(QueryError::Failed(error));
        },
    };
    let timestamp = match timestamp_at(timestamp) {
        Ok(time) => time,
        Err(error) => {
            return Err(error);
        },
    };
    Ok(
        BlockFacts {
            block_number,
            extrinsics_num,
            authorities_num: authorities_num(validators),
            timestamp,
        },
    )
}

/// Notes a new block of a parachain, and makes the update that tells of it.
pub fn note_new_block(
    para: &Parachain,
    block: &BlockFacts,
    consumption: &ConsumptionReport,
    timestamps: &mut TimestampCache,
) -> (update: ConsumptionUpdate)
    requires
        can_follow(
            last_block_of(old(timestamps)@, para.para_id),
            block.block_number,
            block.timestamp,
        ),
    ensures
        final(timestamps)@ == old(timestamps)@.insert(
            para.para_id,
            noted(
                last_block_of(old(timestamps)@, para.para_id),
                block.block_number,
                block.timestamp,
            ),
        ),
        tells_of(update, *para, *block, *consumption, final(timestamps)@[para.para_id]),
        update.para_id == para.para_id,
        update.relay@ == para.relay_chain@,
        update.block_number == block.block_number,
        update.extrinsics_num == block.extrinsics_num,
        update.authorities_num == block.authorities_num,
        update.timestamp == block.timestamp,
        update.ref_time.normal == consumption.ref_time.normal,
        update.ref_time.operational == consumption.ref_time.operational,
        update.ref_time.mandatory == consumption.ref_time.mandatory,
        update.proof_size.normal == consumption.proof_size.normal,
        update.proof_size.operational == consumption.proof_size.operational,
        update.proof_size.mandatory == consumption.proof_size.mandatory,
        update.total_proof_size == consumption.total_proof_size,
        old(timestamps)@.contains_key(para.para_id) ==> {
            let last = old(timestamps)@[para.para_id];
            if last.block_number + 1 == block.block_number {
                update.block_time_ms matches Some(ms) && ms == block.timestamp - last.timestamp
            } else {
                update.block_time_ms == last.block_time_ms
            }
        },
        !old(timestamps)@.contains_key(para.para_id) ==> if block.block_number == 1 {
            update.block_time_ms == Some(block.timestamp)
        } else {
            update.block_time_ms is None
        },
        final(timestamps)@.dom() == old(timestamps)@.dom().insert(para.para_id),
        final(timestamps)@[para.para_id].block_number == block.block_number,
        final(timestamps)@[para.para_id].timestamp == block.timestamp,
        final(timestamps)@[para.para_id].block_time_ms == update.block_time_ms,
        forall|other: u32|
            other != para.para_id && #[trigger] old(timestamps)@.contains_key(other)
                ==> final(timestamps)@[other] == old(timestamps)@[other],
{
    let block_time_ms = timestamps.note(para.para_id, block.block_number, block.timestamp);
    ConsumptionUpdate {
        para_id: para.para_id,
        relay: para.relay_chain.clone(),
        block_number: block.block_number,
        extrinsics_num: block.extrinsics_num,
        authorities_num: block.authorities_num,
        timestamp: block.timestamp,
        block_time_ms,
        ref_time: consumption.ref_time,
        proof_size: consumption.proof_size,
        total_proof_size: consumption.total_proof_size,
    }
}

/// What comes of a new block, whatever it is: a block that can follow the last one of its
/// parachain is noted and told of; any other leaves what was noted as it was.
pub open spec fn note_outcome(
    before: Map<u32, LastBlock>,
    para: Parachain,
    block: BlockFacts,
    consumption: ConsumptionReport,
    after: Map<u32, LastBlock>,
    told: Option<ConsumptionUpdate>,
) -> bool {
    let last = last_block_of(before, para.para_id);
    if can_follow(last, block.block_number, block.timestamp) {
        &&& after == before.insert(
            para.para_id,
            noted(last, block.block_number, block.timestamp),
        )
        &&& told matches Some(update) && tells_of(
            update,
            para,
            block,
            consumption,
            after[para.para_id],
        )
    } else {
        &&& after == before
        &&& told is None
    }
}

/// Notes a new block of a parachain where it can follow the last one, and makes the update that
/// tells of it. There is none where the block numbers have run out or a block that follows the
/// last one is older.
pub fn try_note_new_block(
    para: &Parachain,
    block: &BlockFacts,
    consumption: &ConsumptionReport,
    timestamps: &mut TimestampCache,
) -> (told: Option<ConsumptionUpdate>)
    ensures
        note_outcome(
            old(timestamps)@,
            *para,
            *block,
            *consumption,
            final(timestamps)@,
            told,
        ),
        told is None <==> if old(timestamps)@.contains_key(para.para_id) {
            let last = old(timestamps)@[para.para_id];
            last.block_number == u32::MAX || (last.block_number + 1 == block.block_number
                && block.timestamp < last.timestamp)
        } else {
            false
        },
        told is None ==> final(timestamps)@ == old(timestamps)@,
        told matches Some(update) ==> {
            &&& update.para_id == para.para_id
            &&& update.relay@ == para.relay_chain@
            &&& update.block_number == block.block_number
            &&& update.extrinsics_num == block.extrinsics_num
            &&& update.authorities_num == block.authorities_num
            &&& update.timestamp == block.timestamp
            &&& update.ref_time.normal == consumption.ref_time.normal
            &&& update.ref_time.operational == consumption.ref_time.operational
            &&& update.ref_time.mandatory == consumption.ref_time.mandatory
            &&& update.proof_size.normal == consumption.proof_size.normal
            &&& update.proof_size.operational == consumption.proof_size.operational
            &&& update.proof_size.mandatory == consumption.proof_size.mandatory
            &&& update.total_proof_size == consumption.total_proof_size
            &&& final(timestamps)@.dom() == old(timestamps)@.dom().insert(para.para_id)
            &&& final(timestamps)@[para.para_id].block_number == block.block_number
            &&& final(timestamps)@[para.para_id].timestamp == block.timestamp
            &&& final(timestamps)@[para.para_id].block_time_ms == update.block_time_ms
            &&& forall|other: u32|
                other != para.para_id && #[trigger] old(timestamps)@.contains_key(other)
                    ==> final(timestamps)@[other] == old(timestamps)@[other]
        },
        told matches Some(update) ==> if old(timestamps)@.contains_key(para.para_id) {
            let last = old(timestamps)@[para.para_id];
            if last.block_number + 1 == block.block_number {
                update.block_time_ms matches Some(ms) && ms == block.timestamp - last.timestamp
            } else {
                update.block_time_ms == last.block_time_ms
            }
        } else if block.block_number == 1 {
            update.block_time_ms == Some(block.timestamp)
        } else {
            update.block_time_ms is None
        },
{
    let last = timestamps.last_block(para.para_id);
    if last.block_number == u32::MAX {
        return None;
    }
    if last.block_number + 1 == block.block_number && block.timestamp < last.timestamp {
        return None;
    }
    Some(note_new_block(para, block, consumption, timestamps))
}

/// The latest update of each parachain, kept for clients that are yet to come.
pub struct UpdateCache {
    entries: HashMap<u32, ConsumptionUpdate>,
}

impl View for UpdateCache {
    type V = Map<u32, ConsumptionUpdate>;

    closed spec fn view(&self) -> Map<u32, ConsumptionUpdate> {
        self.entries@
    }
}

/// Whether `updates` holds every cached update once, in whatever order.
pub open spec fn lists_all(
    cached: Map<u32, ConsumptionUpdate>,
    updates: Seq<&ConsumptionUpdate>,
) -> bool {
    &&& updates.len() == cached.dom().len()
    &&& forall|i: int|
        0 <= i < updates.len() ==> {
            &&& cached.contains_key((#[trigger] updates[i]).para_id)
            &&& *updates[i] == cached[updates[i].para_id]
        }
    &&& forall|i: int, j: int|
        0 <= i < j < updates.len() ==> (#[trigger] updates[i]).para_id != (
        #[trigger] updates[j]).para_id
    &&& forall|para_id: u32| #[trigger]
        cached.contains_key(para_id) ==> exists|i: int|
            0 <= i < updates.len() && (#[trigger] updates[i]).para_id == para_id
}

impl UpdateCache {
    /// Every update stands under the parachain that it is about.
    pub open spec fn wf(self) -> bool {
        forall|para_id: u32| #[trigger]
            self@.contains_key(para_id) ==> self@[para_id].para_id == para_id
    }

    /// A cache without updates.
    pub fn new() -> (cache: UpdateCache)
        ensures
            cache.wf(),
            cache@ == Map::<u32, ConsumptionUpdate>::empty(),
    {
        UpdateCache { entries: HashMap::new() }
    }

    /// Keeps an update in place of any earlier one of the same parachain.
    pub fn store(&mut self, update: ConsumptionUpdate)
        requires
            old(self).wf(),
        ensures
            final(self).wf(),
            final(self)@ == old(self)@.insert(update.para_id, update),
            final(self)@.contains_key(update.para_id),
            final(self)@[update.para_id] == update,
            forall|other: u32|
                other != update.para_id ==> (#[trigger] final(self)@.contains_key(other)
                    == old(self)@.contains_key(other)) && (old(self)@.contains_key(other)
                    ==> final(self)@[other] == old(self)@[other]),
    {
        self.entries.insert(update.para_id, update);
    }

    /// The cached updates, one for each parachain that has one, in no particular order.
    pub fn updates(&self) -> (updates: Vec<&ConsumptionUpdate>)
        requires
            self.wf(),
        ensures
            lists_all(self@, updates@),
            updates@.len() == self@.dom().len(),
            forall|i: int|
                0 <= i < updates@.len() ==> {
                    &&& self@.contains_key((#[trigger] updates@[i]).para_id)
                    &&& *updates@[i] == self@[updates@[i].para_id]
                },
            forall|i: int, j: int|
                0 <= i < j < updates@.len() ==> (#[trigger] updates@[i]).para_id != (
                #[trigger] updates@[j]).para_id,
            forall|para_id: u32| #[trigger]
                self@.contains_key(para_id) ==> exists|i: int|
                    0 <= i < updates@.len() && (#[trigger] updates@[i]).para_id == para_id,
    {
        let mut updates: Vec<&ConsumptionUpdate> = Vec::new();
        let iter = self.entries.iter();
        let ghost pairs = vstd::std_specs::iter::IteratorSpec::remaining(&iter);
        for (_para_id, update) in entries: iter
            invariant
                entries.seq() == pairs,
                updates@.len() == entries.index(),
                forall|i: int| 0 <= i < updates@.len() ==> updates@[i] == pairs[i].1,
        {
            updates.push(update);
        }
        proof {
            assert forall|i: int| 0 <= i < updates@.len() implies {
                &&& *pairs[i].0 == (#[trigger] updates@[i]).para_id
                &&& self@.contains_key(*pairs[i].0)
                &&& *updates@[i] == self@[*pairs[i].0]
            } by {
                assert(self@.contains_key(*pairs[i].0));
            }
            assert forall|i: int, j: int| 0 <= i < j < updates@.len() implies (
            #[trigger] updates@[i]).para_id != (#[trigger] updates@[j]).para_id by {
                if updates@[i].para_id == updates@[j].para_id {
                    assert(pairs[i] == pairs[j]);
                }
            }
            assert forall|para_id: u32| #[trigger] self@.contains_key(para_id) implies exists|i: int|
                0 <= i < updates@.len() && (#[trigger] updates@[i]).para_id == para_id by {
                assert(pairs.contains((&para_id, &self@[para_id])));
                let i = choose|i: int|
                    0 <= i < pairs.len() && pairs[i] == (&para_id, &self@[para_id]);
                assert(updates@[i].para_id == para_id);
            }
        }
        updates
    }
}

/// The last block of a parachain once `blocks`, each a number and a timestamp, were noted one
/// after the other, starting from no block.
pub open spec fn noted_in_turn(blocks: Seq<(u32, u64)>) -> LastBlock
    decreases blocks.len(),
{
    if blocks.len() == 0 {
        no_block()
    } else {
        noted(noted_in_turn(blocks.drop_last()), blocks.last().0, blocks.last().1)
    }
}

/// The number and the timestamp that were noted just before the block at `i`.
pub open spec fn noted_before(blocks: Seq<(u32, u64)>, i: int) -> (u32, u64) {
    if i == 0 {
        (no_block().block_number, no_block().timestamp)
    } else {
        blocks[i - 1]
    }
}

/// Whether the block at `i` follows the block that was noted just before it.
pub open spec fn in_sequence(blocks: Seq<(u32, u64)>, i: int) -> bool {
    noted_before(blocks, i).0 + 1 == blocks[i].0
}

/// The block time of a parachain is the time that the latest block in sequence took, however
/// many blocks out of sequence came after it; it is unknown only while no block was in
/// sequence.
pub proof fn lemma_block_time_of_latest_in_sequence(blocks: Seq<(u32, u64)>)
    requires
        forall|i: int|
            0 <= i < blocks.len() && #[trigger] in_sequence(blocks, i) ==> noted_before(blocks, i).1
                <= blocks[i].1,
    ensures
        noted_in_turn(blocks).block_time_ms is None <==> forall|i: int|
            0 <= i < blocks.len() ==> !#[trigger] in_sequence(blocks, i),
        forall|i: int|
            #![trigger in_sequence(blocks, i)]
            0 <= i < blocks.len() && in_sequence(blocks, i) && (forall|j: int|
                i < j < blocks.len() ==> !#[trigger] in_sequence(blocks, j))
                ==> noted_in_turn(blocks).block_time_ms == Some(
                (blocks[i].1 - noted_before(blocks, i).1) as u64,
            ),
    decreases blocks.len(),
{
    if blocks.len() > 0 {
        let earlier = blocks.drop_last();
        let last = blocks.len() - 1;
        assert forall|i: int| 0 <= i < earlier.len() implies #[trigger] in_sequence(earlier, i)
            == in_sequence(blocks, i) && noted_before(earlier, i) == noted_before(blocks, i) by {}
        lemma_block_time_of_latest_in_sequence(earlier);
        lemma_last_is_noted(earlier);
        assert(noted_before(blocks, last) == (
            noted_in_turn(earlier).block_number,
            noted_in_turn(earlier).timestamp,
        ));
        assert(in_sequence(blocks, last) == follows(noted_in_turn(earlier), blocks[last].0));
        if in_sequence(blocks, last) {
            assert(noted_in_turn(blocks).block_time_ms is Some);
        } else {
            assert forall|i: int|
                #![trigger in_sequence(blocks, i)]
                0 <= i < blocks.len() && in_sequence(blocks, i) && (forall|j: int|
                    i < j < blocks.len() ==> !#[trigger] in_sequence(blocks, j)) implies noted_in_turn(
                blocks,
            ).block_time_ms == Some((blocks[i].1 - noted_before(blocks, i).1) as u64) by {
                assert(in_sequence(earlier, i));
                assert forall|j: int| i < j < earlier.len() implies !#[trigger] in_sequence(
                    earlier,
                    j,
                ) by {
                    assert(!in_sequence(blocks, j));
                }
            }
            if noted_in_turn(earlier).block_time_ms is Some {
                let i = choose|i: int| 0 <= i < earlier.len() && in_sequence(earlier, i);
                assert(in_sequence(blocks, i));
            } else {
                assert forall|i: int| 0 <= i < blocks.len() implies !#[trigger] in_sequence(
                    blocks,
                    i,
                ) by {
                    if i < last {
                        assert(!in_sequence(earlier, i));
                    }
                }
            }
        }
    }
}

proof fn lemma_last_is_noted(blocks: Seq<(u32, u64)>)
    ensures
        blocks.len() == 0 ==> noted_in_turn(blocks) == no_block(),
        blocks.len() > 0 ==> noted_in_turn(blocks).block_number == blocks.last().0,
        blocks.len() > 0 ==> noted_in_turn(blocks).timestamp == blocks.last().1,
{
}

/// The cached updates once `updates` were stored one after the other into `cached`.
pub open spec fn stored_after(
    cached: Map<u32, ConsumptionUpdate>,
    updates: Seq<ConsumptionUpdate>,
) -> Map<u32, ConsumptionUpdate>
    decreases updates.len(),
{
    if updates.len() == 0 {
        cached
    } else {
        stored_after(cached, updates.drop_last()).insert(updates.last().para_id, updates.last())
    }
}

/// The cached updates once `updates` were stored one after the other, starting from none.
pub open spec fn stored_in_turn(updates: Seq<ConsumptionUpdate>) -> Map<u32, ConsumptionUpdate> {
    stored_after(Map::empty(), updates)
}

/// Storing updates of other parachains leaves what is cached of a parachain as it was.
pub proof fn lemma_others_leave_entry(
    cached: Map<u32, ConsumptionUpdate>,
    updates: Seq<ConsumptionUpdate>,
    para_id: u32,
)
    requires
        forall|i: int| 0 <= i < updates.len() ==> (#[trigger] updates[i]).para_id != para_id,
    ensures
        stored_after(cached, updates).contains_key(para_id) == cached.contains_key(para_id),
        stored_after(cached, updates)[para_id] == cached[para_id],
    decreases updates.len(),
{
    if updates.len() > 0 {
        assert(updates[updates.len() - 1].para_id != para_id);
        lemma_others_leave_entry(cached, updates.drop_last(), para_id);
    }
}

/// The cache holds the latest update of every parachain that ever had one: an update stays
/// until one of the same parachain is stored after it.
pub proof fn lemma_cache_holds_latest(updates: Seq<ConsumptionUpdate>, i: int)
    requires
        0 <= i < updates.len(),
        forall|j: int| i < j < updates.len() ==> (#[trigger] updates[j]).para_id != updates[i].para_id,
    ensures
        stored_in_turn(updates).contains_key(updates[i].para_id),
        stored_in_turn(updates)[updates[i].para_id] == updates[i],
    decreases updates.len(),
{
    if i < updates.len() - 1 {
        assert(updates[updates.len() - 1].para_id != updates[i].para_id);
        lemma_cache_holds_latest(updates.drop_last(), i);
    }
}

/// The cache holds nothing that was not stored.
pub proof fn lemma_cache_holds_stored(updates: Seq<ConsumptionUpdate>, para_id: u32)
    requires
        stored_in_turn(updates).contains_key(para_id),
    ensures
        stored_in_turn(updates)[para_id].para_id == para_id,
        updates.contains(stored_in_turn(updates)[para_id]),
    decreases updates.len(),
{
    if updates.last().para_id == para_id {
        assert(updates[updates.len() - 1] == stored_in_turn(updates)[para_id]);
    } else {
        let earlier = updates.drop_last();
        lemma_cache_holds_stored(earlier, para_id);
        let i = choose|i: int| 0 <= i < earlier.len() && earlier[i] == stored_in_turn(earlier)[para_id];
        assert(updates[i] == stored_in_turn(updates)[para_id]);
    }
}

/// Whether the two caches are in step: they know the same parachains, and the last block of each
/// is the one that its cached update tells of.
pub open spec fn in_step(
    timestamps: Map<u32, LastBlock>,
    updates: Map<u32, ConsumptionUpdate>,
) -> bool {
    &&& timestamps.dom() == updates.dom()
    &&& forall|para_id: u32| #[trigger]
        updates.contains_key(para_id) ==> {
            &&& updates[para_id].para_id == para_id
            &&& timestamps[para_id].block_number == updates[para_id].block_number
            &&& timestamps[para_id].timestamp == updates[para_id].timestamp
            &&& timestamps[para_id].block_time_ms == updates[para_id].block_time_ms
        }
}

/// The two caches stay in step: a block that is noted and whose update is then stored keeps them
/// so.
pub proof fn lemma_caches_stay_in_step(
    timestamps: Map<u32, LastBlock>,
    updates: Map<u32, ConsumptionUpdate>,
    para: Parachain,
    block: BlockFacts,
    consumption: ConsumptionReport,
    update: ConsumptionUpdate,
)
    requires
        in_step(timestamps, updates),
        tells_of(
            update,
            para,
            block,
            consumption,
            noted(last_block_of(timestamps, para.para_id), block.block_number, block.timestamp),
        ),
    ensures
        in_step(
            timestamps.insert(
                para.para_id,
                noted(last_block_of(timestamps, para.para_id), block.block_number, block.timestamp),
            ),
            updates.insert(update.para_id, update),
        ),
{
    let last = noted(
        last_block_of(timestamps, para.para_id),
        block.block_number,
        block.timestamp,
    );
    let noted_blocks = timestamps.insert(para.para_id, last);
    let stored = updates.insert(update.para_id, update);
    assert(noted_blocks.dom() =~= stored.dom());
    assert forall|para_id: u32| #[trigger] stored.contains_key(para_id) implies {
        &&& stored[para_id].para_id == para_id
        &&& noted_blocks[para_id].block_number == stored[para_id].block_number
        &&& noted_blocks[para_id].timestamp == stored[para_id].timestamp
        &&& noted_blocks[para_id].block_time_ms == stored[para_id].block_time_ms
    } by {
        if para_id != para.para_id {
            assert(updates.contains_key(para_id));
        }
    }
}

/// The two caches stay in step through every new block, whether or not it could be noted, where
/// the update that tells of it is stored.
pub proof fn lemma_every_block_keeps_in_step(
    timestamps: Map<u32, LastBlock>,
    updates: Map<u32, ConsumptionUpdate>,
    para: Parachain,
    block: BlockFacts,
    consumption: ConsumptionReport,
    timestamps_after: Map<u32, LastBlock>,
    told: Option<ConsumptionUpdate>,
)
    requires
        in_step(timestamps, updates),
        note_outcome(timestamps, para, block, consumption, timestamps_after, told),
    ensures
        in_step(
            timestamps_after,
            match told {
                Some(update) => updates.insert(update.para_id, update),
                None => updates,
            },
        ),
{
    if let Some(update) = told {
        lemma_caches_stay_in_step(timestamps, updates, para, block, consumption, update);
    }
}

/// What is known once a block of a parachain was noted, where `known` was before.
pub open spec fn after_note(
    known: Map<u32, LastBlock>,
    para_id: u32,
    block_number: u32,
    timestamp: u64,
) -> Map<u32, LastBlock> {
    known.insert(para_id, noted(last_block_of(known, para_id), block_number, timestamp))
}

/// A block that was noted is read back as it was: its number and its timestamp, whatever they
/// are, until another block of its parachain is noted. What is read of other parachains does not
/// change.
pub proof fn lemma_note_reads_back(
    known: Map<u32, LastBlock>,
    para_id: u32,
    block_number: u32,
    timestamp: u64,
    other: u32,
)
    ensures
        ({
            let after = after_note(known, para_id, block_number, timestamp);
            &&& last_block_of(after, para_id).block_number == block_number
            &&& last_block_of(after, para_id).timestamp == timestamp
            &&& other != para_id ==> last_block_of(after, other) == last_block_of(known, other)
        }),
{
}

/// Where two blocks that follow each other are noted one after the other, the block time is the
/// time between them, whatever was known before and however large the timestamps are.
pub proof fn lemma_following_notes(
    known: Map<u32, LastBlock>,
    para_id: u32,
    block_number: u32,
    first: u64,
    second: u64,
)
    requires
        block_number < u32::MAX,
        first <= second,
    ensures
        ({
            let once = after_note(known, para_id, block_number, first);
            let twice = after_note(once, para_id, (block_number + 1) as u32, second);
            &&& can_follow(last_block_of(once, para_id), (block_number + 1) as u32, second)
            &&& last_block_of(twice, para_id).block_time_ms matches Some(ms)
            &&& first + ms == second
        }),
{
}

/// Where a block that does not follow is noted after another one, the block time stays what it
/// was after the first, whatever the timestamps are.
pub proof fn lemma_notes_over_a_gap(
    known: Map<u32, LastBlock>,
    para_id: u32,
    block_number: u32,
    first: u64,
    later_number: u32,
    second: u64,
)
    requires
        block_number < u32::MAX,
        later_number != block_number + 1,
    ensures
        ({
            let once = after_note(known, para_id, block_number, first);
            let twice = after_note(once, para_id, later_number, second);
            &&& can_follow(last_block_of(once, para_id), later_number, second)
            &&& last_block_of(twice, para_id).block_time_ms == last_block_of(
                once,
                para_id,
            ).block_time_ms
        }),
{
}

/// The first block that is noted of a parachain has no block time, unless it is block 1, which
/// follows a block 0 at time 0. It can always be noted.
pub proof fn lemma_first_note(
    known: Map<u32, LastBlock>,
    para_id: u32,
    block_number: u32,
    timestamp: u64,
)
    requires
        !known.contains_key(para_id),
    ensures
        can_follow(last_block_of(known, para_id), block_number, timestamp),
        last_block_of(
            after_note(known, para_id, block_number, timestamp),
            para_id,
        ).block_time_ms == if block_number == 1 {
            Some(timestamp)
        } else {
            None
        },
{
}

/// The only blocks that cannot be noted are those after the last block number, and those that
/// follow a block with a later timestamp.
pub proof fn lemma_what_cannot_follow(last: LastBlock, block_number: u32, timestamp: u64)
    ensures
        !can_follow(last, block_number, timestamp) <==> {
            ||| last.block_number == u32::MAX
            ||| block_number - last.block_number == 1 && timestamp < last.timestamp
        },
{
}

/// What is known once `notes`, each a parachain, a block number and a timestamp, were made one
/// after the other, starting from nothing.
pub open spec fn known_after(notes: Seq<(u32, u32, u64)>) -> Map<u32, LastBlock>
    decreases notes.len(),
{
    if notes.len() == 0 {
        Map::empty()
    } else {
        after_note(known_after(notes.drop_last()), notes.last().0, notes.last().1, notes.last().2)
    }
}

/// The blocks of one parachain among `notes`, in order.
pub open spec fn blocks_of(notes: Seq<(u32, u32, u64)>, para_id: u32) -> Seq<(u32, u64)>
    decreases notes.len(),
{
    if notes.len() == 0 {
        Seq::empty()
    } else {
        let earlier = blocks_of(notes.drop_last(), para_id);
        if notes.last().0 == para_id {
            earlier.push((notes.last().1, notes.last().2))
        } else {
            earlier
        }
    }
}

/// After any run of notes, whatever parachains they are about and however they are mixed, what
/// is known of a parachain is what its own blocks alone make it.
pub proof fn lemma_run_of_notes(notes: Seq<(u32, u32, u64)>, para_id: u32)
    ensures
        last_block_of(known_after(notes), para_id) == noted_in_turn(blocks_of(notes, para_id)),
        blocks_of(notes, para_id).len() > 0 ==> {
            let latest = blocks_of(notes, para_id).last();
            &&& last_block_of(known_after(notes), para_id).block_number == latest.0
            &&& last_block_of(known_after(notes), para_id).timestamp == latest.1
        },
    decreases notes.len(),
{
    if notes.len() > 0 {
        let earlier = notes.drop_last();
        lemma_run_of_notes(earlier, para_id);
        if notes.last().0 == para_id {
            assert(blocks_of(notes, para_id).drop_last() =~= blocks_of(earlier, para_id));
        }
    }
}

/// An update tells of its own block and of nothing else: of the parachain, the numbers and the
/// timestamp that were read, and for each dispatch class of the weight that the node gave for
/// that class and of the limit that it gave.
pub proof fn lemma_update_tells_what_node_gave(
    update: ConsumptionUpdate,
    para: Parachain,
    block: BlockFacts,
    weight: crate::weights::BlockWeight,
    limit: crate::weights::Weight,
    last: LastBlock,
)
    requires
        weight.normal.proof_size + weight.operational.proof_size + weight.mandatory.proof_size
            <= u64::MAX,
        tells_of(
            update,
            para,
            block,
            crate::weights::report_of(weight, limit, block.block_number),
            last,
        ),
    ensures
        update.para_id == para.para_id,
        update.relay@ == para.relay_chain@,
        update.block_number == block.block_number,
        update.extrinsics_num == block.extrinsics_num,
        update.authorities_num == block.authorities_num,
        update.timestamp == block.timestamp,
        update.block_time_ms == last.block_time_ms,
        update.ref_time.normal.consumed == weight.normal.ref_time,
        update.ref_time.operational.consumed == weight.operational.ref_time,
        update.ref_time.mandatory.consumed == weight.mandatory.ref_time,
        update.ref_time.normal.limit == limit.ref_time,
        update.ref_time.operational.limit == limit.ref_time,
        update.ref_time.mandatory.limit == limit.ref_time,
        update.proof_size.normal.consumed == weight.normal.proof_size,
        update.proof_size.operational.consumed == weight.operational.proof_size,
        update.proof_size.mandatory.consumed == weight.mandatory.proof_size,
        update.proof_size.normal.limit == limit.proof_size,
        update.proof_size.operational.limit == limit.proof_size,
        update.proof_size.mandatory.limit == limit.proof_size,
        update.total_proof_size.consumed == weight.normal.proof_size
            + weight.operational.proof_size + weight.mandatory.proof_size,
        update.total_proof_size.limit == limit.proof_size,
{
}

/// Every block can be told apart by its update: where two blocks of one parachain have updates
/// that agree in everything, they consumed the same, class by class, and were the same in all
/// that was read of them.
pub proof fn lemma_updates_tell_blocks_apart(
    update: ConsumptionUpdate,
    para: Parachain,
    block_a: BlockFacts,
    block_b: BlockFacts,
    report_a: ConsumptionReport,
    report_b: ConsumptionReport,
    last_a: LastBlock,
    last_b: LastBlock,
)
    requires
        tells_of(update, para, block_a, report_a, last_a),
        tells_of(update, para, block_b, report_b, last_b),
    ensures
        block_a == block_b,
        report_a.ref_time == report_b.ref_time,
        report_a.proof_size == report_b.proof_size,
        report_a.total_proof_size == report_b.total_proof_size,
        last_a.block_time_ms == last_b.block_time_ms,
{
}

/// What was stored for a parachain is what is listed for it, and it is listed once.
pub proof fn lemma_stored_is_listed(
    cached: Map<u32, ConsumptionUpdate>,
    update: ConsumptionUpdate,
    updates: Seq<&ConsumptionUpdate>,
)
    requires
        lists_all(cached.insert(update.para_id, update), updates),
    ensures
        exists|i: int|
            0 <= i < updates.len() && *(#[trigger] updates[i]) == update && forall|j: int|
                0 <= j < updates.len() && j != i ==> (#[trigger] updates[j]).para_id
                    != update.para_id,
{
    let stored = cached.insert(update.para_id, update);
    assert(stored.contains_key(update.para_id));
    let i = choose|i: int|
        0 <= i < updates.len() && (#[trigger] updates[i]).para_id == update.para_id;
    assert(*updates[i] == update);
    assert forall|j: int| 0 <= j < updates.len() && j != i implies (#[trigger] updates[j]).para_id
        != update.para_id by {
        if j < i {
            assert(updates[j].para_id != updates[i].para_id);
        } else {
            assert(updates[i].para_id != updates[j].para_id);
        }
    }
}

} // verus!
