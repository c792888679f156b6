//! The shares of a chain's limits that a block consumed.

use crate::query::{require, MissingValue, QueryError};
use crate::types::{ProofSize, RefTime, Share};
use vstd::prelude::*;

verus! {

/// A weight: execution time and proof size.
#[derive(Clone, Copy, Debug, PartialEq, Eq, Structural)]
pub struct Weight {
    pub ref_time: u64,
    pub proof_size: u64,
}

/// The weight that a block consumed, per dispatch class.
#[derive(Clone, Copy, Debug, PartialEq, Eq, Structural)]
pub struct BlockWeight {
    pub normal: Weight,
    pub operational: Weight,
    pub mandatory: Weight,
}

impl BlockWeight {
    /// The proof size of all dispatch classes together.
    pub open spec fn total_proof_size(self) -> nat {
        (self.normal.proof_size + self.operational.proof_size + self.mandatory.proof_size) as nat
    }
}

/// The shares of the limits that a block consumed, per dispatch class, and for the proof size
/// also in total.
#[derive(Clone, Copy, Debug, PartialEq, Eq, Structural)]
pub struct ConsumptionReport {
    pub block_number: u32,
    pub ref_time: RefTime,
    pub proof_size: ProofSize,
    pub total_proof_size: Share,
}

/// The shares of `limit` that the execution times of a block are.
pub open spec fn ref_time_shares(consumed: BlockWeight, limit: Weight) -> RefTime {
    RefTime {
        normal: Share { consumed: consumed.normal.ref_time, limit: limit.ref_time },
        operational: Share { consumed: consumed.operational.ref_time, limit: limit.ref_time },
        mandatory: Share { consumed: consumed.mandatory.ref_time, limit: limit.ref_time },
    }
}

/// The shares of `limit` that the proof sizes of a block are.
pub open spec fn proof_size_shares(consumed: BlockWeight, limit: Weight) -> ProofSize {
    ProofSize {
        normal: Share { consumed: consumed.normal.proof_size, limit: limit.proof_size },
        operational: Share { consumed: consumed.operational.proof_size, limit: limit.proof_size },
        mandatory: Share { consumed: consumed.mandatory.proof_size, limit: limit.proof_size },
    }
}

/// The report on a block that consumed `weight` on a chain whose blocks may consume `limit`.
pub open spec fn report_of(
    weight: BlockWeight,
    limit: Weight,
    block_number: u32,
) -> ConsumptionReport {
    ConsumptionReport {
        block_number,
        ref_time: ref_time_shares(weight, limit),
        proof_size: proof_size_shares(weight, limit),
        total_proof_size: Share {
            consumed: weight.total_proof_size() as u64,
            limit: limit.proof_size,
        },
    }
}

/// Splits the execution times of a block into shares of the chain's limit.
pub fn ref_time_of(consumed: &BlockWeight, limit: &Weight) -> (shares: RefTime)
    ensures
        shares == ref_time_shares(*consumed, *limit),
        shares.normal.consumed == consumed.normal.ref_time,
        shares.operational.consumed == consumed.operational.ref_time,
        shares.mandatory.consumed == consumed.mandatory.ref_time,
        shares.normal.limit == limit.ref_time,
        shares.operational.limit == limit.ref_time,
        shares.mandatory.limit == limit.ref_time,
{
    RefTime {
        normal: Share { consumed: consumed.normal.ref_time, limit: limit.ref_time },
        operational: Share { consumed: consumed.operational.ref_time, limit: limit.ref_time },
        mandatory: Share { consumed: consumed.mandatory.ref_time, limit: limit.ref_time },
    }
}

/// Splits the proof sizes of a block into shares of the chain's limit.
pub fn proof_size_of(consumed: &BlockWeight, limit: &Weight) -> (shares: ProofSize)
    ensures
        shares == proof_size_shares(*consumed, *limit),
        shares.normal.consumed == consumed.normal.proof_size,
        shares.operational.consumed == consumed.operational.proof_size,
        shares.mandatory.consumed == consumed.mandatory.proof_size,
        shares.normal.limit == limit.proof_size,
        shares.operational.limit == limit.proof_size,
        shares.mandatory.limit == limit.proof_size,
{
    ProofSize {
        normal: Share { consumed: consumed.normal.proof_size, limit: limit.proof_size },
        operational: Share { consumed: consumed.operational.proof_size, limit: limit.proof_size },
        mandatory: Share { consumed: consumed.mandatory.proof_size, limit: limit.proof_size },
    }
}

/// What a block consumed of its chain's limits, out of what its node answered when asked for
/// the consumed weight and for the largest weight of a block. A consumed weight that could not
/// be had is reported before a limit that could not be had.
pub fn weight_consumption<E>(
    consumed: Result<Option<BlockWeight>, E>,
    max_block: Result<Weight, E>,
    block_number: u32,
) -> (report: Result<ConsumptionReport, QueryError<E>>)
    requires
        (crate::query::found(consumed, MissingValue::Consumption), max_block) matches (Ok(weight), Ok(_))
            ==> weight.total_proof_size() <= u64::MAX,
    ensures
        match (crate::query::found(consumed, MissingValue::Consumption), max_block) {
            (Err(error), _) => report == Err::<ConsumptionReport, _>(error),
            (Ok(_), Err(error)) => report == Err::<ConsumptionReport, _>(QueryError::Failed(error)),
            (Ok(weight), Ok(limit)) => report == Ok::<_, QueryError<E>>(
                report_of(weight, limit, block_number),
            ),
        },
        consumed matches Err(error) ==> report == Err::<ConsumptionReport, _>(
            QueryError::Failed(error),
        ),
        consumed matches Ok(None) ==> report == Err::<ConsumptionReport, _>(
            QueryError::<E>::Missing(MissingValue::Consumption),
        ),
        consumed matches Ok(Some(_)) ==> (max_block matches Err(error) ==> report == Err::<
            ConsumptionReport,
            _,
        >(QueryError::Failed(error))),
        consumed matches Ok(Some(weight)) ==> (max_block matches Ok(limit) ==> {
            &&& report matches Ok(shares)
            &&& shares.block_number == block_number
            &&& shares.ref_time.normal == (Share {
                consumed: weight.normal.ref_time,
                limit: limit.ref_time,
            })
            &&& shares.ref_time.operational == (Share {
                consumed: weight.operational.ref_time,
                limit: limit.ref_time,
            })
            &&& shares.ref_time.mandatory == (Share {
                consumed: weight.mandatory.ref_time,
                limit: limit.ref_time,
            })
            &&& shares.proof_size.normal == (Share {
                consumed: weight.normal.proof_size,
                limit: limit.proof_size,
            })
            &&& shares.proof_size.operational == (Share {
                consumed: weight.operational.proof_size,
                limit: limit.proof_size,
            })
            &&& shares.proof_size.mandatory == (Share {
                consumed: weight.mandatory.proof_size,
                limit: limit.proof_size,
            })
            &&& shares.total_proof_size.consumed == weight.normal.proof_size
                + weight.operational.proof_size + weight.mandatory.proof_size
            &&& shares.total_proof_size.limit == limit.proof_size
        }),
{
    let weight = match require(consumed, MissingValue::Consumption) {
        Ok(weight) => weight,
        Err(error) => {
            return Err(error);
        },
    };
    let limit = match max_block {
        Ok(limit) => limit,
        Err(error) => {
            return Err(QueryError::Failed(error));
        },
    };
    let total: u64 = weight.normal.proof_size + weight.operational.proof_size
        + weight.mandatory.proof_size;
    Ok(
        ConsumptionReport {
            block_number,
            ref_time: ref_time_of(&weight, &limit),
            proof_size: proof_size_of(&weight, &limit),
            total_proof_size: Share { consumed: total, limit: limit.proof_size },
        },
    )
}

/// A report is a lossless account of what the node told: from it the weight of each dispatch
/// class and the limit are read back exactly as they were, each in its own place, and so is the
/// block number.
pub proof fn lemma_report_reads_back(weight: BlockWeight, limit: Weight, block_number: u32)
    ensures
        ({
            let report = report_of(weight, limit, block_number);
            let read_back = BlockWeight {
                normal: Weight {
                    ref_time: report.ref_time.normal.consumed,
                    proof_size: report.proof_size.normal.consumed,
                },
                operational: Weight {
                    ref_time: report.ref_time.operational.consumed,
                    proof_size: report.proof_size.operational.consumed,
                },
                mandatory: Weight {
                    ref_time: report.ref_time.mandatory.consumed,
                    proof_size: report.proof_size.mandatory.consumed,
                },
            };
            &&& read_back == weight
            &&& report.block_number == block_number
            &&& report.ref_time.normal.limit == limit.ref_time
            &&& report.ref_time.operational.limit == limit.ref_time
            &&& report.ref_time.mandatory.limit == limit.ref_time
            &&& report.proof_size.normal.limit == limit.proof_size
            &&& report.proof_size.operational.limit == limit.proof_size
            &&& report.proof_size.mandatory.limit == limit.proof_size
            &&& report.total_proof_size.limit == limit.proof_size
        }),
{
}

/// Two blocks that are reported alike on chains with the same limit consumed alike: no
/// difference between two weights, in whichever class and however large, is lost in a report.
pub proof fn lemma_reports_tell_weights_apart(a: BlockWeight, b: BlockWeight, limit: Weight)
    requires
        ref_time_shares(a, limit) == ref_time_shares(b, limit),
        proof_size_shares(a, limit) == proof_size_shares(b, limit),
    ensures
        a == b,
{
}

/// The total of a block is the weights of its classes added up, as the node gave them.
pub proof fn lemma_total_of_weights(weight: BlockWeight, limit: Weight, block_number: u32)
    requires
        weight.normal.proof_size + weight.operational.proof_size + weight.mandatory.proof_size
            <= u64::MAX,
    ensures
        weight.total_proof_size() == weight.normal.proof_size + weight.operational.proof_size
            + weight.mandatory.proof_size,
        report_of(weight, limit, block_number).total_proof_size.consumed
            == weight.normal.proof_size + weight.operational.proof_size
            + weight.mandatory.proof_size,
{
}

/// The total share of the proof size is the shares of the dispatch classes taken together: they
/// are shares of the same limit, and what they consumed adds up.
pub proof fn lemma_total_is_sum(weight: BlockWeight, limit: Weight, block_number: u32)
    requires
        weight.total_proof_size() <= u64::MAX,
    ensures
        ({
            let report = report_of(weight, limit, block_number);
            let classes = report.proof_size;
            &&& report.total_proof_size.consumed == classes.normal.consumed
                + classes.operational.consumed + classes.mandatory.consumed
            &&& report.total_proof_size.limit == classes.normal.limit
            &&& report.total_proof_size.limit == classes.operational.limit
            &&& report.total_proof_size.limit == classes.mandatory.limit
        }),
{
}

} // verus!
