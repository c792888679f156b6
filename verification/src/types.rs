//! What is known of a parachain and of the weight that its blocks consume.

use vstd::prelude::*;

verus! {

/// The share of a limit that was consumed: the fraction `consumed / limit`.
#[derive(Clone, Copy, Debug, PartialEq, Eq, Structural)]
pub struct Share {
    pub consumed: u64,
    pub limit: u64,
}

/// The execution time that each dispatch class consumed.
#[derive(Clone, Copy, Debug, PartialEq, Eq, Structural)]
pub struct RefTime {
    pub normal: Share,
    pub operational: Share,
    pub mandatory: Share,
}

/// The proof size that each dispatch class consumed.
#[derive(Clone, Copy, Debug, PartialEq, Eq, Structural)]
pub struct ProofSize {
    pub normal: Share,
    pub operational: Share,
    pub mandatory: Share,
}

/// The weight that one block consumed, per dispatch class in the order normal, operational,
/// mandatory.
#[derive(Clone, Copy, Debug)]
pub struct WeightConsumption {
    pub block_number: u32,
    pub ref_time: (Share, Share, Share),
    pub proof_size: (Share, Share, Share),
}

/// What websocket clients are told of a block.
#[derive(Clone, Copy, Debug, PartialEq, Eq, Structural)]
pub struct ConsumptionUpdate {
    pub para_id: u32,
    pub ref_time: RefTime,
    pub proof_size: ProofSize,
}

/// A parachain that is tracked, and the nodes that can be asked about it.
#[derive(Debug)]
pub struct Parachain {
    pub para_id: u32,
    pub relay_chain: String,
    pub rpcs: Vec<String>,
}

impl Parachain {
    /// The node at `index`, where the parachain has one.
    pub fn rpc(&self, index: usize) -> (rpc: Option<&String>)
        ensures
            rpc is Some <==> index < self.rpcs@.len(),
            rpc matches Some(url) ==> *url == self.rpcs@[index as int],
    {
        if index < self.rpcs.len() {
            Some(&self.rpcs[index])
        } else {
            None
        }
    }
}

} // verus!
