//! What an execution is told about the block that it belongs to.

use vstd::prelude::*;
use crate::felt::ContractAddress;

verus! {

/// The name of the chain.
#[derive(Clone, Debug, PartialEq, Eq)]
pub struct ChainId(pub String);

/// The height of a block.
#[derive(Clone, Copy, Debug, PartialEq, Eq, Structural)]
pub struct BlockNumber(pub u64);

/// The time of a block, in seconds.
#[derive(Clone, Copy, Debug, PartialEq, Eq, Structural)]
pub struct BlockTimestamp(pub u64);

/// The phase that an invocation belongs to. Each has a step ceiling of its
/// own.
#[derive(Clone, Copy, Debug, PartialEq, Eq, Structural)]
pub enum ExecutionMode {
    /// The invocation that a transaction asks for.
    Execute,
    /// The invocation by which an account validates a transaction.
    Validate,
}

/// The block as an execution sees it. Of all its fields only the two step
/// ceilings bear on how an invocation runs; the others are passed on to fee
/// logic, which also keeps the cost of each resource.
#[derive(Clone, Debug)]
pub struct BlockContext {
    pub chain_id: ChainId,
    pub block_number: BlockNumber,
    pub block_timestamp: BlockTimestamp,
    pub sequencer_address: ContractAddress,
    pub fee_token_address: ContractAddress,
    /// In wei.
    pub gas_price: u128,
    pub invoke_tx_max_n_steps: u32,
    pub validate_max_n_steps: u32,
}

impl BlockContext {
    /// The step ceiling of an invocation in the given phase.
    pub open spec fn ceiling(self, mode: ExecutionMode) -> u32 {
        match mode {
            ExecutionMode::Execute => self.invoke_tx_max_n_steps,
            ExecutionMode::Validate => self.validate_max_n_steps,
        }
    }

    /// The step ceiling of an invocation in the given phase.
    pub fn max_steps(&self, mode: ExecutionMode) -> (r: u32)
        ensures
            r == self.ceiling(mode),
    {
        match mode {
            ExecutionMode::Execute => self.invoke_tx_max_n_steps,
            ExecutionMode::Validate => self.validate_max_n_steps,
        }
    }
}

} // verus!
