//! Why the pool refuses an operation.

use vstd::prelude::*;

verus! {

/// Why the pool refused an operation.
#[derive(Clone, Copy, Debug, PartialEq, Eq, Structural)]
pub enum PoolError {
    /// The operation needs a round in progress and there is none.
    RoundNotActive,
    /// A round was started while another was in progress.
    AlreadyActive,
    /// The ledger holds no entry for the worker.
    UnknownWorker,
    /// The worker is not registered, or not active, in this round.
    WorkerNotActive,
    /// A hashrate of zero was declared.
    InvalidCapacity,
    /// A round was started on an empty payload.
    InvalidPayload,
}

impl PoolError {
    /// The refusal in words.
    pub open spec fn text(self) -> Seq<char> {
        match self {
            PoolError::RoundNotActive => "Mining not active"@,
            PoolError::AlreadyActive => "Mining already in progress"@,
            PoolError::UnknownWorker => "Unknown miner"@,
            PoolError::WorkerNotActive => "Miner not active"@,
            PoolError::InvalidCapacity => "Invalid hashrate"@,
            PoolError::InvalidPayload => "Empty block data"@,
        }
    }

    /// The refusal in words.
    pub fn message(&self) -> (text: &'static str)
        ensures
            text@ == self.text(),
    {
        match self {
            PoolError::RoundNotActive => "Mining not active",
            PoolError::AlreadyActive => "Mining already in progress",
            PoolError::UnknownWorker => "Unknown miner",
            PoolError::WorkerNotActive => "Miner not active",
            PoolError::InvalidCapacity => "Invalid hashrate",
            PoolError::InvalidPayload => "Empty block data",
        }
    }
}

} // verus!
