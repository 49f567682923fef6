use vstd::prelude::*;
use crate::vault::Coin;

verus! {

/// The outcome of one attempted tranche.
#[derive(Debug, Clone, Copy, PartialEq, Eq, Structural)]
pub enum ExecutionResult {
    Success,
    /// The venue rejected the swap for exceeding the slippage tolerance; the
    /// tranche consumed its slot without moving funds.
    SlippageToleranceExceeded,
}

/// The amounts moved by a successful tranche.
#[derive(Debug, PartialEq)]
pub struct ExecutionInformation {
    pub sent: Coin,
    pub received: Coin,
}

impl Clone for ExecutionInformation {
    fn clone(&self) -> (r: ExecutionInformation)
        ensures
            r == *self,
    {
        ExecutionInformation { sent: self.sent.clone(), received: self.received.clone() }
    }
}

/// An immutable record of one attempted tranche of a vault.
#[derive(Debug, PartialEq)]
pub struct Execution {
    pub vault_id: u64,
    pub block_height: u64,
    /// Per-vault sequence number, contiguous from one.
    pub sequence_number: u64,
    pub execution_result: ExecutionResult,
    /// Present exactly for successful executions.
    pub execution_information: Option<ExecutionInformation>,
}

impl Clone for Execution {
    fn clone(&self) -> (r: Execution)
        ensures
            r == *self,
    {
        Execution {
            vault_id: self.vault_id,
            block_height: self.block_height,
            sequence_number: self.sequence_number,
            execution_result: self.execution_result,
            execution_information: match &self.execution_information {
                Some(info) => Some(info.clone()),
                None => None,
            },
        }
    }
}

/// The amount a successful execution sent to the venue; skipped executions
/// sent nothing.
pub open spec fn spec_sent_amount(e: Execution) -> int {
    match e.execution_information {
        Some(info) => info.sent.amount as int,
        None => 0,
    }
}

/// The total amount the recorded executions sent to the venue.
pub open spec fn spec_total_sent(execs: Seq<Execution>) -> int
    decreases execs.len(),
{
    if execs.len() == 0 {
        0
    } else {
        spec_total_sent(execs.drop_last()) + spec_sent_amount(execs.last())
    }
}

/// Appending a record adds exactly its sent amount to the total.
pub proof fn lemma_total_sent_push(execs: Seq<Execution>, e: Execution)
    ensures
        spec_total_sent(execs.push(e)) == spec_total_sent(execs) + spec_sent_amount(e),
{
    assert(execs.push(e).drop_last() =~= execs);
    assert(execs.push(e).last() == e);
}

} // verus!
