use vstd::prelude::*;
use crate::vault::Coin;

verus! {

/// The height and time of the host block an invocation runs in.
#[derive(Debug, Clone, Copy, PartialEq, Eq, Structural)]
pub struct BlockInfo {
    pub height: u64,
    pub time: u64,
}

/// What a ledger event records.
#[derive(Debug, PartialEq)]
pub enum EventData {
    DcaVaultCreated {},
    DcaVaultFundsDeposited { amount: Coin },
    DcaVaultExecutionCompleted { sent: Coin, received: Coin },
    DcaVaultExecutionSkipped { reason: ExecutionSkippedReason },
    DcaVaultCancelled {},
    DcaVaultEscrowDisbursed { amount_disbursed: Coin, amount_remitted: Coin },
}

/// Why an execution consumed its slot without swapping.
#[derive(Debug, Clone, Copy, PartialEq, Eq, Structural)]
pub enum ExecutionSkippedReason {
    SlippageToleranceExceeded,
}

impl Clone for EventData {
    fn clone(&self) -> (r: EventData)
        ensures
            r == *self,
    {
        match self {
            EventData::DcaVaultCreated {} => EventData::DcaVaultCreated {},
            EventData::DcaVaultFundsDeposited { amount } => EventData::DcaVaultFundsDeposited {
                amount: amount.clone(),
            },
            EventData::DcaVaultExecutionCompleted { sent, received } => {
                EventData::DcaVaultExecutionCompleted {
                    sent: sent.clone(),
                    received: received.clone(),
                }
            },
            EventData::DcaVaultExecutionSkipped { reason } => EventData::DcaVaultExecutionSkipped {
                reason: *reason,
            },
            EventData::DcaVaultCancelled {} => EventData::DcaVaultCancelled {},
            EventData::DcaVaultEscrowDisbursed { amount_disbursed, amount_remitted } => {
                EventData::DcaVaultEscrowDisbursed {
                    amount_disbursed: amount_disbursed.clone(),
                    amount_remitted: amount_remitted.clone(),
                }
            },
        }
    }
}

/// One entry of the append-only, per-resource event ledger.
#[derive(Debug, PartialEq)]
pub struct Event {
    /// Per-resource sequence number, contiguous from one.
    pub id: u64,
    pub resource_id: u64,
    pub timestamp: u64,
    pub block_height: u64,
    pub data: EventData,
}

impl Clone for Event {
    fn clone(&self) -> (r: Event)
        ensures
            r == *self,
    {
        Event {
            id: self.id,
            resource_id: self.resource_id,
            timestamp: self.timestamp,
            block_height: self.block_height,
            data: self.data.clone(),
        }
    }
}

/// An event awaiting its sequence number.
#[derive(Debug, PartialEq)]
pub struct EventBuilder {
    pub resource_id: u64,
    pub timestamp: u64,
    pub block_height: u64,
    pub data: EventData,
}

/// The event a builder yields under sequence number `id`.
pub open spec fn spec_build_event(b: EventBuilder, id: u64) -> Event {
    Event {
        id,
        resource_id: b.resource_id,
        timestamp: b.timestamp,
        block_height: b.block_height,
        data: b.data,
    }
}

impl EventBuilder {
    pub fn new(resource_id: u64, block: BlockInfo, data: EventData) -> (r: EventBuilder)
        ensures
            r == (EventBuilder {
                resource_id,
                timestamp: block.time,
                block_height: block.height,
                data,
            }),
    {
        EventBuilder { resource_id, timestamp: block.time, block_height: block.height, data }
    }

    /// Seals the builder under the given sequence number.
    pub fn build(self, id: u64) -> (r: Event)
        ensures
            r == spec_build_event(self, id),
    {
        Event {
            id,
            resource_id: self.resource_id,
            timestamp: self.timestamp,
            block_height: self.block_height,
            data: self.data,
        }
    }
}

} // verus!
