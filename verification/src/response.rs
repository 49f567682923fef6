use vstd::prelude::*;
use crate::decimal::Decimal;
use crate::vault::Coin;

verus! {

/// A message handed back to the host for dispatch: a value transfer on the
/// settlement ledger, or a request to the swap venue.  Issuing a message is
/// fire-and-forget; venue requests are answered by a later confirmation
/// invocation.
#[derive(Debug, PartialEq)]
pub enum Msg {
    /// Transfer funds to an address.
    BankSend { to_address: String, amount: Coin },
    /// Ask the venue to swap `offer` within the given slippage tolerance.
    FinSwap { pair_address: String, offer: Coin, slippage_tolerance: Option<Decimal> },
    /// Ask the venue to open a limit order for `offer` at `price`.
    FinSubmitOrder { pair_address: String, price: Decimal, offer: Coin },
    /// Ask the venue to pay out the filled portion of a resting order.
    FinWithdrawOrder { pair_address: String, order_idx: u128 },
}

/// What a mutating operation hands back to the host.
#[derive(Debug, PartialEq)]
pub struct Response {
    pub messages: Vec<Msg>,
}

/// The venue's answer to a swap request, delivered by a separate confirmation
/// invocation.
#[derive(Debug, Clone, Copy, PartialEq, Eq, Structural)]
pub enum SwapResult {
    /// The swap went through and paid out this amount of the receive
    /// denomination.
    Succeeded { received: u128 },
    /// The venue rejected the swap for exceeding the slippage tolerance.
    SlippageExceeded,
}

/// How an initiating execution call left the saga.
#[derive(Debug, Clone, Copy, PartialEq, Eq, Structural)]
pub enum ExecuteOutcome {
    /// A swap request was issued; its confirmation settles the tranche.
    SwapRequested,
    /// A withdrawal of the filled part of the resting order was requested.
    WithdrawalRequested,
    /// The venue price does not satisfy the target price for the vault's
    /// position direction; nothing was changed.
    PriceConditionNotMet,
}

/// The result of an initiating execution call: how it left the saga, and the
/// messages to dispatch.
#[derive(Debug, PartialEq)]
pub struct ExecuteResponse {
    pub outcome: ExecuteOutcome,
    pub messages: Vec<Msg>,
}

/// The fill state of a resting limit order, as the venue reports it.
#[derive(Debug, Clone, Copy, PartialEq, Eq, Structural)]
pub struct OrderStatus {
    /// Offer-denomination amount still resting unfilled.
    pub remaining_amount: u128,
    /// Receive-denomination amount available to withdraw.
    pub filled_amount: u128,
}

} // verus!
