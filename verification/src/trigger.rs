use vstd::prelude::*;
use crate::decimal::Decimal;

verus! {

/// The due-condition attached to a vault: either a next execution time, or a
/// resting limit order at the venue identified by its order index.
#[derive(Debug, Clone, Copy, PartialEq, Eq, Structural)]
pub enum TriggerConfiguration {
    Time {
        /// Next eligible execution timestamp (seconds).
        target_time: u64,
    },
    FinLimitOrder {
        /// The price the limit order rests at.
        target_price: Decimal,
        /// The venue-assigned order index, once the submission is confirmed.
        order_idx: Option<u128>,
        /// The amount of the swap denomination the resting order offers.
        offer_amount: u128,
    },
}

/// A vault's trigger; each vault has at most one at any time, and deleting it
/// is the canonical signal that no further automatic executions will happen.
#[derive(Debug, Clone, Copy, PartialEq, Eq, Structural)]
pub struct Trigger {
    pub vault_id: u64,
    pub configuration: TriggerConfiguration,
}

/// The forward schedule move of a time trigger executed at `now`: the next
/// target is one interval past the previous target, or `now` if the prior
/// execution was delayed past that — never earlier than either.
pub open spec fn spec_next_target_time(previous: u64, interval_seconds: u64, now: u64) -> int {
    if previous + interval_seconds >= now {
        previous + interval_seconds
    } else {
        now as int
    }
}

/// Computes the next target time of a time trigger, or reports that it left
/// the representable range.
pub fn next_target_time(previous: u64, interval_seconds: u64, now: u64) -> (r: Option<u64>)
    ensures
        r is Some <==> spec_next_target_time(previous, interval_seconds, now) <= u64::MAX,
        r is Some ==> r->Some_0 == spec_next_target_time(previous, interval_seconds, now),
{
    match previous.checked_add(interval_seconds) {
        Some(advanced) => {
            if advanced >= now {
                Some(advanced)
            } else {
                Some(now)
            }
        },
        None => None,
    }
}

} // verus!
