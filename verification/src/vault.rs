use vstd::prelude::*;
use crate::decimal::Decimal;
use crate::pair::Pair;

verus! {

/// An amount of a single denomination.
#[derive(Debug, PartialEq)]
pub struct Coin {
    pub denom: String,
    pub amount: u128,
}

impl Clone for Coin {
    fn clone(&self) -> (r: Coin)
        ensures
            r == *self,
    {
        Coin { denom: self.denom.clone(), amount: self.amount }
    }
}

impl Coin {
    pub fn new(amount: u128, denom: String) -> (r: Coin)
        ensures
            r.amount == amount,
            r.denom == denom,
    {
        Coin { denom, amount }
    }
}

/// Lifecycle status of a vault.  `Scheduled` and `Active` vaults may still
/// execute; `Cancelled` and `Completed` are terminal.
#[derive(Debug, Clone, Copy, PartialEq, Eq, Structural)]
pub enum VaultStatus {
    /// Funds received but the start time has not yet been reached.
    Scheduled,
    /// Eligible for execution.
    Active,
    /// Terminal: cancelled by the owner or an administrator, balance refunded.
    Cancelled,
    /// Terminal: the balance has been exhausted.
    Completed,
}

/// Which side of the pair the vault enters with: `Enter` swaps the quote
/// denomination into the base denomination, `Exit` the other way around.
#[derive(Debug, Clone, Copy, PartialEq, Eq, Structural)]
pub enum PositionType {
    Enter,
    Exit,
}

/// The schedule between two tranches of a time-triggered vault.
#[derive(Debug, Clone, Copy, PartialEq, Eq, Structural)]
pub enum TimeInterval {
    Hourly,
    Daily,
    Weekly,
    /// A custom interval; well-formed vaults carry at least one second.
    Custom { seconds: u64 },
}

/// The length of an interval in seconds.
pub open spec fn spec_interval_seconds(i: TimeInterval) -> u64 {
    match i {
        TimeInterval::Hourly => 3600,
        TimeInterval::Daily => 86400,
        TimeInterval::Weekly => 604800,
        TimeInterval::Custom { seconds } => seconds,
    }
}

impl TimeInterval {
    /// The length of this interval in seconds.
    pub fn seconds(&self) -> (r: u64)
        ensures
            r == spec_interval_seconds(*self),
    {
        match self {
            TimeInterval::Hourly => 3600,
            TimeInterval::Daily => 86400,
            TimeInterval::Weekly => 604800,
            TimeInterval::Custom { seconds } => *seconds,
        }
    }
}

/// The performance-escrow overlay of a vault: a fraction of every tranche's
/// proceeds is withheld and later released against a benchmark.
#[derive(Debug, PartialEq)]
pub struct DcaPlusConfig {
    /// Fraction of proceeds escrowed on each successful tranche; at most one.
    pub escrow_level: Decimal,
    /// Funds withheld so far, in the vault's receive denomination.
    pub escrowed_balance: Coin,
}

impl Clone for DcaPlusConfig {
    fn clone(&self) -> (r: DcaPlusConfig)
        ensures
            r == *self,
    {
        DcaPlusConfig {
            escrow_level: self.escrow_level,
            escrowed_balance: self.escrowed_balance.clone(),
        }
    }
}

/// A recurring-purchase position: funds, schedule, progress and status.
#[derive(Debug, PartialEq)]
pub struct Vault {
    /// Monotonically assigned identifier, starting at one.
    pub id: u64,
    pub owner: String,
    pub pair: Pair,
    pub position_type: PositionType,
    pub status: VaultStatus,
    /// Remaining input funds, in the swap denomination.
    pub balance: Coin,
    /// Configured amount per tranche, in the swap denomination.
    pub swap_amount: u128,
    pub time_interval: TimeInterval,
    pub slippage_tolerance: Option<Decimal>,
    /// Optional fixed target price: execution is skipped while the venue
    /// price does not satisfy the position direction relative to it.
    pub target_price: Option<Decimal>,
    /// Optional scheduled start time (seconds).
    pub started_at: Option<u64>,
    /// Cumulative funds received from the owner (creation plus deposits).
    pub deposited_amount: u128,
    /// Cumulative amount sent to the venue over successful tranches.
    pub swapped_amount: u128,
    /// Cumulative amount received from the venue.
    pub received_amount: u128,
    /// Optional performance-escrow overlay.
    pub dca_plus_config: Option<DcaPlusConfig>,
}

impl Clone for Vault {
    fn clone(&self) -> (r: Vault)
        ensures
            r == *self,
    {
        Vault {
            id: self.id,
            owner: self.owner.clone(),
            pair: self.pair.clone(),
            position_type: self.position_type,
            status: self.status,
            balance: self.balance.clone(),
            swap_amount: self.swap_amount,
            time_interval: self.time_interval,
            slippage_tolerance: self.slippage_tolerance,
            target_price: self.target_price,
            started_at: self.started_at,
            deposited_amount: self.deposited_amount,
            swapped_amount: self.swapped_amount,
            received_amount: self.received_amount,
            dca_plus_config: match &self.dca_plus_config {
                Some(c) => Some(c.clone()),
                None => None,
            },
        }
    }
}

/// Whether the status admits no further operations.
pub open spec fn spec_is_terminal(s: VaultStatus) -> bool {
    s is Cancelled || s is Completed
}

/// The denomination paid into the venue when trading `p` in direction `pt`:
/// the quote denomination when entering the base asset, the base denomination
/// when exiting it.
pub open spec fn spec_position_swap_denom(p: Pair, pt: PositionType) -> Seq<char> {
    match pt {
        PositionType::Enter => p.quote_denom@,
        PositionType::Exit => p.base_denom@,
    }
}

/// The denomination received from the venue when trading `p` in direction
/// `pt`.
pub open spec fn spec_position_receive_denom(p: Pair, pt: PositionType) -> Seq<char> {
    match pt {
        PositionType::Enter => p.base_denom@,
        PositionType::Exit => p.quote_denom@,
    }
}

/// The denomination a vault pays into the venue.
pub open spec fn spec_swap_denom(v: Vault) -> Seq<char> {
    spec_position_swap_denom(v.pair, v.position_type)
}

/// The denomination a vault receives from the venue.
pub open spec fn spec_receive_denom(v: Vault) -> Seq<char> {
    spec_position_receive_denom(v.pair, v.position_type)
}

/// Number of tranches still ahead of the vault: its balance divided by the
/// tranche size, rounded up.
pub open spec fn spec_remaining_executions(v: Vault) -> int
    recommends
        v.swap_amount >= 1,
{
    v.balance.amount as int / v.swap_amount as int + if v.balance.amount as int
        % v.swap_amount as int == 0 {
        0int
    } else {
        1int
    }
}

/// The time at which the vault is expected to have executed its last tranche
/// if every remaining tranche runs on schedule, capped at the largest
/// representable time.
pub open spec fn spec_expected_completion(v: Vault, now: u64) -> int
    recommends
        v.swap_amount >= 1,
{
    let full = now + spec_remaining_executions(v) * spec_interval_seconds(v.time_interval);
    if full > u64::MAX {
        u64::MAX as int
    } else {
        full
    }
}

impl Vault {
    /// Whether the vault is in a terminal state.
    pub fn is_terminal(&self) -> (r: bool)
        ensures
            r == spec_is_terminal(self.status),
    {
        match self.status {
            VaultStatus::Cancelled => true,
            VaultStatus::Completed => true,
            _ => false,
        }
    }

    /// The denomination this vault pays into the venue.
    pub fn get_swap_denom(&self) -> (r: &String)
        ensures
            r@ == spec_swap_denom(*self),
    {
        match self.position_type {
            PositionType::Enter => &self.pair.quote_denom,
            PositionType::Exit => &self.pair.base_denom,
        }
    }

    /// The denomination this vault receives from the venue.
    pub fn get_receive_denom(&self) -> (r: &String)
        ensures
            r@ == spec_receive_denom(*self),
    {
        match self.position_type {
            PositionType::Enter => &self.pair.base_denom,
            PositionType::Exit => &self.pair.quote_denom,
        }
    }

    /// The expected execution completion date of the vault, as of `now`.
    pub fn get_expected_execution_completed_date(&self, now: u64) -> (r: u64)
        requires
            self.swap_amount >= 1,
        ensures
            r == spec_expected_completion(*self, now),
    {
        let quotient: u128 = self.balance.amount / self.swap_amount;
        let remainder: u128 = self.balance.amount % self.swap_amount;
        let remaining: u128 = if remainder != 0 {
            proof {
                if quotient > 0 {
                    vstd::arithmetic::div_mod::lemma_fundamental_div_mod(
                        self.balance.amount as int,
                        self.swap_amount as int,
                    );
                    vstd::arithmetic::mul::lemma_mul_increases(
                        self.swap_amount as int,
                        quotient as int,
                    );
                }
            }
            quotient + 1
        } else {
            quotient
        };
        let secs: u64 = self.time_interval.seconds();
        match remaining.checked_mul(secs as u128) {
            Some(duration) => {
                match (now as u128).checked_add(duration) {
                    Some(total) => {
                        if total > u64::MAX as u128 {
                            u64::MAX
                        } else {
                            total as u64
                        }
                    },
                    None => u64::MAX,
                }
            },
            None => u64::MAX,
        }
    }
}

} // verus!
