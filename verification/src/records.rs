use vstd::prelude::*;

use crate::addresses::Identity;
use crate::errors::ErrorCode;
use crate::errors::TransferError;

verus! {

/// The investment floor: no contribution below this many base units is
/// accepted.
pub const MIN_INVESTMENT: u64 = 100_000_000;

/// The longest project name that a project record can hold.
pub const MAX_NAME_LEN: usize = 50;

/// One fundraising project: a fixed target, an accruing raised total, and the
/// identity allowed to withdraw the pooled funds. Created once, never
/// deleted; only `raised_amount` and `investor_count` ever change afterwards.
#[derive(Clone, Debug)]
pub struct Project {
    /// Caller-chosen identifier; the sole namespace key for every address
    /// derived for this project.
    pub project_id: u64,
    /// Upper bound on the total raisable value, immutable after creation.
    pub target_amount: u64,
    /// Running total of accepted contributions; never exceeds `target_amount`.
    pub raised_amount: u64,
    /// Count of accepted investment calls.
    pub investor_count: u32,
    /// Display name, at most `MAX_NAME_LEN` characters.
    pub project_name: String,
    /// Gates new investment; set at creation and never reset here.
    pub is_active: bool,
    /// The sole principal permitted to withdraw.
    pub authority: Identity,
}

/// An immutable receipt of one investor's single contribution to one project.
#[derive(Clone, Copy, Debug, PartialEq, Eq, Structural)]
pub struct Investment {
    pub project_id: u64,
    pub investor: Identity,
    pub amount: u64,
    /// Seconds since the epoch, as the clock source reported at acceptance.
    pub timestamp: i64,
}

/// Notification emitted by a successful `initialize_project`.
#[derive(Clone, Copy, Debug, PartialEq, Eq, Structural)]
pub struct ProjectCreated {
    pub project_id: u64,
    pub target_amount: u64,
    pub authority: Identity,
}

/// Notification emitted by a successful `invest`.
#[derive(Clone, Copy, Debug, PartialEq, Eq, Structural)]
pub struct InvestmentMade {
    pub project_id: u64,
    pub investor: Identity,
    pub amount: u64,
    pub timestamp: i64,
}

/// Notification emitted by a successful `withdraw_funds`.
#[derive(Clone, Copy, Debug, PartialEq, Eq, Structural)]
pub struct FundsWithdrawn {
    pub project_id: u64,
    pub authority: Identity,
    pub amount: u64,
}

/// The resolved caller-side context of an `initialize_project` call: the
/// signing identity that becomes the project's authority.
#[derive(Clone, Copy, Debug)]
pub struct InitializeProject {
    pub authority: Identity,
}

/// The resolved caller-side context of an `invest` call: which project is
/// targeted, the signing investor, and the clock reading to stamp the receipt
/// with.
#[derive(Clone, Copy, Debug)]
pub struct Invest {
    pub project_id: u64,
    pub investor: Identity,
    pub now: i64,
}

/// The resolved caller-side context of a `withdraw_funds` call: which project
/// is targeted and the signing identity claiming to be its authority.
#[derive(Clone, Copy, Debug)]
pub struct WithdrawFunds {
    pub project_id: u64,
    pub authority: Identity,
}

/// Internal consistency of one project record: the raised total never exceeds
/// the target, and the name is within its bound.
pub open spec fn project_wf(p: Project) -> bool {
    &&& p.raised_amount <= p.target_amount
    &&& p.project_name@.len() <= MAX_NAME_LEN
}

/// The project record after accepting one contribution of `amount`.
pub open spec fn invested(p: Project, amount: u64) -> Project {
    Project {
        raised_amount: (p.raised_amount + amount) as u64,
        investor_count: (p.investor_count + 1) as u32,
        ..p
    }
}

/// Whether the project itself admits a contribution of `amount`: it is
/// active, the raised total stays within the target, the amount meets the
/// floor, and the investor counter has room.
pub open spec fn invest_accepted(p: Project, amount: u64) -> bool {
    &&& p.is_active
    &&& p.raised_amount + amount <= p.target_amount
    &&& amount >= MIN_INVESTMENT
    &&& p.investor_count < u32::MAX
}

/// The precise outcome of the investment checks, in the order the operation
/// applies them. `wallet_balance` is what the investor's wallet holds, and
/// `has_record` whether this investor already holds a receipt for this
/// project. `None` means the contribution is accepted.
pub open spec fn invest_error(
    p: Project,
    amount: u64,
    wallet_balance: u64,
    has_record: bool,
) -> Option<ErrorCode> {
    if !p.is_active {
        Some(ErrorCode::ProjectNotActive)
    } else if p.raised_amount + amount > u64::MAX {
        Some(ErrorCode::ArithmeticOverflow)
    } else if p.raised_amount + amount > p.target_amount {
        Some(ErrorCode::ExceedsTargetAmount)
    } else if amount < MIN_INVESTMENT {
        Some(ErrorCode::MinimumInvestmentNotMet)
    } else if p.investor_count == u32::MAX {
        Some(ErrorCode::ArithmeticOverflow)
    } else if wallet_balance < amount {
        Some(ErrorCode::TransferFailed(TransferError::InsufficientBalance))
    } else if has_record {
        Some(ErrorCode::AlreadyExists)
    } else {
        None
    }
}

/// The precise outcome of the withdrawal checks, in the order the operation
/// applies them. `vault_balance` is what the project's vault actually holds.
/// `None` means the withdrawal goes through.
pub open spec fn withdraw_error(
    p: Project,
    caller: Identity,
    amount: u64,
    vault_balance: u64,
) -> Option<ErrorCode> {
    if caller != p.authority {
        Some(ErrorCode::Unauthorized)
    } else if amount > p.raised_amount {
        Some(ErrorCode::InsufficientFunds)
    } else if vault_balance < amount {
        Some(ErrorCode::TransferFailed(TransferError::InsufficientBalance))
    } else {
        None
    }
}

} // verus!
