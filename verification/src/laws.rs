use vstd::prelude::*;

use crate::addresses::Identity;
use crate::errors::ErrorCode;
use crate::records::MIN_INVESTMENT;
use crate::records::Project;
use crate::records::invest_accepted;
use crate::records::invest_error;
use crate::records::invested;
use crate::records::withdraw_error;

verus! {

/// The sum of a run of contribution amounts.
pub open spec fn sum_amounts(amounts: Seq<u64>) -> int
    decreases amounts.len(),
{
    if amounts.len() == 0 {
        0
    } else {
        amounts[0] + sum_amounts(amounts.skip(1))
    }
}

/// The project after accepting a whole run of contributions, in order.
pub open spec fn invested_all(p: Project, amounts: Seq<u64>) -> Project
    decreases amounts.len(),
{
    if amounts.len() == 0 {
        p
    } else {
        invested_all(invested(p, amounts[0]), amounts.skip(1))
    }
}

/// Whether the project accepts every contribution of the run, each one
/// checked against the state left by those before it.
pub open spec fn all_accepted(p: Project, amounts: Seq<u64>) -> bool
    decreases amounts.len(),
{
    amounts.len() == 0 || (invest_accepted(p, amounts[0]) && all_accepted(
        invested(p, amounts[0]),
        amounts.skip(1),
    ))
}

/// A contribution is accepted exactly when the project itself admits it, the
/// investor's wallet covers it, and the investor holds no receipt yet; this
/// ties the error chain to the single-step acceptance predicate.
pub proof fn lemma_invest_acceptance(
    p: Project,
    amount: u64,
    wallet_balance: u64,
    has_record: bool,
)
    ensures
        invest_error(p, amount, wallet_balance, has_record) is None <==> (invest_accepted(p, amount)
            && wallet_balance >= amount && !has_record),
{
}

/// For every run of accepted contributions, the raised total afterwards is
/// exactly the sum of the run's amounts on top of what was raised before,
/// the target never moves, and the raised total never exceeds it.
pub proof fn lemma_raised_is_sum(p: Project, amounts: Seq<u64>)
    requires
        p.raised_amount <= p.target_amount,
        all_accepted(p, amounts),
    ensures
        invested_all(p, amounts).raised_amount == p.raised_amount + sum_amounts(amounts),
        invested_all(p, amounts).target_amount == p.target_amount,
        invested_all(p, amounts).raised_amount <= p.target_amount,
    decreases amounts.len(),
{
    if amounts.len() > 0 {
        lemma_raised_is_sum(invested(p, amounts[0]), amounts.skip(1));
    }
}

/// A run of contributions grows at its end the way the operation does: one
/// more accepted call is one more `invested` step on the project the run left
/// behind. This lets a caller unfold `invested_all` in the order the calls
/// actually happen.
pub proof fn lemma_invested_all_snoc(p: Project, amounts: Seq<u64>, amount: u64)
    ensures
        invested_all(p, amounts.push(amount)) == invested(invested_all(p, amounts), amount),
        all_accepted(p, amounts.push(amount)) <==> (all_accepted(p, amounts) && invest_accepted(
            invested_all(p, amounts),
            amount,
        )),
    decreases amounts.len(),
{
    let s = amounts.push(amount);
    if amounts.len() == 0 {
        assert(s[0] == amount);
        assert(s.skip(1) =~= Seq::<u64>::empty());
        assert(invested_all(p, s) == invested_all(invested(p, amount), s.skip(1)));
        assert(invested_all(p, s) == invested(p, amount));
        assert(invested_all(p, amounts) == p);
        assert(all_accepted(p, s) == (invest_accepted(p, amount) && all_accepted(
            invested(p, amount),
            s.skip(1),
        )));
    } else {
        assert(s[0] == amounts[0]);
        assert(s.skip(1) =~= amounts.skip(1).push(amount));
        lemma_invested_all_snoc(invested(p, amounts[0]), amounts.skip(1), amount);
        assert(invested_all(p, s) == invested_all(invested(p, s[0]), s.skip(1)));
        assert(invested_all(p, amounts) == invested_all(invested(p, amounts[0]), amounts.skip(1)));
        assert(all_accepted(p, s) == (invest_accepted(p, s[0]) && all_accepted(
            invested(p, s[0]),
            s.skip(1),
        )));
    }
}

/// One receipt per investor and project: once a receipt exists, a further
/// contribution by the same investor is rejected, whatever its amount and
/// however well funded the investor's wallet is.
pub proof fn lemma_single_receipt_per_investor(p: Project, amount: u64, wallet_balance: u64)
    ensures
        invest_error(p, amount, wallet_balance, true) is Some,
{
}

/// An inactive project rejects every contribution with `ProjectNotActive`,
/// before any other check is consulted.
pub proof fn lemma_inactive_rejects(p: Project, amount: u64, wallet_balance: u64, has_record: bool)
    requires
        !p.is_active,
    ensures
        invest_error(p, amount, wallet_balance, has_record) == Some(
            ErrorCode::ProjectNotActive,
        ),
{
}

/// The investment floor: on an active project with room for it, a
/// contribution below `MIN_INVESTMENT` is rejected as too small, whatever
/// else holds.
pub proof fn lemma_minimum_investment(
    p: Project,
    amount: u64,
    wallet_balance: u64,
    has_record: bool,
)
    requires
        p.is_active,
        amount < MIN_INVESTMENT,
        p.raised_amount + amount <= p.target_amount,
    ensures
        invest_error(p, amount, wallet_balance, has_record) == Some(
            ErrorCode::MinimumInvestmentNotMet,
        ),
{
}

/// On a fresh, active project whose target has room for it, a contribution
/// of exactly the floor from a funded wallet is always accepted.
pub proof fn lemma_fresh_minimum_accepted(p: Project, wallet_balance: u64)
    requires
        p.is_active,
        p.raised_amount == 0,
        p.investor_count == 0,
        p.target_amount >= MIN_INVESTMENT,
        wallet_balance >= MIN_INVESTMENT,
    ensures
        invest_error(p, MIN_INVESTMENT, wallet_balance, false) is None,
{
}

/// The target is a hard cap with an inclusive boundary: a contribution that
/// would push the raised total past the target is rejected as such, while
/// one that lands exactly on the target is accepted.
pub proof fn lemma_target_boundary(p: Project, amount: u64, wallet_balance: u64)
    requires
        p.is_active,
    ensures
        p.raised_amount + amount <= u64::MAX && p.raised_amount + amount > p.target_amount
            ==> invest_error(p, amount, wallet_balance, false) == Some(
            ErrorCode::ExceedsTargetAmount,
        ),
        p.raised_amount + amount == p.target_amount && amount >= MIN_INVESTMENT
            && p.investor_count < u32::MAX && wallet_balance >= amount ==> invest_error(
            p,
            amount,
            wallet_balance,
            false,
        ) is None,
{
}

/// Only the stored authority withdraws: any other caller is rejected as
/// unauthorized, whatever the amount and however full the vault is.
pub proof fn lemma_withdraw_unauthorized(
    p: Project,
    caller: Identity,
    amount: u64,
    vault_balance: u64,
)
    requires
        caller != p.authority,
    ensures
        withdraw_error(p, caller, amount, vault_balance) == Some(ErrorCode::Unauthorized),
{
}

/// Withdrawal is owed success whenever the authority asks for no more than
/// the raised total and the vault still covers it; and since a withdrawal
/// leaves the project record untouched, the identical claim is admitted
/// again as long as the vault balance permits — the raised total is never
/// written down.
pub proof fn lemma_withdraw_repeatable(
    p: Project,
    caller: Identity,
    amount: u64,
    vault_balance: u64,
)
    requires
        caller == p.authority,
        amount <= p.raised_amount,
        amount <= vault_balance,
    ensures
        withdraw_error(p, caller, amount, vault_balance) is None,
        amount <= vault_balance - amount ==> withdraw_error(
            p,
            caller,
            amount,
            (vault_balance - amount) as u64,
        ) is None,
{
}

} // verus!
