//! The ledger's laws, proved once and for all over the abstract model. Each
//! lemma is stated against the same model functions that the executable
//! operations' contracts promise to follow, so what is proved here holds of
//! every sequence of calls on a real ledger.

use vstd::prelude::*;

use crate::model::LedgerModel;
use crate::AccountId;

verus! {

/// In a freshly constructed ledger, every account other than the creator —
/// that is, every account no operation has touched yet — has balance zero.
pub proof fn lemma_untouched_balance_zero(
    total_supply: int,
    creator: AccountId,
    account: AccountId,
)
    requires
        account != creator,
    ensures
        LedgerModel::init(total_supply, creator).balances[account] == 0,
{
}

/// In a freshly constructed ledger, every (owner, spender) pair — no pair
/// has been approved yet — has allowance zero.
pub proof fn lemma_unapproved_allowance_zero(
    total_supply: int,
    creator: AccountId,
    owner: AccountId,
    spender: AccountId,
)
    ensures
        LedgerModel::init(total_supply, creator).allowances[(owner, spender)] == 0,
{
}

/// A transfer touches nothing but the two balances it names: every other
/// account keeps its balance, every allowance stays as it was, and the
/// total supply never changes.
pub proof fn lemma_transfer_frame(
    m: LedgerModel,
    from: AccountId,
    to: AccountId,
    value: int,
    other: AccountId,
)
    requires
        other != from,
        other != to,
    ensures
        m.transfer(from, to, value).balances[other] == m.balances[other],
        m.transfer(from, to, value).allowances == m.allowances,
        m.transfer(from, to, value).total_supply == m.total_supply,
{
}

/// An approval touches nothing but the allowance of the pair it names:
/// every other pair keeps its allowance, every balance stays as it was, and
/// the total supply never changes.
pub proof fn lemma_approve_frame(
    m: LedgerModel,
    owner: AccountId,
    spender: AccountId,
    value: int,
    other_owner: AccountId,
    other_spender: AccountId,
)
    requires
        !(other_owner == owner && other_spender == spender),
    ensures
        m.approve(owner, spender, value).allowances[(other_owner, other_spender)]
            == m.allowances[(other_owner, other_spender)],
        m.approve(owner, spender, value).balances == m.balances,
        m.approve(owner, spender, value).total_supply == m.total_supply,
{
}

/// A delegated transfer touches nothing but the two balances it names and
/// the allowance of the (source, caller) pair; the total supply never
/// changes.
pub proof fn lemma_transfer_from_frame(
    m: LedgerModel,
    caller: AccountId,
    from: AccountId,
    to: AccountId,
    value: int,
    other: AccountId,
    other_owner: AccountId,
    other_spender: AccountId,
)
    requires
        other != from,
        other != to,
        !(other_owner == from && other_spender == caller),
    ensures
        m.transfer_from(caller, from, to, value).balances[other] == m.balances[other],
        m.transfer_from(caller, from, to, value).allowances[(other_owner, other_spender)]
            == m.allowances[(other_owner, other_spender)],
        m.transfer_from(caller, from, to, value).total_supply == m.total_supply,
{
}

/// Approving the same pair twice leaves the allowance at the last value
/// given: the second approval overwrites the first, it does not add to it.
/// In particular approving the same value twice is idempotent.
pub proof fn lemma_approve_overwrites(
    m: LedgerModel,
    owner: AccountId,
    spender: AccountId,
    first: int,
    second: int,
)
    ensures
        m.approve(owner, spender, first).approve(owner, spender, second) == m.approve(
            owner,
            spender,
            second,
        ),
        m.approve(owner, spender, first).approve(owner, spender, second).allowances[(
            owner,
            spender,
        )] == second,
{
    assert(m.approve(owner, spender, first).approve(owner, spender, second).allowances =~= m
        .approve(owner, spender, second).allowances);
    assert(m.approve(owner, spender, first).approve(owner, spender, second) =~= m.approve(
        owner,
        spender,
        second,
    ));
}

/// Transferring `value` units from `a` to `b` and then `value` units back
/// from `b` to `a`, with no operation in between, restores every balance —
/// and the second transfer is always permitted once the first one was.
pub proof fn lemma_transfer_round_trip(m: LedgerModel, a: AccountId, b: AccountId, value: int)
    requires
        m.wf(),
        0 <= value,
        m.transfer_allowed(a, value),
    ensures
        m.transfer(a, b, value).transfer_allowed(b, value),
        m.transfer(a, b, value).transfer(b, a, value) == m,
{
    let back = m.transfer(a, b, value).transfer(b, a, value);
    assert forall|account: AccountId| back.balances[account] == m.balances[account] by {}
    assert(back.balances =~= m.balances);
    assert(back =~= m);
}

} // verus!
