//! The token ledger: a fixed total supply, a balance per account and an
//! allowance per (owner, spender) pair, with three mutating operations.
//! Every operation takes the caller's identity as an explicit argument; the
//! host that embeds the ledger is responsible for authenticating it. Every
//! mutating operation either succeeds, or fails with a specific reason and
//! leaves the state untouched.

use vstd::prelude::*;

use crate::model::LedgerModel;
use crate::table::AllowanceTable;
use crate::table::BalanceTable;
use crate::AccountId;
use crate::Balance;

verus! {

/// Why a mutating operation failed. These are expected, recoverable
/// outcomes; the ledger never panics.
#[derive(Clone, Copy, Debug, PartialEq, Eq, Structural)]
pub enum Error {
    /// The source account holds fewer units than the operation would move.
    InsufficientBalance,
    /// The caller's allowance from the source account is smaller than the
    /// amount it asked to move.
    InsufficientAllowance,
}

/// The fungible-token ledger.
pub struct Erc20 {
    total_supply: Balance,
    balances: BalanceTable,
    allowances: AllowanceTable,
}

impl View for Erc20 {
    type V = LedgerModel;

    closed spec fn view(&self) -> LedgerModel {
        LedgerModel {
            total_supply: self.total_supply as int,
            balances: Map::total(|account: AccountId| self.balances.spec_get(account) as int),
            allowances: Map::total(
                |pair: (AccountId, AccountId)| self.allowances.spec_get(pair.0, pair.1) as int,
            ),
        }
    }
}

impl Erc20 {
    /// The internal invariant: both tables keep at most one entry per key,
    /// and the stored balances sum to exactly the total supply. Every
    /// operation preserves it, so the supply is conserved across any
    /// sequence of calls.
    pub closed spec fn well_formed(self) -> bool {
        &&& self.balances.wf()
        &&& self.allowances.wf()
        &&& self.balances.spec_sum() == self.total_supply as int
    }

    /// A well-formed ledger has a well-formed model; in particular no single
    /// balance can exceed the total supply, since all balances together sum
    /// to it.
    pub proof fn lemma_model_wf(&self)
        requires
            self.well_formed(),
        ensures
            self@.wf(),
    {
        assert forall|account: AccountId|
            0 <= #[trigger] self@.balances[account] <= self@.total_supply by {
            self.balances.lemma_get_le_sum(account);
        }
    }

    /// Creates a ledger whose whole supply is owned by `creator`. A zero
    /// supply is legal and yields a ledger in which every balance is zero.
    pub fn new(initial_supply: Balance, creator: AccountId) -> (ledger: Self)
        ensures
            ledger.well_formed(),
            ledger@ == LedgerModel::init(initial_supply as int, creator),
    {
        let mut balances = BalanceTable::empty();
        balances.set(creator, initial_supply);
        let ledger = Erc20 {
            total_supply: initial_supply,
            balances,
            allowances: AllowanceTable::empty(),
        };
        proof {
            let target = LedgerModel::init(initial_supply as int, creator);
            assert forall|account: AccountId| ledger@.balances[account]
                == target.balances[account] by {}
            assert forall|pair: (AccountId, AccountId)| ledger@.allowances[pair]
                == target.allowances[pair] by {}
            assert(ledger@ =~= target);
        }
        ledger
    }

    /// The fixed total supply.
    pub fn total_supply(&self) -> (supply: Balance)
        ensures
            supply as int == self@.total_supply,
    {
        self.total_supply
    }

    /// The balance of `owner`; zero for any account the ledger never stored.
    pub fn balance_of(&self, owner: AccountId) -> (balance: Balance)
        ensures
            balance as int == self@.balances[owner],
    {
        self.balances.get(owner)
    }

    /// The allowance `owner` has granted to `spender`; zero for any pair
    /// never approved.
    pub fn allowance(&self, owner: AccountId, spender: AccountId) -> (remaining: Balance)
        ensures
            remaining as int == self@.allowances[(owner, spender)],
    {
        self.allowances.get(owner, spender)
    }

    /// Moves `value` units from `caller`'s own balance to `to`. Succeeds
    /// exactly when `caller` holds at least `value` units; otherwise fails
    /// with `InsufficientBalance` and changes nothing. A self-transfer is
    /// legal and leaves the balance as it was.
    pub fn transfer(&mut self, caller: AccountId, to: AccountId, value: Balance) -> (result:
        Result<(), Error>)
        requires
            old(self).well_formed(),
        ensures
            final(self).well_formed(),
            result is Ok <==> old(self)@.transfer_allowed(caller, value as int),
            result is Ok ==> final(self)@ == old(self)@.transfer(caller, to, value as int),
            result is Err ==> result == Err::<(), Error>(Error::InsufficientBalance)
                && *final(self) == *old(self),
    {
        self.transfer_from_to(caller, to, value)
    }

    /// Grants `spender` the right to move up to `value` units out of
    /// `caller`'s balance. Always succeeds: the previous allowance of the
    /// pair is overwritten, not added to, and no balance check is made — an
    /// allowance may exceed the owner's current balance.
    pub fn approve(&mut self, caller: AccountId, spender: AccountId, value: Balance) -> (result:
        Result<(), Error>)
        requires
            old(self).well_formed(),
        ensures
            final(self).well_formed(),
            result is Ok,
            final(self)@ == old(self)@.approve(caller, spender, value as int),
    {
        self.allowances.set(caller, spender, value);
        proof {
            let target = old(self)@.approve(caller, spender, value as int);
            assert forall|account: AccountId| self@.balances[account]
                == target.balances[account] by {}
            assert forall|pair: (AccountId, AccountId)| self@.allowances[pair]
                == target.allowances[pair] by {}
            assert(self@ =~= target);
        }
        Ok(())
    }

    /// Moves `value` units from `from` to `to` on behalf of `caller`, using
    /// the allowance `from` granted to `caller`. Fails with
    /// `InsufficientAllowance` when that allowance is smaller than `value`,
    /// else with `InsufficientBalance` when `from`'s balance is; in either
    /// case nothing changes. On success the balances move as in `transfer`
    /// and the allowance of (`from`, `caller`) shrinks by exactly `value`,
    /// which cannot take it below zero.
    pub fn transfer_from(
        &mut self,
        caller: AccountId,
        from: AccountId,
        to: AccountId,
        value: Balance,
    ) -> (result: Result<(), Error>)
        requires
            old(self).well_formed(),
        ensures
            final(self).well_formed(),
            result is Ok <==> old(self)@.transfer_from_allowed(caller, from, value as int),
            result is Ok ==> final(self)@ == old(self)@.transfer_from(
                caller,
                from,
                to,
                value as int,
            ),
            result == Err::<(), Error>(Error::InsufficientAllowance)
                <==> value as int > old(self)@.allowances[(from, caller)],
            result == Err::<(), Error>(Error::InsufficientBalance)
                <==> (value as int <= old(self)@.allowances[(from, caller)]
                && value as int > old(self)@.balances[from]),
            result is Err ==> *final(self) == *old(self),
    {
        let granted = self.allowances.get(from, caller);
        if granted < value {
            return Err(Error::InsufficientAllowance);
        }
        match self.transfer_from_to(from, to, value) {
            Ok(()) => {}
            Err(failure) => {
                return Err(failure);
            },
        }
        self.allowances.set(from, caller, granted - value);
        proof {
            let target = old(self)@.transfer_from(caller, from, to, value as int);
            let moved = old(self)@.transfer(from, to, value as int);
            assert forall|account: AccountId| self@.balances[account]
                == target.balances[account] by {
                assert(moved.balances[account] == target.balances[account]);
            }
            assert forall|pair: (AccountId, AccountId)| self@.allowances[pair]
                == target.allowances[pair] by {
                assert(moved.allowances[pair] == old(self)@.allowances[pair]);
            }
            assert(self@ =~= target);
        }
        Ok(())
    }

    /// The balance movement shared by `transfer` and `transfer_from`: checks
    /// the source balance, then debits the source and credits the
    /// destination. The credit cannot overflow: once the source is debited,
    /// the destination's balance is at most the total supply minus `value`.
    fn transfer_from_to(&mut self, from: AccountId, to: AccountId, value: Balance) -> (result:
        Result<(), Error>)
        requires
            old(self).well_formed(),
        ensures
            final(self).well_formed(),
            result is Ok <==> old(self)@.transfer_allowed(from, value as int),
            result is Ok ==> final(self)@ == old(self)@.transfer(from, to, value as int),
            result is Err ==> result == Err::<(), Error>(Error::InsufficientBalance)
                && *final(self) == *old(self),
    {
        let from_balance = self.balances.get(from);
        if from_balance < value {
            return Err(Error::InsufficientBalance);
        }
        self.balances.set(from, from_balance - value);
        proof {
            self.balances.lemma_get_le_sum(to);
        }
        let to_balance = self.balances.get(to);
        self.balances.set(to, to_balance + value);
        proof {
            let target = old(self)@.transfer(from, to, value as int);
            assert forall|account: AccountId| self@.balances[account]
                == target.balances[account] by {}
            assert forall|pair: (AccountId, AccountId)| self@.allowances[pair]
                == target.allowances[pair] by {}
            assert(self@ =~= target);
        }
        Ok(())
    }
}

} // verus!
