//! The mathematical model of the ledger: total maps from accounts to
//! balances and from (owner, spender) pairs to allowances, with the effect of
//! each operation written as a function on that model. The executable
//! ledger's contracts promise that every successful operation moves the view
//! of the concrete state exactly as these functions say.

use vstd::prelude::*;

use crate::AccountId;

verus! {

/// The abstract state of a ledger. Balances and allowances are total maps:
/// an account the ledger never stored simply maps to zero.
#[verifier::ext_equal]
pub ghost struct LedgerModel {
    /// The fixed number of token units in existence.
    pub total_supply: int,
    /// How many units each account owns.
    pub balances: Map<AccountId, int>,
    /// How many units each spender may still move out of each owner's
    /// balance: keyed by (owner, spender).
    pub allowances: Map<(AccountId, AccountId), int>,
}

impl LedgerModel {
    /// Both maps are total — the model of a real ledger answers for every
    /// account — every amount is a valid unsigned quantity, and no single
    /// balance exceeds the total supply.
    pub open spec fn wf(self) -> bool {
        &&& self.total_supply >= 0
        &&& forall|account: AccountId| #[trigger] self.balances.dom().contains(account)
        &&& forall|pair: (AccountId, AccountId)| #[trigger] self.allowances.dom().contains(pair)
        &&& forall|account: AccountId| 0 <= #[trigger] self.balances[account] <= self.total_supply
        &&& forall|pair: (AccountId, AccountId)| 0 <= #[trigger] self.allowances[pair]
    }

    /// The state of a freshly constructed ledger: the creator owns the whole
    /// supply, everyone else owns nothing, and no allowance is granted.
    pub open spec fn init(total_supply: int, creator: AccountId) -> LedgerModel {
        LedgerModel {
            total_supply,
            balances: Map::total(
                |account: AccountId|
                    if account == creator {
                        total_supply
                    } else {
                        0
                    },
            ),
            allowances: Map::total(|pair: (AccountId, AccountId)| 0int),
        }
    }

    /// Whether `from` holds enough units to move `value` of them.
    pub open spec fn transfer_allowed(self, from: AccountId, value: int) -> bool {
        value <= self.balances[from]
    }

    /// Moving `value` units from `from` to `to`: debit first, then credit,
    /// so a self-transfer leaves the balance unchanged. Allowances are not
    /// touched.
    pub open spec fn transfer(self, from: AccountId, to: AccountId, value: int) -> LedgerModel {
        let debited = self.balances.insert(from, self.balances[from] - value);
        LedgerModel { balances: debited.insert(to, debited[to] + value), ..self }
    }

    /// Granting `spender` the right to move `value` units out of `owner`'s
    /// balance: the previous allowance of the pair is overwritten, never
    /// added to. Balances are not touched.
    pub open spec fn approve(
        self,
        owner: AccountId,
        spender: AccountId,
        value: int,
    ) -> LedgerModel {
        LedgerModel { allowances: self.allowances.insert((owner, spender), value), ..self }
    }

    /// Whether `caller` may move `value` units out of `from`'s balance: the
    /// allowance granted to `caller` and the balance of `from` must both
    /// cover `value`.
    pub open spec fn transfer_from_allowed(
        self,
        caller: AccountId,
        from: AccountId,
        value: int,
    ) -> bool {
        value <= self.allowances[(from, caller)] && value <= self.balances[from]
    }

    /// Moving `value` units from `from` to `to` on behalf of `caller`: the
    /// balances move as in `transfer`, and the allowance of the pair
    /// (`from`, `caller`) — the spender, not the recipient — is reduced by
    /// exactly the amount moved.
    pub open spec fn transfer_from(
        self,
        caller: AccountId,
        from: AccountId,
        to: AccountId,
        value: int,
    ) -> LedgerModel {
        let moved = self.transfer(from, to, value);
        LedgerModel {
            allowances: moved.allowances.insert(
                (from, caller),
                self.allowances[(from, caller)] - value,
            ),
            ..moved
        }
    }
}

} // verus!
