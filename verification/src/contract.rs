use vstd::prelude::*;
use crate::credit_ledger::CreditLedger;
use crate::errors::ErrorKind;
use crate::set_info::{
    burn_credited, seq_max_amount, wrap_debited, FeeReceiver, SetInfo, TokenWithRatio,
    FEE_DENOMINATOR,
};
use crate::token_ledger::TokenLedger;

verus! {

/// The root aggregate: the basket core, the composite-token ledger, the
/// underlying-credit ledger, and the designated owner account.
pub struct Contract {
    pub owner_id: u64,
    pub token: TokenLedger,
    pub balances: CreditLedger,
    pub set_info: SetInfo,
}

impl Contract {
    /// Every component is well formed.
    pub open spec fn wf(self) -> bool {
        self.token.wf() && self.balances.wf() && self.set_info.wf()
    }

    /// Initializes the contract: empty ledgers, the given ratio table, and
    /// the given initial fee policy.  Fails with `InvalidFeeConfiguration`
    /// exactly when the two fee rates together exceed the denominator.
    pub fn new(owner_id: u64, set_ratios: Vec<TokenWithRatio>, set_initial_fee: FeeReceiver) -> (r:
        Result<Contract, ErrorKind>)
        requires
            set_ratios@.len() > 0,
            forall|i: int| 0 <= i < set_ratios@.len() ==> (#[trigger] set_ratios@[i].ratio) > 0,
            forall|i: int, j: int|
                0 <= i < j < set_ratios@.len() ==> set_ratios@[i].token_id
                    != set_ratios@[j].token_id,
        ensures
            r is Err <==> set_initial_fee.owner_fee + set_initial_fee.platform_fee
                > FEE_DENOMINATOR,
            match r {
                Ok(c) => {
                    &&& c.wf()
                    &&& c.owner_id == owner_id
                    &&& c.set_info.ratios@ == set_ratios@
                    &&& c.set_info.fee == set_initial_fee
                    &&& forall|a: u64, t: u64| c.balances.balance(a, t) == 0
                    &&& forall|a: u64| c.token.balance(a) == 0
                    &&& c.token.spec_total_supply() == 0
                },
                Err(e) => e == ErrorKind::InvalidFeeConfiguration,
            },
    {
        let set_info = match SetInfo::new(set_ratios, set_initial_fee) {
            Ok(s) => s,
            Err(e) => {
                return Err(e);
            },
        };
        Ok(
            Contract {
                owner_id,
                token: TokenLedger::new(),
                balances: CreditLedger::new(),
                set_info,
            },
        )
    }

    /// Wraps `amount` (or the caller's maximum when absent) of the caller's
    /// underlying credits into composite units, debiting every ratio row
    /// and minting the fee-split shares to the caller, the owner, and the
    /// platform.  A failed wrap leaves every balance exactly as it was.
    pub fn wrap(&mut self, caller: u64, amount: Option<u128>) -> (r: Result<u128, ErrorKind>)
        requires
            old(self).wf(),
            ({
                let w = old(self).set_info.requested_amount(old(self).balances, caller, amount);
                w <= seq_max_amount(old(self).set_info.ratios@, old(self).balances, caller) ==> {
                    &&& old(self).token.balance(caller) + w <= u128::MAX
                    &&& old(self).token.balance(old(self).owner_id) + w <= u128::MAX
                    &&& old(self).token.balance(old(self).set_info.fee.platform_id) + w
                        <= u128::MAX
                    &&& old(self).token.spec_total_supply() + w <= u128::MAX
                }
            }),
        ensures
            final(self).wf(),
            final(self).owner_id == old(self).owner_id,
            final(self).set_info == old(self).set_info,
            ({
                let w = old(self).set_info.requested_amount(old(self).balances, caller, amount);
                let max = seq_max_amount(old(self).set_info.ratios@, old(self).balances, caller);
                &&& (r is Err <==> w > max || old(self).set_info.fee_overflows(w))
                &&& match r {
                    Ok(wrapped) => {
                        &&& wrapped == w
                        &&& wrap_debited(
                            old(self).balances,
                            final(self).balances,
                            old(self).set_info.ratios@,
                            caller,
                            w,
                        )
                        &&& forall|x: u64|
                            #[trigger] final(self).token.balance(x) == old(self).token.balance(x)
                                + old(self).set_info.minted_to(x, caller, old(self).owner_id, w)
                        &&& final(self).token.spec_total_supply() == old(
                            self,
                        ).token.spec_total_supply() + w
                    },
                    Err(e) => {
                        &&& final(self).balances == old(self).balances
                        &&& final(self).token == old(self).token
                        &&& (e == ErrorKind::ExceedsAvailable <==> w > max)
                        &&& (e == ErrorKind::FeeOverflow <==> w <= max && old(
                            self,
                        ).set_info.fee_overflows(w))
                        &&& (e == ErrorKind::ExceedsAvailable || e == ErrorKind::FeeOverflow)
                    },
                }
            }),
    {
        let owner = self.owner_id;
        self.set_info.wrap(caller, owner, &mut self.token, &mut self.balances, amount)
    }

    /// Replaces the owner fee.  Only the designated owner may update it;
    /// any other caller is rejected with `Unauthorized` before anything
    /// changes.
    pub fn update_owner_fee(&mut self, caller: u64, new_fee: u128) -> (r: Result<(), ErrorKind>)
        requires
            old(self).wf(),
        ensures
            final(self).wf(),
            r is Ok <==> caller == old(self).owner_id,
            match r {
                Ok(u) => {
                    &&& final(self).set_info.fee.owner_fee == new_fee
                    &&& final(self).set_info.fee.platform_fee == old(
                        self,
                    ).set_info.fee.platform_fee
                    &&& final(self).set_info.fee.platform_id == old(self).set_info.fee.platform_id
                    &&& final(self).set_info.ratios@ == old(self).set_info.ratios@
                    &&& final(self).token == old(self).token
                    &&& final(self).balances == old(self).balances
                    &&& final(self).owner_id == old(self).owner_id
                },
                Err(e) => e == ErrorKind::Unauthorized && *final(self) == *old(self),
            },
    {
        if caller != self.owner_id {
            return Err(ErrorKind::Unauthorized);
        }
        self.set_info.change_owner_fee(new_fee);
        Ok(())
    }

    /// Notification hook for a burn: `account_id` destroyed `amount`
    /// composite units, so the ratio-weighted backing credits are restored
    /// to it.  The composite-token ledger itself is settled by the issuer.
    pub fn on_tokens_burned(&mut self, account_id: u64, amount: u128)
        requires
            old(self).wf(),
            forall|i: int|
                0 <= i < old(self).set_info.ratios@.len() ==> old(self).balances.balance(
                    account_id,
                    #[trigger] old(self).set_info.ratios@[i].token_id,
                ) + old(self).set_info.ratios@[i].ratio * amount <= u128::MAX,
        ensures
            final(self).wf(),
            final(self).owner_id == old(self).owner_id,
            final(self).set_info == old(self).set_info,
            final(self).token == old(self).token,
            burn_credited(
                old(self).balances,
                final(self).balances,
                old(self).set_info.ratios@,
                account_id,
                amount,
            ),
    {
        self.set_info.on_burn(&mut self.balances, account_id, amount);
    }

    /// Notification hook for a closed account that still held `balance`
    /// composite units: the abandoned backing credits accrue to the
    /// platform account rather than being lost.
    #[allow(unused_variables)]
    pub fn on_account_closed(&mut self, account_id: u64, balance: u128)
        requires
            old(self).wf(),
            forall|i: int|
                0 <= i < old(self).set_info.ratios@.len() ==> old(self).balances.balance(
                    old(self).set_info.fee.platform_id,
                    #[trigger] old(self).set_info.ratios@[i].token_id,
                ) + old(self).set_info.ratios@[i].ratio * balance <= u128::MAX,
        ensures
            final(self).wf(),
            final(self).owner_id == old(self).owner_id,
            final(self).set_info == old(self).set_info,
            final(self).token == old(self).token,
            burn_credited(
                old(self).balances,
                final(self).balances,
                old(self).set_info.ratios@,
                old(self).set_info.fee.platform_id,
                balance,
            ),
    {
        let platform_id = self.set_info.fee.platform_id;
        self.set_info.on_burn(&mut self.balances, platform_id, balance);
    }
}

} // verus!
