use vstd::prelude::*;
use vstd::arithmetic::div_mod::lemma_div_pos_is_pos;
use crate::arith::{lemma_le_div_implies_mul_le, lemma_share_sum_le, mul_div};
use crate::credit_ledger::CreditLedger;
use crate::errors::ErrorKind;
use crate::token_ledger::TokenLedger;

verus! {

/// Fee rates are expressed as parts of this fixed denominator.
pub const FEE_DENOMINATOR: u128 = 1_000_000_000_000_000;

/// One ratio-table row: a unit of the composite requires `ratio` units of
/// the underlying asset `token_id`.
pub struct TokenWithRatio {
    pub token_id: u64,
    pub ratio: u32,
}

/// The fee policy for minting: the owner's and the platform's rates, as
/// parts of `FEE_DENOMINATOR`, and the platform account that receives the
/// platform's share.
pub struct FeeReceiver {
    /// The fee rate for the owner of the basket.
    pub owner_fee: u128,
    /// The fee rate for the platform which created the basket contract.
    pub platform_fee: u128,
    /// The platform account that receives the platform's share.
    pub platform_id: u64,
}

/// The share `floor(amount * fee / FEE_DENOMINATOR)` that a fee rate takes
/// out of a wrapped amount.
pub open spec fn fee_share(amount: u128, fee: u128) -> int {
    amount * fee / (FEE_DENOMINATOR as int)
}

/// Whether some row of a ratio table names the underlying asset `t`.
pub open spec fn has_token(ratios: Seq<TokenWithRatio>, t: u64) -> bool {
    exists|i: int| 0 <= i < ratios.len() && ratios[i].token_id == t
}

/// The largest composite amount that `account`'s credits support: the
/// minimum of `balance / ratio` across the rows, and the unbounded sentinel
/// `u128::MAX` over no rows.
pub open spec fn seq_max_amount(ratios: Seq<TokenWithRatio>, led: CreditLedger, account: u64) -> u128
    decreases ratios.len(),
{
    if ratios.len() == 0 {
        u128::MAX
    } else {
        let cand = led.balance(account, ratios[0].token_id) / (ratios[0].ratio as u128);
        let rest = seq_max_amount(ratios.drop_first(), led, account);
        if cand < rest {
            cand
        } else {
            rest
        }
    }
}

/// The max-wrappable amount is the bottleneck minimum: it is at most every
/// row's `balance / ratio`, and over a non-empty table some row attains it.
pub proof fn lemma_seq_max_amount_is_min(
    ratios: Seq<TokenWithRatio>,
    led: CreditLedger,
    account: u64,
)
    requires
        forall|i: int| 0 <= i < ratios.len() ==> (#[trigger] ratios[i].ratio) > 0,
    ensures
        forall|i: int|
            0 <= i < ratios.len() ==> seq_max_amount(ratios, led, account) <= led.balance(
                account,
                ratios[i].token_id,
            ) / (ratios[i].ratio as u128),
        ratios.len() > 0 ==> exists|i: int|
            0 <= i < ratios.len() && seq_max_amount(ratios, led, account) == led.balance(
                account,
                ratios[i].token_id,
            ) / (ratios[i].ratio as u128),
    decreases ratios.len(),
{
    if ratios.len() > 0 {
        assert forall|i: int|
            0 <= i < ratios.drop_first().len() implies (#[trigger] ratios.drop_first()[i].ratio)
            > 0 by {
            assert(ratios.drop_first()[i] == ratios[i + 1]);
        }
        lemma_seq_max_amount_is_min(ratios.drop_first(), led, account);
        let m = seq_max_amount(ratios, led, account);
        let cand = led.balance(account, ratios[0].token_id) / (ratios[0].ratio as u128);
        let rest = seq_max_amount(ratios.drop_first(), led, account);
        assert forall|i: int|
            0 <= i < ratios.len() implies m <= led.balance(account, ratios[i].token_id) / (
        ratios[i].ratio as u128) by {
            if i > 0 {
                assert(ratios.drop_first()[i - 1] == ratios[i]);
            }
        }
        if cand < rest {
            assert(m == led.balance(account, ratios[0].token_id) / (ratios[0].ratio as u128));
        } else if ratios.drop_first().len() == 0 {
            assert(rest == u128::MAX);
            assert(m == rest);
            vstd::arithmetic::div_mod::lemma_div_nonincreasing(
                led.balance(account, ratios[0].token_id) as int,
                ratios[0].ratio as int,
            );
            assert(cand <= u128::MAX);
            assert(m == led.balance(account, ratios[0].token_id) / (ratios[0].ratio as u128));
        } else {
            let j = choose|j: int|
                0 <= j < ratios.drop_first().len() && seq_max_amount(
                    ratios.drop_first(),
                    led,
                    account,
                ) == led.balance(account, ratios.drop_first()[j].token_id) / (
                ratios.drop_first()[j].ratio as u128);
            assert(ratios.drop_first()[j] == ratios[j + 1]);
            assert(m == led.balance(account, ratios[j + 1].token_id) / (
            ratios[j + 1].ratio as u128));
        }
    }
}

/// The credit-ledger effect of wrapping `amount`: for every row, the
/// account's credit for that row's asset drops by `ratio * amount`, and
/// every other balance is untouched.
pub open spec fn wrap_debited(
    l0: CreditLedger,
    l1: CreditLedger,
    ratios: Seq<TokenWithRatio>,
    account: u64,
    amount: u128,
) -> bool {
    &&& forall|i: int|
        0 <= i < ratios.len() ==> l1.balance(account, #[trigger] ratios[i].token_id) == l0.balance(
            account,
            ratios[i].token_id,
        ) - ratios[i].ratio * amount
    &&& forall|a: u64, t: u64|
        a != account || !has_token(ratios, t) ==> #[trigger] l1.balance(a, t) == l0.balance(a, t)
}

/// The credit-ledger effect of a burn of `amount`: for every row, the
/// account's credit for that row's asset grows by `ratio * amount`, and
/// every other balance is untouched.
pub open spec fn burn_credited(
    l0: CreditLedger,
    l1: CreditLedger,
    ratios: Seq<TokenWithRatio>,
    account: u64,
    amount: u128,
) -> bool {
    &&& forall|i: int|
        0 <= i < ratios.len() ==> l1.balance(account, #[trigger] ratios[i].token_id) == l0.balance(
            account,
            ratios[i].token_id,
        ) + ratios[i].ratio * amount
    &&& forall|a: u64, t: u64|
        a != account || !has_token(ratios, t) ==> #[trigger] l1.balance(a, t) == l0.balance(a, t)
}

/// The basket core: the ordered, immutable-after-creation ratio table and
/// the fee policy.
pub struct SetInfo {
    pub ratios: Vec<TokenWithRatio>,
    pub fee: FeeReceiver,
}

impl SetInfo {
    /// The table is non-empty, every ratio is positive (a zero ratio would
    /// make the max-amount quotient undefined), and no asset appears twice
    /// (a duplicate row would make the bottleneck bound unsound and a wrap
    /// would overdraw mid-debit).
    pub open spec fn wf(self) -> bool {
        &&& self.ratios@.len() > 0
        &&& forall|i: int| 0 <= i < self.ratios@.len() ==> (#[trigger] self.ratios@[i].ratio) > 0
        &&& forall|i: int, j: int|
            0 <= i < j < self.ratios@.len() ==> self.ratios@[i].token_id != self.ratios@[j].token_id
    }

    /// The owner's fee share of a wrap of `w`.
    pub open spec fn owner_share(self, w: u128) -> int {
        fee_share(w, self.fee.owner_fee)
    }

    /// The platform's fee share of a wrap of `w`.
    pub open spec fn platform_share(self, w: u128) -> int {
        fee_share(w, self.fee.platform_fee)
    }

    /// What the wrapping caller keeps of a wrap of `w`: the remainder after
    /// both fee shares, so truncation always favors the caller.
    pub open spec fn caller_share(self, w: u128) -> int {
        w - self.owner_share(w) - self.platform_share(w)
    }

    /// A wrap of `w` must fail when the two fee shares together exceed `w`,
    /// which a misconfigured owner fee can cause.
    pub open spec fn fee_overflows(self, w: u128) -> bool {
        self.owner_share(w) + self.platform_share(w) > w
    }

    /// The amount a wrap will attempt: the explicit request, or the
    /// max-wrappable amount when absent.
    pub open spec fn requested_amount(
        self,
        led: CreditLedger,
        caller: u64,
        amount: Option<u128>,
    ) -> u128 {
        match amount {
            Some(a) => a,
            None => seq_max_amount(self.ratios@, led, caller),
        }
    }

    /// The composite units a wrap of `w` mints to account `x`: the caller's,
    /// owner's and platform's shares land on the same account when those
    /// roles coincide.
    pub open spec fn minted_to(self, x: u64, caller: u64, owner: u64, w: u128) -> int {
        (if x == caller {
            self.caller_share(w)
        } else {
            0
        }) + (if x == owner {
            self.owner_share(w)
        } else {
            0
        }) + (if x == self.fee.platform_id {
            self.platform_share(w)
        } else {
            0
        })
    }

    /// Builds the basket core from a ratio table and an initial fee policy.
    /// Fails with `InvalidFeeConfiguration` exactly when the two fee rates
    /// together exceed the denominator (which covers either rate alone
    /// exceeding it).
    pub fn new(set_ratios: Vec<TokenWithRatio>, set_initial_fee: FeeReceiver) -> (r: Result<
        SetInfo,
        ErrorKind,
    >)
        requires
            set_ratios@.len() > 0,
            forall|i: int| 0 <= i < set_ratios@.len() ==> (#[trigger] set_ratios@[i].ratio) > 0,
            forall|i: int, j: int|
                0 <= i < j < set_ratios@.len() ==> set_ratios@[i].token_id
                    != set_ratios@[j].token_id,
        ensures
            r is Err <==> set_initial_fee.owner_fee + set_initial_fee.platform_fee
                > FEE_DENOMINATOR,
            match r {
                Ok(s) => s.wf() && s.ratios@ == set_ratios@ && s.fee == set_initial_fee,
                Err(e) => e == ErrorKind::InvalidFeeConfiguration,
            },
    {
        if set_initial_fee.owner_fee > FEE_DENOMINATOR
            || set_initial_fee.platform_fee > FEE_DENOMINATOR {
            return Err(ErrorKind::InvalidFeeConfiguration);
        }
        if set_initial_fee.owner_fee + set_initial_fee.platform_fee > FEE_DENOMINATOR {
            return Err(ErrorKind::InvalidFeeConfiguration);
        }
        Ok(SetInfo { ratios: set_ratios, fee: set_initial_fee })
    }

    /// Replaces the owner fee.  The new rate is not re-validated against the
    /// denominator here; a later wrap checks the resulting split at use and
    /// fails with `FeeOverflow` instead of underflowing.
    pub fn change_owner_fee(&mut self, new_fee: u128)
        requires
            old(self).wf(),
        ensures
            final(self).wf(),
            final(self).fee.owner_fee == new_fee,
            final(self).fee.platform_fee == old(self).fee.platform_fee,
            final(self).fee.platform_id == old(self).fee.platform_id,
            final(self).ratios@ == old(self).ratios@,
    {
        self.fee.owner_fee = new_fee;
    }

    /// Computes the largest composite amount `account_id` can mint right
    /// now: the minimum over all rows of the account's credit balance
    /// divided (truncating) by the row's ratio.
    pub fn get_max_amount(&self, balances: &CreditLedger, account_id: u64) -> (r: u128)
        requires
            self.wf(),
        ensures
            r == seq_max_amount(self.ratios@, *balances, account_id),
    {
        let mut min: u128 = u128::MAX;
        let mut i: usize = 0;
        while i < self.ratios.len()
            invariant
                self.wf(),
                i <= self.ratios@.len(),
                forall|k: int|
                    0 <= k < i ==> min <= balances.balance(
                        account_id,
                        #[trigger] self.ratios@[k].token_id,
                    ) / (self.ratios@[k].ratio as u128),
                i > 0 ==> exists|k: int|
                    0 <= k < i && min == balances.balance(
                        account_id,
                        #[trigger] self.ratios@[k].token_id,
                    ) / (self.ratios@[k].ratio as u128),
                i == 0 ==> min == u128::MAX,
            decreases self.ratios@.len() - i,
        {
            let row_token = self.ratios[i].token_id;
            let row_ratio = self.ratios[i].ratio;
            let bal = balances.read(account_id, row_token);
            let amount_out = bal / (row_ratio as u128);
            if amount_out < min {
                min = amount_out;
            }
            i = i + 1;
        }
        proof {
            lemma_seq_max_amount_is_min(self.ratios@, *balances, account_id);
            let m = seq_max_amount(self.ratios@, *balances, account_id);
            let k = choose|k: int|
                0 <= k < self.ratios@.len() && min == balances.balance(
                    account_id,
                    self.ratios@[k].token_id,
                ) / (self.ratios@[k].ratio as u128);
            let j = choose|j: int|
                0 <= j < self.ratios@.len() && m == balances.balance(
                    account_id,
                    self.ratios@[j].token_id,
                ) / (self.ratios@[j].ratio as u128);
            assert(m <= balances.balance(account_id, self.ratios@[k].token_id) / (
            self.ratios@[k].ratio as u128));
            assert(min <= balances.balance(account_id, self.ratios@[j].token_id) / (
            self.ratios@[j].ratio as u128));
        }
        min
    }

    /// Credits back, for every row, `ratio * amount` units of the row's
    /// asset to `account_id`: the structural inverse of the debit a wrap
    /// performs, independent of any fee (fees apply only on the mint path).
    pub fn on_burn(&self, balances: &mut CreditLedger, account_id: u64, amount: u128)
        requires
            self.wf(),
            old(balances).wf(),
            forall|i: int|
                0 <= i < self.ratios@.len() ==> old(balances).balance(
                    account_id,
                    #[trigger] self.ratios@[i].token_id,
                ) + self.ratios@[i].ratio * amount <= u128::MAX,
        ensures
            final(balances).wf(),
            burn_credited(*old(balances), *final(balances), self.ratios@, account_id, amount),
    {
        let mut i: usize = 0;
        while i < self.ratios.len()
            invariant
                self.wf(),
                balances.wf(),
                i <= self.ratios@.len(),
                forall|k: int|
                    0 <= k < self.ratios@.len() ==> old(balances).balance(
                        account_id,
                        #[trigger] self.ratios@[k].token_id,
                    ) + self.ratios@[k].ratio * amount <= u128::MAX,
                forall|k: int|
                    0 <= k < i ==> balances.balance(
                        account_id,
                        #[trigger] self.ratios@[k].token_id,
                    ) == old(balances).balance(account_id, self.ratios@[k].token_id)
                        + self.ratios@[k].ratio * amount,
                forall|k: int|
                    i <= k < self.ratios@.len() ==> balances.balance(
                        account_id,
                        #[trigger] self.ratios@[k].token_id,
                    ) == old(balances).balance(account_id, self.ratios@[k].token_id),
                forall|a: u64, t: u64|
                    a != account_id || !has_token(self.ratios@, t) ==> #[trigger] balances.balance(
                        a,
                        t,
                    ) == old(balances).balance(a, t),
            decreases self.ratios@.len() - i,
        {
            let row_token = self.ratios[i].token_id;
            let row_ratio = self.ratios[i].ratio;
            let incr = (row_ratio as u128) * amount;
            balances.increase(account_id, row_token, incr);
            i = i + 1;
        }
    }

    /// Debits, for every row, `ratio * amount_out` units of the row's asset
    /// from `account_id`.  The caller has established that every row's
    /// balance supports its debit, so no step can fail and the multi-asset
    /// debit completes as a whole.
    fn decrease_potentials(&self, balances: &mut CreditLedger, amount_out: u128, account_id: u64)
        requires
            self.wf(),
            old(balances).wf(),
            forall|i: int|
                0 <= i < self.ratios@.len() ==> self.ratios@[i].ratio * amount_out <= old(
                    balances,
                ).balance(account_id, #[trigger] self.ratios@[i].token_id),
        ensures
            final(balances).wf(),
            wrap_debited(*old(balances), *final(balances), self.ratios@, account_id, amount_out),
    {
        let mut i: usize = 0;
        while i < self.ratios.len()
            invariant
                self.wf(),
                balances.wf(),
                i <= self.ratios@.len(),
                forall|k: int|
                    0 <= k < self.ratios@.len() ==> self.ratios@[k].ratio * amount_out <= old(
                        balances,
                    ).balance(account_id, #[trigger] self.ratios@[k].token_id),
                forall|k: int|
                    0 <= k < i ==> balances.balance(
                        account_id,
                        #[trigger] self.ratios@[k].token_id,
                    ) == old(balances).balance(account_id, self.ratios@[k].token_id)
                        - self.ratios@[k].ratio * amount_out,
                forall|k: int|
                    i <= k < self.ratios@.len() ==> balances.balance(
                        account_id,
                        #[trigger] self.ratios@[k].token_id,
                    ) == old(balances).balance(account_id, self.ratios@[k].token_id),
                forall|a: u64, t: u64|
                    a != account_id || !has_token(self.ratios@, t) ==> #[trigger] balances.balance(
                        a,
                        t,
                    ) == old(balances).balance(a, t),
            decreases self.ratios@.len() - i,
        {
            let row_token = self.ratios[i].token_id;
            let row_ratio = self.ratios[i].ratio;
            let decr = (row_ratio as u128) * amount_out;
            let _res = balances.decrease(account_id, row_token, decr);
            i = i + 1;
        }
    }

    /// Wraps underlying credits into composite units.  All validation (the
    /// bottleneck maximum, the fee split) happens before any ledger is
    /// touched, so a failed wrap leaves every balance exactly as it was.
    ///
    /// On success the wrapped amount is debited from the caller's credits
    /// across every row, and the composite units are minted: the remainder
    /// to the caller, the owner's share to `owner`, and the platform's share
    /// to the fee policy's platform account.
    pub fn wrap(
        &self,
        caller: u64,
        owner: u64,
        ft: &mut TokenLedger,
        balances: &mut CreditLedger,
        amount: Option<u128>,
    ) -> (r: Result<u128, ErrorKind>)
        requires
            self.wf(),
            old(balances).wf(),
            old(ft).wf(),
            ({
                let w = self.requested_amount(*old(balances), caller, amount);
                w <= seq_max_amount(self.ratios@, *old(balances), caller) ==> {
                    &&& old(ft).balance(caller) + w <= u128::MAX
                    &&& old(ft).balance(owner) + w <= u128::MAX
                    &&& old(ft).balance(self.fee.platform_id) + w <= u128::MAX
                    &&& old(ft).spec_total_supply() + w <= u128::MAX
                }
            }),
        ensures
            final(balances).wf(),
            final(ft).wf(),
            ({
                let w = self.requested_amount(*old(balances), caller, amount);
                let max = seq_max_amount(self.ratios@, *old(balances), caller);
                &&& (r is Err <==> w > max || self.fee_overflows(w))
                &&& match r {
                    Ok(wrapped) => {
                        &&& wrapped == w
                        &&& wrap_debited(
                            *old(balances),
                            *final(balances),
                            self.ratios@,
                            caller,
                            w,
                        )
                        &&& forall|x: u64|
                            #[trigger] final(ft).balance(x) == old(ft).balance(x) + self.minted_to(
                                x,
                                caller,
                                owner,
                                w,
                            )
                        &&& final(ft).spec_total_supply() == old(ft).spec_total_supply() + w
                    },
                    Err(e) => {
                        &&& *final(balances) == *old(balances)
                        &&& *final(ft) == *old(ft)
                        &&& (e == ErrorKind::ExceedsAvailable <==> w > max)
                        &&& (e == ErrorKind::FeeOverflow <==> w <= max && self.fee_overflows(w))
                        &&& (e == ErrorKind::ExceedsAvailable || e == ErrorKind::FeeOverflow)
                    },
                }
            }),
    {
        let max_amount_wrapped = self.get_max_amount(balances, caller);
        let amount_wrap = match amount {
            Some(a) => a,
            None => max_amount_wrapped,
        };
        if amount_wrap > max_amount_wrapped {
            return Err(ErrorKind::ExceedsAvailable);
        }
        let owner_incr = match mul_div(amount_wrap, self.fee.owner_fee, FEE_DENOMINATOR) {
            Some(v) => v,
            None => {
                proof {
                    lemma_div_pos_is_pos(
                        amount_wrap * self.fee.platform_fee,
                        FEE_DENOMINATOR as int,
                    );
                }
                return Err(ErrorKind::FeeOverflow);
            },
        };
        let platform_incr = match mul_div(amount_wrap, self.fee.platform_fee, FEE_DENOMINATOR) {
            Some(v) => v,
            None => {
                return Err(ErrorKind::FeeOverflow);
            },
        };
        if owner_incr > amount_wrap || platform_incr > amount_wrap - owner_incr {
            return Err(ErrorKind::FeeOverflow);
        }
        let amount_wrap_caller = amount_wrap - owner_incr - platform_incr;
        proof {
            lemma_seq_max_amount_is_min(self.ratios@, *old(balances), caller);
            assert forall|i: int|
                0 <= i < self.ratios@.len() implies self.ratios@[i].ratio * amount_wrap <= old(
                balances,
            ).balance(caller, #[trigger] self.ratios@[i].token_id) by {
                lemma_le_div_implies_mul_le(
                    amount_wrap as int,
                    old(balances).balance(caller, self.ratios@[i].token_id) as int,
                    self.ratios@[i].ratio as int,
                );
            }
        }
        ft.mint(caller, amount_wrap_caller);
        ft.mint(owner, owner_incr);
        ft.mint(self.fee.platform_id, platform_incr);
        self.decrease_potentials(balances, amount_wrap, caller);
        Ok(amount_wrap)
    }
}

/// The fee split loses nothing: for any amount and any fee rates that together stay
/// within the denominator, the two fee shares never exceed the amount, and
/// the caller's remainder plus the two fee shares is exactly the amount.
pub proof fn lemma_fee_split_exact(amount: u128, owner_fee: u128, platform_fee: u128)
    requires
        owner_fee + platform_fee <= FEE_DENOMINATOR,
    ensures
        fee_share(amount, owner_fee) + fee_share(amount, platform_fee) <= amount,
        0 <= fee_share(amount, owner_fee),
        0 <= fee_share(amount, platform_fee),
        (amount - fee_share(amount, owner_fee) - fee_share(amount, platform_fee)) + fee_share(
            amount,
            owner_fee,
        ) + fee_share(amount, platform_fee) == amount,
{
    lemma_share_sum_le(
        amount as int,
        owner_fee as int,
        platform_fee as int,
        FEE_DENOMINATOR as int,
    );
    lemma_div_pos_is_pos(amount * owner_fee, FEE_DENOMINATOR as int);
    lemma_div_pos_is_pos(amount * platform_fee, FEE_DENOMINATOR as int);
}

/// Burning undoes wrapping: the debit a wrap of `amount` applies and the credit a
/// burn of the same `amount` applies cancel exactly, on every account and
/// asset, independent of any fee (fees move composite units, never
/// underlying credits).
pub proof fn lemma_wrap_burn_inverse(
    l0: CreditLedger,
    l1: CreditLedger,
    l2: CreditLedger,
    ratios: Seq<TokenWithRatio>,
    account: u64,
    amount: u128,
)
    requires
        wrap_debited(l0, l1, ratios, account, amount),
        burn_credited(l1, l2, ratios, account, amount),
    ensures
        forall|a: u64, t: u64| #[trigger] l2.balance(a, t) == l0.balance(a, t),
{
    assert forall|a: u64, t: u64| #[trigger] l2.balance(a, t) == l0.balance(a, t) by {
        if a == account && has_token(ratios, t) {
            let i = choose|i: int| 0 <= i < ratios.len() && ratios[i].token_id == t;
            assert(l1.balance(account, ratios[i].token_id) == l0.balance(
                account,
                ratios[i].token_id,
            ) - ratios[i].ratio * amount);
            assert(l2.balance(account, ratios[i].token_id) == l1.balance(
                account,
                ratios[i].token_id,
            ) + ratios[i].ratio * amount);
        }
    }
}

/// Burning under fees: after a wrap of `w` and a burn of only
/// `burned` of it (the caller's composite balance is `w` less the fee
/// shares), each ratio asset's credit balance sits exactly
/// `ratio * (w - burned)` below its pre-wrap value, and every other balance
/// is unchanged.  With zero fees, `burned == w` and the restoration is
/// exact.
pub proof fn lemma_wrap_burn_deficit(
    l0: CreditLedger,
    l1: CreditLedger,
    l2: CreditLedger,
    ratios: Seq<TokenWithRatio>,
    account: u64,
    w: u128,
    burned: u128,
)
    requires
        burned <= w,
        wrap_debited(l0, l1, ratios, account, w),
        burn_credited(l1, l2, ratios, account, burned),
    ensures
        forall|i: int|
            0 <= i < ratios.len() ==> l2.balance(account, #[trigger] ratios[i].token_id)
                == l0.balance(account, ratios[i].token_id) - ratios[i].ratio * (w - burned),
        forall|a: u64, t: u64|
            a != account || !has_token(ratios, t) ==> #[trigger] l2.balance(a, t) == l0.balance(
                a,
                t,
            ),
{
    assert forall|i: int|
        0 <= i < ratios.len() implies l2.balance(account, #[trigger] ratios[i].token_id)
        == l0.balance(account, ratios[i].token_id) - ratios[i].ratio * (w - burned) by {
        vstd::arithmetic::mul::lemma_mul_is_distributive_sub(
            ratios[i].ratio as int,
            w as int,
            burned as int,
        );
    }
}

} // verus!
