use vstd::prelude::*;
use crate::errors::ErrorKind;

verus! {

/// One credit-ledger record: `account` holds `amount` units of the
/// underlying asset `token`.
pub struct CreditEntry {
    pub account: u64,
    pub token: u64,
    pub amount: u128,
}

/// Whether a record carries the balance of `(account, token)`.
pub open spec fn credit_key_is(e: CreditEntry, account: u64, token: u64) -> bool {
    e.account == account && e.token == token
}

/// The balance that a sequence of records gives to `(account, token)`: the
/// amount of the first matching record, and zero when none matches.
pub open spec fn seq_credit(s: Seq<CreditEntry>, account: u64, token: u64) -> u128
    decreases s.len(),
{
    if s.len() == 0 {
        0
    } else if credit_key_is(s[0], account, token) {
        s[0].amount
    } else {
        seq_credit(s.drop_first(), account, token)
    }
}

proof fn lemma_seq_credit_first_match(s: Seq<CreditEntry>, account: u64, token: u64, i: int)
    requires
        0 <= i < s.len(),
        credit_key_is(s[i], account, token),
        forall|k: int| 0 <= k < i ==> !credit_key_is(s[k], account, token),
    ensures
        seq_credit(s, account, token) == s[i].amount,
    decreases i,
{
    if i > 0 {
        lemma_seq_credit_first_match(s.drop_first(), account, token, i - 1);
    }
}

proof fn lemma_seq_credit_no_match(s: Seq<CreditEntry>, account: u64, token: u64)
    requires
        forall|k: int| 0 <= k < s.len() ==> !credit_key_is(s[k], account, token),
    ensures
        seq_credit(s, account, token) == 0,
    decreases s.len(),
{
    if s.len() > 0 {
        lemma_seq_credit_no_match(s.drop_first(), account, token);
    }
}

proof fn lemma_seq_credit_update_match(
    s: Seq<CreditEntry>,
    i: int,
    e: CreditEntry,
    account: u64,
    token: u64,
)
    requires
        0 <= i < s.len(),
        credit_key_is(s[i], account, token),
        credit_key_is(e, account, token),
        forall|k: int| 0 <= k < i ==> !credit_key_is(s[k], account, token),
    ensures
        seq_credit(s.update(i, e), account, token) == e.amount,
    decreases i,
{
    if i == 0 {
        assert(s.update(i, e)[0] == e);
    } else {
        assert(s.update(i, e).drop_first() =~= s.drop_first().update(i - 1, e));
        lemma_seq_credit_update_match(s.drop_first(), i - 1, e, account, token);
    }
}

proof fn lemma_seq_credit_update_other(
    s: Seq<CreditEntry>,
    i: int,
    e: CreditEntry,
    account: u64,
    token: u64,
)
    requires
        0 <= i < s.len(),
        e.account == s[i].account,
        e.token == s[i].token,
        !credit_key_is(s[i], account, token),
    ensures
        seq_credit(s.update(i, e), account, token) == seq_credit(s, account, token),
    decreases s.len(),
{
    let t = s.update(i, e);
    if i == 0 {
        assert(t[0] == e);
        assert(t.drop_first() =~= s.drop_first());
    } else {
        assert(t[0] == s[0]);
        if !credit_key_is(s[0], account, token) {
            assert(t.drop_first() =~= s.drop_first().update(i - 1, e));
            lemma_seq_credit_update_other(s.drop_first(), i - 1, e, account, token);
        }
    }
}

proof fn lemma_seq_credit_push_fresh(s: Seq<CreditEntry>, e: CreditEntry)
    requires
        forall|k: int| 0 <= k < s.len() ==> !credit_key_is(s[k], e.account, e.token),
    ensures
        seq_credit(s.push(e), e.account, e.token) == e.amount,
    decreases s.len(),
{
    if s.len() == 0 {
        assert(s.push(e)[0] == e);
    } else {
        assert(s.push(e)[0] == s[0]);
        assert(s.push(e).drop_first() =~= s.drop_first().push(e));
        lemma_seq_credit_push_fresh(s.drop_first(), e);
    }
}

proof fn lemma_seq_credit_push_other(s: Seq<CreditEntry>, e: CreditEntry, account: u64, token: u64)
    requires
        !credit_key_is(e, account, token),
    ensures
        seq_credit(s.push(e), account, token) == seq_credit(s, account, token),
    decreases s.len(),
{
    if s.len() == 0 {
        assert(s.push(e)[0] == e);
        assert(s.push(e).drop_first() =~= Seq::<CreditEntry>::empty());
        assert(seq_credit(Seq::<CreditEntry>::empty(), account, token) == 0);
    } else {
        assert(s.push(e)[0] == s[0]);
        if credit_key_is(s[0], account, token) {
            assert(seq_credit(s.push(e), account, token) == s[0].amount);
            assert(seq_credit(s, account, token) == s[0].amount);
        } else {
            assert(s.push(e).drop_first() =~= s.drop_first().push(e));
            lemma_seq_credit_push_other(s.drop_first(), e, account, token);
            assert(seq_credit(s.push(e), account, token) == seq_credit(
                s.drop_first().push(e),
                account,
                token,
            ));
        }
    }
}

/// The per-account, per-asset credit balance store: a key-value store from
/// `(account, token)` to an unsigned amount, with a zero default.
pub struct CreditLedger {
    entries: Vec<CreditEntry>,
}

impl CreditLedger {
    /// No two records share a key, so each balance lives in one record.
    pub closed spec fn wf(self) -> bool {
        forall|i: int, j: int|
            0 <= i < j < self.entries@.len()
                ==> !(self.entries@[i].account == self.entries@[j].account
                    && self.entries@[i].token == self.entries@[j].token)
    }

    /// The balance of `(account, token)`; zero when no record exists.
    pub closed spec fn balance(self, account: u64, token: u64) -> u128 {
        seq_credit(self.entries@, account, token)
    }

    /// A ledger with every balance zero.
    pub fn new() -> (r: CreditLedger)
        ensures
            r.wf(),
            forall|a: u64, t: u64| r.balance(a, t) == 0,
    {
        let r = CreditLedger { entries: Vec::new() };
        proof {
            assert forall|a: u64, t: u64| r.balance(a, t) == 0 by {
                lemma_seq_credit_no_match(r.entries@, a, t);
            }
        }
        r
    }

    /// The index of the record for `(account, token)`, if one exists.
    fn find(&self, account: u64, token: u64) -> (r: Option<usize>)
        ensures
            match r {
                Some(i) => i < self.entries@.len()
                    && credit_key_is(self.entries@[i as int], account, token)
                    && forall|k: int| 0 <= k < i ==> !credit_key_is(self.entries@[k], account, token),
                None => forall|k: int|
                    0 <= k < self.entries@.len() ==> !credit_key_is(self.entries@[k], account, token),
            },
    {
        let mut i: usize = 0;
        while i < self.entries.len()
            invariant
                i <= self.entries@.len(),
                forall|k: int| 0 <= k < i ==> !credit_key_is(self.entries@[k], account, token),
            decreases self.entries@.len() - i,
        {
            if self.entries[i].account == account && self.entries[i].token == token {
                return Some(i);
            }
            i = i + 1;
        }
        None
    }

    /// Reads the balance of `(account, token)`; zero if no record exists.
    pub fn read(&self, account: u64, token: u64) -> (r: u128)
        ensures
            r == self.balance(account, token),
    {
        match self.find(account, token) {
            Some(i) => {
                proof {
                    lemma_seq_credit_first_match(self.entries@, account, token, i as int);
                }
                self.entries[i].amount
            },
            None => {
                proof {
                    lemma_seq_credit_no_match(self.entries@, account, token);
                }
                0
            },
        }
    }

    /// Unconditionally credits `amount` to `(account, token)`.  Every other
    /// balance is untouched.
    pub fn increase(&mut self, account: u64, token: u64, amount: u128)
        requires
            old(self).wf(),
            old(self).balance(account, token) + amount <= u128::MAX,
        ensures
            final(self).wf(),
            final(self).balance(account, token) == old(self).balance(account, token) + amount,
            forall|a: u64, t: u64|
                !(a == account && t == token) ==> final(self).balance(a, t) == old(self).balance(a, t),
    {
        match self.find(account, token) {
            Some(i) => {
                proof {
                    lemma_seq_credit_first_match(self.entries@, account, token, i as int);
                }
                let new_entry = CreditEntry {
                    account,
                    token,
                    amount: self.entries[i].amount + amount,
                };
                let ghost s = self.entries@;
                self.entries.set(i, new_entry);
                proof {
                    lemma_seq_credit_update_match(s, i as int, new_entry, account, token);
                    assert forall|a: u64, t: u64| !(a == account && t == token)
                        implies #[trigger] final(self).balance(a, t) == old(self).balance(a, t) by {
                        lemma_seq_credit_update_other(s, i as int, new_entry, a, t);
                    }
                }
            },
            None => {
                proof {
                    lemma_seq_credit_no_match(self.entries@, account, token);
                }
                let new_entry = CreditEntry { account, token, amount };
                let ghost s = self.entries@;
                self.entries.push(new_entry);
                proof {
                    lemma_seq_credit_push_fresh(s, new_entry);
                    assert forall|a: u64, t: u64| !(a == account && t == token)
                        implies #[trigger] final(self).balance(a, t) == old(self).balance(a, t) by {
                        lemma_seq_credit_push_other(s, new_entry, a, t);
                    }
                }
            },
        }
    }

    /// Debits `amount` from `(account, token)`, failing with
    /// `InsufficientBalance`, and leaving the ledger untouched, exactly when
    /// `amount` exceeds the current balance.  Every other balance is
    /// untouched.
    pub fn decrease(&mut self, account: u64, token: u64, amount: u128) -> (r: Result<
        (),
        ErrorKind,
    >)
        requires
            old(self).wf(),
        ensures
            final(self).wf(),
            r is Ok <==> amount <= old(self).balance(account, token),
            match r {
                Ok(u) => final(self).balance(account, token) == old(self).balance(
                    account,
                    token,
                ) - amount && forall|a: u64, t: u64|
                    !(a == account && t == token) ==> final(self).balance(a, t) == old(
                        self,
                    ).balance(a, t),
                Err(e) => e == ErrorKind::InsufficientBalance && *final(self) == *old(self),
            },
    {
        match self.find(account, token) {
            Some(i) => {
                proof {
                    lemma_seq_credit_first_match(self.entries@, account, token, i as int);
                }
                let current = self.entries[i].amount;
                if amount > current {
                    return Err(ErrorKind::InsufficientBalance);
                }
                let new_entry = CreditEntry { account, token, amount: current - amount };
                let ghost s = self.entries@;
                self.entries.set(i, new_entry);
                proof {
                    lemma_seq_credit_update_match(s, i as int, new_entry, account, token);
                    assert forall|a: u64, t: u64| !(a == account && t == token)
                        implies #[trigger] final(self).balance(a, t) == old(self).balance(a, t) by {
                        lemma_seq_credit_update_other(s, i as int, new_entry, a, t);
                    }
                }
                Ok(())
            },
            None => {
                proof {
                    lemma_seq_credit_no_match(self.entries@, account, token);
                }
                if amount > 0 {
                    Err(ErrorKind::InsufficientBalance)
                } else {
                    Ok(())
                }
            },
        }
    }
}

} // verus!
