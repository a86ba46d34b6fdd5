use vstd::prelude::*;

verus! {

/// One composite-token record: `account` holds `amount` composite units.
pub struct TokenEntry {
    pub account: u64,
    pub amount: u128,
}

/// The balance that a sequence of records gives to `account`: the amount of
/// the first matching record, and zero when none matches.
pub open spec fn seq_tokens(s: Seq<TokenEntry>, account: u64) -> u128
    decreases s.len(),
{
    if s.len() == 0 {
        0
    } else if s[0].account == account {
        s[0].amount
    } else {
        seq_tokens(s.drop_first(), account)
    }
}

proof fn lemma_seq_tokens_first_match(s: Seq<TokenEntry>, account: u64, i: int)
    requires
        0 <= i < s.len(),
        s[i].account == account,
        forall|k: int| 0 <= k < i ==> s[k].account != account,
    ensures
        seq_tokens(s, account) == s[i].amount,
    decreases i,
{
    if i > 0 {
        lemma_seq_tokens_first_match(s.drop_first(), account, i - 1);
    }
}

proof fn lemma_seq_tokens_no_match(s: Seq<TokenEntry>, account: u64)
    requires
        forall|k: int| 0 <= k < s.len() ==> s[k].account != account,
    ensures
        seq_tokens(s, account) == 0,
    decreases s.len(),
{
    if s.len() > 0 {
        lemma_seq_tokens_no_match(s.drop_first(), account);
    }
}

proof fn lemma_seq_tokens_update_match(s: Seq<TokenEntry>, i: int, e: TokenEntry, account: u64)
    requires
        0 <= i < s.len(),
        s[i].account == account,
        e.account == account,
        forall|k: int| 0 <= k < i ==> s[k].account != account,
    ensures
        seq_tokens(s.update(i, e), account) == e.amount,
    decreases i,
{
    if i == 0 {
        assert(s.update(i, e)[0] == e);
    } else {
        assert(s.update(i, e).drop_first() =~= s.drop_first().update(i - 1, e));
        lemma_seq_tokens_update_match(s.drop_first(), i - 1, e, account);
    }
}

proof fn lemma_seq_tokens_update_other(s: Seq<TokenEntry>, i: int, e: TokenEntry, account: u64)
    requires
        0 <= i < s.len(),
        e.account == s[i].account,
        s[i].account != account,
    ensures
        seq_tokens(s.update(i, e), account) == seq_tokens(s, account),
    decreases s.len(),
{
    let t = s.update(i, e);
    if i == 0 {
        assert(t[0] == e);
        assert(t.drop_first() =~= s.drop_first());
    } else {
        assert(t[0] == s[0]);
        if s[0].account != account {
            assert(t.drop_first() =~= s.drop_first().update(i - 1, e));
            lemma_seq_tokens_update_other(s.drop_first(), i - 1, e, account);
        }
    }
}

proof fn lemma_seq_tokens_push_fresh(s: Seq<TokenEntry>, e: TokenEntry)
    requires
        forall|k: int| 0 <= k < s.len() ==> s[k].account != e.account,
    ensures
        seq_tokens(s.push(e), e.account) == e.amount,
    decreases s.len(),
{
    if s.len() == 0 {
        assert(s.push(e)[0] == e);
    } else {
        assert(s.push(e)[0] == s[0]);
        assert(s.push(e).drop_first() =~= s.drop_first().push(e));
        lemma_seq_tokens_push_fresh(s.drop_first(), e);
    }
}

proof fn lemma_seq_tokens_push_other(s: Seq<TokenEntry>, e: TokenEntry, account: u64)
    requires
        e.account != account,
    ensures
        seq_tokens(s.push(e), account) == seq_tokens(s, account),
    decreases s.len(),
{
    if s.len() == 0 {
        assert(s.push(e)[0] == e);
        assert(s.push(e).drop_first() =~= Seq::<TokenEntry>::empty());
        assert(seq_tokens(Seq::<TokenEntry>::empty(), account) == 0);
    } else {
        assert(s.push(e)[0] == s[0]);
        if s[0].account == account {
            assert(seq_tokens(s.push(e), account) == s[0].amount);
            assert(seq_tokens(s, account) == s[0].amount);
        } else {
            assert(s.push(e).drop_first() =~= s.drop_first().push(e));
            lemma_seq_tokens_push_other(s.drop_first(), e, account);
            assert(seq_tokens(s.push(e), account) == seq_tokens(s.drop_first().push(e), account));
        }
    }
}

/// The composite-token ledger: per-account balances of the issued unit,
/// together with the total amount ever minted.
pub struct TokenLedger {
    entries: Vec<TokenEntry>,
    total: u128,
}

impl TokenLedger {
    /// No two records share an account, so each balance lives in one record.
    pub closed spec fn wf(self) -> bool {
        forall|i: int, j: int|
            0 <= i < j < self.entries@.len()
                ==> self.entries@[i].account != self.entries@[j].account
    }

    /// The composite-token balance of `account`; zero when no record exists.
    pub closed spec fn balance(self, account: u64) -> u128 {
        seq_tokens(self.entries@, account)
    }

    /// The total supply of the composite token.
    pub closed spec fn spec_total_supply(self) -> u128 {
        self.total
    }

    /// A ledger with every balance zero and no supply.
    pub fn new() -> (r: TokenLedger)
        ensures
            r.wf(),
            r.spec_total_supply() == 0,
            forall|a: u64| r.balance(a) == 0,
    {
        let r = TokenLedger { entries: Vec::new(), total: 0 };
        proof {
            assert forall|a: u64| r.balance(a) == 0 by {
                lemma_seq_tokens_no_match(r.entries@, a);
            }
        }
        r
    }

    /// The index of the record for `account`, if one exists.
    fn find(&self, account: u64) -> (r: Option<usize>)
        ensures
            match r {
                Some(i) => i < self.entries@.len() && self.entries@[i as int].account == account
                    && forall|k: int| 0 <= k < i ==> self.entries@[k].account != account,
                None => forall|k: int|
                    0 <= k < self.entries@.len() ==> self.entries@[k].account != account,
            },
    {
        let mut i: usize = 0;
        while i < self.entries.len()
            invariant
                i <= self.entries@.len(),
                forall|k: int| 0 <= k < i ==> self.entries@[k].account != account,
            decreases self.entries@.len() - i,
        {
            if self.entries[i].account == account {
                return Some(i);
            }
            i = i + 1;
        }
        None
    }

    /// Reads the composite-token balance of `account`.
    pub fn balance_of(&self, account: u64) -> (r: u128)
        ensures
            r == self.balance(account),
    {
        match self.find(account) {
            Some(i) => {
                proof {
                    lemma_seq_tokens_first_match(self.entries@, account, i as int);
                }
                self.entries[i].amount
            },
            None => {
                proof {
                    lemma_seq_tokens_no_match(self.entries@, account);
                }
                0
            },
        }
    }

    /// Reads the total supply of the composite token.
    pub fn total_supply(&self) -> (r: u128)
        ensures
            r == self.spec_total_supply(),
    {
        self.total
    }

    /// Credits `amount` freshly minted composite units to `account`.  Every
    /// other balance is untouched and the total supply grows by `amount`.
    pub fn mint(&mut self, account: u64, amount: u128)
        requires
            old(self).wf(),
            old(self).balance(account) + amount <= u128::MAX,
            old(self).spec_total_supply() + amount <= u128::MAX,
        ensures
            final(self).wf(),
            final(self).balance(account) == old(self).balance(account) + amount,
            forall|a: u64| a != account ==> final(self).balance(a) == old(self).balance(a),
            final(self).spec_total_supply() == old(self).spec_total_supply() + amount,
    {
        self.total = self.total + amount;
        match self.find(account) {
            Some(i) => {
                proof {
                    lemma_seq_tokens_first_match(self.entries@, account, i as int);
                }
                let new_entry = TokenEntry { account, amount: self.entries[i].amount + amount };
                let ghost s = self.entries@;
                self.entries.set(i, new_entry);
                proof {
                    lemma_seq_tokens_update_match(s, i as int, new_entry, account);
                    assert forall|a: u64| a != account implies #[trigger] final(self).balance(a)
                        == old(self).balance(a) by {
                        lemma_seq_tokens_update_other(s, i as int, new_entry, a);
                    }
                }
            },
            None => {
                proof {
                    lemma_seq_tokens_no_match(self.entries@, account);
                }
                let new_entry = TokenEntry { account, amount };
                let ghost s = self.entries@;
                self.entries.push(new_entry);
                proof {
                    lemma_seq_tokens_push_fresh(s, new_entry);
                    assert forall|a: u64| a != account implies #[trigger] final(self).balance(a)
                        == old(self).balance(a) by {
                        lemma_seq_tokens_push_other(s, new_entry, a);
                    }
                }
            },
        }
    }
}

} // verus!
