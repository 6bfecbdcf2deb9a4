//! The funds ledger: per-account spendable and held balances.
//!
//! Models the host's accounting capability: `reserve` places a hold on
//! an account's spendable funds, and `transfer` settles held funds into
//! a recipient's spendable balance. Every operation either fully
//! commits or fails with the ledger unchanged.

use vstd::prelude::*;
use crate::types::{AccountId, Balance, Error};

verus! {

/// An account's position: spendable funds and funds held on reserve.
#[derive(Clone, Copy, PartialEq, Eq, Structural, Debug)]
pub struct AccountBalance {
    /// Funds the account may still commit.
    pub free: Balance,
    /// Funds held against future settlement.
    pub reserved: Balance,
}

/// One account record.
pub struct AccountEntry {
    pub account: AccountId,
    pub balance: AccountBalance,
}

/// What a sequence of account entries says about a given account.
pub open spec fn acct_lookup(s: Seq<AccountEntry>, account: AccountId) -> Option<AccountBalance>
    decreases s.len(),
{
    if s.len() == 0 {
        None
    } else if s.last().account == account {
        Some(s.last().balance)
    } else {
        acct_lookup(s.drop_last(), account)
    }
}

/// Entries carry pairwise-distinct accounts.
pub open spec fn distinct_accounts(s: Seq<AccountEntry>) -> bool {
    forall|i: int, j: int| 0 <= i < j < s.len() ==> s[i].account != s[j].account
}

/// Every account's total position fits the balance type.
pub open spec fn bounded_balances(s: Seq<AccountEntry>) -> bool {
    forall|i: int|
        0 <= i < s.len() ==> s[i].balance.free + s[i].balance.reserved <= u128::MAX
}

proof fn lemma_acct_lookup_at(s: Seq<AccountEntry>, i: int)
    requires
        distinct_accounts(s),
        0 <= i < s.len(),
    ensures
        acct_lookup(s, s[i].account) == Some(s[i].balance),
    decreases s.len(),
{
    if i < s.len() - 1 {
        assert(s.drop_last()[i] == s[i]);
        lemma_acct_lookup_at(s.drop_last(), i);
    }
}

proof fn lemma_acct_lookup_absent(s: Seq<AccountEntry>, account: AccountId)
    requires
        forall|i: int| 0 <= i < s.len() ==> s[i].account != account,
    ensures
        acct_lookup(s, account) is None,
    decreases s.len(),
{
    if s.len() > 0 {
        lemma_acct_lookup_absent(s.drop_last(), account);
    }
}

proof fn lemma_acct_lookup_update(s: Seq<AccountEntry>, i: int, e: AccountEntry, account: AccountId)
    requires
        distinct_accounts(s),
        0 <= i < s.len(),
        e.account == s[i].account,
    ensures
        acct_lookup(s.update(i, e), account) == if account == e.account {
            Some(e.balance)
        } else {
            acct_lookup(s, account)
        },
    decreases s.len(),
{
    let s2 = s.update(i, e);
    if i == s.len() - 1 {
        assert(s2.drop_last() =~= s.drop_last());
    } else {
        assert(s2.drop_last() =~= s.drop_last().update(i, e));
        lemma_acct_lookup_update(s.drop_last(), i, e, account);
    }
}

proof fn lemma_acct_lookup_push(s: Seq<AccountEntry>, e: AccountEntry, account: AccountId)
    ensures
        acct_lookup(s.push(e), account) == if account == e.account {
            Some(e.balance)
        } else {
            acct_lookup(s, account)
        },
{
    assert(s.push(e).drop_last() =~= s);
}

/// A position found by lookup obeys the ledger's balance bound.
proof fn lemma_acct_lookup_bounded(s: Seq<AccountEntry>, account: AccountId)
    requires
        bounded_balances(s),
        acct_lookup(s, account) is Some,
    ensures
        acct_lookup(s, account)->0.free + acct_lookup(s, account)->0.reserved <= u128::MAX,
    decreases s.len(),
{
    if s.len() > 0 && s.last().account != account {
        lemma_acct_lookup_bounded(s.drop_last(), account);
    }
}

/// The funds ledger: the accounts and their positions.
pub struct FundsLedger {
    entries: Vec<AccountEntry>,
}

impl FundsLedger {
    /// Accounts are pairwise distinct and every position fits the
    /// balance type.
    pub closed spec fn wf(self) -> bool {
        &&& distinct_accounts(self.entries@)
        &&& bounded_balances(self.entries@)
    }

    /// The position held for an account, if any.
    pub closed spec fn spec_get(self, account: AccountId) -> Option<AccountBalance> {
        acct_lookup(self.entries@, account)
    }

    /// The account's spendable funds; zero where no account exists.
    pub open spec fn free_of(self, account: AccountId) -> nat {
        match self.spec_get(account) {
            Some(b) => b.free as nat,
            None => 0,
        }
    }

    /// The account's held funds; zero where no account exists.
    pub open spec fn reserved_of(self, account: AccountId) -> nat {
        match self.spec_get(account) {
            Some(b) => b.reserved as nat,
            None => 0,
        }
    }

    /// Every position a well-formed ledger holds fits the balance type.
    pub proof fn lemma_position_bounded(self, account: AccountId)
        requires
            self.wf(),
        ensures
            self.free_of(account) + self.reserved_of(account) <= u128::MAX,
    {
        if self.spec_get(account) is Some {
            lemma_acct_lookup_bounded(self.entries@, account);
        }
    }

    /// An empty ledger.
    pub fn new() -> (s: Self)
        ensures
            s.wf(),
            forall|a: AccountId| s.spec_get(a) is None,
    {
        let s = FundsLedger { entries: Vec::new() };
        proof {
            assert forall|a: AccountId| s.spec_get(a) is None by {
                lemma_acct_lookup_absent(s.entries@, a);
            }
        }
        s
    }

    /// Pure lookup of an account's position.
    pub fn get(&self, account: AccountId) -> (r: Option<AccountBalance>)
        requires
            self.wf(),
        ensures
            r == self.spec_get(account),
    {
        let n = self.entries.len();
        let mut j: usize = 0;
        while j < n
            invariant
                n == self.entries@.len(),
                j <= n,
                forall|k: int| 0 <= k < j ==> self.entries@[k].account != account,
                self.wf(),
            decreases n - j,
        {
            if self.entries[j].account == account {
                proof {
                    lemma_acct_lookup_at(self.entries@, j as int);
                }
                return Some(self.entries[j].balance);
            }
            j += 1;
        }
        proof {
            lemma_acct_lookup_absent(self.entries@, account);
        }
        None
    }

    /// Creates the account or overwrites its position. Private: the
    /// public operations keep every position within the balance type.
    fn put(&mut self, account: AccountId, balance: AccountBalance)
        requires
            old(self).wf(),
            balance.free + balance.reserved <= u128::MAX,
        ensures
            final(self).wf(),
            final(self).spec_get(account) == Some(balance),
            forall|a: AccountId|
                a != account ==> final(self).spec_get(a) == old(self).spec_get(a),
    {
        let e = AccountEntry { account, balance };
        let n = self.entries.len();
        let mut j: usize = 0;
        while j < n
            invariant
                n == self.entries@.len(),
                j <= n,
                forall|k: int| 0 <= k < j ==> self.entries@[k].account != account,
                self == old(self),
                self.wf(),
                e == (AccountEntry { account, balance }),
                balance.free + balance.reserved <= u128::MAX,
            decreases n - j,
        {
            if self.entries[j].account == account {
                proof {
                    let s0 = self.entries@;
                    assert forall|a: AccountId|
                        acct_lookup(s0.update(j as int, e), a) == if a == account {
                            Some(balance)
                        } else {
                            acct_lookup(s0, a)
                        } by {
                        lemma_acct_lookup_update(s0, j as int, e, a);
                    }
                    assert forall|k: int|
                        0 <= k < s0.update(j as int, e).len() implies s0.update(j as int, e)[k].balance.free
                        + s0.update(j as int, e)[k].balance.reserved <= u128::MAX by {
                        if k != j as int {
                            assert(s0.update(j as int, e)[k] == s0[k]);
                        }
                    }
                }
                self.entries[j] = e;
                return;
            }
            j += 1;
        }
        proof {
            let s0 = self.entries@;
            assert forall|a: AccountId|
                acct_lookup(s0.push(e), a) == if a == account {
                    Some(balance)
                } else {
                    acct_lookup(s0, a)
                } by {
                lemma_acct_lookup_push(s0, e, a);
            }
            assert(bounded_balances(s0.push(e)));
        }
        self.entries.push(e);
    }

    /// Credits spendable funds to an account, creating it if absent;
    /// fails closed where the position would no longer fit the balance
    /// type.
    pub fn endow(&mut self, account: AccountId, amount: Balance) -> (r: Result<(), Error>)
        requires
            old(self).wf(),
        ensures
            final(self).wf(),
            r is Ok <==> old(self).free_of(account) + old(self).reserved_of(account) + amount
                <= u128::MAX,
            r is Err ==> *final(self) == *old(self) && r->Err_0 == Error::ArithmeticOverflow,
            r is Ok ==> {
                &&& final(self).spec_get(account) == Some(
                    AccountBalance {
                        free: (old(self).free_of(account) + amount) as u128,
                        reserved: old(self).reserved_of(account) as u128,
                    },
                )
                &&& forall|a: AccountId|
                    a != account ==> final(self).spec_get(a) == old(self).spec_get(a)
            },
    {
        match self.get(account) {
            None => {
                self.put(account, AccountBalance { free: amount, reserved: 0 });
                Ok(())
            },
            Some(b) => {
                match b.free.checked_add(amount) {
                    None => Err(Error::ArithmeticOverflow),
                    Some(free) => {
                        if b.reserved > u128::MAX - free {
                            Err(Error::ArithmeticOverflow)
                        } else {
                            self.put(account, AccountBalance { free, reserved: b.reserved });
                            Ok(())
                        }
                    },
                }
            },
        }
    }

    /// Places a hold of `amount` on the account's spendable funds.
    /// Succeeds exactly where the account exists and has the spendable
    /// funds; a held total never outgrows the balance type.
    pub fn reserve(&mut self, account: AccountId, amount: Balance) -> (r: Result<(), Error>)
        requires
            old(self).wf(),
        ensures
            final(self).wf(),
            r is Ok <==> old(self).spec_get(account) is Some && amount <= old(self).free_of(
                account,
            ),
            r is Err ==> *final(self) == *old(self) && r->Err_0 == Error::InsufficientFunds,
            r is Ok ==> {
                &&& final(self).spec_get(account) == Some(
                    AccountBalance {
                        free: (old(self).free_of(account) - amount) as u128,
                        reserved: (old(self).reserved_of(account) + amount) as u128,
                    },
                )
                &&& forall|a: AccountId|
                    a != account ==> final(self).spec_get(a) == old(self).spec_get(a)
            },
    {
        match self.get(account) {
            None => Err(Error::InsufficientFunds),
            Some(b) => {
                if amount > b.free {
                    Err(Error::InsufficientFunds)
                } else {
                    proof {
                        lemma_acct_lookup_bounded(self.entries@, account);
                    }
                    self.put(
                        account,
                        AccountBalance { free: b.free - amount, reserved: b.reserved + amount },
                    );
                    Ok(())
                }
            },
        }
    }

    /// Whether a settlement of `amount` from `from`'s held funds into
    /// `to`'s spendable funds can commit.
    pub open spec fn can_transfer(
        self,
        from: AccountId,
        to: AccountId,
        amount: Balance,
    ) -> bool {
        &&& self.spec_get(from) is Some
        &&& amount <= self.reserved_of(from)
        &&& (from == to || self.free_of(to) + self.reserved_of(to) + amount <= u128::MAX)
    }

    /// Moves `amount` of `from`'s held funds into `to`'s spendable
    /// funds, creating `to` if absent. All-or-nothing: on failure the
    /// ledger is unchanged.
    pub fn transfer(&mut self, from: AccountId, to: AccountId, amount: Balance) -> (r: Result<
        (),
        Error,
    >)
        requires
            old(self).wf(),
        ensures
            final(self).wf(),
            r is Ok <==> old(self).can_transfer(from, to, amount),
            r is Err ==> *final(self) == *old(self),
            r is Err ==> (r->Err_0 == Error::InsufficientFunds <==> !(old(self).spec_get(from)
                is Some && amount <= old(self).reserved_of(from))),
            r is Err ==> (r->Err_0 == Error::ArithmeticOverflow <==> (old(self).spec_get(from)
                is Some && amount <= old(self).reserved_of(from))),
            r is Ok && from == to ==> {
                &&& final(self).spec_get(from) == Some(
                    AccountBalance {
                        free: (old(self).free_of(from) + amount) as u128,
                        reserved: (old(self).reserved_of(from) - amount) as u128,
                    },
                )
                &&& forall|a: AccountId|
                    a != from ==> final(self).spec_get(a) == old(self).spec_get(a)
            },
            r is Ok && from != to ==> {
                &&& final(self).spec_get(from) == Some(
                    AccountBalance {
                        free: old(self).free_of(from) as u128,
                        reserved: (old(self).reserved_of(from) - amount) as u128,
                    },
                )
                &&& final(self).spec_get(to) == Some(
                    AccountBalance {
                        free: (old(self).free_of(to) + amount) as u128,
                        reserved: old(self).reserved_of(to) as u128,
                    },
                )
                &&& forall|a: AccountId|
                    a != from && a != to ==> final(self).spec_get(a) == old(self).spec_get(a)
            },
    {
        let from_balance = match self.get(from) {
            None => {
                return Err(Error::InsufficientFunds);
            },
            Some(b) => b,
        };
        if amount > from_balance.reserved {
            return Err(Error::InsufficientFunds);
        }
        proof {
            lemma_acct_lookup_bounded(self.entries@, from);
        }
        if from == to {
            self.put(
                from,
                AccountBalance {
                    free: from_balance.free + amount,
                    reserved: from_balance.reserved - amount,
                },
            );
            return Ok(());
        }
        let to_balance = match self.get(to) {
            None => AccountBalance { free: 0, reserved: 0 },
            Some(b) => b,
        };
        match to_balance.free.checked_add(amount) {
            None => Err(Error::ArithmeticOverflow),
            Some(free) => {
                if to_balance.reserved > u128::MAX - free {
                    Err(Error::ArithmeticOverflow)
                } else {
                    self.put(
                        from,
                        AccountBalance {
                            free: from_balance.free,
                            reserved: from_balance.reserved - amount,
                        },
                    );
                    self.put(to, AccountBalance { free, reserved: to_balance.reserved });
                    Ok(())
                }
            },
        }
    }
}

} // verus!
