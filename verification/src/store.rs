//! The account store: the sole owner of all account state, addressed by
//! account identifier. It offers one mutation entry point, [`AccountStore::apply`],
//! and one read entry point, [`AccountStore::statement`]. Exclusive access
//! across concurrent callers is the embedding program's duty: it wraps the
//! store in a mutual-exclusion region spanning each whole call.

use vstd::prelude::*;

use crate::account::{
    account_inv, apply_outcome, AccountData, BalanceSummary, ClientAccount, LedgerError,
};
use crate::clock::now_unix_timestamp;
use crate::transaction::{
    adjustment, valid_request, RequestData, Transaction, TransactionData, TransactionRequest,
};

verus! {

struct AccountEntry {
    id: i32,
    account: ClientAccount,
}

/// The fixed set of provisioned accounts. Built once at startup by
/// [`AccountStore::provision`] calls; immutable in membership thereafter.
pub struct AccountStore {
    entries: Vec<AccountEntry>,
}

/// A statement: a snapshot of an account's balance, limit, and most recent
/// transactions, newest first.
#[derive(Debug)]
pub struct Statement {
    pub balance: i64,
    pub limit: i64,
    pub recent: Vec<Transaction>,
}

impl AccountStore {
    closed spec fn spec_ids(&self) -> Seq<int> {
        self.entries@.map_values(|e: AccountEntry| e.id as int)
    }

    /// Whether an account with this identifier is provisioned.
    pub closed spec fn has_account(&self, id: int) -> bool {
        self.spec_ids().contains(id)
    }

    closed spec fn spec_index_of(&self, id: int) -> int {
        self.spec_ids().index_of(id)
    }

    /// The state of the account with this identifier (meaningful only when
    /// [`AccountStore::has_account`] holds).
    pub closed spec fn account_data(&self, id: int) -> AccountData {
        self.entries@[self.spec_index_of(id)].account@
    }

    pub closed spec fn wf(&self) -> bool {
        &&& forall|i: int, j: int|
            0 <= i < j < self.entries@.len() ==> self.entries@[i].id != self.entries@[j].id
        &&& forall|i: int| 0 <= i < self.entries@.len() ==> self.entries@[i].account.wf()
    }

    /// In a well-formed store, every provisioned account satisfies the core
    /// safety invariant: its balance is at least `-limit`.
    pub proof fn lemma_all_accounts_inv(&self)
        requires
            self.wf(),
        ensures
            forall|id: int|
                self.has_account(id) ==> #[trigger] account_inv(self.account_data(id)),
    {
        assert forall|id: int| self.has_account(id) implies #[trigger] account_inv(
            self.account_data(id),
        ) by {
            self.lemma_index_of_found(id);
            let i = self.spec_index_of(id);
            self.entries@[i].account.lemma_wf_inv();
        }
    }

    /// Where an identifier is present, `spec_index_of` lands on the entry that
    /// carries it.
    proof fn lemma_index_of_found(&self, id: int)
        requires
            self.has_account(id),
        ensures
            0 <= self.spec_index_of(id) < self.entries@.len(),
            self.entries@[self.spec_index_of(id)].id == id,
    {
        assert(self.spec_ids().contains(id));
    }

    /// The entry at index `i` is the one `account_data` denotes for its
    /// identifier.
    proof fn lemma_data_at(&self, i: int)
        requires
            self.wf(),
            0 <= i < self.entries@.len(),
        ensures
            self.has_account(self.entries@[i].id as int),
            self.spec_index_of(self.entries@[i].id as int) == i,
            self.account_data(self.entries@[i].id as int) == self.entries@[i].account@,
    {
        let id = self.entries@[i].id as int;
        assert(self.spec_ids()[i] == id);
        assert(self.spec_ids().contains(id));
        self.lemma_index_of_found(id);
        let j = self.spec_index_of(id);
        assert(self.spec_ids()[j] == id);
        if i != j {
            assert(self.entries@[i].id == self.entries@[j].id);
            assert(false);
        }
    }

    /// An empty store: no account is provisioned.
    pub fn new() -> (s: AccountStore)
        ensures
            s.wf(),
            forall|id: int| !s.has_account(id),
    {
        let s = AccountStore { entries: Vec::new() };
        proof {
            assert(s.spec_ids() =~= Seq::<int>::empty());
        }
        s
    }

    /// Adds a fresh account: zero balance, the given limit, empty history.
    /// Every other account is untouched.
    pub fn provision(&mut self, id: i32, limit: i64)
        requires
            old(self).wf(),
            !old(self).has_account(id as int),
            0 <= limit,
        ensures
            final(self).wf(),
            final(self).has_account(id as int),
            final(self).account_data(id as int) == (AccountData {
                balance: 0,
                limit: limit as int,
                history: Seq::<TransactionData>::empty(),
            }),
            forall|k: int|
                k != id ==> final(self).has_account(k) == old(self).has_account(k),
            forall|k: int|
                k != id && old(self).has_account(k) ==> final(self).account_data(k) == old(
                    self,
                ).account_data(k),
    {
        let account = ClientAccount::default_with_limit(limit);
        self.entries.push(AccountEntry { id, account });
        proof {
            let pre = *old(self);
            let n = pre.entries@.len() as int;
            assert(self.entries@ == pre.entries@.push(AccountEntry { id, account }));
            assert(self.spec_ids() =~= pre.spec_ids().push(id as int));
            assert forall|i: int, j: int|
                0 <= i < j < self.entries@.len() implies self.entries@[i].id != self.entries@[j].id by {
                if j < n {
                    assert(pre.entries@[i].id != pre.entries@[j].id);
                } else {
                    assert(self.entries@[j].id == id);
                    assert(pre.spec_ids()[i] == self.entries@[i].id as int);
                    if self.entries@[i].id == id {
                        assert(pre.spec_ids().contains(id as int));
                        assert(false);
                    }
                }
            }
            self.lemma_data_at(n);
            assert forall|k: int|
                k != id && pre.has_account(k) implies self.account_data(k) == pre.account_data(
                k,
            ) by {
                pre.lemma_index_of_found(k);
                let i = pre.spec_index_of(k);
                assert(self.spec_ids()[i] == k);
                self.lemma_data_at(i);
                pre.lemma_data_at(i);
            }
            assert forall|k: int| k != id implies self.has_account(k) == pre.has_account(k) by {
                if self.has_account(k) {
                    self.lemma_index_of_found(k);
                    let i = self.spec_index_of(k);
                    assert(i < n) by {
                        if i == n {
                            assert(self.entries@[i].id == id);
                        }
                    }
                    assert(pre.spec_ids()[i] == k);
                }
                if pre.has_account(k) {
                    pre.lemma_index_of_found(k);
                    let i = pre.spec_index_of(k);
                    assert(self.spec_ids()[i] == k);
                }
            }
        }
    }

    /// Linear scan for the entry holding `id`.
    fn find_index(&self, id: i32) -> (r: Option<usize>)
        ensures
            match r {
                Some(i) => i < self.entries@.len() && self.entries@[i as int].id == id
                    && self.has_account(id as int),
                None => !self.has_account(id as int),
            },
    {
        let n = self.entries.len();
        let mut i: usize = 0;
        while i < n
            invariant
                n == self.entries@.len(),
                i <= n,
                forall|j: int| 0 <= j < i ==> self.entries@[j].id != id,
            decreases n - i,
        {
            if self.entries[i].id == id {
                proof {
                    assert(self.spec_ids()[i as int] == id as int);
                }
                return Some(i);
            }
            i = i + 1;
        }
        proof {
            if self.has_account(id as int) {
                let j = choose|j: int|
                    0 <= j < self.spec_ids().len() && self.spec_ids()[j] == id as int;
                assert(self.entries@[j].id == id);
            }
        }
        None
    }

    /// Applies one request to the addressed account at time `now`: resolves
    /// the identifier, lets the ledger engine decide, and reports the
    /// post-transaction balance and limit on acceptance. Every other account
    /// is untouched; on any error the whole store is unchanged.
    pub fn apply_at(&mut self, id: i32, req: &TransactionRequest, now: i64) -> (r: Result<
        BalanceSummary,
        LedgerError,
    >)
        requires
            old(self).wf(),
            old(self).has_account(id as int) && valid_request(req@) ==> i64::MIN <= old(
                self,
            ).account_data(id as int).balance + adjustment(req@) <= i64::MAX,
        ensures
            apply_transition(*old(self), *final(self), id as int, req@, now as int, r),
    {
        let i = match self.find_index(id) {
            Some(i) => i,
            None => {
                return Err(LedgerError::AccountNotFound);
            },
        };
        proof {
            self.lemma_data_at(i as int);
        }
        let mut entry = self.entries.remove(i);
        let outcome = entry.account.process(req, now);
        self.entries.insert(i, entry);
        proof {
            let pre = *old(self);
            assert(self.entries@ =~= pre.entries@.update(i as int, self.entries@[i as int]));
            assert(self.entries@[i as int].id == id);
            assert(self.spec_ids() =~= pre.spec_ids());
            assert forall|a: int, b: int|
                0 <= a < b < self.entries@.len() implies self.entries@[a].id != self.entries@[b].id by {
                assert(self.spec_ids()[a] == self.entries@[a].id as int);
                assert(pre.spec_ids()[a] == pre.entries@[a].id as int);
                assert(pre.entries@[a].id != pre.entries@[b].id);
            }
            assert(self.wf());
            assert forall|k: int| self.has_account(k) == pre.has_account(k) by {}
            self.lemma_data_at(i as int);
            assert forall|k: int|
                k != id && pre.has_account(k) implies self.account_data(k) == pre.account_data(
                k,
            ) by {
                pre.lemma_index_of_found(k);
                let j = pre.spec_index_of(k);
                assert(self.spec_ids()[j] == k);
                self.lemma_data_at(j);
                pre.lemma_data_at(j);
                assert(j != i);
            }
            assert(pre.account_data(id as int) == pre.entries@[i as int].account@);
        }
        outcome
    }

    /// Applies one request, stamping it with the current wall-clock time. The
    /// outcome is exactly that of [`AccountStore::apply_at`] for some
    /// timestamp; balances, limits, and acceptance do not depend on which.
    pub fn apply(&mut self, id: i32, req: &TransactionRequest) -> (r: Result<
        BalanceSummary,
        LedgerError,
    >)
        requires
            old(self).wf(),
            old(self).has_account(id as int) && valid_request(req@) ==> i64::MIN <= old(
                self,
            ).account_data(id as int).balance + adjustment(req@) <= i64::MAX,
        ensures
            exists|now: int|
                #[trigger] apply_transition(*old(self), *final(self), id as int, req@, now, r),
    {
        let now = now_unix_timestamp();
        let r = self.apply_at(id, req, now);
        proof {
            assert(apply_transition(*old(self), *self, id as int, req@, now as int, r));
        }
        r
    }

    /// A snapshot of the addressed account: balance, limit, and the retained
    /// transactions newest first. Nothing is mutated.
    pub fn statement(&self, id: i32) -> (r: Result<Statement, LedgerError>)
        requires
            self.wf(),
        ensures
            match r {
                Ok(st) => self.has_account(id as int) && ({
                    let a = self.account_data(id as int);
                    &&& st.balance == a.balance
                    &&& st.limit == a.limit
                    &&& st.recent@.len() == a.history.len()
                    &&& forall|i: int|
                        0 <= i < st.recent@.len() ==> st.recent@[i]@ == a.history[a.history.len()
                            - 1 - i]
                }),
                Err(e) => e == LedgerError::AccountNotFound && !self.has_account(id as int),
            },
    {
        let i = match self.find_index(id) {
            Some(i) => i,
            None => {
                return Err(LedgerError::AccountNotFound);
            },
        };
        proof {
            self.lemma_data_at(i as int);
        }
        let entry = &self.entries[i];
        Ok(
            Statement {
                balance: entry.account.balance(),
                limit: entry.account.limit(),
                recent: entry.account.recent_transactions(),
            },
        )
    }
}

/// The two stores provision the same identifiers and every provisioned
/// account has the same state in both.
pub open spec fn same_accounts(pre: AccountStore, post: AccountStore) -> bool {
    &&& forall|k: int| post.has_account(k) == pre.has_account(k)
    &&& forall|k: int| pre.has_account(k) ==> post.account_data(k) == pre.account_data(k)
}

/// How one [`AccountStore::apply_at`] call relates the store before and after:
/// an unknown identifier is reported and changes nothing; otherwise the
/// addressed account moves exactly as [`apply_outcome`] says while every other
/// account keeps its state.
pub open spec fn apply_transition(
    pre: AccountStore,
    post: AccountStore,
    id: int,
    req: RequestData,
    now: int,
    r: Result<BalanceSummary, LedgerError>,
) -> bool {
    &&& post.wf()
    &&& !pre.has_account(id) ==> r == Err::<BalanceSummary, LedgerError>(
        LedgerError::AccountNotFound,
    ) && post == pre
    &&& pre.has_account(id) ==> {
        &&& forall|k: int| post.has_account(k) == pre.has_account(k)
        &&& forall|k: int|
            k != id && pre.has_account(k) ==> post.account_data(k) == pre.account_data(k)
        &&& match apply_outcome(pre.account_data(id), req, now) {
            Ok(a2) => post.account_data(id) == a2 && r == Ok::<BalanceSummary, LedgerError>(
                (BalanceSummary { balance: a2.balance as i64, limit: a2.limit as i64 }),
            ),
            Err(e) => r == Err::<BalanceSummary, LedgerError>(e) && same_accounts(pre, post),
        }
    }
}

} // verus!
