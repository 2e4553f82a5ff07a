//! Accounts and the ledger engine: the accept/reject decision for a proposed
//! transaction, balance update, and history append.

use vstd::prelude::*;

use crate::history::{HistoryBuffer, push_spec, HISTORY_CAPACITY};
use crate::transaction::{
    adjustment, valid_request, RequestData, Transaction, TransactionData, TransactionKind,
    TransactionRequest,
};

verus! {

/// Why the ledger turned a request down.
#[derive(Clone, Copy, PartialEq, Eq, Structural, Debug)]
pub enum LedgerError {
    /// The addressed account identifier is unknown.
    AccountNotFound,
    /// The proposed debit would take the balance below `-limit`.
    TransactionLimitExceeded,
    /// The request failed validation: non-positive value, or an empty or
    /// over-long description.
    InvalidRequest,
}

/// The post-transaction balance and limit reported to the caller.
#[derive(Clone, Copy, PartialEq, Eq, Structural, Debug)]
pub struct BalanceSummary {
    pub balance: i64,
    pub limit: i64,
}

/// An account: balance, overdraft limit, and bounded history. Created once at
/// provisioning, mutated only through [`ClientAccount::process`].
pub struct ClientAccount {
    balance: i64,
    limit: i64,
    history: HistoryBuffer,
}

/// Mathematical model of a [`ClientAccount`].
pub ghost struct AccountData {
    pub balance: int,
    pub limit: int,
    /// Retained transactions, oldest first.
    pub history: Seq<TransactionData>,
}

impl View for ClientAccount {
    type V = AccountData;

    closed spec fn view(&self) -> AccountData {
        AccountData { balance: self.balance as int, limit: self.limit as int, history: self.history@ }
    }
}

/// The account invariant: the limit is non-negative, the balance never falls
/// below `-limit`, and the history never exceeds its capacity.
pub open spec fn account_inv(a: AccountData) -> bool {
    &&& 0 <= a.limit
    &&& -a.limit <= a.balance
    &&& a.history.len() <= HISTORY_CAPACITY
}

/// The transaction a request is admitted as, once stamped with `now`.
pub open spec fn admitted(r: RequestData, now: int) -> TransactionData {
    TransactionData { value: r.value, kind: r.kind, description: r.description, timestamp: now }
}

/// The ledger engine's decision on one request, as a mathematical function:
/// validation first, then the overdraft check on the post-transaction balance,
/// then the balance update and history append.
pub open spec fn apply_outcome(a: AccountData, r: RequestData, now: int) -> Result<
    AccountData,
    LedgerError,
> {
    if !valid_request(r) {
        Err(LedgerError::InvalidRequest)
    } else if a.balance + adjustment(r) < -a.limit {
        Err(LedgerError::TransactionLimitExceeded)
    } else {
        Ok(
            AccountData {
                balance: a.balance + adjustment(r),
                limit: a.limit,
                history: push_spec(a.history, admitted(r, now)),
            },
        )
    }
}

impl ClientAccount {
    pub closed spec fn wf(&self) -> bool {
        &&& account_inv(self@)
        &&& self.history.wf()
    }

    /// A well-formed account satisfies the core safety invariant: its balance
    /// never falls below `-limit`.
    pub proof fn lemma_wf_inv(&self)
        requires
            self.wf(),
        ensures
            account_inv(self@),
    {
    }

    /// A fresh account: zero balance, the given overdraft limit, no history.
    pub fn default_with_limit(limit: i64) -> (a: ClientAccount)
        requires
            0 <= limit,
        ensures
            a.wf(),
            a@.balance == 0,
            a@.limit == limit,
            a@.history == Seq::<TransactionData>::empty(),
    {
        ClientAccount { balance: 0, limit, history: HistoryBuffer::new() }
    }

    pub fn balance(&self) -> (b: i64)
        ensures
            b == self@.balance,
    {
        self.balance
    }

    pub fn limit(&self) -> (l: i64)
        ensures
            l == self@.limit,
    {
        self.limit
    }

    /// A copy of the retained transactions, newest first.
    pub fn recent_transactions(&self) -> (out: Vec<Transaction>)
        requires
            self.wf(),
        ensures
            out@.len() == self@.history.len(),
            forall|i: int|
                0 <= i < out@.len() ==> out@[i]@ == self@.history[self@.history.len() - 1 - i],
    {
        self.history.snapshot()
    }

    /// The ledger engine: decides `req` against this account at time `now`,
    /// exactly as [`apply_outcome`] says. On rejection the account is left
    /// unchanged; on acceptance the balance and history are updated and the
    /// new balance and limit are returned.
    pub fn process(&mut self, req: &TransactionRequest, now: i64) -> (r: Result<
        BalanceSummary,
        LedgerError,
    >)
        requires
            old(self).wf(),
            valid_request(req@) ==> i64::MIN <= old(self)@.balance + adjustment(req@) <= i64::MAX,
        ensures
            final(self).wf(),
            match apply_outcome(old(self)@, req@, now as int) {
                Ok(a2) => final(self)@ == a2 && r == Ok::<BalanceSummary, LedgerError>(
                    (BalanceSummary { balance: a2.balance as i64, limit: a2.limit as i64 }),
                ),
                Err(e) => r == Err::<BalanceSummary, LedgerError>(e) && final(self)@ == old(
                    self,
                )@,
            },
    {
        if !req.is_valid() {
            return Err(LedgerError::InvalidRequest);
        }
        let offset = match req.kind {
            TransactionKind::Credit => req.value,
            TransactionKind::Debit => -req.value,
        };
        let candidate = self.balance + offset;
        if candidate < -self.limit {
            return Err(LedgerError::TransactionLimitExceeded);
        }
        self.balance = candidate;
        self.history.push(
            Transaction {
                value: req.value,
                kind: req.kind,
                description: req.description.clone(),
                timestamp: now,
            },
        );
        Ok(BalanceSummary { balance: self.balance, limit: self.limit })
    }
}

} // verus!
