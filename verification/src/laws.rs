//! The ledger's general laws, stated and proved over the engine's
//! mathematical model [`apply_outcome`].

use vstd::prelude::*;

use vstd::arithmetic::div_mod::{lemma_div_pos_is_pos, lemma_fundamental_div_mod, lemma_mod_bound};
use vstd::arithmetic::mul::lemma_mul_inequality;

use crate::account::{account_inv, apply_outcome, AccountData, BalanceSummary, LedgerError};
use crate::store::{apply_transition, AccountStore};
use crate::transaction::{valid_request, RequestData, TransactionKind};

verus! {

/// An accepted transaction preserves the core safety invariant: starting from
/// a well-formed account, the new balance is still at least `-limit` and the
/// history stays within its capacity.
pub proof fn lemma_outcome_preserves_inv(a: AccountData, r: RequestData, now: int)
    requires
        account_inv(a),
    ensures
        apply_outcome(a, r, now) matches Ok(a2) ==> account_inv(a2),
{
}

/// Crediting `value` and then debiting the same `value`, both accepted,
/// restores the original balance exactly (and never changes the limit).
pub proof fn lemma_credit_then_debit_restores(
    a: AccountData,
    r1: RequestData,
    r2: RequestData,
    t1: int,
    t2: int,
)
    requires
        r1.kind is Credit,
        r2.kind is Debit,
        r1.value == r2.value,
        apply_outcome(a, r1, t1) is Ok,
        apply_outcome(apply_outcome(a, r1, t1)->Ok_0, r2, t2) is Ok,
    ensures
        apply_outcome(apply_outcome(a, r1, t1)->Ok_0, r2, t2)->Ok_0.balance == a.balance,
        apply_outcome(apply_outcome(a, r1, t1)->Ok_0, r2, t2)->Ok_0.limit == a.limit,
{
}

/// A debit whose value would take the balance below `-limit` is rejected with
/// `TransactionLimitExceeded`. (That a rejection leaves the account unchanged
/// is part of the contracts of `ClientAccount::process` and
/// `AccountStore::apply_at`.)
pub proof fn lemma_overdraft_debit_rejected(a: AccountData, r: RequestData, now: int)
    requires
        valid_request(r),
        r.kind is Debit,
        a.balance - r.value < -a.limit,
    ensures
        apply_outcome(a, r, now) == Err::<AccountData, LedgerError>(
            LedgerError::TransactionLimitExceeded,
        ),
{
}

/// A valid credit is never rejected on limit grounds, whatever its magnitude:
/// its adjustment is non-negative, so the post-transaction balance cannot fall
/// below `-limit`.
pub proof fn lemma_credit_never_limit_rejected(a: AccountData, r: RequestData, now: int)
    requires
        account_inv(a),
        valid_request(r),
        r.kind is Credit,
    ensures
        apply_outcome(a, r, now) is Ok,
{
}

/// The account state after one request: updated on acceptance, unchanged on
/// rejection.
pub open spec fn step(a: AccountData, r: RequestData, now: int) -> AccountData {
    match apply_outcome(a, r, now) {
        Ok(a2) => a2,
        Err(_) => a,
    }
}

/// The account after submitting the same request once per timestamp in
/// `times`, in order.
pub open spec fn run_requests(a: AccountData, r: RequestData, times: Seq<int>) -> AccountData
    decreases times.len(),
{
    if times.len() == 0 {
        a
    } else {
        run_requests(step(a, r, times[0]), r, times.drop_first())
    }
}

/// How many of those submissions are accepted.
pub open spec fn accepted_count(a: AccountData, r: RequestData, times: Seq<int>) -> int
    decreases times.len(),
{
    if times.len() == 0 {
        0
    } else {
        (if apply_outcome(a, r, times[0]) is Ok {
            1int
        } else {
            0int
        }) + accepted_count(step(a, r, times[0]), r, times.drop_first())
    }
}

/// One `AccountStore::apply_at` call on a provisioned account advances that
/// account's state by exactly one [`step`], and is accepted exactly when
/// [`apply_outcome`] accepts. A serialized run of store calls with one request
/// is therefore one [`run_requests`] run on the account's model, which is what
/// [`lemma_repeated_debits`] counts.
pub proof fn lemma_transition_is_step(
    pre: AccountStore,
    post: AccountStore,
    id: int,
    req: RequestData,
    now: int,
    r: Result<BalanceSummary, LedgerError>,
)
    requires
        apply_transition(pre, post, id, req, now, r),
        pre.has_account(id),
    ensures
        post.has_account(id),
        post.account_data(id) == step(pre.account_data(id), req, now),
        r is Ok <==> apply_outcome(pre.account_data(id), req, now) is Ok,
{
}

/// Generalisation of [`lemma_repeated_debits`] to a starting balance of
/// `-m * value` with `m` debits already absorbed.
proof fn lemma_debits_from(a: AccountData, r: RequestData, times: Seq<int>, m: int)
    requires
        account_inv(a),
        valid_request(r),
        r.kind is Debit,
        0 <= m <= a.limit / r.value,
        a.balance == -m * r.value,
    ensures
        ({
            let cap = a.limit / r.value;
            let k = if times.len() <= cap - m {
                times.len() as int
            } else {
                cap - m
            };
            &&& accepted_count(a, r, times) == k
            &&& run_requests(a, r, times).balance == -(m + k) * r.value
            &&& run_requests(a, r, times).limit == a.limit
            &&& account_inv(run_requests(a, r, times))
        }),
    decreases times.len(),
{
    let v = r.value;
    let lim = a.limit;
    let cap = lim / v;
    lemma_fundamental_div_mod(lim, v);
    lemma_mod_bound(lim, v);
    if times.len() == 0 {
    } else {
        let a1 = step(a, r, times[0]);
        let rest = times.drop_first();
        assert(-m * v == -(m * v)) by (nonlinear_arith);
        assert(v * cap <= lim < v * cap + v);
        if m < cap {
            // The next debit is accepted: (m + 1) * v <= (lim / v) * v <= lim.
            lemma_mul_inequality(m + 1, cap, v);
            assert(cap * v == v * cap) by (nonlinear_arith);
            assert((m + 1) * v == m * v + v) by (nonlinear_arith);
            assert(a.balance - v >= -lim);
            assert(apply_outcome(a, r, times[0]) is Ok);
            assert(-(m + 1) * v == -(m * v) - v) by (nonlinear_arith);
            assert(a1.balance == -(m + 1) * v);
            lemma_debits_from(a1, r, rest, m + 1);
        } else {
            // m == cap: one more debit would overdraw, since
            // lim < v * cap + v = (m + 1) * v.
            assert(cap * v == v * cap) by (nonlinear_arith);
            assert(a.balance - v < -lim);
            assert(apply_outcome(a, r, times[0]) is Err);
            assert(a1 == a);
            lemma_debits_from(a1, r, rest, m);
        }
    }
}

/// Submitting any number of identical debit requests of value `value` to an
/// account starting at balance `0` with limit `limit` accepts exactly
/// `min(count, limit / value)` of them and rejects the rest, ending at
/// balance `-min(count, limit / value) * value`, never below `-limit`.
/// Because `AccountStore` is driven under mutual exclusion, any interleaving
/// of concurrent submissions is one such ordered run.
pub proof fn lemma_repeated_debits(a: AccountData, r: RequestData, times: Seq<int>)
    requires
        account_inv(a),
        a.balance == 0,
        valid_request(r),
        r.kind is Debit,
    ensures
        ({
            let cap = a.limit / r.value;
            let k = if times.len() <= cap {
                times.len() as int
            } else {
                cap
            };
            &&& accepted_count(a, r, times) == k
            &&& run_requests(a, r, times).balance == -k * r.value
            &&& run_requests(a, r, times).balance >= -a.limit
        }),
{
    lemma_div_pos_is_pos(a.limit, r.value);
    assert(-0 * r.value == 0) by (nonlinear_arith);
    lemma_debits_from(a, r, times, 0);
}

} // verus!
