use ledger::account::{ClientAccount, LedgerError};
use ledger::history::{HistoryBuffer, HISTORY_CAPACITY};
use ledger::store::AccountStore;
use ledger::transaction::{Transaction, TransactionKind, TransactionRequest, MAX_DESCRIPTION_LEN};

fn credit(value: i64, description: &str) -> TransactionRequest {
    TransactionRequest { value, kind: TransactionKind::Credit, description: description.to_string() }
}

fn debit(value: i64, description: &str) -> TransactionRequest {
    TransactionRequest { value, kind: TransactionKind::Debit, description: description.to_string() }
}

fn store_with(id: i32, limit: i64) -> AccountStore {
    let mut store = AccountStore::new();
    store.provision(id, limit);
    store
}

#[test]
fn history_evicts_oldest() {
    let mut buffer = HistoryBuffer::new();
    for v in 1..=11i64 {
        buffer.push(Transaction {
            value: v,
            kind: TransactionKind::Credit,
            description: "deposito".to_string(),
            timestamp: 100 + v,
        });
    }
    let snap = buffer.snapshot();
    assert_eq!(snap.len(), HISTORY_CAPACITY);
    for (i, t) in snap.iter().enumerate() {
        assert_eq!(t.value, 11 - i as i64);
    }
    assert!(snap.iter().all(|t| t.value != 1));
}

#[test]
fn from_transactions_keeps_the_last_ten() {
    let mut ts = Vec::new();
    for v in 1..=12i64 {
        ts.push(Transaction {
            value: v,
            kind: TransactionKind::Debit,
            description: "saque".to_string(),
            timestamp: v,
        });
    }
    let buffer = HistoryBuffer::from_transactions(&ts);
    let snap = buffer.snapshot();
    assert_eq!(snap.len(), HISTORY_CAPACITY);
    assert_eq!(snap[0].value, 12);
    assert_eq!(snap[9].value, 3);
}

#[test]
fn snapshot_is_independent_of_later_pushes() {
    let mut buffer = HistoryBuffer::new();
    buffer.push(Transaction {
        value: 7,
        kind: TransactionKind::Debit,
        description: "cafe".to_string(),
        timestamp: 1,
    });
    let snap = buffer.snapshot();
    buffer.push(Transaction {
        value: 9,
        kind: TransactionKind::Credit,
        description: "salario".to_string(),
        timestamp: 2,
    });
    assert_eq!(snap.len(), 1);
    assert_eq!(snap[0].value, 7);
}

#[test]
fn credit_then_debit_restores_balance() {
    let mut store = store_with(1, 1_000);
    let before = store.statement(1).unwrap().balance;
    let r1 = store.apply_at(1, &credit(500, "deposito"), 10).unwrap();
    assert_eq!(r1.balance, 500);
    let r2 = store.apply_at(1, &debit(500, "saque"), 11).unwrap();
    assert_eq!(r2.balance, before);
}

#[test]
fn overdraft_debit_rejected_and_balance_unchanged() {
    let mut store = store_with(1, 1_000);
    store.apply_at(1, &debit(400, "saque"), 1).unwrap();
    let err = store.apply_at(1, &debit(700, "saque"), 2).unwrap_err();
    assert_eq!(err, LedgerError::TransactionLimitExceeded);
    let st = store.statement(1).unwrap();
    assert_eq!(st.balance, -400);
    assert_eq!(st.recent.len(), 1);
}

#[test]
fn debit_exactly_to_the_overdraft_floor_is_accepted() {
    let mut store = store_with(1, 100);
    let r = store.apply_at(1, &debit(100, "saque"), 1).unwrap();
    assert_eq!(r.balance, -100);
    let err = store.apply_at(1, &debit(1, "saque"), 2).unwrap_err();
    assert_eq!(err, LedgerError::TransactionLimitExceeded);
}

#[test]
fn credit_never_rejected_on_limit_grounds() {
    let mut store = store_with(1, 0);
    let r = store.apply_at(1, &credit(1_000_000_000, "bonus"), 1).unwrap();
    assert_eq!(r.balance, 1_000_000_000);
}

#[test]
fn repeated_debits_accept_only_what_the_limit_allows() {
    let mut store = store_with(1, 100);
    let mut accepted = 0;
    let mut rejected = 0;
    for i in 0..5 {
        match store.apply_at(1, &debit(30, "saque"), i) {
            Ok(_) => accepted += 1,
            Err(e) => {
                assert_eq!(e, LedgerError::TransactionLimitExceeded);
                rejected += 1;
            }
        }
    }
    assert_eq!(accepted, 3);
    assert_eq!(rejected, 2);
    let st = store.statement(1).unwrap();
    assert_eq!(st.balance, -90);
    assert!(st.balance >= -100);
}

#[test]
fn example_scenario() {
    let mut store = store_with(1, 1_000);
    let r1 = store.apply_at(1, &debit(400, "saque"), 1).unwrap();
    assert_eq!(r1.balance, -400);
    assert_eq!(r1.limit, 1_000);
    let err = store.apply_at(1, &debit(700, "saque"), 2).unwrap_err();
    assert_eq!(err, LedgerError::TransactionLimitExceeded);
    assert_eq!(store.statement(1).unwrap().balance, -400);
    let r3 = store.apply_at(1, &credit(2_000, "deposito"), 3).unwrap();
    assert_eq!(r3.balance, 1_600);
}

#[test]
fn statement_unknown_account_and_fresh_account() {
    let mut store = AccountStore::new();
    store.provision(3, 50_000);
    assert_eq!(store.statement(9).unwrap_err(), LedgerError::AccountNotFound);
    assert_eq!(
        store.apply_at(9, &credit(1, "deposito"), 1).unwrap_err(),
        LedgerError::AccountNotFound
    );
    let st = store.statement(3).unwrap();
    assert_eq!(st.balance, 0);
    assert_eq!(st.limit, 50_000);
    assert!(st.recent.is_empty());
}

#[test]
fn invalid_requests_are_rejected_without_state_change() {
    let mut store = store_with(1, 1_000);
    let cases = vec![
        debit(0, "saque"),
        debit(-5, "saque"),
        credit(10, ""),
        credit(10, "descricao muito longa"),
    ];
    for req in &cases {
        assert!(!req.is_valid());
        assert_eq!(store.apply_at(1, req, 1).unwrap_err(), LedgerError::InvalidRequest);
    }
    assert!(debit(1, "x").is_valid());
    let bound = "0123456789";
    assert_eq!(bound.chars().count(), MAX_DESCRIPTION_LEN);
    assert!(credit(10, bound).is_valid());
    let st = store.statement(1).unwrap();
    assert_eq!(st.balance, 0);
    assert!(st.recent.is_empty());
}

#[test]
fn statement_lists_transactions_newest_first() {
    let mut store = store_with(2, 500);
    store.apply_at(2, &credit(100, "salario"), 1_000).unwrap();
    store.apply_at(2, &debit(40, "cafe"), 1_001).unwrap();
    store.apply_at(2, &credit(5, "troco"), 1_002).unwrap();
    let st = store.statement(2).unwrap();
    assert_eq!(st.balance, 65);
    assert_eq!(st.recent.len(), 3);
    assert_eq!(st.recent[0].value, 5);
    assert_eq!(st.recent[0].kind, TransactionKind::Credit);
    assert_eq!(st.recent[0].description, "troco");
    assert_eq!(st.recent[0].timestamp, 1_002);
    assert_eq!(st.recent[1].value, 40);
    assert_eq!(st.recent[1].kind, TransactionKind::Debit);
    assert_eq!(st.recent[1].timestamp, 1_001);
    assert_eq!(st.recent[2].value, 100);
    assert_eq!(st.recent[2].timestamp, 1_000);
}

#[test]
fn engine_decides_and_records_directly() {
    let mut account = ClientAccount::default_with_limit(200);
    let ok = account.process(&debit(150, "saque"), 42).unwrap();
    assert_eq!(ok.balance, -150);
    assert_eq!(ok.limit, 200);
    let err = account.process(&debit(100, "saque"), 43).unwrap_err();
    assert_eq!(err, LedgerError::TransactionLimitExceeded);
    assert_eq!(account.balance(), -150);
    let recent = account.recent_transactions();
    assert_eq!(recent.len(), 1);
    assert_eq!(recent[0].value, 150);
    assert_eq!(recent[0].timestamp, 42);
}

#[test]
fn provision_and_getters() {
    let account = ClientAccount::default_with_limit(80_000);
    assert_eq!(account.balance(), 0);
    assert_eq!(account.limit(), 80_000);
    assert!(account.recent_transactions().is_empty());
}

#[test]
fn apply_stamps_with_the_wall_clock() {
    let mut store = store_with(1, 1_000);
    let r = store.apply(1, &credit(10, "deposito")).unwrap();
    assert_eq!(r.balance, 10);
    let st = store.statement(1).unwrap();
    assert_eq!(st.recent.len(), 1);
    // Whole seconds since the Unix epoch: well past 2001 on any sane clock.
    assert!(st.recent[0].timestamp > 1_000_000_000);
}

#[test]
fn untouched_accounts_are_unaffected() {
    let mut store = AccountStore::new();
    store.provision(1, 100_000);
    store.provision(2, 80_000);
    store.apply_at(1, &debit(1_000, "saque"), 1).unwrap();
    let st = store.statement(2).unwrap();
    assert_eq!(st.balance, 0);
    assert_eq!(st.limit, 80_000);
    assert!(st.recent.is_empty());
}
