//! Transactions and transaction requests: the values the ledger records and
//! the inputs it validates.

use vstd::prelude::*;

verus! {

/// Maximum length, in characters, of a transaction description.
pub const MAX_DESCRIPTION_LEN: usize = 10;

/// Whether a movement adds to or subtracts from the balance.
#[derive(Clone, Copy, PartialEq, Eq, Structural, Debug)]
pub enum TransactionKind {
    Credit,
    Debit,
}

/// A recorded movement: immutable once created, owned by an account's history.
#[derive(Debug)]
pub struct Transaction {
    /// Magnitude of the movement, strictly positive.
    pub value: i64,
    pub kind: TransactionKind,
    /// Non-empty, at most `MAX_DESCRIPTION_LEN` characters.
    pub description: String,
    /// Seconds since the Unix epoch, set by the ledger at acceptance.
    pub timestamp: i64,
}

/// Mathematical model of a [`Transaction`].
pub ghost struct TransactionData {
    pub value: int,
    pub kind: TransactionKind,
    pub description: Seq<char>,
    pub timestamp: int,
}

impl View for Transaction {
    type V = TransactionData;

    open spec fn view(&self) -> TransactionData {
        TransactionData {
            value: self.value as int,
            kind: self.kind,
            description: self.description@,
            timestamp: self.timestamp as int,
        }
    }
}

impl Clone for Transaction {
    fn clone(&self) -> (t: Transaction)
        ensures
            t@ == self@,
    {
        Transaction {
            value: self.value,
            kind: self.kind,
            description: self.description.clone(),
            timestamp: self.timestamp,
        }
    }
}

/// A proposed movement, as supplied by a caller; validated before it is
/// admitted as a [`Transaction`].
pub struct TransactionRequest {
    pub value: i64,
    pub kind: TransactionKind,
    pub description: String,
}

/// Mathematical model of a [`TransactionRequest`].
pub ghost struct RequestData {
    pub value: int,
    pub kind: TransactionKind,
    pub description: Seq<char>,
}

impl View for TransactionRequest {
    type V = RequestData;

    open spec fn view(&self) -> RequestData {
        RequestData {
            value: self.value as int,
            kind: self.kind,
            description: self.description@,
        }
    }
}

/// A request is admissible when its value is strictly positive and its
/// description is non-empty and within the length bound.
pub open spec fn valid_request(r: RequestData) -> bool {
    &&& 0 < r.value
    &&& 1 <= r.description.len() <= MAX_DESCRIPTION_LEN
}

/// The signed balance adjustment a request asks for: `+value` for a credit,
/// `-value` for a debit.
pub open spec fn adjustment(r: RequestData) -> int {
    match r.kind {
        TransactionKind::Credit => r.value,
        TransactionKind::Debit => -r.value,
    }
}

impl TransactionRequest {
    /// Decides [`valid_request`] executably.
    pub fn is_valid(&self) -> (b: bool)
        ensures
            b == valid_request(self@),
    {
        if self.value <= 0 {
            return false;
        }
        let n = self.description.as_str().unicode_len();
        1 <= n && n <= MAX_DESCRIPTION_LEN
    }
}

} // verus!
