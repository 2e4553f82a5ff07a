//! The bounded transaction history: a fixed-capacity ring buffer that keeps
//! the most recent transactions, evicting the oldest first when full.

use vstd::prelude::*;

use crate::transaction::{Transaction, TransactionData};

verus! {

/// How many transactions an account's history retains.
pub const HISTORY_CAPACITY: usize = 10;

/// What one push does to the retained sequence (oldest first): append, after
/// evicting the oldest entry if the buffer is already at capacity.
pub open spec fn push_spec(s: Seq<TransactionData>, t: TransactionData) -> Seq<TransactionData> {
    if s.len() < HISTORY_CAPACITY {
        s.push(t)
    } else {
        s.subrange(1, s.len() as int).push(t)
    }
}

/// Insertion-ordered record of the most recent transactions, capacity fixed at
/// [`HISTORY_CAPACITY`]. Stored as a ring: `entries[start]` is the oldest
/// retained transaction once the buffer is full; eviction is O(1).
pub struct HistoryBuffer {
    entries: Vec<Transaction>,
    start: usize,
}

impl View for HistoryBuffer {
    type V = Seq<TransactionData>;

    /// The retained transactions, oldest first.
    closed spec fn view(&self) -> Seq<TransactionData> {
        let s = self.entries@.map_values(|t: Transaction| t@);
        s.subrange(self.start as int, s.len() as int) + s.subrange(0, self.start as int)
    }
}

impl HistoryBuffer {
    pub closed spec fn wf(&self) -> bool {
        &&& self.entries@.len() <= HISTORY_CAPACITY
        &&& self.start < HISTORY_CAPACITY
        &&& self.entries@.len() < HISTORY_CAPACITY ==> self.start == 0
    }

    /// The buffer never retains more than its capacity.
    pub proof fn lemma_len_bounded(&self)
        requires
            self.wf(),
        ensures
            self@.len() <= HISTORY_CAPACITY,
    {
    }

    pub fn new() -> (h: HistoryBuffer)
        ensures
            h.wf(),
            h@ == Seq::<TransactionData>::empty(),
    {
        let h = HistoryBuffer { entries: Vec::with_capacity(HISTORY_CAPACITY), start: 0 };
        proof {
            assert(h@ =~= Seq::<TransactionData>::empty());
        }
        h
    }

    /// Appends `t`, evicting the oldest retained transaction first if the
    /// buffer is at capacity.
    pub fn push(&mut self, t: Transaction)
        requires
            old(self).wf(),
        ensures
            final(self).wf(),
            final(self)@ == push_spec(old(self)@, t@),
    {
        if self.entries.len() < HISTORY_CAPACITY {
            self.entries.push(t);
            proof {
                assert(self@ =~= push_spec(old(self)@, t@));
            }
        } else {
            self.entries[self.start] = t;
            self.start = if self.start + 1 == HISTORY_CAPACITY {
                0
            } else {
                self.start + 1
            };
            proof {
                assert(self@ =~= push_spec(old(self)@, t@));
            }
        }
    }

    /// A buffer fed the given transactions in order: it retains exactly the
    /// last [`HISTORY_CAPACITY`] of them (all of them, if fewer).
    pub fn from_transactions(ts: &Vec<Transaction>) -> (h: HistoryBuffer)
        ensures
            h.wf(),
            h@ == ({
                let s = ts@.map_values(|t: Transaction| t@);
                if s.len() <= HISTORY_CAPACITY {
                    s
                } else {
                    s.subrange(s.len() - HISTORY_CAPACITY, s.len() as int)
                }
            }),
    {
        let ghost s = ts@.map_values(|t: Transaction| t@);
        let mut h = HistoryBuffer::new();
        let mut i: usize = 0;
        while i < ts.len()
            invariant
                h.wf(),
                i <= ts@.len(),
                s == ts@.map_values(|t: Transaction| t@),
                h@ == (if i <= HISTORY_CAPACITY {
                    s.subrange(0, i as int)
                } else {
                    s.subrange(i - HISTORY_CAPACITY, i as int)
                }),
            decreases ts@.len() - i,
        {
            h.push(ts[i].clone());
            proof {
                let j = i + 1;
                if j <= HISTORY_CAPACITY {
                    assert(h@ =~= s.subrange(0, j as int));
                } else {
                    assert(h@ =~= s.subrange(j - HISTORY_CAPACITY, j as int));
                }
            }
            i = i + 1;
        }
        proof {
            assert(s.subrange(0, 0) =~= Seq::<TransactionData>::empty());
            if ts@.len() <= HISTORY_CAPACITY {
                assert(h@ =~= s);
            }
        }
        h
    }

    /// A copy of the retained transactions, newest first. The copy is
    /// independent of the buffer: later pushes do not alter it.
    pub fn snapshot(&self) -> (out: Vec<Transaction>)
        requires
            self.wf(),
        ensures
            out@.len() == self@.len(),
            forall|i: int| 0 <= i < out@.len() ==> out@[i]@ == self@[self@.len() - 1 - i],
    {
        let n = self.entries.len();
        let mut out: Vec<Transaction> = Vec::with_capacity(n);
        let mut i: usize = 0;
        while i < n
            invariant
                self.wf(),
                n == self.entries@.len(),
                i <= n,
                out@.len() == i,
                forall|j: int| 0 <= j < i ==> out@[j]@ == self@[self@.len() - 1 - j],
            decreases n - i,
        {
            let k = n - 1 - i;
            let mut phys = self.start + k;
            if phys >= n {
                phys = phys - n;
            }
            out.push(self.entries[phys].clone());
            i = i + 1;
        }
        out
    }
}

} // verus!
