//! The winner log: one entry for each closed vote, never changed afterwards.

use crate::table::MovieSeq;
use vstd::prelude::*;

verus! {

/// Each entry carries its place in the log, counted from one.
pub open spec fn numbered(rows: Seq<MovieSeq>) -> bool {
    forall|i: int| 0 <= i < rows.len() ==> (#[trigger] rows[i]).seq == i + 1
}

/// The append-only log of winners.
pub struct WinnerLog {
    rows: Vec<MovieSeq>,
}

impl View for WinnerLog {
    type V = Seq<MovieSeq>;

    closed spec fn view(&self) -> Seq<MovieSeq> {
        self.rows@
    }
}

impl WinnerLog {
    #[verifier::type_invariant]
    spec fn in_sequence(&self) -> bool {
        numbered(self.rows@)
    }

    /// A log without entries.
    pub fn new() -> (log: WinnerLog)
        ensures
            log@ == Seq::<MovieSeq>::empty(),
    {
        WinnerLog { rows: Vec::new() }
    }

    /// The number of entries.
    pub fn len(&self) -> (n: usize)
        ensures
            n == self@.len(),
            numbered(self@),
    {
        proof {
            use_type_invariant(self);
        }
        self.rows.len()
    }

    /// The entry at place `index`, counted from zero, if the log is that long.
    pub fn get(&self, index: usize) -> (entry: Option<MovieSeq>)
        ensures
            entry == if index < self@.len() {
                Some(self@[index as int])
            } else {
                None
            },
    {
        if index < self.rows.len() {
            Some(self.rows[index])
        } else {
            None
        }
    }

    /// Appends the winner `id` with the next sequence number and returns the
    /// new entry. Earlier entries stay as they are.
    pub fn append(&mut self, id: i32) -> (entry: MovieSeq)
        ensures
            entry.id == id,
            entry.seq == old(self)@.len() + 1,
            final(self)@ == old(self)@.push(entry),
            numbered(final(self)@),
    {
        proof {
            use_type_invariant(&*self);
        }
        let mut rows: Vec<MovieSeq> = Vec::new();
        core::mem::swap(&mut self.rows, &mut rows);
        let ghost before = rows@;
        rows.push(MovieSeq { id, seq: 0 });
        let n = rows.len();
        let entry = MovieSeq { id, seq: n as u64 };
        rows.set(n - 1, entry);
        assert(rows@ =~= before.push(entry));
        self.rows = rows;
        entry
    }
}

} // verus!
