//! A ledger of finished work items: rows of strings, looked up by their
//! first entry. Loading and saving the ledger is left to the caller.

use vstd::prelude::*;

verus! {

/// The ledger: one row per finished item, the item's name first.
#[derive(Debug, PartialEq)]
pub struct State {
    pub done: Vec<Vec<String>>,
}

impl State {
    /// Every row carries at least its name.
    pub open spec fn rows_nonempty(self) -> bool {
        forall|i: int| 0 <= i < self.done@.len() ==> (#[trigger] self.done@[i])@.len() > 0
    }

    /// An empty ledger.
    pub fn new() -> (r: State)
        ensures
            r.done@ == Seq::<Vec<String>>::empty(),
            r.rows_nonempty(),
    {
        State { done: Vec::new() }
    }

    /// Whether some row's first entry is `name`.
    pub fn is_done(&self, name: String) -> (r: bool)
        requires
            self.rows_nonempty(),
        ensures
            r == exists|i: int|
                0 <= i < self.done@.len() && (#[trigger] self.done@[i])@[0]@ == name@,
    {
        let n = self.done.len();
        let mut i: usize = 0;
        while i < n
            invariant
                n == self.done@.len(),
                i <= n,
                self.rows_nonempty(),
                forall|j: int| 0 <= j < i ==> (#[trigger] self.done@[j])@[0]@ != name@,
            decreases n - i,
        {
            let row = &self.done[i];
            if row[0] == name {
                return true;
            }
            i = i + 1;
        }
        false
    }

    /// Records one more finished row.
    pub fn append(&mut self, row: Vec<String>)
        ensures
            final(self).done@ == old(self).done@.push(row),
    {
        self.done.push(row);
    }
}

} // verus!
