//! Reading the history of a script page by page.

use vstd::prelude::*;

verus! {

/// A history with this many transactions or more is refused.
pub const MAX_TX_HISTORY: usize = 1000;

/// What to do after a page of the history was read.
#[derive(Clone, Copy, Debug, PartialEq, Eq)]
pub enum HistoryStep<Id> {
    /// The page was empty: the history is complete.
    Complete,
    /// Ask for the page that follows the transaction with this id.
    NextPage { last_seen: Id },
    /// The history has reached [`MAX_TX_HISTORY`] transactions: give up.
    LimitExceeded,
}

/// The transactions of a script, as far as they were read.
pub struct ScriptHistory<Tx> {
    transactions: Vec<Tx>,
}

/// The transactions of a page, in its order.
pub open spec fn page_transactions<Id, Tx>(page: Seq<(Id, Tx)>) -> Seq<Tx> {
    page.map_values(|entry: (Id, Tx)| entry.1)
}

/// What follows a page that brought the history to `total` transactions.
pub open spec fn spec_history_step<Id, Tx>(page: Seq<(Id, Tx)>, total: nat) -> HistoryStep<Id> {
    if page.len() == 0 {
        HistoryStep::Complete
    } else if total >= MAX_TX_HISTORY {
        HistoryStep::LimitExceeded
    } else {
        HistoryStep::NextPage { last_seen: page.last().0 }
    }
}

impl<Tx> View for ScriptHistory<Tx> {
    type V = Seq<Tx>;

    closed spec fn view(&self) -> Seq<Tx> {
        self.transactions@
    }
}

impl<Tx> ScriptHistory<Tx> {
    /// A history of which nothing was read yet.
    pub fn new() -> (history: ScriptHistory<Tx>)
        ensures
            history@ == Seq::<Tx>::empty(),
    {
        ScriptHistory { transactions: Vec::new() }
    }

    /// The number of transactions read.
    pub fn len(&self) -> (n: usize)
        ensures
            n == self@.len(),
    {
        self.transactions.len()
    }

    /// Adds a page, each transaction with its id, and says how to go on.
    pub fn add_page<Id>(&mut self, page: Vec<(Id, Tx)>) -> (step: HistoryStep<Id>)
        ensures
            final(self)@ == old(self)@ + page_transactions(page@),
            step == spec_history_step(page@, final(self)@.len()),
    {
        let ghost added = page@;
        let ghost start = self.transactions@;
        let mut page = page;
        // turn the page over, so that its entries can be taken one by one
        let mut reversed: Vec<(Id, Tx)> = Vec::new();
        while page.len() > 0
            invariant
                added == page@ + reversed@.reverse(),
                self.transactions@ == start,
            decreases page.len(),
        {
            let ghost before = page@;
            let ghost taken = reversed@;
            let entry = page.pop().unwrap();
            reversed.push(entry);
            proof {
                assert(before =~= page@.push(entry));
                assert(reversed@.reverse() =~= seq![entry] + taken.reverse());
                assert(added =~= page@ + reversed@.reverse());
            }
        }
        proof {
            assert(added =~= reversed@.reverse());
            assert(page_transactions(added.take(0)) =~= Seq::<Tx>::empty());
            assert(added.skip(0) =~= added);
        }
        let mut last_seen: Option<Id> = None;
        let ghost mut done: int = 0;
        while reversed.len() > 0
            invariant
                0 <= done <= added.len(),
                reversed@.reverse() == added.skip(done),
                self.transactions@ == start + page_transactions(added.take(done)),
                last_seen == if done == 0 {
                    None::<Id>
                } else {
                    Some(added[done - 1].0)
                },
            decreases reversed.len(),
        {
            let ghost before = reversed@;
            let (id, tx) = reversed.pop().unwrap();
            proof {
                assert(before =~= reversed@.push((id, tx)));
                assert(before.reverse() =~= seq![(id, tx)] + reversed@.reverse());
                assert(added.skip(done)[0] == (id, tx));
                assert(added[done] == (id, tx));
                assert(reversed@.reverse() =~= before.reverse().skip(1));
                assert(added.skip(done).skip(1) =~= added.skip(done + 1));
                assert(reversed@.reverse() =~= added.skip(done + 1));
                assert(added.take(done + 1) =~= added.take(done).push((id, tx)));
                assert(page_transactions(added.take(done + 1)) =~= page_transactions(
                    added.take(done),
                ).push(tx));
            }
            self.transactions.push(tx);
            last_seen = Some(id);
            proof {
                done = done + 1;
            }
        }
        proof {
            assert(reversed@.reverse().len() == 0);
            assert(done == added.len());
            assert(added.take(done) =~= added);
        }
        match last_seen {
            None => HistoryStep::Complete,
            Some(id) => {
                if self.transactions.len() >= MAX_TX_HISTORY {
                    HistoryStep::LimitExceeded
                } else {
                    HistoryStep::NextPage { last_seen: id }
                }
            },
        }
    }

    /// The transactions read, in the order read.
    pub fn into_transactions(self) -> (transactions: Vec<Tx>)
        ensures
            transactions@ == self@,
    {
        self.transactions
    }
}

} // verus!
