//! Building a plan from the outcomes of its rows.
//!
//! Every row of a batch has an outcome: the entry that was built from it, or
//! the reason why none was. The builder collects the outcomes in the order of
//! the rows, and makes a plan of the entries among them.
use crate::entry::{Entry, EntryView};
use crate::error::ErrorKind;
use crate::plan::Plan;
use crate::sorting::views;
use vstd::prelude::*;

verus! {

/// What the outcome of a row is.
pub open spec fn outcome_view(o: Result<Entry, ErrorKind>) -> Result<EntryView, ErrorKind> {
    match o {
        Ok(e) => Ok(e@),
        Err(k) => Err(k),
    }
}

/// What each of the outcomes is.
pub open spec fn outcome_views(s: Seq<Result<Entry, ErrorKind>>) -> Seq<
    Result<EntryView, ErrorKind>,
> {
    s.map_values(|o: Result<Entry, ErrorKind>| outcome_view(o))
}

/// The entry of an outcome, if it has one.
pub open spec fn surviving(o: Result<EntryView, ErrorKind>) -> Option<EntryView> {
    match o {
        Ok(e) => Some(e),
        Err(_) => None,
    }
}

/// The entries among the outcomes, in their order.
pub open spec fn survivors(s: Seq<Result<EntryView, ErrorKind>>) -> Seq<EntryView> {
    s.filter_map(|o: Result<EntryView, ErrorKind>| surviving(o))
}

/// Whether a row was turned down for want of a stock unit identifier.
pub open spec fn lacks_fnsku(o: Result<EntryView, ErrorKind>) -> bool {
    o == Err::<EntryView, ErrorKind>(ErrorKind::MissingFnsku)
}

/// The outcomes but those of rows without a stock unit identifier, in their
/// order.
pub open spec fn with_fnskus(s: Seq<Result<EntryView, ErrorKind>>) -> Seq<
    Result<EntryView, ErrorKind>,
> {
    s.filter(|o: Result<EntryView, ErrorKind>| !lacks_fnsku(o))
}

/// Leaving out the rows without a stock unit identifier leaves every entry
/// in.
pub proof fn lemma_survivors_have_fnskus(s: Seq<Result<EntryView, ErrorKind>>)
    ensures
        survivors(with_fnskus(s)) == survivors(s),
    decreases s.len(),
{
    let keep = |o: Result<EntryView, ErrorKind>| !lacks_fnsku(o);
    if s.len() == 0 {
        assert(s.filter(keep) =~= s) by {
            reveal(Seq::filter);
        }
    } else {
        let front = s.drop_last();
        lemma_survivors_have_fnskus(front);
        assert(front.push(s.last()) =~= s);
        front.lemma_filter_push(s.last(), keep);
        if keep(s.last()) {
            let kept = front.filter(keep).push(s.last());
            assert(kept.drop_last() =~= front.filter(keep));
            assert(kept.last() == s.last());
        }
    }
}

/// The builder found no entry among the outcomes of the rows.
#[derive(Clone, Copy, Debug, PartialEq, Eq, Structural)]
pub struct EmptyPlan;

impl EmptyPlan {
    /// The sentence that describes the failure.
    pub fn message(&self) -> (r: String)
        ensures
            r@ == "Plan was built, but it is empty."@,
    {
        "Plan was built, but it is empty.".to_owned()
    }
}

/// Collects the outcomes of the rows of a batch.
#[derive(Debug)]
pub struct PlanBuilder {
    entries: Vec<Result<Entry, ErrorKind>>,
    keep_error: bool,
}

impl Default for PlanBuilder {
    /// A builder without outcomes, which does not look for rows without a
    /// stock unit identifier.
    fn default() -> (r: Self)
        ensures
            r.outcomes() == Seq::<Result<EntryView, ErrorKind>>::empty(),
            !r.keeps_error(),
    {
        let r = PlanBuilder { entries: Vec::new(), keep_error: false };
        assert(r.outcomes() =~= Seq::<Result<EntryView, ErrorKind>>::empty());
        r
    }
}

impl PlanBuilder {
    /// The outcomes collected so far, in the order of the rows.
    pub closed spec fn outcomes(&self) -> Seq<Result<EntryView, ErrorKind>> {
        outcome_views(self.entries@)
    }

    /// Whether `build` first drops the outcomes of rows without a stock unit
    /// identifier.
    pub closed spec fn keeps_error(&self) -> bool {
        self.keep_error
    }

    /// Says whether `build` shall first drop the outcomes of rows without a
    /// stock unit identifier.
    pub fn set_keep_error(&mut self, keep_error: bool)
        ensures
            final(self).keeps_error() == keep_error,
            final(self).outcomes() == old(self).outcomes(),
    {
        self.keep_error = keep_error;
    }

    /// Whether `build` first drops the outcomes of rows without a stock unit
    /// identifier.
    pub fn keep_error(&self) -> (r: bool)
        ensures
            r == self.keeps_error(),
    {
        self.keep_error
    }

    /// The number of outcomes collected so far.
    pub fn len(&self) -> (r: usize)
        ensures
            r == self.outcomes().len(),
    {
        self.entries.len()
    }

    /// Adds the outcome of the next row.
    pub fn push(&mut self, e: Result<Entry, ErrorKind>)
        ensures
            final(self).outcomes() == old(self).outcomes().push(outcome_view(e)),
            final(self).keeps_error() == old(self).keeps_error(),
    {
        self.entries.push(e);
        assert(outcome_views(self.entries@) =~= outcome_views(old(self).entries@).push(
            outcome_view(e),
        ));
    }

    /// Makes the plan of the entries among the outcomes, in the order of
    /// their rows. Every outcome that is an error is dropped. A plan has at
    /// least one entry: where no row gave one, the result is `EmptyPlan`.
    pub fn build(self) -> (r: Result<Plan, EmptyPlan>)
        ensures
            match r {
                Ok(plan) => plan@ == survivors(self.outcomes()) && plan@.len() > 0,
                Err(_) => survivors(self.outcomes()).len() == 0,
            },
    {
        let mut this = self;
        if this.keep_error {
            this.remove_entries_without_fnskus();
        }
        proof {
            lemma_survivors_have_fnskus(self.outcomes());
        }
        let ghost all = this.outcomes();
        let mut kept: Vec<Entry> = Vec::new();
        let n: usize = this.entries.len();
        let mut i: usize = 0;
        assert(all.take(0) =~= Seq::<Result<EntryView, ErrorKind>>::empty());
        while i < n
            invariant
                i <= n,
                n == this.entries@.len(),
                all == outcome_views(this.entries@),
                views(kept@) == survivors(all.take(i as int)),
            decreases n - i,
        {
            let ghost before = views(kept@);
            proof {
                all.lemma_filter_map_take_succ(
                    |o: Result<EntryView, ErrorKind>| surviving(o),
                    i as int,
                );
            }
            match &this.entries[i] {
                Ok(entry) => {
                    kept.push(entry.clone());
                    assert(views(kept@) =~= before + seq![entry@]);
                },
                Err(_) => {
                    assert(views(kept@) =~= before + Seq::<EntryView>::empty());
                },
            }
            i = i + 1;
        }
        assert(all.take(n as int) =~= all);
        if kept.is_empty() {
            Err(EmptyPlan)
        } else {
            Ok(Plan::new(kept))
        }
    }

    /// Drops the outcomes of rows that were turned down for want of a stock
    /// unit identifier. The other outcomes stay, errors too, in their order.
    pub fn remove_entries_without_fnskus(&mut self)
        ensures
            final(self).outcomes() == with_fnskus(old(self).outcomes()),
            final(self).keeps_error() == old(self).keeps_error(),
    {
        let ghost before = self.outcomes();
        let ghost mut seen: int = 0;
        let mut i: usize = 0;
        assert(with_fnskus(before.take(0)) =~= Seq::<Result<EntryView, ErrorKind>>::empty()) by {
            reveal(Seq::filter);
        }
        while i < self.entries.len()
            invariant
                self.keep_error == old(self).keep_error,
                0 <= seen <= before.len(),
                i <= self.entries@.len(),
                self.entries@.len() - i == before.len() - seen,
                outcome_views(self.entries@).take(i as int) == with_fnskus(before.take(seen)),
                outcome_views(self.entries@).skip(i as int) == before.skip(seen),
            decreases self.entries@.len() - i,
        {
            let ghost here = outcome_views(self.entries@);
            proof {
                assert(here[i as int] == here.skip(i as int)[0]);
                assert(before[seen] == before.skip(seen)[0]);
                assert(before.take(seen + 1) =~= before.take(seen).push(before[seen]));
                before.take(seen).lemma_filter_push(
                    before[seen],
                    |o: Result<EntryView, ErrorKind>| !lacks_fnsku(o),
                );
                assert(before.skip(seen + 1) =~= before.skip(seen).skip(1));
            }
            let drop: bool = match &self.entries[i] {
                Err(ErrorKind::MissingFnsku) => true,
                _ => false,
            };
            assert(drop == lacks_fnsku(here[i as int]));
            if drop {
                let _ = self.entries.remove(i);
                proof {
                    assert(outcome_views(self.entries@) =~= here.remove(i as int));
                    assert(here.remove(i as int).take(i as int) =~= here.take(i as int));
                    assert(here.remove(i as int).skip(i as int) =~= here.skip(i as int).skip(1));
                }
            } else {
                proof {
                    assert(here.take(i + 1) =~= here.take(i as int).push(here[i as int]));
                    assert(here.skip(i + 1) =~= here.skip(i as int).skip(1));
                }
                i = i + 1;
            }
            proof {
                seen = seen + 1;
            }
        }
        proof {
            assert(outcome_views(self.entries@).take(i as int) =~= outcome_views(self.entries@));
            assert(before.take(seen) =~= before);
        }
    }
}

} // verus!
