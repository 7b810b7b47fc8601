//! A plan: the validated entries of one batch of rows, in order.
use crate::entry::{Entry, EntryView};
use crate::order::same_text;
use crate::sorting::{ordered, sort_entries, sorted, views};
use vstd::prelude::*;
use vstd::string::StrSliceExecFns;

verus! {

/// The number of characters of a well-formed stock unit identifier.
pub const FNSKU_LEN: usize = 10;

/// Whether every one of the entries keeps the rule of its kind.
pub open spec fn all_wf(s: Seq<EntryView>) -> bool {
    forall|i: int| 0 <= i < s.len() ==> (#[trigger] s[i]).wf()
}

/// Whether every one of the entries stands for a single thing to handle.
pub open spec fn all_handling_units(s: Seq<EntryView>) -> bool {
    forall|i: int| 0 <= i < s.len() ==> (#[trigger] s[i]).is_handling_unit()
}

/// What an entry breaks down into: a packed entry into one entry for each of
/// its cases, all alike, each holding the units of a single case; a loose
/// entry into itself.
pub open spec fn expand_entry(e: EntryView) -> Seq<EntryView> {
    match e {
        EntryView::Packed(p) => Seq::new(p.cases(), |i: int| EntryView::Packed(p.single_case())),
        EntryView::Loose(_) => seq![e],
    }
}

/// The entries with each of them broken down, in place.
pub open spec fn expanded(s: Seq<EntryView>) -> Seq<EntryView> {
    s.flat_map(|e: EntryView| expand_entry(e))
}

/// The number of cases of all the entries together, a loose entry counting
/// as one.
pub open spec fn total_cases(s: Seq<EntryView>) -> nat
    decreases s.len(),
{
    if s.len() == 0 {
        0
    } else {
        total_cases(s.drop_last()) + s.last().cases()
    }
}

/// The stock unit identifiers that occur among the entries.
pub open spec fn fnskus(s: Seq<EntryView>) -> Set<Seq<char>> {
    s.map_values(|e: EntryView| e.fnsku()).to_set()
}

/// Whether every stock unit identifier among the entries has exactly ten
/// characters.
pub open spec fn fnskus_are_valid(s: Seq<EntryView>) -> bool {
    forall|i: int| 0 <= i < s.len() ==> (#[trigger] s[i]).fnsku().len() == FNSKU_LEN
}

/// The number of loose entries.
pub open spec fn loose_total(s: Seq<EntryView>) -> nat {
    s.filter(|e: EntryView| e.is_loose()).len()
}

/// The number of packed entries.
pub open spec fn packed_total(s: Seq<EntryView>) -> nat {
    s.filter(|e: EntryView| e.is_packed()).len()
}

/// What is known of a plan at a glance.
#[derive(Clone, Copy, Debug, PartialEq, Eq, Structural)]
pub struct PlanSummary {
    /// The number of different stock unit identifiers.
    pub skus: usize,
    /// The number of entries.
    pub entry_count: usize,
    /// Whether every stock unit identifier has exactly ten characters.
    pub valid_fnskus: bool,
    /// The number of packed entries.
    pub packed_count: usize,
    /// The number of loose entries.
    pub loose_count: usize,
}

impl PlanSummary {
    /// The summary with the given counts.
    pub fn new(
        skus: usize,
        entry_count: usize,
        valid_fnskus: bool,
        packed_count: usize,
        loose_count: usize,
    ) -> (r: Self)
        ensures
            r == (PlanSummary { skus, entry_count, valid_fnskus, packed_count, loose_count }),
    {
        PlanSummary { skus, entry_count, valid_fnskus, packed_count, loose_count }
    }

    /// Whether the summary is the summary of the given entries.
    pub open spec fn describes(self, s: Seq<EntryView>) -> bool {
        &&& self.skus == fnskus(s).len()
        &&& self.entry_count == s.len()
        &&& self.valid_fnskus == fnskus_are_valid(s)
        &&& self.packed_count == packed_total(s)
        &&& self.loose_count == loose_total(s)
    }

    /// The summary of a plan.
    pub fn summary(plan: Plan) -> (r: Self)
        ensures
            r.describes(plan@),
            r.packed_count + r.loose_count == r.entry_count,
    {
        plan.summarize()
    }
}

/// An ordered collection of entries. Several entries may share a stock unit
/// identifier.
#[derive(Debug)]
pub struct Plan {
    entries: Vec<Entry>,
}

impl View for Plan {
    type V = Seq<EntryView>;

    closed spec fn view(&self) -> Seq<EntryView> {
        views(self.entries@)
    }
}

impl Default for Plan {
    /// A plan without entries.
    fn default() -> (r: Self)
        ensures
            r@ == Seq::<EntryView>::empty(),
    {
        let r = Plan { entries: Vec::new() };
        assert(r@ =~= Seq::<EntryView>::empty());
        r
    }
}

impl Plan {
    /// The plan of the given entries, in their order.
    pub fn new(entries: Vec<Entry>) -> (r: Self)
        ensures
            r@ == views(entries@),
    {
        Plan { entries }
    }

    /// The entries of the plan, in their order.
    pub fn entries(&self) -> (r: &Vec<Entry>)
        ensures
            views(r@) == self@,
    {
        &self.entries
    }

    /// The number of entries.
    pub fn len(&self) -> (r: usize)
        ensures
            r == self@.len(),
    {
        self.entries.len()
    }

    /// Adds an entry at the end. An entry that is already there is added
    /// once more.
    pub fn push(&mut self, entry: Entry)
        ensures
            final(self)@ == old(self)@.push(entry@),
    {
        self.entries.push(entry);
        assert(views(self.entries@) =~= views(old(self).entries@).push(entry@));
    }

    /// Sorts the plan by the key of its entries: loose entries before packed
    /// ones, then by stock unit identifier, by the case's length, width,
    /// height and weight, and by staging group. Entries with the same key
    /// keep the order in which they stood.
    pub fn sort(&mut self)
        ensures
            final(self)@ == sorted(old(self)@),
            ordered(final(self)@),
            final(self)@.to_multiset() == old(self)@.to_multiset(),
    {
        sort_entries(&mut self.entries);
    }

    /// Breaks every packed entry down into its cases, in place: one entry for
    /// each case, all alike, each with the units of a single case. Loose
    /// entries stay as they are. Afterwards every entry stands for a single
    /// thing to handle, and there are as many entries as there were cases.
    pub fn expand_entries(&mut self)
        ensures
            final(self)@ == expanded(old(self)@),
            final(self)@.len() == total_cases(old(self)@),
            all_wf(old(self)@),
            all_wf(final(self)@),
            all_handling_units(final(self)@),
    {
        let ghost before = self@;
        let mut out: Vec<Entry> = Vec::new();
        let n: usize = self.entries.len();
        let mut i: usize = 0;
        assert(before.take(0) =~= Seq::<EntryView>::empty());
        assert(views(out@) =~= expanded(before.take(0)));
        while i < n
            invariant
                i <= n,
                n == self.entries@.len(),
                before == views(self.entries@),
                views(out@) == expanded(before.take(i as int)),
                all_wf(before.take(i as int)),
            decreases n - i,
        {
            let ghost done = views(out@);
            let ghost e = before[i as int];
            proof {
                assert(before.take(i + 1) =~= before.take(i as int).push(e));
                before.take(i as int).lemma_flat_map_push(|e: EntryView| expand_entry(e), e);
            }
            match &self.entries[i] {
                Entry::Loose(l) => {
                    out.push(Entry::Loose(l.clone()));
                    assert(views(out@) =~= done + expand_entry(e));
                },
                Entry::Packed(p) => {
                    let cases: u32 = match self.entries[i].num_of_cases() {
                        Ok(cases) => cases,
                        Err(_) => 0,
                    };
                    let mut k: u32 = 0;
                    while k < cases
                        invariant
                            k <= cases,
                            cases == e.cases(),
                            e == EntryView::Packed(p@),
                            views(out@) == done + expand_entry(e).take(k as int),
                        decreases cases - k,
                    {
                        let ghost so_far = views(out@);
                        out.push(Entry::Packed(p.single_case()));
                        assert(views(out@) =~= so_far.push(EntryView::Packed(p@.single_case())));
                        assert(expand_entry(e).take(k + 1) =~= expand_entry(e).take(k as int).push(
                            EntryView::Packed(p@.single_case()),
                        ));
                        k = k + 1;
                    }
                    assert(expand_entry(e).take(cases as int) =~= expand_entry(e));
                },
            }
            assert(e.wf());
            i = i + 1;
        }
        proof {
            assert(before.take(n as int) =~= before);
            lemma_expanded_entries_are_units(before);
            lemma_expanded_len(before);
        }
        self.entries = out;
    }

    /// The number of loose entries.
    pub fn loose_count(&self) -> (r: usize)
        ensures
            r == loose_total(self@),
    {
        let n: usize = self.entries.len();
        let mut count: usize = 0;
        let mut i: usize = 0;
        assert(self@.take(0) =~= Seq::<EntryView>::empty());
        while i < n
            invariant
                i <= n,
                n == self.entries@.len(),
                count <= i,
                count == loose_total(self@.take(i as int)),
            decreases n - i,
        {
            proof {
                assert(self@.take(i + 1) =~= self@.take(i as int).push(self@[i as int]));
                self@.take(i as int).lemma_filter_len_push(
                    |e: EntryView| e.is_loose(),
                    self@[i as int],
                );
            }
            if self.entries[i].is_loose() {
                count = count + 1;
            }
            i = i + 1;
        }
        assert(self@.take(n as int) =~= self@);
        count
    }

    /// The number of packed entries.
    pub fn packed_count(&self) -> (r: usize)
        ensures
            r == packed_total(self@),
    {
        let n: usize = self.entries.len();
        let mut count: usize = 0;
        let mut i: usize = 0;
        assert(self@.take(0) =~= Seq::<EntryView>::empty());
        while i < n
            invariant
                i <= n,
                n == self.entries@.len(),
                count <= i,
                count == packed_total(self@.take(i as int)),
            decreases n - i,
        {
            proof {
                assert(self@.take(i + 1) =~= self@.take(i as int).push(self@[i as int]));
                self@.take(i as int).lemma_filter_len_push(
                    |e: EntryView| e.is_packed(),
                    self@[i as int],
                );
            }
            if self.entries[i].is_packed() {
                count = count + 1;
            }
            i = i + 1;
        }
        assert(self@.take(n as int) =~= self@);
        count
    }

    /// The number of different stock unit identifiers.
    pub fn fnsku_count(&self) -> (r: usize)
        ensures
            r == fnskus(self@).len(),
    {
        let n: usize = self.entries.len();
        let mut count: usize = 0;
        let mut i: usize = 0;
        assert(self@.take(0) =~= Seq::<EntryView>::empty());
        assert(fnskus(self@.take(0)) =~= Set::<Seq<char>>::empty());
        while i < n
            invariant
                i <= n,
                n == self.entries@.len(),
                count <= i,
                count == fnskus(self@.take(i as int)).len(),
                fnskus(self@.take(i as int)).finite(),
            decreases n - i,
        {
            let ghost seen = self@.take(i as int);
            let ghost here = self@[i as int].fnsku();
            let mut known: bool = false;
            let mut j: usize = 0;
            while j < i && !known
                invariant
                    j <= i < n,
                    n == self.entries@.len(),
                    seen == self@.take(i as int),
                    here == self@[i as int].fnsku(),
                    known ==> fnskus(seen).contains(here),
                    !known ==> forall|k: int| 0 <= k < j ==> (#[trigger] seen[k]).fnsku() != here,
                decreases i - j + if known { 0int } else { 1int },
            {
                if same_text(self.entries[j].get_fnsku(), self.entries[i].get_fnsku()) {
                    known = true;
                    proof {
                        let names = seen.map_values(|e: EntryView| e.fnsku());
                        assert(names[j as int] == here);
                    }
                } else {
                    j = j + 1;
                }
            }
            proof {
                let names = seen.map_values(|e: EntryView| e.fnsku());
                assert(self@.take(i + 1) =~= seen.push(self@[i as int]));
                assert(self@.take(i + 1).map_values(|e: EntryView| e.fnsku()) =~= names.push(here));
                names.lemma_push_to_set_commute(here);
                if !known {
                    assert(!names.to_set().contains(here)) by {
                        if names.to_set().contains(here) {
                            let k = choose|k: int| 0 <= k < names.len() && names[k] == here;
                            assert(seen[k].fnsku() == here);
                        }
                    }
                }
            }
            if !known {
                count = count + 1;
            }
            i = i + 1;
        }
        assert(self@.take(n as int) =~= self@);
        count
    }

    /// Whether every stock unit identifier has exactly ten characters.
    pub fn has_valid_fnskus(&self) -> (r: bool)
        ensures
            r == fnskus_are_valid(self@),
    {
        let n: usize = self.entries.len();
        let mut i: usize = 0;
        while i < n
            invariant
                i <= n,
                n == self.entries@.len(),
                forall|k: int| 0 <= k < i ==> (#[trigger] self@[k]).fnsku().len() == FNSKU_LEN,
            decreases n - i,
        {
            if self.entries[i].get_fnsku().unicode_len() != FNSKU_LEN {
                assert(self@[i as int].fnsku().len() != FNSKU_LEN);
                return false;
            }
            i = i + 1;
        }
        true
    }

    /// The summary of the plan: how many different stock unit identifiers and
    /// how many entries it has, whether every identifier has exactly ten
    /// characters, and how many entries are packed and how many loose.
    pub fn summarize(&self) -> (r: PlanSummary)
        ensures
            r.describes(self@),
            r.packed_count + r.loose_count == r.entry_count,
    {
        proof {
            lemma_every_entry_is_counted_once(self@);
        }
        PlanSummary::new(
            self.fnsku_count(),
            self.len(),
            self.has_valid_fnskus(),
            self.packed_count(),
            self.loose_count(),
        )
    }
}

/// Every entry is counted once, as packed or as loose.
pub proof fn lemma_every_entry_is_counted_once(s: Seq<EntryView>)
    ensures
        packed_total(s) + loose_total(s) == s.len(),
    decreases s.len(),
{
    if s.len() == 0 {
        assert(packed_total(s) == 0 && loose_total(s) == 0) by {
            reveal(Seq::filter);
        }
    } else {
        let front = s.drop_last();
        lemma_every_entry_is_counted_once(front);
        assert(front.push(s.last()) =~= s);
        front.lemma_filter_len_push(|e: EntryView| e.is_packed(), s.last());
        front.lemma_filter_len_push(|e: EntryView| e.is_loose(), s.last());
    }
}

/// An entry that stands for a single thing to handle breaks down into
/// itself.
pub proof fn lemma_expand_handling_unit(e: EntryView)
    requires
        e.wf(),
        e.is_handling_unit(),
    ensures
        expand_entry(e) == seq![e],
{
    match e {
        EntryView::Packed(p) => {
            assert(p.units / p.per_case == 1) by (nonlinear_arith)
                requires
                    p.units == p.per_case,
                    p.per_case > 0,
            ;
            assert(p.single_case() == p);
            assert(expand_entry(e) =~= seq![e]);
        },
        EntryView::Loose(_) => {},
    }
}

/// What an entry breaks down into are as many entries as it has cases, each
/// of which stands for a single thing to handle.
pub proof fn lemma_expand_entry_gives_units(e: EntryView)
    requires
        e.wf(),
    ensures
        expand_entry(e).len() == e.cases(),
        all_wf(expand_entry(e)),
        all_handling_units(expand_entry(e)),
{
    match e {
        EntryView::Packed(p) => {
            assert(p.per_case % p.per_case == 0) by (nonlinear_arith)
                requires
                    p.per_case > 0,
            ;
        },
        EntryView::Loose(_) => {},
    }
}

/// After the breakdown every entry stands for a single thing to handle.
pub proof fn lemma_expanded_entries_are_units(s: Seq<EntryView>)
    requires
        all_wf(s),
    ensures
        all_wf(expanded(s)),
        all_handling_units(expanded(s)),
    decreases s.len(),
{
    if s.len() == 0 {
        assert(expanded(s) =~= Seq::<EntryView>::empty());
    } else {
        let front = s.drop_last();
        assert(front.push(s.last()) =~= s);
        front.lemma_flat_map_push(|e: EntryView| expand_entry(e), s.last());
        assert forall|i: int| 0 <= i < front.len() implies (#[trigger] front[i]).wf() by {
            assert(s[i].wf());
        }
        lemma_expanded_entries_are_units(front);
        assert(s[s.len() - 1].wf());
        lemma_expand_entry_gives_units(s.last());
        let tail = expand_entry(s.last());
        let whole = expanded(front) + tail;
        assert forall|i: int| 0 <= i < whole.len() implies (#[trigger] whole[i]).wf()
            && whole[i].is_handling_unit() by {
            if i < expanded(front).len() {
                assert(whole[i] == expanded(front)[i]);
            } else {
                assert(whole[i] == tail[i - expanded(front).len()]);
            }
        }
    }
}

/// After the breakdown there are as many entries as there were cases.
pub proof fn lemma_expanded_len(s: Seq<EntryView>)
    requires
        all_wf(s),
    ensures
        expanded(s).len() == total_cases(s),
    decreases s.len(),
{
    if s.len() == 0 {
        assert(expanded(s) =~= Seq::<EntryView>::empty());
    } else {
        let front = s.drop_last();
        assert(front.push(s.last()) =~= s);
        front.lemma_flat_map_push(|e: EntryView| expand_entry(e), s.last());
        assert forall|i: int| 0 <= i < front.len() implies (#[trigger] front[i]).wf() by {
            assert(s[i].wf());
        }
        lemma_expanded_len(front);
        assert(s[s.len() - 1].wf());
        lemma_expand_entry_gives_units(s.last());
    }
}

/// Breaking down entries that all stand for a single thing to handle changes
/// nothing.
pub proof fn lemma_expanded_of_units(s: Seq<EntryView>)
    requires
        all_wf(s),
        all_handling_units(s),
    ensures
        expanded(s) == s,
    decreases s.len(),
{
    if s.len() == 0 {
        assert(expanded(s) =~= s);
    } else {
        let front = s.drop_last();
        assert(front.push(s.last()) =~= s);
        front.lemma_flat_map_push(|e: EntryView| expand_entry(e), s.last());
        assert forall|i: int| 0 <= i < front.len() implies (#[trigger] front[i]).wf()
            && front[i].is_handling_unit() by {
            assert(s[i].wf());
            assert(s[i].is_handling_unit());
        }
        lemma_expanded_of_units(front);
        assert(s[s.len() - 1].wf());
        assert(s[s.len() - 1].is_handling_unit());
        lemma_expand_handling_unit(s.last());
        assert(front + seq![s.last()] =~= s);
    }
}

/// Breaking down a plan without packed entries changes nothing.
pub proof fn lemma_expanded_without_packed(s: Seq<EntryView>)
    requires
        forall|i: int| 0 <= i < s.len() ==> (#[trigger] s[i]).is_loose(),
    ensures
        expanded(s) == s,
{
    assert forall|i: int| 0 <= i < s.len() implies (#[trigger] s[i]).wf()
        && s[i].is_handling_unit() by {
        assert(s[i].is_loose());
    }
    lemma_expanded_of_units(s);
}

/// Breaking down twice gives what breaking down once gives.
pub proof fn lemma_expanded_is_idempotent(s: Seq<EntryView>)
    requires
        all_wf(s),
    ensures
        expanded(expanded(s)) == expanded(s),
{
    lemma_expanded_entries_are_units(s);
    lemma_expanded_of_units(expanded(s));
}

} // verus!
