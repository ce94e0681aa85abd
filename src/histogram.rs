use vstd::prelude::*;

verus! {

/// The sum of all occurrence counts in `counts`.
pub open spec fn total(counts: Seq<u64>) -> nat
    decreases counts.len(),
{
    if counts.len() == 0 {
        0
    } else {
        total(counts.drop_last()) + counts.last() as nat
    }
}

/// How often guess count `k` occurred, where `counts[k]` holds it.
pub open spec fn count_of(counts: Seq<u64>, k: int) -> nat {
    if 0 <= k < counts.len() {
        counts[k] as nat
    } else {
        0
    }
}

/// The populated entries of `counts` as `(guess count, occurrences)` pairs, in
/// ascending order of guess count; counts of zero are left out.
pub open spec fn entries_of(counts: Seq<u64>) -> Seq<(u32, u64)>
    decreases counts.len(),
{
    if counts.len() == 0 {
        seq![]
    } else {
        let rest = entries_of(counts.drop_last());
        if counts.last() > 0 {
            rest.push(((counts.len() - 1) as u32, counts.last()))
        } else {
            rest
        }
    }
}

/// A frequency table from guess count to the number of trials that took
/// exactly that many guesses.
pub struct Histogram {
    bins: Vec<u64>,
}

impl View for Histogram {
    type V = Seq<u64>;

    /// Entry `k` is the count of guess count `k`; keys past the end have
    /// count zero.
    closed spec fn view(&self) -> Seq<u64> {
        self.bins@
    }
}

proof fn lemma_total_push_zero(s: Seq<u64>)
    ensures
        total(s.push(0)) == total(s),
{
    assert(s.push(0).drop_last() =~= s);
}

proof fn lemma_total_update(s: Seq<u64>, i: int, v: u64)
    requires
        0 <= i < s.len(),
    ensures
        total(s.update(i, v)) == total(s) - s[i] + v,
    decreases s.len(),
{
    let t = s.update(i, v);
    if i == s.len() - 1 {
        assert(t.drop_last() =~= s.drop_last());
    } else {
        assert(t.drop_last() =~= s.drop_last().update(i, v));
        lemma_total_update(s.drop_last(), i, v);
    }
}

proof fn lemma_bin_within_total(s: Seq<u64>, i: int)
    requires
        0 <= i < s.len(),
    ensures
        s[i] <= total(s),
    decreases s.len(),
{
    if i < s.len() - 1 {
        lemma_bin_within_total(s.drop_last(), i);
    }
}

/// The populated entries of a table are listed in strictly ascending order of
/// guess count, each once, each with its nonzero count.
pub proof fn lemma_entries_sorted(counts: Seq<u64>)
    requires
        counts.len() <= u32::MAX as int + 1,
    ensures
        forall|i: int, j: int|
            0 <= i < j < entries_of(counts).len() ==> entries_of(counts)[i].0 < entries_of(
                counts,
            )[j].0,
        forall|i: int|
            #![trigger entries_of(counts)[i]]
            0 <= i < entries_of(counts).len() ==> {
                &&& entries_of(counts)[i].0 < counts.len()
                &&& entries_of(counts)[i].1 > 0
                &&& entries_of(counts)[i].1 == count_of(counts, entries_of(counts)[i].0 as int)
            },
    decreases counts.len(),
{
    if counts.len() > 0 {
        let rest = counts.drop_last();
        lemma_entries_sorted(rest);
        assert forall|i: int|
            #![trigger entries_of(rest)[i]]
            0 <= i < entries_of(rest).len() implies count_of(rest, entries_of(rest)[i].0 as int)
            == count_of(counts, entries_of(rest)[i].0 as int) by {
            assert(counts[entries_of(rest)[i].0 as int] == rest[entries_of(rest)[i].0 as int]);
        }
    }
}

/// A table that holds no trials has no populated entries.
pub proof fn lemma_empty_total_no_entries(counts: Seq<u64>)
    requires
        total(counts) == 0,
    ensures
        entries_of(counts) == Seq::<(u32, u64)>::empty(),
    decreases counts.len(),
{
    if counts.len() > 0 {
        lemma_empty_total_no_entries(counts.drop_last());
    }
}

impl Histogram {
    /// The table can be indexed by every `u32` guess count it holds.
    pub closed spec fn wf(&self) -> bool {
        self.bins@.len() <= u32::MAX as int + 1
    }

    /// An empty histogram.
    pub fn new() -> (h: Histogram)
        ensures
            h.wf(),
            h@ == Seq::<u64>::empty(),
            total(h@) == 0,
    {
        Histogram { bins: Vec::new() }
    }

    /// Counts one more trial that took `guesses` guesses.
    pub fn record(&mut self, guesses: u32)
        requires
            old(self).wf(),
            total(old(self)@) < u64::MAX,
        ensures
            final(self).wf(),
            total(final(self)@) == total(old(self)@) + 1,
            forall|k: int|
                #![trigger count_of(final(self)@, k)]
                count_of(final(self)@, k) == count_of(old(self)@, k) + if k == guesses {
                    1int
                } else {
                    0int
                },
    {
        let g = guesses as usize;
        while self.bins.len() <= g
            invariant
                g <= u32::MAX,
                self.bins@.len() <= u32::MAX as int + 1,
                total(self.bins@) == total(old(self).bins@),
                forall|k: int| #![trigger count_of(self.bins@, k)]
                    count_of(self.bins@, k) == count_of(old(self).bins@, k),
            decreases g + 1 - self.bins.len(),
        {
            proof {
                lemma_total_push_zero(self.bins@);
            }
            let ghost prev = self.bins@;
            self.bins.push(0);
            assert forall|k: int| #![trigger count_of(self.bins@, k)]
                count_of(self.bins@, k) == count_of(prev, k) by {
                if 0 <= k < prev.len() {
                    assert(self.bins@[k] == prev[k]);
                }
            }
        }
        proof {
            lemma_bin_within_total(self.bins@, g as int);
            lemma_total_update(self.bins@, g as int, (self.bins@[g as int] + 1) as u64);
        }
        let c = self.bins[g];
        let ghost before = self.bins@;
        self.bins.set(g, c + 1);
        assert forall|k: int| #![trigger count_of(self.bins@, k)]
            count_of(self.bins@, k) == count_of(before, k) + if k == g { 1int } else { 0int } by {
        }
    }

    /// The populated entries, as `(guess count, occurrences)` pairs in
    /// ascending order of guess count.
    pub fn entries(&self) -> (r: Vec<(u32, u64)>)
        requires
            self.wf(),
        ensures
            r@ == entries_of(self@),
    {
        let mut r: Vec<(u32, u64)> = Vec::new();
        let mut i: usize = 0;
        while i < self.bins.len()
            invariant
                i <= self.bins@.len() <= u32::MAX as int + 1,
                r@ == entries_of(self.bins@.take(i as int)),
            decreases self.bins.len() - i,
        {
            let c = self.bins[i];
            proof {
                assert(self.bins@.take(i + 1).drop_last() =~= self.bins@.take(i as int));
            }
            if c > 0 {
                r.push((i as u32, c));
            }
            i += 1;
        }
        proof {
            assert(self.bins@.take(i as int) =~= self.bins@);
        }
        r
    }

    /// The number of bins, one past the largest guess count stored.
    pub fn len(&self) -> (r: usize)
        ensures
            r == self@.len(),
    {
        self.bins.len()
    }

    /// How many trials took exactly `guesses` guesses.
    pub fn count(&self, guesses: u32) -> (r: u64)
        ensures
            r == count_of(self@, guesses as int),
    {
        if (guesses as usize) < self.bins.len() {
            self.bins[guesses as usize]
        } else {
            0
        }
    }
}

} // verus!
