//! Per-second damage totals: an association list from Unix second to the
//! saturating sum of the amounts logged in that second, kept sorted by second.
use vstd::prelude::*;

verus! {

/// `a + b`, saturated at `u64::MAX`.
pub open spec fn sat_add(a: u64, b: u64) -> u64 {
    if a + b > u64::MAX {
        u64::MAX
    } else {
        (a + b) as u64
    }
}

/// Strictly increasing seconds.
pub open spec fn sorted(e: Seq<(i64, u64)>) -> bool {
    forall|i: int, j: int| 0 <= i < j < e.len() ==> e[i].0 < e[j].0
}

/// The total recorded for `second`.
pub open spec fn value_at(e: Seq<(i64, u64)>, second: i64) -> Option<u64>
    decreases e.len(),
{
    if e.len() == 0 {
        None
    } else if e.last().0 == second {
        Some(e.last().1)
    } else {
        value_at(e.drop_last(), second)
    }
}

/// The list after adding `amount` to the total of `second`.
pub open spec fn added(e: Seq<(i64, u64)>, second: i64, amount: u64) -> Seq<(i64, u64)>
    decreases e.len(),
{
    if e.len() == 0 {
        seq![(second, amount)]
    } else if e.last().0 == second {
        e.drop_last().push((second, sat_add(e.last().1, amount)))
    } else if e.last().0 < second {
        e.push((second, amount))
    } else {
        added(e.drop_last(), second, amount).push(e.last())
    }
}

/// Sum of the totals of the seconds in `[lo, hi]`.
pub open spec fn sum_between(e: Seq<(i64, u64)>, lo: int, hi: int) -> nat
    decreases e.len(),
{
    if e.len() == 0 {
        0
    } else {
        sum_between(e.drop_last(), lo, hi) + if lo <= e.last().0 && e.last().0 <= hi {
            e.last().1 as nat
        } else {
            0
        }
    }
}

/// The sum saturated at `u64::MAX` (a saturating fold of non-negative terms).
pub open spec fn sat_sum(n: nat) -> u64 {
    if n > u64::MAX {
        u64::MAX
    } else {
        n as u64
    }
}

/// Largest total among the seconds `<= hi`.
pub open spec fn max_upto(e: Seq<(i64, u64)>, hi: int) -> Option<u64>
    decreases e.len(),
{
    if e.len() == 0 {
        None
    } else {
        let rest = max_upto(e.drop_last(), hi);
        if e.last().0 <= hi {
            match rest {
                Some(m) => Some(if m >= e.last().1 {
                    m
                } else {
                    e.last().1
                }),
                None => Some(e.last().1),
            }
        } else {
            rest
        }
    }
}

/// Entries whose second is `>= min`.
pub open spec fn kept_from(e: Seq<(i64, u64)>, min: int) -> Seq<(i64, u64)>
    decreases e.len(),
{
    if e.len() == 0 {
        e
    } else if e.last().0 >= min {
        kept_from(e.drop_last(), min).push(e.last())
    } else {
        kept_from(e.drop_last(), min)
    }
}

/// A sorted association list of per-second totals.
pub struct SecondTotals {
    entries: Vec<(i64, u64)>,
}

impl View for SecondTotals {
    type V = Seq<(i64, u64)>;

    closed spec fn view(&self) -> Seq<(i64, u64)> {
        self.entries@
    }
}

/// Inserting at the right position or updating in place is `added`.
proof fn lemma_added_split(e: Seq<(i64, u64)>, second: i64, amount: u64, i: int)
    requires
        sorted(e),
        0 <= i <= e.len(),
        forall|j: int| 0 <= j < i ==> e[j].0 < second,
        forall|j: int| i <= j < e.len() ==> e[j].0 >= second,
    ensures
        i < e.len() && e[i].0 == second ==> added(e, second, amount) == e.subrange(0, i).push(
            (second, sat_add(e[i].1, amount)),
        ) + e.subrange(i + 1, e.len() as int),
        !(i < e.len() && e[i].0 == second) ==> added(e, second, amount) == e.subrange(0, i).push(
            (second, amount),
        ) + e.subrange(i, e.len() as int),
        sorted(added(e, second, amount)),
    decreases e.len(),
{
    if e.len() == 0 {
        assert(added(e, second, amount) =~= seq![(second, amount)]);
        assert(e.subrange(0, i).push((second, amount)) + e.subrange(i, e.len() as int) =~= seq![
            (second, amount),
        ]);
    } else if e.last().0 == second {
        assert(i == e.len() - 1);
        assert(e.drop_last() =~= e.subrange(0, i));
        assert(e.subrange(i + 1, e.len() as int) =~= Seq::<(i64, u64)>::empty());
        assert(e.subrange(0, i).push((second, sat_add(e[i].1, amount))) + e.subrange(
            i + 1,
            e.len() as int,
        ) =~= e.drop_last().push((second, sat_add(e.last().1, amount))));
    } else if e.last().0 < second {
        assert(i == e.len());
        assert(e.subrange(0, i) =~= e);
        assert(e.subrange(i, e.len() as int) =~= Seq::<(i64, u64)>::empty());
        assert(e.subrange(0, i).push((second, amount)) + e.subrange(i, e.len() as int) =~= e.push(
            (second, amount),
        ));
    } else {
        let d = e.drop_last();
        assert(i < e.len());
        assert(i <= d.len());
        assert(sorted(d));
        lemma_added_split(d, second, amount, i);
        if i < d.len() && d[i].0 == second {
            assert(added(d, second, amount).push(e.last()) =~= e.subrange(0, i).push(
                (second, sat_add(e[i].1, amount)),
            ) + e.subrange(i + 1, e.len() as int));
        } else {
            assert(!(i < e.len() && e[i].0 == second));
            assert(added(d, second, amount).push(e.last()) =~= e.subrange(0, i).push(
                (second, amount),
            ) + e.subrange(i, e.len() as int));
        }
    }
}

impl SecondTotals {
    pub closed spec fn wf(&self) -> bool {
        sorted(self.entries@)
    }

    pub fn new() -> (r: Self)
        ensures
            r.wf(),
            r@ == Seq::<(i64, u64)>::empty(),
    {
        SecondTotals { entries: Vec::new() }
    }

    pub fn clear(&mut self)
        ensures
            final(self).wf(),
            final(self)@ == Seq::<(i64, u64)>::empty(),
    {
        self.entries = Vec::new();
    }

    /// Adds `amount` to the total of `second`; returns the new total.
    pub fn add(&mut self, second: i64, amount: u64) -> (total: u64)
        requires
            old(self).wf(),
        ensures
            final(self).wf(),
            final(self)@ == added(old(self)@, second, amount),
            value_at(final(self)@, second) == Some(total),
    {
        let n = self.entries.len();
        let mut i: usize = n;
        while i > 0 && self.entries[i - 1].0 >= second
            invariant
                i <= n,
                n == self.entries@.len(),
                self.entries@ == old(self).entries@,
                sorted(self.entries@),
                forall|j: int| i <= j < n ==> self.entries@[j].0 >= second,
            decreases i,
        {
            i = i - 1;
        }
        proof {
            lemma_added_split(self.entries@, second, amount, i as int);
        }
        let total;
        if i < n && self.entries[i].0 == second {
            let old_total = self.entries[i].1;
            total = if old_total > u64::MAX - amount {
                u64::MAX
            } else {
                old_total + amount
            };
            self.entries.set(i, (second, total));
            assert(self.entries@ =~= old(self).entries@.subrange(0, i as int).push(
                (second, sat_add(old_total, amount)),
            ) + old(self).entries@.subrange(i + 1, n as int));
        } else {
            total = amount;
            self.entries.insert(i, (second, amount));
            assert(self.entries@ =~= old(self).entries@.subrange(0, i as int).push(
                (second, amount),
            ) + old(self).entries@.subrange(i as int, n as int));
        }
        proof {
            lemma_value_at_sorted(self.entries@, i as int);
        }
        total
    }

    /// The total recorded for `second`.
    pub fn get(&self, second: i64) -> (r: Option<u64>)
        requires
            self.wf(),
        ensures
            r == value_at(self@, second),
    {
        let n = self.entries.len();
        let mut i: usize = n;
        assert(self.entries@.subrange(0, n as int) =~= self.entries@);
        while i > 0
            invariant
                i <= n,
                n == self.entries@.len(),
                value_at(self.entries@.subrange(0, i as int), second) == value_at(
                    self.entries@,
                    second,
                ),
            decreases i,
        {
            let ghost sub = self.entries@.subrange(0, i as int);
            assert(sub.drop_last() =~= self.entries@.subrange(0, i - 1));
            if self.entries[i - 1].0 == second {
                return Some(self.entries[i - 1].1);
            }
            i = i - 1;
        }
        assert(self.entries@.subrange(0, 0) =~= Seq::<(i64, u64)>::empty());
        None
    }

    /// Saturating sum of the totals of the seconds in `[lo, hi]`.
    pub fn sum_range(&self, lo: i64, hi: i64) -> (r: u64)
        ensures
            r == sat_sum(sum_between(self@, lo as int, hi as int)),
    {
        let n = self.entries.len();
        let mut i: usize = 0;
        let mut total: u64 = 0;
        while i < n
            invariant
                i <= n,
                n == self.entries@.len(),
                total == sat_sum(sum_between(self.entries@.subrange(0, i as int), lo as int, hi as int)),
            decreases n - i,
        {
            let (second, value) = self.entries[i];
            assert(self.entries@.subrange(0, i + 1).drop_last() =~= self.entries@.subrange(
                0,
                i as int,
            ));
            if lo <= second && second <= hi {
                total = if total > u64::MAX - value {
                    u64::MAX
                } else {
                    total + value
                };
            }
            i = i + 1;
        }
        assert(self.entries@.subrange(0, n as int) =~= self.entries@);
        total
    }

    /// Largest total among the seconds `<= hi`.
    pub fn max_upto(&self, hi: i64) -> (r: Option<u64>)
        ensures
            r == max_upto(self@, hi as int),
    {
        let n = self.entries.len();
        let mut i: usize = 0;
        let mut best: Option<u64> = None;
        while i < n
            invariant
                i <= n,
                n == self.entries@.len(),
                best == max_upto(self.entries@.subrange(0, i as int), hi as int),
            decreases n - i,
        {
            let (second, value) = self.entries[i];
            assert(self.entries@.subrange(0, i + 1).drop_last() =~= self.entries@.subrange(
                0,
                i as int,
            ));
            if second <= hi {
                best = match best {
                    Some(m) => Some(
                        if m >= value {
                            m
                        } else {
                            value
                        },
                    ),
                    None => Some(value),
                };
            }
            i = i + 1;
        }
        assert(self.entries@.subrange(0, n as int) =~= self.entries@);
        best
    }

    /// Drops every second before `min`.
    pub fn retain_from(&mut self, min: i64)
        requires
            old(self).wf(),
        ensures
            final(self).wf(),
            final(self)@ == kept_from(old(self)@, min as int),
    {
        let n = self.entries.len();
        let mut kept: Vec<(i64, u64)> = Vec::new();
        let mut i: usize = 0;
        while i < n
            invariant
                i <= n,
                n == self.entries@.len(),
                sorted(self.entries@),
                kept@ == kept_from(self.entries@.subrange(0, i as int), min as int),
                forall|j: int| 0 <= j < kept@.len() ==> exists|k: int| 0 <= k < i && #[trigger] kept@[j] == self.entries@[k],
                sorted(kept@),
            decreases n - i,
        {
            let entry = self.entries[i];
            assert(self.entries@.subrange(0, i + 1).drop_last() =~= self.entries@.subrange(
                0,
                i as int,
            ));
            if entry.0 >= min {
                proof {
                    assert forall|j: int| 0 <= j < kept@.len() implies kept@[j].0 < entry.0 by {
                        let k = choose|k: int| 0 <= k < i && #[trigger] kept@[j] == self.entries@[k];
                    }
                }
                kept.push(entry);
            }
            i = i + 1;
        }
        assert(self.entries@.subrange(0, n as int) =~= self.entries@);
        self.entries = kept;
    }

    /// The largest recorded second.
    pub fn last_second(&self) -> (r: Option<i64>)
        ensures
            r == (if self@.len() == 0 {
                None::<i64>
            } else {
                Some(self@.last().0)
            }),
    {
        let n = self.entries.len();
        if n == 0 {
            None
        } else {
            Some(self.entries[n - 1].0)
        }
    }

    /// The recorded seconds, in increasing order.
    pub fn seconds(&self) -> (r: Vec<i64>)
        ensures
            r@.len() == self@.len(),
            forall|i: int| 0 <= i < r@.len() ==> r@[i] == #[trigger] self@[i].0,
    {
        let n = self.entries.len();
        let mut r: Vec<i64> = Vec::new();
        let mut i: usize = 0;
        while i < n
            invariant
                i <= n,
                n == self.entries@.len(),
                r@.len() == i,
                forall|j: int| 0 <= j < i ==> r@[j] == #[trigger] self.entries@[j].0,
            decreases n - i,
        {
            r.push(self.entries[i].0);
            i = i + 1;
        }
        r
    }
}

proof fn lemma_value_at_sorted(e: Seq<(i64, u64)>, i: int)
    requires
        sorted(e),
        0 <= i < e.len(),
    ensures
        value_at(e, e[i].0) == Some(e[i].1),
    decreases e.len(),
{
    if i < e.len() - 1 {
        assert(e.last().0 != e[i].0);
        assert(e.drop_last()[i] == e[i]);
        lemma_value_at_sorted(e.drop_last(), i);
    }
}

} // verus!
