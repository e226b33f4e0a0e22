//! Named counters: one number for each name, in the order in which the names came.

use vstd::prelude::*;

use crate::text::same;

verus! {

/// Named counters. No name occurs twice, and the sum of the counts fits in a `u64`.
#[derive(Debug, PartialEq)]
pub struct Counter {
    entries: Vec<(String, u64)>,
}

/// Where the name stands in a list of counts.
pub open spec fn has_name(s: Seq<(Seq<char>, u64)>, name: Seq<char>, i: int) -> bool {
    0 <= i < s.len() && s[i].0 == name
}

/// Whether no name occurs twice.
pub open spec fn distinct(s: Seq<(Seq<char>, u64)>) -> bool {
    forall|i: int, j: int| 0 <= i < j < s.len() ==> #[trigger] s[i].0 != #[trigger] s[j].0
}

/// The sum of the counts.
pub open spec fn sum(s: Seq<(Seq<char>, u64)>) -> nat
    decreases s.len(),
{
    if s.len() == 0 {
        0
    } else {
        sum(s.drop_last()) + s.last().1 as nat
    }
}

/// The count of a name; zero where it has none.
pub open spec fn count(s: Seq<(Seq<char>, u64)>, name: Seq<char>) -> u64 {
    if exists|i: int| has_name(s, name, i) {
        s[choose|i: int| has_name(s, name, i)].1
    } else {
        0
    }
}

/// The counts after `n` more of a name: at its place where it has one, else at the end.
pub open spec fn counted(s: Seq<(Seq<char>, u64)>, name: Seq<char>, n: u64) -> Seq<
    (Seq<char>, u64),
> {
    if exists|i: int| has_name(s, name, i) {
        let i = choose|i: int| has_name(s, name, i);
        s.update(i, (name, (s[i].1 + n) as u64))
    } else {
        s.push((name, n))
    }
}

/// The sum with one count replaced.
proof fn lemma_sum_update(s: Seq<(Seq<char>, u64)>, i: int, e: (Seq<char>, u64))
    requires
        0 <= i < s.len(),
    ensures
        sum(s.update(i, e)) == sum(s) - s[i].1 + e.1,
    decreases s.len(),
{
    if i == s.len() - 1 {
        assert(s.update(i, e).drop_last() =~= s.drop_last());
    } else {
        lemma_sum_update(s.drop_last(), i, e);
        assert(s.update(i, e).drop_last() =~= s.drop_last().update(i, e));
    }
}

/// Each count is at most the sum.
proof fn lemma_count_within_sum(s: Seq<(Seq<char>, u64)>, i: int)
    requires
        0 <= i < s.len(),
    ensures
        s[i].1 <= sum(s),
    decreases s.len(),
{
    if i < s.len() - 1 {
        lemma_count_within_sum(s.drop_last(), i);
    }
}

/// What counting does: the sum grows by what was counted, the name's count grows by it,
/// every other count and the order of the names stay, and names stay distinct.
pub proof fn counting_adds_up(s: Seq<(Seq<char>, u64)>, name: Seq<char>, n: u64)
    requires
        distinct(s),
        sum(s) + n <= u64::MAX,
    ensures
        distinct(counted(s, name, n)),
        sum(counted(s, name, n)) == sum(s) + n,
        count(counted(s, name, n), name) == count(s, name) + n,
        forall|other: Seq<char>|
            other != name ==> #[trigger] count(counted(s, name, n), other) == count(s, other),
        counted(s, name, n).len() == s.len() + (if exists|i: int| has_name(s, name, i) {
            0int
        } else {
            1
        }),
{
    let t = counted(s, name, n);
    if exists|i: int| has_name(s, name, i) {
        let i = choose|i: int| has_name(s, name, i);
        lemma_count_within_sum(s, i);
        lemma_sum_update(s, i, (name, (s[i].1 + n) as u64));
        assert(has_name(t, name, i));
        lemma_count(t, name, i);
        lemma_count(s, name, i);
    } else {
        assert(t.drop_last() =~= s);
        assert(has_name(t, name, s.len() as int));
        assert(distinct(t)) by {
            assert forall|i: int, j: int| 0 <= i < j < t.len() implies #[trigger] t[i].0
                != #[trigger] t[j].0 by {
                if j == s.len() {
                    assert(!has_name(s, name, i));
                }
            }
        }
        lemma_count(t, name, s.len() as int);
    }
    assert forall|other: Seq<char>| other != name implies #[trigger] count(t, other) == count(
        s,
        other,
    ) by {
        if exists|i: int| has_name(s, other, i) {
            let i = choose|i: int| has_name(s, other, i);
            assert(has_name(t, other, i));
            lemma_count(t, other, i);
            lemma_count(s, other, i);
        } else {
            if exists|i: int| has_name(t, other, i) {
                let i = choose|i: int| has_name(t, other, i);
                assert(has_name(s, other, i));
            }
        }
    }
}

/// In a list of distinct names the count of a name is what stands at its place.
pub proof fn lemma_count(s: Seq<(Seq<char>, u64)>, name: Seq<char>, i: int)
    requires
        distinct(s),
        has_name(s, name, i),
    ensures
        count(s, name) == s[i].1,
{
    let j = choose|j: int| has_name(s, name, j);
    if i < j {
        assert(s[i].0 != s[j].0);
    } else if j < i {
        assert(s[j].0 != s[i].0);
    }
}

/// Whether two lists have the same names, in the same order.
pub open spec fn same_names(a: Seq<(Seq<char>, u64)>, b: Seq<(Seq<char>, u64)>) -> bool {
    &&& a.len() == b.len()
    &&& forall|i: int| 0 <= i < a.len() ==> #[trigger] a[i].0 == b[i].0
}

/// Counting the same name in two lists of the same names leaves them with the same names.
pub proof fn lemma_same_names_counted(
    a: Seq<(Seq<char>, u64)>,
    b: Seq<(Seq<char>, u64)>,
    name: Seq<char>,
    n: u64,
    m: u64,
)
    requires
        same_names(a, b),
    ensures
        same_names(counted(a, name, n), counted(b, name, m)),
{
    if exists|i: int| has_name(a, name, i) {
        let i = choose|i: int| has_name(a, name, i);
        assert(a[i].0 == b[i].0);
        assert(has_name(b, name, i));
    }
    if exists|i: int| has_name(b, name, i) {
        let i = choose|i: int| has_name(b, name, i);
        assert(a[i].0 == b[i].0);
        assert(has_name(a, name, i));
    }
}

impl Counter {
    /// The names with their counts, in the order in which the names came.
    pub closed spec fn view(&self) -> Seq<(Seq<char>, u64)> {
        Seq::new(self.entries@.len(), |i: int| (self.entries@[i].0@, self.entries@[i].1))
    }

    /// Whether no name occurs twice and the sum of the counts fits.
    pub open spec fn wf(&self) -> bool {
        distinct(self@) && sum(self@) <= u64::MAX
    }

    /// No counts.
    pub fn new() -> (r: Counter)
        ensures
            r@ == Seq::<(Seq<char>, u64)>::empty(),
            r.wf(),
    {
        let r = Counter { entries: Vec::new() };
        assert(r@ =~= Seq::<(Seq<char>, u64)>::empty());
        r
    }

    /// How many names there are.
    pub fn len(&self) -> (r: usize)
        ensures
            r == self@.len(),
    {
        self.entries.len()
    }

    /// The name at a place.
    pub fn name(&self, i: usize) -> (r: &String)
        requires
            i < self@.len(),
        ensures
            r@ == self@[i as int].0,
    {
        &self.entries[i].0
    }

    /// The count at a place.
    pub fn count_at(&self, i: usize) -> (r: u64)
        requires
            i < self@.len(),
        ensures
            r == self@[i as int].1,
    {
        self.entries[i].1
    }

    /// Where a name stands.
    fn find(&self, name: &str) -> (r: Option<usize>)
        ensures
            match r {
                Some(i) => has_name(self@, name@, i as int),
                None => !exists|i: int| has_name(self@, name@, i),
            },
    {
        let mut i: usize = 0;
        while i < self.entries.len()
            invariant
                i <= self.entries@.len(),
                forall|j: int| 0 <= j < i ==> !has_name(self@, name@, j),
            decreases self.entries@.len() - i,
        {
            if same(&self.entries[i].0, name) {
                return Some(i);
            }
            i = i + 1;
        }
        None
    }

    /// The count of a name; zero where it has none.
    pub fn get(&self, name: &str) -> (r: u64)
        requires
            self.wf(),
        ensures
            r == count(self@, name@),
    {
        match self.find(name) {
            Some(i) => {
                proof {
                    lemma_count(self@, name@, i as int);
                }
                self.entries[i].1
            },
            None => 0,
        }
    }

    /// Counts `n` more of a name.
    pub fn bump(&mut self, name: &str, n: u64)
        requires
            old(self).wf(),
            sum(old(self)@) + n <= u64::MAX,
        ensures
            final(self)@ == counted(old(self)@, name@, n),
            final(self).wf(),
    {
        let ghost before = self@;
        proof {
            counting_adds_up(before, name@, n);
        }
        match self.find(name) {
            Some(i) => {
                proof {
                    let j = choose|j: int| has_name(before, name@, j);
                    if i < j {
                        assert(before[i as int].0 != before[j].0);
                    } else if j < i {
                        assert(before[j].0 != before[i as int].0);
                    }
                    lemma_count_within_sum(before, i as int);
                }
                let more: u64 = self.entries[i].1 + n;
                self.entries[i].1 = more;
                assert(self@ =~= before.update(i as int, (name@, more)));
            },
            None => {
                self.entries.push((name.to_owned(), n));
                assert(self@ =~= before.push((name@, n)));
            },
        }
    }

    /// The sum of the counts.
    pub fn total(&self) -> (r: u64)
        requires
            self.wf(),
        ensures
            r == sum(self@),
    {
        let mut t: u64 = 0;
        let mut i: usize = 0;
        assert(self@.take(0) =~= Seq::empty());
        while i < self.entries.len()
            invariant
                i <= self.entries@.len(),
                t == sum(self@.take(i as int)),
                sum(self@) <= u64::MAX,
            decreases self.entries@.len() - i,
        {
            assert(self@.take(i + 1).drop_last() =~= self@.take(i as int));
            assert(self@.take(i + 1).last() == self@[i as int]);
            proof {
                lemma_sum_of_prefix(self@, i + 1);
            }
            t = t + self.entries[i].1;
            i = i + 1;
        }
        assert(self@.take(self@.len() as int) =~= self@);
        t
    }
}

/// A prefix never sums to more than the whole.
pub proof fn lemma_sum_of_prefix(s: Seq<(Seq<char>, u64)>, i: int)
    requires
        0 <= i <= s.len(),
    ensures
        sum(s.take(i)) <= sum(s),
    decreases s.len() - i,
{
    if i == s.len() {
        assert(s.take(i) =~= s);
    } else {
        lemma_sum_of_prefix(s, i + 1);
        assert(s.take(i + 1).drop_last() =~= s.take(i));
    }
}

} // verus!
