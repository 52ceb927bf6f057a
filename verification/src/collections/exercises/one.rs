//! Sum, median and mode of a list of integers.

use crate::seqs::lemma_occurrences;
use crate::seqs::lemma_occurrences_step;
use crate::seqs::occurrences;
use std::collections::HashMap;
use vstd::prelude::*;
use vstd::relations::sorted_by;
use vstd::seq_lib::lemma_sorted_unique;
use vstd::std_specs::iter::IteratorSpec;

verus! {

broadcast use vstd::std_specs::hash::group_hash_axioms;

/// The sum of `ints` as a mathematical integer.
pub open spec fn total(ints: Seq<i32>) -> int
    decreases ints.len(),
{
    if ints.len() == 0 {
        0
    } else {
        total(ints.drop_last()) + ints.last()
    }
}

/// Whether every partial sum of `ints`, taken from the left, fits an `i32`.
pub open spec fn sums_fit(ints: Seq<i32>) -> bool {
    forall|k: int| 0 <= k <= ints.len() ==> i32::MIN <= #[trigger] total(ints.take(k)) <= i32::MAX
}

/// Adds up `ints` from left to right. No partial sum may leave the range of
/// `i32`.
pub fn sum(ints: &Vec<i32>) -> (s: i32)
    requires
        sums_fit(ints@),
    ensures
        s == total(ints@),
{
    let mut s: i32 = 0;
    let mut i: usize = 0;
    while i < ints.len()
        invariant
            i <= ints.len(),
            s == total(ints@.take(i as int)),
            sums_fit(ints@),
        decreases ints.len() - i,
    {
        assert(ints@.take(i + 1).drop_last() == ints@.take(i as int));
        assert(i32::MIN <= total(ints@.take(i + 1)) <= i32::MAX);
        s = s + ints[i];
        i += 1;
    }
    assert(ints@.take(ints@.len() as int) == ints@);
    s
}

/// Adds up `ints` from left to right as `sum` does, unless a partial sum
/// leaves the range of `i32`.
pub fn try_sum(ints: &Vec<i32>) -> (s: Option<i32>)
    ensures
        match s {
            Some(s) => sums_fit(ints@) && s == total(ints@),
            None => !sums_fit(ints@),
        },
{
    let mut s: i32 = 0;
    let mut i: usize = 0;
    assert(ints@.take(0).len() == 0);
    while i < ints.len()
        invariant
            i <= ints.len(),
            s == total(ints@.take(i as int)),
            forall|k: int|
                0 <= k <= i ==> i32::MIN <= #[trigger] total(ints@.take(k)) <= i32::MAX,
        decreases ints.len() - i,
    {
        assert(ints@.take(i + 1).drop_last() == ints@.take(i as int));
        match s.checked_add(ints[i]) {
            Some(next) => {
                s = next;
            },
            None => {
                assert(!(i32::MIN <= total(ints@.take(i + 1)) <= i32::MAX));
                return None;
            },
        }
        i += 1;
    }
    assert(ints@.take(ints@.len() as int) == ints@);
    Some(s)
}

/// The order of the integers.
pub open spec fn leq() -> spec_fn(i32, i32) -> bool {
    |a: i32, b: i32| a <= b
}

/// `ints` in ascending order.
pub open spec fn ascending(ints: Seq<i32>) -> Seq<i32> {
    ints.sort_by(leq())
}

/// Half of `x`, rounded towards zero.
pub open spec fn half(x: int) -> int {
    if x >= 0 {
        x / 2
    } else {
        -((-x) / 2)
    }
}

/// The median of a list that is not empty: the middle element of the list in
/// ascending order, or half the sum of the two middle elements.
pub open spec fn median_of(ints: Seq<i32>) -> int {
    let sorted = ascending(ints);
    let mid = sorted.len() as int / 2;
    if sorted.len() % 2 == 1 {
        sorted[mid] as int
    } else {
        half(sorted[mid] + sorted[mid - 1])
    }
}

/// The sum of the two middle elements of a list of even length in ascending
/// order; zero for a list of odd length.
pub open spec fn middle_sum(ints: Seq<i32>) -> int {
    let sorted = ascending(ints);
    let mid = sorted.len() as int / 2;
    if sorted.len() % 2 == 1 {
        0
    } else {
        sorted[mid] + sorted[mid - 1]
    }
}

/// Exchanging two elements of a sequence leaves its multiset as it was.
pub proof fn lemma_swap_keeps_elements(s: Seq<i32>, a: int, b: int)
    requires
        0 <= a < s.len(),
        0 <= b < s.len(),
    ensures
        s.update(a, s[b]).update(b, s[a]).to_multiset() == s.to_multiset(),
{
    broadcast use vstd::multiset::group_multiset_axioms;

    let halfway = s.update(a, s[b]);
    let swapped = halfway.update(b, s[a]);
    let bag = s.to_multiset();
    vstd::seq_lib::to_multiset_update(s, a, s[b]);
    vstd::seq_lib::to_multiset_update(halfway, b, s[a]);
    s.to_multiset_ensures();
    assert(s.contains(s[a]) && s.contains(s[b]));
    assert(halfway[b] == s[b]);
    let one = bag.insert(s[b]);
    let two = one.remove(s[a]);
    let three = two.insert(s[a]);
    let four = three.remove(s[b]);
    assert(swapped.to_multiset() == four);
    assert forall|v: i32| four.count(v) == bag.count(v) by {
        assert(one.count(v) == bag.count(v) + if v == s[b] { 1int } else { 0int });
        assert(two.count(v) == one.count(v) - if v == s[a] { 1int } else { 0int });
        assert(three.count(v) == two.count(v) + if v == s[a] { 1int } else { 0int });
        assert(four.count(v) == three.count(v) - if v == s[b] { 1int } else { 0int });
    }
    assert(four =~= bag);
}

/// Sorts `ints` into ascending order: the same elements, each as often as
/// before, none before a smaller one.
pub fn sort(ints: &mut Vec<i32>)
    ensures
        final(ints)@ == ascending(old(ints)@),
        sorted_by(final(ints)@, leq()),
        final(ints)@.to_multiset() == old(ints)@.to_multiset(),
{
    broadcast use {vstd::seq_lib::group_to_multiset_ensures, vstd::multiset::group_multiset_axioms};

    let n = ints.len();
    let mut i: usize = 0;
    while i < n
        invariant
            i <= n,
            ints.len() == n,
            sorted_by(ints@.take(i as int), leq()),
            ints@.to_multiset() == old(ints)@.to_multiset(),
        decreases n - i,
    {
        let mut j: usize = i;
        assert forall|a: int, b: int| 0 <= a < b <= i && b != j implies ints@[a] <= ints@[b] by {
            assert(leq()(ints@.take(i as int)[a], ints@.take(i as int)[b]));
        }
        while j > 0 && ints[j - 1] > ints[j]
            invariant
                j <= i < n,
                ints.len() == n,
                ints@.to_multiset() == old(ints)@.to_multiset(),
                forall|a: int, b: int| 0 <= a < b <= i && b != j ==> ints@[a] <= ints@[b],
            decreases j,
        {
            let low = ints[j];
            let high = ints[j - 1];
            let ghost before = ints@;
            ints.set(j - 1, low);
            ints.set(j, high);
            proof {
                lemma_swap_keeps_elements(before, j - 1, j as int);
                assert(ints@ == before.update(j - 1, before[j as int]).update(
                    j as int,
                    before[j - 1],
                ));
            }
            j -= 1;
        }
        assert forall|a: int, b: int| 0 <= a < b < i + 1 implies #[trigger] leq()(
            ints@.take(i + 1)[a],
            ints@.take(i + 1)[b],
        ) by {
            if b == j && a < j - 1 {
                assert(ints@[a] <= ints@[j - 1]);
            }
        }
        i += 1;
    }
    proof {
        assert(ints@.take(n as int) == ints@);
        old(ints)@.lemma_sort_by_ensures(leq());
        lemma_sorted_unique(ints@, ascending(old(ints)@), leq());
    }
}

/// The median of `ints`, which must not be empty. Where the length is even,
/// the sum of the two middle elements must fit an `i32`.
pub fn median(ints: &Vec<i32>) -> (m: i32)
    requires
        ints.len() > 0,
        i32::MIN <= middle_sum(ints@) <= i32::MAX,
    ensures
        m == median_of(ints@),
{
    let mut ints_copy = ints.clone();
    assert(ints_copy@ == ints@);
    sort(&mut ints_copy);
    proof {
        ints@.lemma_sort_by_ensures(leq());
        ints@.to_multiset_ensures();
        ascending(ints@).to_multiset_ensures();
    }
    if ints.len() % 2 == 1 {
        ints_copy[ints.len() / 2]
    } else {
        (ints_copy[ints.len() / 2] + ints_copy[(ints.len() / 2) - 1]) / 2
    }
}

/// The median of `ints` as `median` gives it, unless the list is empty or
/// the sum of its two middle elements does not fit an `i32`.
pub fn try_median(ints: &Vec<i32>) -> (m: Option<i32>)
    ensures
        match m {
            Some(m) => ints.len() > 0 && i32::MIN <= middle_sum(ints@) <= i32::MAX && m
                == median_of(ints@),
            None => ints.len() == 0 || !(i32::MIN <= middle_sum(ints@) <= i32::MAX),
        },
{
    if ints.len() == 0 {
        return None;
    }
    let mut ints_copy = ints.clone();
    assert(ints_copy@ == ints@);
    sort(&mut ints_copy);
    proof {
        ints@.lemma_sort_by_ensures(leq());
        ints@.to_multiset_ensures();
        ascending(ints@).to_multiset_ensures();
    }
    if ints.len() % 2 == 1 {
        Some(ints_copy[ints.len() / 2])
    } else {
        match ints_copy[ints.len() / 2].checked_add(ints_copy[(ints.len() / 2) - 1]) {
            Some(both) => Some(both / 2),
            None => None,
        }
    }
}

/// Whether `m` is a mode of `ints`: nothing occurs more often, and `m` itself
/// occurs unless the list is empty, whose mode is zero.
pub open spec fn is_mode(ints: Seq<i32>, m: i32) -> bool {
    &&& forall|x: i32| #[trigger] occurrences(ints, x) <= occurrences(ints, m)
    &&& ints.len() > 0 ==> ints.contains(m)
    &&& ints.len() == 0 ==> m == 0
}

/// For each value of `ints`, how often it occurs.
pub fn count_values(ints: &Vec<i32>) -> (counts: HashMap<i32, usize>)
    ensures
        forall|x: i32| #[trigger] counts@.contains_key(x) <==> occurrences(ints@, x) > 0,
        forall|x: i32| #[trigger] counts@.contains_key(x) ==> counts@[x] == occurrences(ints@, x),
{
    let mut counts: HashMap<i32, usize> = HashMap::new();
    let mut i: usize = 0;
    while i < ints.len()
        invariant
            i <= ints.len(),
            forall|x: i32| #[trigger]
                counts@.contains_key(x) <==> occurrences(ints@.take(i as int), x) > 0,
            forall|x: i32| #[trigger]
                counts@.contains_key(x) ==> counts@[x] == occurrences(ints@.take(i as int), x),
        decreases ints.len() - i,
    {
        let v = ints[i];
        let ghost before = counts@;
        proof {
            lemma_occurrences(ints@.take(i as int), v);
            assert forall|x: i32|
                occurrences(ints@.take(i + 1), x) == #[trigger] occurrences(
                    ints@.take(i as int),
                    x,
                ) + if v == x {
                    1nat
                } else {
                    0nat
                } by {
                lemma_occurrences_step(ints@, i as int, x);
            }
        }
        let count = counts.entry(v).or_insert(0);
        *count += 1;
        proof {
            assert forall|x: i32| #[trigger]
                counts@.contains_key(x) <==> occurrences(ints@.take(i + 1), x) > 0 by {
                if x != v {
                    assert(before.contains_key(x) <==> counts@.contains_key(x));
                }
            }
            assert forall|x: i32| #[trigger] counts@.contains_key(x) implies counts@[x]
                == occurrences(ints@.take(i + 1), x) by {
                if x != v {
                    assert(before.contains_key(x));
                    assert(counts@[x] == before[x]);
                }
            }
        }
        i += 1;
    }
    assert(ints@.take(ints@.len() as int) == ints@);
    counts
}

/// The entries of `counts` in the order in which the map hands them out,
/// which is for the map to choose.
pub fn walk(counts: &HashMap<i32, usize>) -> (walked: Vec<(i32, usize)>)
    ensures
        forall|j: int|
            0 <= j < walked.len() ==> counts@.contains_key((#[trigger] walked@[j]).0)
                && counts@[walked@[j].0] == walked@[j].1,
        forall|x: i32| #[trigger]
            counts@.contains_key(x) ==> exists|j: int|
                0 <= j < walked.len() && #[trigger] walked@[j] == (x, counts@[x]),
{
    let mut walked: Vec<(i32, usize)> = Vec::new();
    for entry in it: counts.iter()
        invariant
            it.seq() == counts.iter().remaining(),
            walked.len() == it.index(),
            forall|j: int|
                0 <= j < walked.len() ==> (#[trigger] walked@[j]) == (*it.seq()[j].0, *it.seq()[j].1),
    {
        let (k, v) = entry;
        walked.push((*k, *v));
    }
    proof {
        let handed = counts.iter().remaining();
        assert forall|j: int| 0 <= j < walked.len() implies counts@.contains_key(
            (#[trigger] walked@[j]).0,
        ) && counts@[walked@[j].0] == walked@[j].1 by {
            assert(counts@.contains_key(*handed[j].0) && counts@[*handed[j].0] == *handed[j].1);
        }
        assert forall|x: i32| #[trigger] counts@.contains_key(x) implies exists|j: int|
            0 <= j < walked.len() && #[trigger] walked@[j] == (x, counts@[x]) by {
            assert(handed.contains((&x, &counts@[x])));
            let j = choose|j: int| 0 <= j < handed.len() && handed[j] == (&x, &counts@[x]);
            assert(walked@[j] == (x, counts@[x]));
        }
    }
    walked
}

/// The entry that a walk from left to right ends up with when it starts with
/// zero counted zero times and moves on to each entry with a greater count
/// than the one it holds.
pub open spec fn front_runner(walked: Seq<(i32, usize)>) -> (i32, usize)
    decreases walked.len(),
{
    if walked.len() == 0 {
        (0, 0)
    } else {
        let best = front_runner(walked.drop_last());
        if walked.last().1 > best.1 {
            walked.last()
        } else {
            best
        }
    }
}

/// No entry has a greater count than the front runner, which is one of the
/// entries unless none has a count above zero.
pub proof fn lemma_front_runner(walked: Seq<(i32, usize)>)
    ensures
        forall|j: int| 0 <= j < walked.len() ==> (#[trigger] walked[j]).1 <= front_runner(walked).1,
        front_runner(walked).1 > 0 ==> walked.contains(front_runner(walked)),
        front_runner(walked).1 == 0 ==> front_runner(walked).0 == 0,
    decreases walked.len(),
{
    if walked.len() > 0 {
        let front = walked.drop_last();
        lemma_front_runner(front);
        assert forall|j: int| 0 <= j < walked.len() implies (#[trigger] walked[j]).1
            <= front_runner(walked).1 by {
            if j < front.len() {
                assert(front[j] == walked[j]);
            }
        }
        if front_runner(walked) == walked.last() {
            assert(walked[walked.len() - 1] == walked.last());
        } else if front_runner(walked).1 > 0 {
            let j = choose|j: int| 0 <= j < front.len() && front[j] == front_runner(front);
            assert(walked[j] == front_runner(walked));
        }
    }
}

/// The value of the first entry whose count no other entry exceeds; zero
/// where no entry has a count above zero.
pub fn most_frequent(walked: &Vec<(i32, usize)>) -> (value: i32)
    ensures
        value == front_runner(walked@).0,
{
    let mut max: (i32, usize) = (0, 0);
    let mut i: usize = 0;
    assert(walked@.take(0).len() == 0);
    while i < walked.len()
        invariant
            i <= walked.len(),
            max == front_runner(walked@.take(i as int)),
        decreases walked.len() - i,
    {
        let (k, v) = walked[i];
        proof {
            assert(walked@.take(i + 1).drop_last() == walked@.take(i as int));
            assert(walked@.take(i + 1).last() == (k, v));
        }
        if v > max.1 {
            max = (k, v);
        }
        i += 1;
    }
    assert(walked@.take(walked@.len() as int) == walked@);
    max.0
}

/// A value that occurs most often in `ints`. Where several values occur
/// equally often, the one that the map of counts hands out first comes
/// back, which may be any of them.
pub fn mode(ints: &Vec<i32>) -> (m: i32)
    ensures
        is_mode(ints@, m),
{
    let counts = count_values(ints);
    let walked = walk(&counts);
    let m = most_frequent(&walked);
    proof {
        let winner = front_runner(walked@);
        lemma_front_runner(walked@);
        if winner.1 > 0 {
            let j = choose|j: int| 0 <= j < walked@.len() && walked@[j] == winner;
            assert(counts@.contains_key(walked@[j].0));
        }
        assert forall|x: i32| #[trigger] occurrences(ints@, x) <= occurrences(ints@, m) by {
            if occurrences(ints@, x) > 0 {
                assert(counts@.contains_key(x));
                let j = choose|j: int|
                    0 <= j < walked@.len() && #[trigger] walked@[j] == (x, counts@[x]);
                assert(walked@[j].1 <= winner.1);
            }
        }
        if ints.len() > 0 {
            lemma_occurrences(ints@, ints@[0]);
            assert(ints@.contains(ints@[0]));
            assert(occurrences(ints@, ints@[0]) <= occurrences(ints@, m));
            lemma_occurrences(ints@, m);
        } else {
            if walked@.len() > 0 {
                assert(counts@.contains_key(walked@[0].0));
                lemma_occurrences(ints@, walked@[0].0);
            }
        }
    }
    m
}

} // verus!
