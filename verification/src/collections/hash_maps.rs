//! Counting how often each word occurs in a text.

use crate::seqs::lemma_occurrences;
use crate::seqs::lemma_occurrences_step;
use crate::seqs::occurrences;
use crate::text::split_whitespace;
use crate::text::views;
use crate::text::words;
use vstd::prelude::*;

verus! {

/// Whether `counts` tells of `list` how often each of its elements occurs:
/// every element has one entry, which holds its number of occurrences, and
/// nothing else has an entry.
pub open spec fn counts_of(counts: Seq<(String, usize)>, list: Seq<Seq<char>>) -> bool {
    &&& forall|i: int, j: int| 0 <= i < j < counts.len() ==> counts[i].0@ != counts[j].0@
    &&& forall|i: int|
        0 <= i < counts.len() ==> (#[trigger] counts[i]).1 >= 1 && counts[i].1 == occurrences(
            list,
            counts[i].0@,
        )
    &&& forall|w: Seq<char>| #[trigger]
        list.contains(w) ==> exists|i: int| 0 <= i < counts.len() && (#[trigger] counts[i]).0@ == w
}

/// Where `word` stands among `seen`, if it does.
fn position(seen: &Vec<String>, word: &String) -> (at: Option<usize>)
    ensures
        match at {
            Some(i) => i < seen.len() && seen@[i as int]@ == word@,
            None => forall|i: int| 0 <= i < seen.len() ==> (#[trigger] seen@[i])@ != word@,
        },
{
    let mut i: usize = 0;
    while i < seen.len()
        invariant
            i <= seen.len(),
            forall|k: int| 0 <= k < i ==> (#[trigger] seen@[k])@ != word@,
        decreases seen.len() - i,
    {
        if seen[i] == *word {
            return Some(i);
        }
        i += 1;
    }
    None
}

/// Counts how often each word of `text` occurs. A word comes into the
/// result where it first occurs in the text.
pub fn count_words(text: &str) -> (counts: Vec<(String, usize)>)
    ensures
        counts_of(counts@, words(text@)),
{
    let list = split_whitespace(text);
    let ghost all = views(list@);
    let mut seen: Vec<String> = Vec::new();
    let mut times: Vec<usize> = Vec::new();
    let mut i: usize = 0;
    while i < list.len()
        invariant
            i <= list.len(),
            all == views(list@),
            seen.len() == times.len(),
            forall|a: int, b: int| 0 <= a < b < seen.len() ==> seen@[a]@ != seen@[b]@,
            forall|a: int|
                0 <= a < seen.len() ==> times@[a] >= 1 && #[trigger] times@[a] == occurrences(
                    all.take(i as int),
                    seen@[a]@,
                ),
            forall|w: Seq<char>| #[trigger]
                all.take(i as int).contains(w) ==> exists|a: int|
                    0 <= a < seen.len() && (#[trigger] seen@[a])@ == w,
        decreases list.len() - i,
    {
        let word = list[i].clone();
        let ghost upto = all.take(i as int);
        let ghost before_seen = seen@;
        let ghost before_times = times@;
        proof {
            assert(word@ == all[i as int]);
            lemma_occurrences(upto, word@);
            assert forall|w: Seq<char>|
                occurrences(all.take(i + 1), w) == #[trigger] occurrences(upto, w) + if word@ == w {
                    1nat
                } else {
                    0nat
                } by {
                lemma_occurrences_step(all, i as int, w);
            }
        }
        let ghost slot: int;
        match position(&seen, &word) {
            Some(at) => {
                proof {
                    slot = at as int;
                }
                times.set(at, times[at] + 1);
            },
            None => {
                proof {
                    if upto.contains(word@) {
                        let a = choose|a: int|
                            0 <= a < seen.len() && (#[trigger] seen@[a])@ == word@;
                        assert(false);
                    }
                }
                proof {
                    slot = seen.len() as int;
                }
                seen.push(word);
                times.push(1);
            },
        }
        proof {
            assert forall|w: Seq<char>| #[trigger] all.take(i + 1).contains(w) implies exists|
                a: int,
            | 0 <= a < seen.len() && (#[trigger] seen@[a])@ == w by {
                if w == word@ {
                    assert(seen@[slot]@ == w);
                } else {
                    let next = all.take(i + 1);
                    let k = choose|k: int| 0 <= k < next.len() && next[k] == w;
                    assert(upto[k] == w);
                    assert(upto.contains(w));
                    let a = choose|a: int|
                        0 <= a < before_seen.len() && (#[trigger] before_seen[a])@ == w;
                    assert(seen@[a]@ == w);
                }
            }
        }
        i += 1;
    }
    assert(all.take(all.len() as int) == all);
    let mut counts: Vec<(String, usize)> = Vec::new();
    let mut k: usize = 0;
    while k < seen.len()
        invariant
            k <= seen.len(),
            seen.len() == times.len(),
            counts.len() == k,
            forall|a: int|
                0 <= a < k ==> (#[trigger] counts@[a]).0@ == seen@[a]@ && counts@[a].1 == times@[a],
        decreases seen.len() - k,
    {
        counts.push((seen[k].clone(), times[k]));
        k += 1;
    }
    proof {
        assert forall|w: Seq<char>| #[trigger] all.contains(w) implies exists|a: int|
            0 <= a < counts.len() && (#[trigger] counts@[a]).0@ == w by {
            let a = choose|a: int| 0 <= a < seen.len() && (#[trigger] seen@[a])@ == w;
            assert(counts@[a].0@ == w);
        }
    }
    counts
}

} // verus!
