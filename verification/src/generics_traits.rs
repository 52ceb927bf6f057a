//! Generic structs and functions, and traits with and without default
//! methods.

use vstd::laws_cmp::obeys_partial_cmp_spec_properties;
use vstd::prelude::*;
use vstd::std_specs::cmp::PartialOrdIs;
use vstd::std_specs::cmp::PartialOrdSpec;

verus! {

/// A point whose two coordinates have the same type.
pub struct Point<T> {
    pub x: T,
    pub y: T,
}

impl<T> Point<T> {
    /// The first coordinate.
    pub fn x(&self) -> (x: &T)
        ensures
            *x == self.x,
    {
        &self.x
    }
}

/// A point whose two coordinates may have different types.
pub struct DoublePoint<T, U> {
    pub x: T,
    pub y: U,
}

impl<T, U> DoublePoint<T, U> {
    /// The point with the first coordinate of `self` and the second of
    /// `other`.
    pub fn mixup<V, W>(self, other: DoublePoint<V, W>) -> (mixed: DoublePoint<T, W>)
        ensures
            mixed.x == self.x,
            mixed.y == other.y,
    {
        DoublePoint { x: self.x, y: other.y }
    }
}

/// The element that a walk from left to right ends up with when it starts
/// with the first element and moves on to each element that is greater than
/// the one it holds.
pub open spec fn largest_of<T: PartialOrd>(list: Seq<T>) -> T
    decreases list.len(),
{
    if list.len() <= 1 {
        list[0]
    } else {
        let best = largest_of(list.drop_last());
        if list.last().is_gt(&best) {
            list.last()
        } else {
            best
        }
    }
}

/// Where "greater" is transitive, as the laws of a partial order ask, nothing
/// in the list is greater than `largest_of` it, which is itself in the list.
pub proof fn lemma_largest_of_is_largest<T: PartialOrd>(list: Seq<T>)
    requires
        list.len() > 0,
        obeys_partial_cmp_spec_properties::<T>(),
    ensures
        list.contains(largest_of(list)),
        forall|i: int| 0 <= i < list.len() ==> !(#[trigger] list[i]).is_gt(&largest_of(list)),
    decreases list.len(),
{
    reveal(obeys_partial_cmp_spec_properties);
    if list.len() == 1 {
        assert(list[0] == largest_of(list));
        assert(!list[0].is_gt(&list[0])) by {
            if list[0].is_gt(&list[0]) {
                assert(list[0].partial_cmp_spec(&list[0]) == Some(core::cmp::Ordering::Less));
            }
        }
    } else {
        let front = list.drop_last();
        lemma_largest_of_is_largest(front);
        let best = largest_of(front);
        let i = choose|i: int| 0 <= i < front.len() && front[i] == best;
        assert(list[i] == best);
        assert(list[list.len() - 1] == list.last());
        assert forall|k: int| 0 <= k < list.len() implies !(#[trigger] list[k]).is_gt(
            &largest_of(list),
        ) by {
            if k < list.len() - 1 {
                assert(!front[k].is_gt(&best));
            } else if list.last().is_gt(&best) {
                if list.last().is_gt(&list.last()) {
                    assert(list.last().partial_cmp_spec(&list.last()) == Some(
                        core::cmp::Ordering::Less,
                    ));
                }
            }
        }
    }
}

/// The first `n` elements of `list`.
pub open spec fn first_n<T>(list: Seq<T>, n: usize) -> Seq<T> {
    list.take(n as int)
}

/// The largest element of a list that is not empty.
pub fn largest<T: PartialOrd + Copy>(list: &[T]) -> (big: T)
    requires
        list.len() > 0,
    ensures
        T::obeys_partial_cmp_spec() ==> big == largest_of(list@),
{
    let mut largest = list[0];
    let mut i: usize = 1;
    assert(first_n(list@, 1).len() == 1);
    while i < list.len()
        invariant
            1 <= i <= list.len(),
            T::obeys_partial_cmp_spec() ==> largest == largest_of(first_n(list@, i)),
        decreases list.len() - i,
    {
        let item = list[i];
        proof {
            assert(list@.take(i + 1).drop_last() == first_n(list@, i));
            assert(list@.take(i + 1).last() == item);
        }
        if item > largest {
            largest = item;
        }
        i += 1;
    }
    assert(first_n(list@, i) == list@);
    largest
}

/// Something that can sum itself up in a line.
pub trait Summarizable {
    fn summary(&self) -> String;
}

/// A news article.
pub struct NewsArticle {
    pub headline: String,
    pub location: String,
    pub author: String,
    pub content: String,
}

impl Summarizable for NewsArticle {
    /// The headline, who wrote it and where.
    fn summary(&self) -> (line: String)
        ensures
            line@ == self.headline@ + ", by "@ + self.author@ + " ("@ + self.location@ + ")"@,
    {
        let mut line = self.headline.clone();
        line.push_str(", by ");
        line.push_str(self.author.as_str());
        line.push_str(" (");
        line.push_str(self.location.as_str());
        line.push_str(")");
        line
    }
}

/// A tweet.
pub struct Tweet {
    pub username: String,
    pub content: String,
    pub reply: bool,
    pub retweet: bool,
}

impl Summarizable for Tweet {
    /// Who tweeted, and what.
    fn summary(&self) -> (line: String)
        ensures
            line@ == self.username@ + ": "@ + self.content@,
    {
        let mut line = self.username.clone();
        line.push_str(": ");
        line.push_str(self.content.as_str());
        line
    }
}

/// A trait with more than one method.
pub trait MultiFunctionalTrait {
    fn foo(&self) -> String;

    fn bar(&self) -> &str;
}

/// A wrapper around one string.
pub struct FooBar {
    x: String,
}

impl FooBar {
    /// The string inside.
    pub closed spec fn inner(self) -> Seq<char> {
        self.x@
    }

    /// Wraps `x`.
    pub fn new(x: String) -> (wrapped: FooBar)
        ensures
            wrapped.inner() == x@,
    {
        FooBar { x }
    }
}

impl MultiFunctionalTrait for FooBar {
    /// A message for the caller to show.
    fn foo(&self) -> (message: String)
        ensures
            message@ == "Some message"@,
    {
        "Some message".to_string()
    }

    /// The string inside.
    fn bar(&self) -> (inner: &str)
        ensures
            inner@ == self.inner(),
    {
        self.x.as_str()
    }
}

/// A summary that every implementor has without writing it.
pub trait DefaultSummarizable {
    fn summary(&self) -> (line: String)
        default_ensures
            line@ == "(Read more...)"@,
    {
        "(Read more...)".to_string()
    }
}

impl DefaultSummarizable for Tweet {

}

impl Tweet {
    /// The tweet's own summary, which wins over those of its traits.
    pub fn summary(&self) -> (line: String)
        ensures
            line@ == "This is a tweet"@,
    {
        "This is a tweet".to_string()
    }
}

/// The line that invites to read more from `author`.
pub fn read_more_from(author: &str) -> (line: String)
    ensures
        line@ == "(Read more from "@ + author@ + "...)"@,
{
    let mut line = "(Read more from ".to_string();
    line.push_str(author);
    line.push_str("...)");
    line
}

/// A summary by default that is built on a method without a default.
pub trait SummarizableDefault {
    fn author_summary(&self) -> String;

    fn summary(&self) -> (line: String)
        default_ensures
            exists|author: Seq<char>| line@ == "(Read more from "@ + author + "...)"@,
    {
        read_more_from(self.author_summary().as_str())
    }
}

/// The headline that announces `summary` as breaking news.
pub fn breaking_news(summary: &str) -> (headline: String)
    ensures
        headline@ == "Breaking news! "@ + summary@,
{
    let mut headline = "Breaking news! ".to_string();
    headline.push_str(summary);
    headline
}

/// The breaking news about `item`, whatever it is, as long as it can sum
/// itself up.
pub fn notify<T: Summarizable>(item: T) -> (headline: String)
    ensures
        exists|summary: Seq<char>| headline@ == "Breaking news! "@ + summary,
{
    breaking_news(item.summary().as_str())
}

/// The same as `notify`, with the bound written in the argument's place.
pub fn notify_2018(item: impl Summarizable) -> (headline: String)
    ensures
        exists|summary: Seq<char>| headline@ == "Breaking news! "@ + summary,
{
    breaking_news(item.summary().as_str())
}

/// A trait without executable methods. Its one ghost function tells the
/// implementors apart.
pub trait Trait {
    /// Whether the value is a `Foo`.
    spec fn is_foo(&self) -> bool;
}

/// One implementor.
pub struct Foo {}

/// Another implementor.
pub struct Bar {}

impl Trait for Foo {
    open spec fn is_foo(&self) -> bool {
        true
    }
}

impl Trait for Bar {
    open spec fn is_foo(&self) -> bool {
        false
    }
}

/// One implementor or the other in a box, decided when the program runs:
/// a `Foo` where `x` holds, a `Bar` where it does not.
pub fn ret_trait(x: bool) -> (boxed: Box<dyn Trait>)
    ensures
        boxed.is_foo() == x,
{
    if x {
        return Box::new(Foo {  });
    }
    return Box::new(Bar {  });
}

} // verus!
