//! A cons list: each cell holds a value and, in a box, the rest of the list.

use std::fmt::Debug;
use vstd::prelude::*;

verus! {

/// A list that is empty or a head followed by a boxed list.
pub enum List<T> where T: Debug {
    Nil,
    Cons(T, Box<List<T>>),
}

/// `texts`, each followed by a blank, and a line feed at the end.
pub open spec fn laid_out(texts: Seq<Seq<char>>) -> Seq<char>
    decreases texts.len(),
{
    if texts.len() == 0 {
        seq!['\n']
    } else {
        texts[0] + seq![' '] + laid_out(texts.skip(1))
    }
}

/// `std::fmt::Debug` at work: the text that `{:?}` gives for `value`. What
/// that text is lies with the type's own implementation, so nothing is
/// promised of it.
#[verifier::external_body]
fn debug_text<T: Debug>(value: &T) -> (text: String) {
    format!("{:?}", value)
}

/// The line of a list whose head prints as `head` and whose tail has the
/// line `tail`: the head, a blank, and the tail's line.
pub fn line_of(head: String, tail: &str) -> (line: String)
    ensures
        line@ == head@ + seq![' '] + tail@,
{
    let mut line = head;
    line.push(' ');
    line.push_str(tail);
    line
}

impl<T> List<T> where T: Debug {
    /// The number of elements.
    pub open spec fn len(self) -> nat
        decreases self,
    {
        match self {
            List::Nil => 0,
            List::Cons(_, tail) => 1 + tail.len(),
        }
    }

    /// The list as a line of text: for each element what `{:?}` prints for
    /// it and a blank, then a line feed.
    pub fn print(&self) -> (line: String)
        ensures
            exists|texts: Seq<Seq<char>>|
                texts.len() == self.len() && line@ == #[trigger] laid_out(texts),
        decreases self,
    {
        match self {
            List::Nil => {
                let line = "\n".to_string();
                proof {
                    reveal_strlit("\n");
                    assert("\n"@ == seq!['\n']);
                    assert(line@ == laid_out(Seq::<Seq<char>>::empty()));
                }
                line
            },
            List::Cons(head, tail) => {
                let head_text = debug_text(head);
                let ghost first = head_text@;
                let rest = tail.print();
                let line = line_of(head_text, rest.as_str());
                proof {
                    let texts = choose|texts: Seq<Seq<char>>|
                        texts.len() == tail.len() && rest@ == #[trigger] laid_out(texts);
                    let all = seq![first] + texts;
                    assert(all.skip(1) == texts);
                    assert(line@ == laid_out(all));
                }
                line
            },
        }
    }
}

} // verus!
