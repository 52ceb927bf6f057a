//! The messages that the two senders put on their channel.

use vstd::prelude::*;

verus! {

/// What the first sender sends, in this order.
pub fn first_batch() -> (vals: Vec<String>)
    ensures
        vals@.len() == 4,
        vals@[0]@ == "hi"@,
        vals@[1]@ == "from"@,
        vals@[2]@ == "the"@,
        vals@[3]@ == "thread"@,
{
    let mut vals: Vec<String> = Vec::new();
    vals.push("hi".to_string());
    vals.push("from".to_string());
    vals.push("the".to_string());
    vals.push("thread".to_string());
    vals
}

/// What the second sender sends, in this order.
pub fn second_batch() -> (vals: Vec<String>)
    ensures
        vals@.len() == 4,
        vals@[0]@ == "more"@,
        vals@[1]@ == "messages"@,
        vals@[2]@ == "for"@,
        vals@[3]@ == "you"@,
{
    let mut vals: Vec<String> = Vec::new();
    vals.push("more".to_string());
    vals.push("messages".to_string());
    vals.push("for".to_string());
    vals.push("you".to_string());
    vals
}

} // verus!
