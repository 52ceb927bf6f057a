//! Enums whose variants carry data, and a method over them.

use vstd::prelude::*;

verus! {

/// The two kinds of IP address.
pub enum IpAddrKind {
    V4,
    V6,
}

/// An IP address as a kind and a text.
pub struct IpAddrStruct {
    pub kind: IpAddrKind,
    pub address: String,
}

/// An IP address whose variants carry their own data.
pub enum IpAddr {
    V4(u8, u8, u8, u8),
    V6(String),
}

/// A message of one of four kinds.
pub enum Message {
    Quit,
    Move { x: i32, y: i32 },
    Write(String),
    ChangeColor(i32, i32, i32),
}

impl Message {
    /// What a call of this message writes down, if anything.
    pub open spec fn written(self) -> Option<Seq<char>> {
        match self {
            Message::Write(msg) => Some("Written message: "@ + msg@),
            _ => None,
        }
    }

    /// Handles the message. Only `Write` produces a line, which is handed
    /// back for the caller to show.
    pub fn call(&self) -> (line: Option<String>)
        ensures
            match line {
                Some(text) => self.written() == Some(text@),
                None => self.written().is_none(),
            },
    {
        match self {
            Message::Write(msg) => {
                let mut text = "Written message: ".to_string();
                text.push_str(msg.as_str());
                Some(text)
            },
            Message::Move { x: _, y: _ } => None,
            Message::ChangeColor(_, _, _) => None,
            _ => None,
        }
    }
}

} // verus!
