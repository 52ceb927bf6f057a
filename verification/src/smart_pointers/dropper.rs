//! A smart pointer that has something to say when it goes out of scope.

use vstd::prelude::*;

verus! {

/// Holds some data until it is dropped.
pub struct CustomSmartPointer {
    pub data: String,
}

impl CustomSmartPointer {
    /// What the pointer has to say when it is dropped.
    pub fn farewell(&self) -> (words: String)
        ensures
            words@ == "Dropping CustomSmartPointer with data `"@ + self.data@ + "`!"@,
    {
        let mut words = "Dropping CustomSmartPointer with data `".to_string();
        words.push_str(self.data.as_str());
        words.push_str("`!");
        words
    }
}

} // verus!
