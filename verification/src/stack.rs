//! A peek at the top of a vector used as a stack.

use vstd::prelude::*;

verus! {

/// Read-only access to the top of a stack.
pub trait Stack<T> {
    /// The most recently pushed element, if any.
    fn top(&self) -> Option<T>;
}

impl<T: Clone> Stack<T> for Vec<T> {
    fn top(&self) -> (r: Option<T>)
        ensures
            (r is Some) == (self@.len() > 0),
            r is Some ==> vstd::pervasive::cloned::<T>(self@.last(), r->0),
    {
        if self.is_empty() {
            return None;
        }
        Some(self[self.len() - 1].clone())
    }
}

} // verus!
