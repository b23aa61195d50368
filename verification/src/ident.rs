//! Where identifier indices come from.

use vstd::prelude::*;

verus! {

/// Hands out identifier indices, each one once. One allocator serves one kind
/// of identifier.
pub struct IdAllocator {
    next: usize,
}

impl IdAllocator {
    /// How many indices have been handed out.
    pub closed spec fn issued(&self) -> nat {
        self.next as nat
    }

    /// An allocator that has handed out nothing yet.
    pub fn new() -> (allocator: Self)
        ensures
            allocator.issued() == 0,
    {
        IdAllocator { next: 0 }
    }

    /// An allocator that goes on where another stopped: it counts `issued`
    /// indices as handed out and starts with the one after them.
    pub fn resume(issued: usize) -> (allocator: Self)
        ensures
            allocator.issued() == issued,
    {
        IdAllocator { next: issued }
    }

    /// Whether every index has been handed out.
    pub fn is_exhausted(&self) -> (exhausted: bool)
        ensures
            exhausted == (self.issued() == usize::MAX),
    {
        self.next == usize::MAX
    }

    /// The next index: the number of indices handed out before it. Once the
    /// indices are used up, `None` comes back and nothing changes.
    pub fn next(&mut self) -> (index: Option<usize>)
        ensures
            match index {
                Some(i) => i == old(self).issued() && final(self).issued() == old(self).issued() + 1,
                None => old(self).issued() == usize::MAX && final(self).issued() == old(self).issued(),
            },
    {
        if self.next == usize::MAX {
            None
        } else {
            let index = self.next;
            self.next = index + 1;
            Some(index)
        }
    }
}

} // verus!
