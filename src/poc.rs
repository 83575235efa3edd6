use vstd::prelude::*;

verus! {

/// A reader that claims, on its first call, to have filled more bytes than
/// any buffer it is given can hold, and then reports the end of input.
pub struct MyRead {
    first: bool,
}

/// What a reader reports on its first call: a count past any small buffer.
pub const OVERSIZED_READ: usize = 256;

impl MyRead {
    /// Whether the first call has already been served.
    pub closed spec fn served(&self) -> bool {
        self.first
    }

    pub fn new() -> (r: Self)
        ensures
            !r.served(),
    {
        MyRead { first: false }
    }

    /// The byte count that this reader reports; it never writes to `buf`.
    pub fn read(&mut self, buf: &mut [u8]) -> (r: usize)
        ensures
            final(buf)@ == old(buf)@,
            final(self).served(),
            r == (if old(self).served() { 0 } else { OVERSIZED_READ }),
    {
        if !self.first {
            self.first = true;
            OVERSIZED_READ
        } else {
            0
        }
    }
}

/// An iterator that yields nineteen bytes while its size hint claims at
/// least twenty and at most none.
pub struct IncorrectIterator(u32);

/// The number of the call on which the iterator first reports its end.
pub const ITERATOR_END: u32 = 20;

/// The byte that the iterator yields.
pub const ITEM: u8 = 0x41;

impl IncorrectIterator {
    /// How many times `next` has been called.
    pub closed spec fn calls(&self) -> u32 {
        self.0
    }

    pub fn new() -> (r: Self)
        ensures
            r.calls() == 0,
    {
        IncorrectIterator(0)
    }

    /// The next item: `ITEM` until the call count reaches `ITERATOR_END`.
    pub fn next(&mut self) -> (r: Option<u8>)
        requires
            old(self).calls() < u32::MAX,
        ensures
            final(self).calls() == old(self).calls() + 1,
            r == (if final(self).calls() >= ITERATOR_END { None } else { Some(ITEM) }),
    {
        self.0 = self.0 + 1;
        if self.0 >= ITERATOR_END {
            None
        } else {
            Some(ITEM)
        }
    }

    /// The size hint, which contradicts itself: a lower bound above its upper
    /// bound.
    pub fn size_hint(&self) -> (r: (usize, Option<usize>))
        ensures
            r == (20usize, Some(0usize)),
    {
        let lower_bound: usize = 20;
        let upper_bound: Option<usize> = Some(0);
        (lower_bound, upper_bound)
    }
}

} // verus!
