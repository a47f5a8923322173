//! A cursor over a row-major sequence of colors, handed to the streamed fill.
//!
//! The clipped streamed fill must advance the cursor exactly once per logical
//! pixel of the requested rectangle, written or not; the cursor's position
//! makes that protocol checkable.

use vstd::prelude::*;

verus! {

/// A sequence of values together with how many of them have been consumed.
pub struct ColorStream<T> {
    /// The values, in row-major order of the rectangle they are meant for.
    pub items: Vec<T>,
    /// How many values have been consumed so far.
    pub pos: usize,
}

impl<T: Copy> ColorStream<T> {
    /// The cursor never passes the end.
    pub open spec fn wf(self) -> bool {
        self.pos <= self.items@.len()
    }

    /// Wrap a sequence of values, with nothing consumed yet.
    pub fn new(items: Vec<T>) -> (s: ColorStream<T>)
        ensures
            s.items@ == items@,
            s.pos == 0,
            s.wf(),
    {
        ColorStream { items, pos: 0 }
    }

    /// Consume and return the next value, or `None` once exhausted.
    pub fn next(&mut self) -> (c: Option<T>)
        requires
            old(self).wf(),
        ensures
            final(self).wf(),
            final(self).items@ == old(self).items@,
            old(self).pos < old(self).items@.len() ==> c == Some(
                old(self).items@[old(self).pos as int],
            ) && final(self).pos == old(self).pos + 1,
            old(self).pos >= old(self).items@.len() ==> c == None::<T> && final(self).pos
                == old(self).pos,
    {
        if self.pos < self.items.len() {
            let c = self.items[self.pos];
            self.pos = self.pos + 1;
            Some(c)
        } else {
            None
        }
    }

    /// Consume `n` values, or as many as are left if fewer remain.
    pub fn skip(&mut self, n: u64)
        requires
            old(self).wf(),
        ensures
            final(self).wf(),
            final(self).items@ == old(self).items@,
            final(self).pos as int == if old(self).pos + n <= old(self).items@.len() {
                old(self).pos + n
            } else {
                old(self).items@.len() as int
            },
    {
        let avail: usize = self.items.len() - self.pos;
        if n >= avail as u64 {
            self.pos = self.items.len();
        } else {
            self.pos = self.pos + n as usize;
        }
    }

    /// How many values have been consumed so far.
    pub fn consumed(&self) -> (n: usize)
        ensures
            n == self.pos,
    {
        self.pos
    }

    /// How many values the stream started with.
    pub fn len(&self) -> (n: usize)
        ensures
            n == self.items@.len(),
    {
        self.items.len()
    }
}

} // verus!
