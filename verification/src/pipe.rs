use vstd::prelude::*;

verus! {

/// A bounded FIFO buffer with capacity queries.
///
/// This is the store behind an actor's message and signal inboxes. The
/// asynchronous halves (suspending on a full or empty buffer) are driven by
/// the embedding runtime; here a rejected `send` hands the value back so the
/// caller can retry once room is available, which models the suspension.
pub struct Pipe<T> {
    buf: Vec<T>,
    cap: usize,
}

impl<T> View for Pipe<T> {
    type V = Seq<T>;

    /// The buffered values, oldest first.
    closed spec fn view(&self) -> Seq<T> {
        self.buf@
    }
}

impl<T> Pipe<T> {
    /// The capacity the pipe was created with.
    pub closed spec fn capacity(&self) -> usize {
        self.cap
    }

    /// A pipe is full when it holds at least `capacity` values.
    pub open spec fn is_full(&self) -> bool {
        self@.len() >= self.capacity()
    }

    /// Creates an empty pipe of the given capacity.
    pub fn new(cap: usize) -> (r: Pipe<T>)
        ensures
            r@ == Seq::<T>::empty(),
            r.capacity() == cap,
    {
        Pipe { buf: Vec::new(), cap }
    }

    /// Appends `v` at the back, or returns it unchanged when the pipe is
    /// full.
    pub fn send(&mut self, v: T) -> (r: Option<T>)
        ensures
            final(self).capacity() == old(self).capacity(),
            old(self).is_full() ==> r == Some(v) && final(self)@ == old(self)@,
            !old(self).is_full() ==> r is None && final(self)@ == old(self)@.push(v),
    {
        if self.buf.len() >= self.cap {
            Some(v)
        } else {
            self.buf.push(v);
            None
        }
    }

    /// Removes and returns the oldest value, or `None` when empty.
    pub fn recv(&mut self) -> (r: Option<T>)
        ensures
            final(self).capacity() == old(self).capacity(),
            old(self)@.len() == 0 ==> r is None && final(self)@ == old(self)@,
            old(self)@.len() > 0 ==> r == Some(old(self)@[0]) && final(self)@ == old(self)@.drop_first(),
    {
        if self.buf.len() == 0 {
            None
        } else {
            Some(self.buf.remove(0))
        }
    }

    /// Current length and capacity.
    pub fn len(&self) -> (r: (usize, usize))
        ensures
            r.0 == self@.len(),
            r.1 == self.capacity(),
    {
        (self.buf.len(), self.cap)
    }
}

} // verus!
