//! Byte sources: anything that hands out bytes in order, a requested number at
//! a time.

use vstd::prelude::*;
use vstd::slice::{slice_subrange, slice_to_vec};

verus! {

/// What a request for exactly `n` bytes gets from a source that still holds
/// `pending`: the first `n` bytes together with what is left behind them, or
/// nothing when fewer than `n` are there.
pub open spec fn split_exact(pending: Seq<u8>, n: nat) -> Option<(Seq<u8>, Seq<u8>)> {
    if n <= pending.len() {
        Some((pending.take(n as int), pending.skip(n as int)))
    } else {
        None
    }
}

/// `tail` is what is left of `whole` after some of its leading bytes have
/// been consumed.
pub open spec fn is_remainder_of(tail: Seq<u8>, whole: Seq<u8>) -> bool {
    tail.len() <= whole.len() && tail == whole.skip(whole.len() - tail.len())
}

/// A source of bytes that are consumed strictly in order.
///
/// `pending` is everything the source will still deliver before it is
/// exhausted or fails for good. A read of exactly `n` bytes succeeds if and
/// only if that many are pending; it then hands over the first `n` of them and
/// leaves the rest. A read that fails hands over nothing and may have
/// consumed any number of the pending bytes: nothing is put back.
pub trait ByteSource {
    /// The bytes that the source has yet to deliver, in order.
    spec fn pending(&self) -> Seq<u8>;

    /// Reads exactly `n` bytes, or fails when fewer are pending.
    fn read_exact(&mut self, n: usize) -> (r: Option<Vec<u8>>)
        ensures
            match split_exact(old(self).pending(), n as nat) {
                Some((head, rest)) => {
                    &&& r matches Some(bytes)
                    &&& bytes@ == head
                    &&& final(self).pending() == rest
                },
                None => {
                    &&& r is None
                    &&& is_remainder_of(final(self).pending(), old(self).pending())
                },
            },
    ;
}

/// A byte source over a buffer in memory.
///
/// It delivers the buffer's bytes from the first to the last and is then
/// exhausted.
pub struct Cursor<'a> {
    data: &'a [u8],
    pos: usize,
}

impl<'a> Cursor<'a> {
    #[verifier::type_invariant]
    spec fn in_bounds(self) -> bool {
        self.pos <= self.data@.len()
    }

    /// A cursor that has all of `data` pending.
    pub fn new(data: &'a [u8]) -> (c: Cursor<'a>)
        ensures
            c.pending() == data@,
    {
        Cursor { data, pos: 0 }
    }

    /// The number of bytes still pending.
    pub fn remaining(&self) -> (n: usize)
        ensures
            n == self.pending().len(),
    {
        proof {
            use_type_invariant(self);
        }
        self.data.len() - self.pos
    }
}

impl<'a> ByteSource for Cursor<'a> {
    closed spec fn pending(&self) -> Seq<u8> {
        self.data@.skip(self.pos as int)
    }

    /// Hands over the next `n` bytes of the buffer and moves past them. When
    /// fewer than `n` are left the cursor moves to the end of the buffer, so
    /// that nothing is pending any more.
    fn read_exact(&mut self, n: usize) -> (r: Option<Vec<u8>>)
        ensures
            r is None ==> final(self).pending().len() == 0,
    {
        proof {
            use_type_invariant(&*self);
        }
        let len = self.data.len();
        if n <= len - self.pos {
            let end = self.pos + n;
            let bytes = slice_to_vec(slice_subrange(self.data, self.pos, end));
            self.pos = end;
            Some(bytes)
        } else {
            self.pos = len;
            assert(self.pending() =~= old(self).pending().skip(old(self).pending().len() as int));
            None
        }
    }
}

} // verus!
