//! Fixed-layout records and their raw byte images.

use vstd::prelude::*;

verus! {

/// A plain value type with a fixed binary layout.
///
/// Every value of the type occupies the same number of bytes, and every
/// sequence of that many bytes is the image of some value: no bit pattern is
/// invalid. The image is the value's bytes as they lie in memory, in native
/// byte order and with whatever padding the layout has; nothing is
/// normalised.
pub trait Record: Copy + Sized {
    /// Number of bytes in the image of every value of the type.
    spec fn layout_size() -> nat;

    /// The raw byte image of the value.
    spec fn image(&self) -> Seq<u8>;

    /// Every image is exactly `layout_size()` bytes long.
    proof fn lemma_image_len(&self)
        ensures
            self.image().len() == Self::layout_size(),
    ;

    /// The size of the image in bytes.
    fn size_of() -> (n: usize)
        ensures
            n == Self::layout_size(),
    ;

    /// The value whose image is `bytes`.
    fn from_image(bytes: &[u8]) -> (r: Self)
        requires
            bytes@.len() == Self::layout_size(),
        ensures
            r.image() == bytes@,
    ;
}

/// The images of the values of `s` laid end to end, as a native array of
/// them lies in memory.
pub open spec fn images<T: Record>(s: Seq<T>) -> Seq<u8>
    decreases s.len(),
{
    if s.len() == 0 {
        Seq::empty()
    } else {
        images(s.drop_last()) + s.last().image()
    }
}

impl Record for u8 {
    open spec fn layout_size() -> nat {
        1
    }

    open spec fn image(&self) -> Seq<u8> {
        seq![*self]
    }

    proof fn lemma_image_len(&self) {
    }

    fn size_of() -> (n: usize) {
        1
    }

    fn from_image(bytes: &[u8]) -> (r: Self) {
        let r = bytes[0];
        r
    }
}

impl<const N: usize> Record for [u8; N] {
    open spec fn layout_size() -> nat {
        N as nat
    }

    open spec fn image(&self) -> Seq<u8> {
        self@
    }

    proof fn lemma_image_len(&self) {
    }

    fn size_of() -> (n: usize) {
        N
    }

    fn from_image(bytes: &[u8]) -> (r: Self) {
        let mut r = [0u8; N];
        let mut i: usize = 0;
        while i < N
            invariant
                i <= N,
                bytes@.len() == N,
                forall|k: int| 0 <= k < i ==> r@[k] == bytes@[k],
            decreases N - i,
        {
            r[i] = bytes[i];
            i += 1;
        }
        r
    }
}

} // verus!
