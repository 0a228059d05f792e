//! Reading fixed-layout records from byte sources.
//!
//! A record is read by taking exactly as many bytes from the source as its
//! layout has and using them, unchanged and in order, as the record's raw
//! image. Nothing is validated and no byte order is converted: producer and
//! consumer have to agree on the layout.

use vstd::prelude::*;
use vstd::slice::slice_subrange;

pub mod laws;
pub mod record;
pub mod source;

use crate::record::{images, Record};
use crate::source::{is_remainder_of, split_exact, ByteSource};

verus! {

/// Errors related to reading records.
#[derive(Debug, Clone, Copy, PartialEq, Eq, Structural)]
pub enum Error {
    /// The source could not deliver the requested number of bytes.
    ReadStruct,
}

/// A specialized `Result` type for reading records.
pub type Result<T> = std::result::Result<T, Error>;

/// Reads one record from `f` into `out`.
///
/// Succeeds if and only if `f` still holds a whole image. The record is then
/// overwritten with the next `T::layout_size()` bytes of the source, which
/// are consumed. On failure the contents of `out` are unspecified, and the
/// source has lost whatever the failed read consumed.
pub fn read_struct<T: Record, F: ByteSource>(f: &mut F, out: &mut T) -> (r: Result<()>)
    ensures
        match split_exact(old(f).pending(), T::layout_size()) {
            Some((head, rest)) => {
                &&& r is Ok
                &&& final(out).image() == head
                &&& final(f).pending() == rest
            },
            None => {
                &&& r == Err::<(), Error>(Error::ReadStruct)
                &&& is_remainder_of(final(f).pending(), old(f).pending())
            },
        },
{
    match f.read_exact(T::size_of()) {
        Some(bytes) => {
            *out = T::from_image(bytes.as_slice());
            Ok(())
        },
        None => Err(Error::ReadStruct),
    }
}

/// Reads `len` records from `f` into a new vector, in one read of
/// `len * T::layout_size()` bytes.
///
/// Succeeds if and only if `f` still holds that many bytes. The images of the
/// records returned, laid end to end, are then exactly the bytes consumed:
/// the record at index `i` has the `i`-th run of `T::layout_size()` bytes as
/// its image. On failure no record is returned.
pub fn read_struct_slice<T: Record, F: ByteSource>(f: &mut F, len: usize) -> (r: Result<Vec<T>>)
    requires
        len * T::layout_size() <= usize::MAX,
    ensures
        match split_exact(old(f).pending(), (len * T::layout_size()) as nat) {
            Some((head, rest)) => {
                &&& r matches Ok(v)
                &&& v@.len() == len
                &&& images(v@) == head
                &&& forall|i: int|
                    0 <= i < len ==> (#[trigger] v@[i]).image() == head.subrange(
                        i * T::layout_size(),
                        (i + 1) * T::layout_size(),
                    )
                &&& final(f).pending() == rest
            },
            None => {
                &&& r == Err::<Vec<T>, Error>(Error::ReadStruct)
                &&& is_remainder_of(final(f).pending(), old(f).pending())
            },
        },
        len == 0 ==> (r matches Ok(v) && v@.len() == 0 && final(f).pending() == old(f).pending()),
{
    let size = T::size_of();
    let total = len * size;
    match f.read_exact(total) {
        None => Err(Error::ReadStruct),
        Some(bytes) => {
            let mut out: Vec<T> = Vec::with_capacity(len);
            let mut i: usize = 0;
            while i < len
                invariant
                    i <= len,
                    size == T::layout_size(),
                    bytes@.len() == len * size <= usize::MAX,
                    out@.len() == i,
                    images(out@) == bytes@.take(i * size),
                    forall|k: int|
                        0 <= k < i ==> (#[trigger] out@[k]).image() == bytes@.subrange(
                            k * size,
                            (k + 1) * size,
                        ),
                decreases len - i,
            {
                proof {
                    assert(0 <= i * size && (i + 1) * size == i * size + size) by (nonlinear_arith);
                    assert((i + 1) * size <= len * size) by (nonlinear_arith)
                        requires
                            i + 1 <= len,
                    ;
                }
                let start = i * size;
                let end = start + size;
                let item = T::from_image(slice_subrange(bytes.as_slice(), start, end));
                let ghost before = out@;
                out.push(item);
                assert(out@.drop_last() =~= before);
                i += 1;
            }
            Ok(out)
        },
    }
}

} // verus!
