//! What reading gives back when the pending bytes are images that were
//! written out, whole or cut short.
//!
//! Each statement is about `split_exact`, in which the readers' contracts
//! say what they return and what they leave pending.

use vstd::prelude::*;

use crate::record::{images, Record};
use crate::source::split_exact;

verus! {

/// The images of `s` laid end to end take `s.len() * T::layout_size()` bytes.
pub proof fn lemma_images_len<T: Record>(s: Seq<T>)
    ensures
        images(s).len() == s.len() * T::layout_size(),
    decreases s.len(),
{
    if s.len() > 0 {
        lemma_images_len(s.drop_last());
        s.last().lemma_image_len();
        assert((s.len() - 1) * T::layout_size() + T::layout_size() == s.len() * T::layout_size())
            by (nonlinear_arith);
    }
}

/// In the images of `s` laid end to end, the `i`-th run of
/// `T::layout_size()` bytes is the image of `s[i]`.
pub proof fn lemma_images_run<T: Record>(s: Seq<T>, i: int)
    requires
        0 <= i < s.len(),
    ensures
        0 <= i * T::layout_size() <= (i + 1) * T::layout_size() <= images(s).len(),
        images(s).subrange(i * T::layout_size(), (i + 1) * T::layout_size()) == s[i].image(),
    decreases s.len(),
{
    let size = T::layout_size();
    let front = s.drop_last();
    lemma_images_len(s);
    s.last().lemma_image_len();
    assert(0 <= i * size && (i + 1) * size == i * size + size) by (nonlinear_arith)
        requires
            0 <= i,
    ;
    assert((i + 1) * size <= s.len() * size) by (nonlinear_arith)
        requires
            i + 1 <= s.len(),
    ;
    if i == s.len() - 1 {
        assert(images(s).subrange(i * size, (i + 1) * size) =~= s.last().image());
    } else {
        lemma_images_run(front, i);
        assert(images(s).subrange(i * size, (i + 1) * size) =~= images(front).subrange(
            i * size,
            (i + 1) * size,
        ));
    }
}

/// Reading one record back: when the image of `v` has been written out in
/// front of `rest`, a read of one record's bytes takes exactly the image of
/// `v` and leaves `rest`.
pub proof fn lemma_read_back_one<T: Record>(v: T, rest: Seq<u8>)
    ensures
        split_exact(v.image() + rest, T::layout_size()) == Some((v.image(), rest)),
{
    v.lemma_image_len();
}

/// A read of one record fails on every proper prefix of an image, the empty
/// one included.
pub proof fn lemma_truncated_image_fails<T: Record>(v: T, k: nat)
    requires
        k < T::layout_size(),
    ensures
        split_exact(v.image().take(k as int), T::layout_size()) is None,
{
    v.lemma_image_len();
}

/// Reading an array back: when the images of `vs` have been written out end
/// to end in front of `rest`, a read of `vs.len()` records' bytes takes
/// exactly those images and leaves `rest`.
pub proof fn lemma_read_back_many<T: Record>(vs: Seq<T>, rest: Seq<u8>)
    ensures
        split_exact(images(vs) + rest, (vs.len() * T::layout_size()) as nat) == Some(
            (images(vs), rest),
        ),
{
    lemma_images_len(vs);
}

/// Two sequences of equally many records whose images, laid end to end, are
/// the same bytes agree image by image.
pub proof fn lemma_same_images_elementwise<T: Record>(a: Seq<T>, b: Seq<T>)
    requires
        a.len() == b.len(),
        images(a) == images(b),
    ensures
        forall|i: int| 0 <= i < a.len() ==> (#[trigger] a[i]).image() == b[i].image(),
{
    assert forall|i: int| 0 <= i < a.len() implies (#[trigger] a[i]).image() == b[i].image() by {
        lemma_images_run(a, i);
        lemma_images_run(b, i);
    }
}

/// A read of `vs.len()` records fails on every proper prefix of their images
/// laid end to end.
pub proof fn lemma_truncated_images_fail<T: Record>(vs: Seq<T>, k: nat)
    requires
        k < vs.len() * T::layout_size(),
    ensures
        split_exact(images(vs).take(k as int), (vs.len() * T::layout_size()) as nat) is None,
{
    lemma_images_len(vs);
}

/// A read of no records succeeds whatever is pending: it takes nothing,
/// leaves everything, and the images of no records are no bytes.
pub proof fn lemma_read_no_records<T: Record>(pending: Seq<u8>)
    ensures
        split_exact(pending, (0 * T::layout_size()) as nat) == Some((Seq::<u8>::empty(), pending)),
        images(Seq::<T>::empty()) == Seq::<u8>::empty(),
{
}

/// Reads follow one another without a gap: after a record of type `A` has
/// been read, a read of a record of type `B` takes the bytes that lie
/// directly behind those that the first read took.
pub proof fn lemma_reads_in_sequence<A: Record, B: Record>(pending: Seq<u8>)
    requires
        A::layout_size() + B::layout_size() <= pending.len(),
    ensures
        split_exact(pending, A::layout_size()) == Some(
            (pending.subrange(0, A::layout_size() as int), pending.skip(A::layout_size() as int)),
        ),
        split_exact(pending.skip(A::layout_size() as int), B::layout_size()) == Some(
            (
                pending.subrange(
                    A::layout_size() as int,
                    (A::layout_size() + B::layout_size()) as int,
                ),
                pending.skip((A::layout_size() + B::layout_size()) as int),
            ),
        ),
{
}

} // verus!
