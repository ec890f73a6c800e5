//! The mathematical reading of a vector of vectors.

use vstd::prelude::*;

verus! {

/// The nested sequence that `v` stands for: its inner vectors, in order, each as
/// the sequence of its elements.
pub open spec fn nested_view<T>(v: Vec<Vec<T>>) -> Seq<Seq<T>> {
    Seq::new(v@.len(), |i: int| v@[i]@)
}

/// `s` with its `inner`-th element of its `outer`-th inner sequence replaced by `x`.
pub open spec fn put<T>(s: Seq<Seq<T>>, outer: int, inner: int, x: T) -> Seq<Seq<T>> {
    s.update(outer, s[outer].update(inner, x))
}

/// Whether two nested sequences have the same number of inner sequences, of the
/// same lengths in the same places.
pub open spec fn same_shape<T>(a: Seq<Seq<T>>, b: Seq<Seq<T>>) -> bool {
    &&& a.len() == b.len()
    &&& forall|o: int| 0 <= o < a.len() ==> (#[trigger] a[o]).len() == b[o].len()
}

/// A mutable reference to the `inner`-th element of the `outer`-th inner vector
/// of `v`. Whatever is written through it, the shape of `v` stays.
pub(crate) fn element_mut<T>(v: &mut Vec<Vec<T>>, outer: usize, inner: usize) -> (x: &mut T)
    requires
        outer < old(v).len(),
        inner < old(v)[outer as int].len(),
    ensures
        *x == nested_view(*old(v))[outer as int][inner as int],
        nested_view(*final(v)) == put(
            nested_view(*old(v)),
            outer as int,
            inner as int,
            *final(x),
        ),
{
    &mut v[outer][inner]
}

} // verus!
