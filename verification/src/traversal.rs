//! The order in which the lending traversals visit a nested sequence.

use crate::nested::{put, same_shape};
use vstd::prelude::*;

verus! {

/// A place in a nested sequence: an inner sequence, and an element of it.
pub struct Position {
    pub outer: int,
    pub inner: int,
}

/// Whether `p` is the place of an element of `s`.
pub open spec fn holds<T>(s: Seq<Seq<T>>, p: Position) -> bool {
    0 <= p.outer < s.len() && 0 <= p.inner < s[p.outer].len()
}

/// The place of the first element of `s` that lies in its `outer`-th inner
/// sequence or a later one: the start of the first of these that is not empty.
/// `None` where they are all empty, or there are none.
pub open spec fn first_from<T>(s: Seq<Seq<T>>, outer: int) -> Option<Position>
    decreases s.len() - outer,
{
    if outer < 0 || outer >= s.len() {
        None
    } else if s[outer].len() > 0 {
        Some(Position { outer, inner: 0 })
    } else {
        first_from(s, outer + 1)
    }
}

/// The place of the element that follows the one at `p`: the next of the same
/// inner sequence, or else the first of the inner sequences after it.
pub open spec fn successor<T>(s: Seq<Seq<T>>, p: Position) -> Option<Position> {
    if p.inner + 1 < s[p.outer].len() {
        Some(Position { outer: p.outer, inner: p.inner + 1 })
    } else {
        first_from(s, p.outer + 1)
    }
}

/// Where a traversal that stands at `at` stands after its next step. An
/// exhausted traversal stays exhausted.
pub open spec fn advance<T>(s: Seq<Seq<T>>, at: Option<Position>) -> Option<Position> {
    match at {
        Some(p) => successor(s, p),
        None => None,
    }
}

/// What the search of `first_from` finds is the start of an inner sequence that
/// is not empty, at `outer` or after it.
pub proof fn lemma_first_from_holds<T>(s: Seq<Seq<T>>, outer: int)
    ensures
        first_from(s, outer) matches Some(p) ==> holds(s, p) && outer <= p.outer && p.inner == 0,
        first_from(s, outer) is None ==> forall|o: int|
            0 <= outer <= o < s.len() ==> (#[trigger] s[o]).len() == 0,
        forall|o: int|
            first_from(s, outer) matches Some(p) && outer <= o < p.outer ==> (#[trigger] s[o]).len()
                == 0,
    decreases s.len() - outer,
{
    if 0 <= outer < s.len() && s[outer].len() == 0 {
        lemma_first_from_holds(s, outer + 1);
    }
}

/// The successor of an element's place is again the place of an element,
/// further on in the order.
pub proof fn lemma_successor_holds<T>(s: Seq<Seq<T>>, p: Position)
    requires
        holds(s, p),
    ensures
        successor(s, p) matches Some(q) ==> holds(s, q) && (q.outer > p.outer || (q.outer
            == p.outer && q.inner == p.inner + 1)),
{
    lemma_first_from_holds(s, p.outer + 1);
}

/// The order of traversal depends on the shape alone.
pub proof fn lemma_first_from_shape<T>(a: Seq<Seq<T>>, b: Seq<Seq<T>>, outer: int)
    requires
        same_shape(a, b),
    ensures
        first_from(a, outer) == first_from(b, outer),
    decreases a.len() - outer,
{
    if 0 <= outer < a.len() {
        assert(a[outer].len() == b[outer].len());
        if a[outer].len() == 0 {
            lemma_first_from_shape(a, b, outer + 1);
        }
    }
}

/// How many inner sequences lie at or after the one that a traversal at `at`
/// stands in.
pub open spec fn outer_left<T>(s: Seq<Seq<T>>, at: Option<Position>) -> int {
    match at {
        Some(p) => s.len() - p.outer,
        None => 0,
    }
}

/// How many elements of its inner sequence a traversal at `at` has yet to lend.
pub open spec fn inner_left<T>(s: Seq<Seq<T>>, at: Option<Position>) -> int {
    match at {
        Some(p) => s[p.outer].len() - p.inner,
        None => 0,
    }
}

/// What a traversal that stands at `at` lends from there on, until it is
/// exhausted: step by step the element at which it stands, as `next` lends
/// it, and then what it lends from where `advance` takes it.
pub open spec fn yields_from<T>(s: Seq<Seq<T>>, at: Option<Position>) -> Seq<T>
    decreases outer_left(s, at), inner_left(s, at),
    via yields_from_decreases::<T>
{
    match at {
        None => Seq::empty(),
        Some(p) => if holds(s, p) {
            seq![s[p.outer][p.inner]] + yields_from(s, successor(s, p))
        } else {
            Seq::empty()
        },
    }
}

#[via_fn]
proof fn yields_from_decreases<T>(s: Seq<Seq<T>>, at: Option<Position>) {
    if let Some(p) = at {
        if holds(s, p) {
            lemma_successor_holds(s, p);
        }
    }
}

/// From an element on, a traversal lends the rest of that element's inner
/// sequence and then what the inner sequences after it hold.
proof fn lemma_yields_from_element<T>(s: Seq<Seq<T>>, p: Position)
    requires
        holds(s, p),
    ensures
        yields_from(s, Some(p)) == s[p.outer].skip(p.inner) + s.skip(p.outer + 1).flatten(),
    decreases s.len() - p.outer, s[p.outer].len() - p.inner,
{
    let rest = s.skip(p.outer + 1).flatten();
    if p.inner + 1 < s[p.outer].len() {
        let q = Position { outer: p.outer, inner: p.inner + 1 };
        lemma_yields_from_element(s, q);
        assert(seq![s[p.outer][p.inner]] + (s[p.outer].skip(q.inner) + rest) =~= s[p.outer].skip(
            p.inner,
        ) + rest);
    } else {
        lemma_yields_from_outer(s, p.outer + 1);
        assert(seq![s[p.outer][p.inner]] + rest =~= s[p.outer].skip(p.inner) + rest);
    }
}

/// From the start of an inner sequence on, a traversal lends what that inner
/// sequence and those after it hold.
proof fn lemma_yields_from_outer<T>(s: Seq<Seq<T>>, outer: int)
    requires
        0 <= outer <= s.len(),
    ensures
        yields_from(s, first_from(s, outer)) == s.skip(outer).flatten(),
    decreases s.len() - outer, (if outer < s.len() { s[outer].len() + 1 } else { 0 }),
{
    let tail = s.skip(outer);
    if outer == s.len() {
        assert(tail.flatten() =~= Seq::<T>::empty());
    } else {
        assert(tail.first() == s[outer]);
        assert(tail.drop_first() =~= s.skip(outer + 1));
        assert(tail.flatten() == s[outer] + s.skip(outer + 1).flatten());
        if s[outer].len() == 0 {
            lemma_yields_from_outer(s, outer + 1);
            assert(s[outer] + s.skip(outer + 1).flatten() =~= s.skip(outer + 1).flatten());
        } else {
            lemma_yields_from_element(s, Position { outer, inner: 0 });
            assert(s[outer].skip(0) =~= s[outer]);
        }
    }
}

/// A traversal from the start lends the elements of the inner sequences in
/// order, inner sequence after inner sequence, each element once and nothing
/// for an empty inner sequence: the flattening of `s`.
pub proof fn lemma_traversal_is_flattening<T>(s: Seq<Seq<T>>)
    ensures
        yields_from(s, first_from(s, 0)) == s.flatten(),
{
    lemma_yields_from_outer(s, 0);
    assert(s.skip(0) =~= s);
}

/// The structure that a traversal leaves behind when it stands at `at` and,
/// from there on, each element `x` that it lends is overwritten with `f(x)`:
/// step by step `put` at the place where it stands, as a write through what
/// `LendingIterMut::next` lends does, and then on from where `advance` takes
/// it.
pub open spec fn rewritten_from<T>(
    s: Seq<Seq<T>>,
    at: Option<Position>,
    f: spec_fn(T) -> T,
) -> Seq<Seq<T>>
    decreases outer_left(s, at), inner_left(s, at),
    via rewritten_from_decreases::<T>
{
    match at {
        None => s,
        Some(p) => if holds(s, p) {
            rewritten_from(put(s, p.outer, p.inner, f(s[p.outer][p.inner])), successor(s, p), f)
        } else {
            s
        },
    }
}

#[via_fn]
proof fn rewritten_from_decreases<T>(s: Seq<Seq<T>>, at: Option<Position>, f: spec_fn(T) -> T) {
    if let Some(p) = at {
        if holds(s, p) {
            lemma_successor_holds(s, p);
        }
    }
}

/// `s` with `f` applied to each of its elements: the same inner sequences, of
/// the same lengths, in the same places.
pub open spec fn map_elements<T>(s: Seq<Seq<T>>, f: spec_fn(T) -> T) -> Seq<Seq<T>> {
    Seq::new(s.len(), |o: int| Seq::new(s[o].len(), |i: int| f(s[o][i])))
}

/// `s` with `f` applied to the elements from the place `(outer, inner)` on, in
/// the order of traversal.
spec fn mapped_from<T>(s: Seq<Seq<T>>, outer: int, inner: int, f: spec_fn(T) -> T) -> Seq<
    Seq<T>,
> {
    Seq::new(
        s.len(),
        |o: int|
            Seq::new(
                s[o].len(),
                |i: int|
                    if o > outer || (o == outer && i >= inner) {
                        f(s[o][i])
                    } else {
                        s[o][i]
                    },
            ),
    )
}

/// Rewriting from an element on applies `f` to that element and to each one
/// after it.
proof fn lemma_rewritten_from_element<T>(s: Seq<Seq<T>>, p: Position, f: spec_fn(T) -> T)
    requires
        holds(s, p),
    ensures
        rewritten_from(s, Some(p), f) == mapped_from(s, p.outer, p.inner, f),
    decreases s.len() - p.outer, s[p.outer].len() - p.inner,
{
    let s1 = put(s, p.outer, p.inner, f(s[p.outer][p.inner]));
    assert(same_shape(s, s1));
    if p.inner + 1 < s[p.outer].len() {
        let q = Position { outer: p.outer, inner: p.inner + 1 };
        lemma_rewritten_from_element(s1, q, f);
        assert(mapped_from(s1, q.outer, q.inner, f) =~~= mapped_from(s, p.outer, p.inner, f));
    } else {
        lemma_first_from_shape(s, s1, p.outer + 1);
        lemma_rewritten_from_outer(s1, p.outer + 1, f);
        assert(mapped_from(s1, p.outer + 1, 0, f) =~~= mapped_from(s, p.outer, p.inner, f));
    }
}

/// Rewriting from the start of an inner sequence on applies `f` to what that
/// inner sequence and those after it hold.
proof fn lemma_rewritten_from_outer<T>(s: Seq<Seq<T>>, outer: int, f: spec_fn(T) -> T)
    requires
        0 <= outer <= s.len(),
    ensures
        rewritten_from(s, first_from(s, outer), f) == mapped_from(s, outer, 0, f),
    decreases s.len() - outer, (if outer < s.len() { s[outer].len() + 1 } else { 0 }),
{
    if outer == s.len() {
        assert(mapped_from(s, outer, 0, f) =~~= s);
    } else if s[outer].len() == 0 {
        lemma_rewritten_from_outer(s, outer + 1, f);
        assert(mapped_from(s, outer + 1, 0, f) =~~= mapped_from(s, outer, 0, f));
    } else {
        lemma_rewritten_from_element(s, Position { outer, inner: 0 }, f);
    }
}

/// A traversal from the start that overwrites each element `x` it lends with
/// `f(x)` leaves the structure in its shape, empty inner sequences where they
/// were, with `f` applied to every element.
pub proof fn lemma_rewriting_maps_every_element<T>(s: Seq<Seq<T>>, f: spec_fn(T) -> T)
    ensures
        rewritten_from(s, first_from(s, 0), f) == map_elements(s, f),
        same_shape(s, map_elements(s, f)),
{
    lemma_rewritten_from_outer(s, 0, f);
    assert(mapped_from(s, 0, 0, f) =~~= map_elements(s, f));
}

/// A traversal from the start that adds one to each element it lends leaves
/// every element one higher, and the shape as it was.
pub proof fn lemma_incrementing_every_element(s: Seq<Seq<int>>)
    ensures
        rewritten_from(s, first_from(s, 0), |x: int| x + 1) == Seq::new(
            s.len(),
            |o: int| Seq::new(s[o].len(), |i: int| s[o][i] + 1),
        ),
{
    let f = |x: int| x + 1;
    lemma_rewriting_maps_every_element(s, f);
    assert(map_elements(s, f) =~~= Seq::new(
        s.len(),
        |o: int| Seq::new(s[o].len(), |i: int| s[o][i] + 1),
    ));
}

} // verus!
