//! A lending traversal that hands out each element for reading.

use crate::nested::nested_view;
use crate::traversal::{advance, first_from, holds, lemma_first_from_holds, Position};
use vstd::prelude::*;

verus! {

/// A lending iterator over the shared references to the elements of a
/// `Vec<Vec<T>>`, inner vector by inner vector, front to back.
pub struct LendingIter<'a, T> {
    container: &'a Vec<Vec<T>>,
    outer_idx: usize,
    inner_idx: usize,
    is_finished: bool,
}

impl<'a, T> View for LendingIter<'a, T> {
    type V = Seq<Seq<T>>;

    /// The nested sequence under traversal.
    open spec fn view(&self) -> Seq<Seq<T>> {
        nested_view(*self.borrowed())
    }
}

impl<'a, T> LendingIter<'a, T> {
    /// Holds of every traversal: it stands at an element of its structure, or
    /// is exhausted.
    #[verifier::type_invariant]
    spec fn in_bounds(self) -> bool {
        self.is_finished || holds(
            nested_view(*self.container),
            Position { outer: self.outer_idx as int, inner: self.inner_idx as int },
        )
    }

    /// The borrow of the `Vec<Vec<T>>` that the traversal holds.
    pub closed spec fn borrowed(&self) -> &'a Vec<Vec<T>> {
        self.container
    }

    /// The place of the element that the next step lends; `None` once the
    /// traversal is exhausted.
    pub closed spec fn position(&self) -> Option<Position> {
        if self.is_finished {
            None
        } else {
            Some(Position { outer: self.outer_idx as int, inner: self.inner_idx as int })
        }
    }

    /// The traversal stands at an element of its structure, or is exhausted.
    /// `new` and `next` promise it, and nothing asks for it: no caller can
    /// move the traversal or resize the structure under it.
    pub open spec fn wf(&self) -> bool {
        self.position() matches Some(p) ==> holds(self@, p)
    }

    /// A traversal of `container` that stands at its first element: the start
    /// of its first inner vector that is not empty.
    pub(crate) fn new(container: &'a Vec<Vec<T>>) -> (it: Self)
        ensures
            it.wf(),
            it.borrowed() == container,
            it.position() == first_from(nested_view(*container), 0),
    {
        let mut oi: usize = 0;
        let mut is_finished = false;
        loop
            invariant_except_break
                !is_finished,
            invariant
                0 <= oi <= container.len(),
                first_from(nested_view(*container), 0) == first_from(
                    nested_view(*container),
                    oi as int,
                ),
            ensures
                is_finished ==> first_from(nested_view(*container), 0) is None,
                !is_finished ==> oi < container.len() && container[oi as int].len() > 0,
            decreases container.len() - oi,
        {
            if oi >= container.len() {
                is_finished = true;
                break ;
            };
            if !container[oi].is_empty() {
                break ;
            };
            oi += 1;
        }
        Self { container, outer_idx: oi, inner_idx: 0, is_finished }
    }

    /// Returns a shared reference to the `Vec<Vec<T>>`.
    pub fn container(&self) -> (c: &Vec<Vec<T>>)
        ensures
            c == self.borrowed(),
    {
        self.container
    }

    /// Lends the element at which the traversal stands and moves on to the next
    /// one. Returns `None` once every element has been lent.
    pub fn next(&mut self) -> (lent: Option<&T>)
        ensures
            final(self).wf(),
            final(self).borrowed() == old(self).borrowed(),
            final(self).position() == advance(old(self)@, old(self).position()),
            match old(self).position() {
                None => lent is None,
                Some(p) => lent == Some(&old(self)@[p.outer][p.inner]),
            },
    {
        proof {
            use_type_invariant(&*self);
        }
        if self.is_finished {
            return None;
        };
        let c = self.container;
        let old_oi = self.outer_idx;
        let old_ii = self.inner_idx;
        let ghost s = nested_view(*c);
        assert(s[old_oi as int] == c@[old_oi as int]@);
        let inner_len = c[old_oi].len();
        if old_ii + 1 < inner_len {
            self.inner_idx = old_ii + 1;
        } else {
            let mut oi = old_oi;
            loop
                invariant_except_break
                    old_oi <= oi < c.len(),
                    first_from(s, old_oi + 1) == first_from(s, oi + 1),
                invariant
                    old(self)@ == s,
                    old(self).position() == Some(
                        Position { outer: old_oi as int, inner: old_ii as int },
                    ),
                    *self == *old(self),
                    c == self.container,
                    s == nested_view(*c),
                    holds(s, Position { outer: old_oi as int, inner: old_ii as int }),
                    old_ii + 1 >= s[old_oi as int].len(),
                ensures
                    oi < c.len(),
                    first_from(s, old_oi + 1) == Some(Position { outer: oi as int, inner: 0 }),
                decreases c.len() - oi,
            {
                oi += 1;
                if oi >= c.len() {
                    self.is_finished = true;
                    self.outer_idx = oi;
                    return Some(&c[old_oi][old_ii]);
                };
                if !c[oi].is_empty() {
                    break ;
                }
            }
            proof {
                lemma_first_from_holds(s, old_oi + 1);
            }
            self.inner_idx = 0;
            self.outer_idx = oi;
        }
        Some(&c[old_oi][old_ii])
    }
}

} // verus!
