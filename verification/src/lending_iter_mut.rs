//! A lending traversal that hands out each element for writing.

use crate::nested::{nested_view, put};
use crate::traversal::{advance, first_from, holds, lemma_first_from_holds, Position};
use vstd::prelude::*;

verus! {

/// A lending iterator over the mutable references to the elements of a
/// `Vec<Vec<T>>`, inner vector by inner vector, front to back.
pub struct LendingIterMut<'a, T> {
    container: &'a mut Vec<Vec<T>>,
    outer_idx: usize,
    inner_idx: usize,
    is_finished: bool,
}

impl<'a, T> View for LendingIterMut<'a, T> {
    type V = Seq<Seq<T>>;

    /// The nested sequence under traversal, as it stands.
    open spec fn view(&self) -> Seq<Seq<T>> {
        nested_view(*self.borrowed())
    }
}

impl<'a, T> LendingIterMut<'a, T> {
    /// The borrow of the `Vec<Vec<T>>` that the traversal holds. Its current
    /// value is the structure as it stands; its final value is the structure
    /// that the owner finds when the borrow ends.
    pub closed spec fn borrowed(&self) -> &'a mut Vec<Vec<T>> {
        self.container
    }

    /// The place of the element that the next step lends; `None` once the
    /// traversal is exhausted.
    pub closed spec fn position(&self) -> Option<Position> {
        if self.is_finished {
            None
        } else {
            Some(Position { outer: self.outer_idx as int, inner: self.inner_idx as int })
        }
    }

    /// The traversal stands at an element of its structure, or is exhausted.
    pub open spec fn wf(&self) -> bool {
        self.position() matches Some(p) ==> holds(self@, p)
    }

    /// Once nothing can write through the traversal any more, the structure is
    /// what the traversal left.
    pub proof fn lemma_released(self)
        requires
            has_resolved(self),
        ensures
            *final(self.borrowed()) == *self.borrowed(),
    {
    }

    /// A traversal of `container` that stands at its first element: the start
    /// of its first inner vector that is not empty.
    pub(crate) fn new(container: &'a mut Vec<Vec<T>>) -> (it: Self)
        ensures
            it.wf(),
            *it.borrowed() == *old(container),
            *final(it.borrowed()) == *final(container),
            it.position() == first_from(nested_view(*old(container)), 0),
    {
        let mut oi: usize = 0;
        let mut is_finished = false;
        loop
            invariant_except_break
                !is_finished,
            invariant
                *container == *old(container),
                0 <= oi <= container.len(),
                first_from(nested_view(*container), 0) == first_from(
                    nested_view(*container),
                    oi as int,
                ),
            ensures
                is_finished ==> first_from(nested_view(*container), 0) is None,
                !is_finished ==> oi < container.len() && container[oi as int].len() > 0,
            decreases container.len() - oi,
        {
            if oi >= container.len() {
                is_finished = true;
                break ;
            };
            if !container[oi].is_empty() {
                break ;
            };
            oi += 1;
        }
        Self { container, outer_idx: oi, inner_idx: 0, is_finished }
    }

    /// Returns a shared reference to the `Vec<Vec<T>>`.
    pub fn container(&self) -> (c: &Vec<Vec<T>>)
        ensures
            *c == *self.borrowed(),
    {
        self.container
    }

    /// Returns a mutable reference to the `Vec<Vec<T>>`.
    pub fn container_mut(&mut self) -> (c: &mut Vec<Vec<T>>)
        ensures
            *c == *old(self).borrowed(),
            *final(self).borrowed() == *final(c),
            *final(final(self).borrowed()) == *final(old(self).borrowed()),
            final(self).position() == old(self).position(),
    {
        self.container
    }

    /// Whether the traversal still stands at an element of the structure, or is
    /// exhausted: what `next` asks of its caller. Only resizing the structure
    /// through `container_mut` can make this fail.
    pub fn is_valid(&self) -> (valid: bool)
        ensures
            valid == self.wf(),
    {
        self.is_finished || (self.outer_idx < self.container.len() && self.inner_idx
            < self.container[self.outer_idx].len())
    }

    /// Lends the element at which the traversal stands, for writing, and moves
    /// on to the next one. Returns `None` once every element has been lent.
    ///
    /// The traversal has to stand at an element of the structure. It does
    /// unless the structure was resized through `container_mut`; `is_valid`
    /// tells.
    pub fn next(&mut self) -> (lent: Option<&mut T>)
        requires
            old(self).wf(),
        ensures
            final(self).wf(),
            *final(final(self).borrowed()) == *final(old(self).borrowed()),
            final(self).position() == advance(old(self)@, old(self).position()),
            match old(self).position() {
                None => lent is None && *final(self).borrowed() == *old(self).borrowed(),
                Some(p) => lent is Some && *lent.unwrap() == old(self)@[p.outer][p.inner]
                    && final(self)@ == put(old(self)@, p.outer, p.inner, *final(lent.unwrap())),
            },
    {
        if self.is_finished {
            return None;
        };
        let old_oi = self.outer_idx;
        let old_ii = self.inner_idx;
        let ghost s = old(self)@;
        assert(s[old_oi as int] == self.container@[old_oi as int]@);
        let inner_len = self.container[old_oi].len();
        if old_ii + 1 < inner_len {
            self.inner_idx = old_ii + 1;
        } else {
            loop
                invariant_except_break
                    old_oi <= self.outer_idx < self.container.len(),
                    first_from(s, old_oi + 1) == first_from(s, self.outer_idx + 1),
                invariant
                    old(self)@ == s,
                    old(self).position() == Some(
                        Position { outer: old_oi as int, inner: old_ii as int },
                    ),
                    self.container == old(self).container,
                    self.inner_idx == old_ii,
                    !self.is_finished,
                    s == nested_view(*self.container),
                    holds(s, Position { outer: old_oi as int, inner: old_ii as int }),
                    old_ii + 1 >= s[old_oi as int].len(),
                ensures
                    first_from(s, old_oi + 1) == Some(
                        Position { outer: self.outer_idx as int, inner: 0 },
                    ),
                decreases self.container.len() - self.outer_idx,
            {
                self.outer_idx += 1;
                if self.outer_idx >= self.container.len() {
                    self.is_finished = true;
                    return Some(&mut self.container[old_oi][old_ii]);
                };
                if !self.container[self.outer_idx].is_empty() {
                    break ;
                }
            }
            self.inner_idx = 0;
        }
        proof {
            lemma_first_from_holds(s, old_oi + 1);
        }
        Some(&mut self.container[old_oi][old_ii])
    }
}

} // verus!
