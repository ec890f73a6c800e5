//! A handle on the last element of a vector of vectors.

use crate::nested::{element_mut, nested_view, put};
use vstd::prelude::*;

verus! {

/// Whether `s` has a last inner sequence, and that one a last element.
pub open spec fn is_trivial<T>(s: Seq<Seq<T>>) -> bool {
    s.len() > 0 && s.last().len() > 0
}

/// A handle on the last element of the last inner vector of a `Vec<Vec<T>>`.
/// It is only had for a structure that has such an element, and each of its
/// methods leaves the structure with one, but for `pop_pointee`, which takes
/// the handle with it.
pub struct TrivialLastEntry<'a, T>(&'a mut Vec<Vec<T>>);

impl<'a, T> View for TrivialLastEntry<'a, T> {
    type V = Seq<Seq<T>>;

    /// The nested sequence that the handle stands on, as it stands.
    open spec fn view(&self) -> Seq<Seq<T>> {
        nested_view(*self.borrowed())
    }
}

impl<'a, T> TrivialLastEntry<'a, T> {
    /// The borrow of the `Vec<Vec<T>>` that the handle holds. Its current
    /// value is the structure as it stands; its final value is the structure
    /// that the owner finds when the borrow ends.
    pub closed spec fn borrowed(&self) -> &'a mut Vec<Vec<T>> {
        self.0
    }

    /// The outer vector is not empty, and neither is its last inner vector.
    pub open spec fn wf(&self) -> bool {
        is_trivial(self@)
    }

    /// The element that the handle is on: the last one of the last inner
    /// sequence.
    pub open spec fn pointee(&self) -> T {
        self@.last().last()
    }

    /// Once nothing can write through the handle any more, the structure is
    /// what the handle left.
    pub proof fn lemma_released(self)
        requires
            has_resolved(self),
        ensures
            *final(self.borrowed()) == *self.borrowed(),
    {
    }

    /// A handle on the last element of the last inner vector of `vec`; `None`
    /// where `vec` is empty or its last inner vector is.
    pub(crate) fn new(vec: &'a mut Vec<Vec<T>>) -> (entry: Option<Self>)
        ensures
            entry is Some <==> is_trivial(nested_view(*old(vec))),
            entry is None ==> *final(vec) == *old(vec),
            entry matches Some(e) ==> e.wf() && *e.borrowed() == *old(vec) && *final(e.borrowed())
                == *final(vec) && e.pointee() == nested_view(*old(vec)).last().last(),
    {
        let outer_idx = vec.len().checked_sub(1)?;
        let is_empty = {
            let last_inner_vec = &vec[outer_idx];
            last_inner_vec.is_empty()
        };
        if is_empty {
            None
        } else {
            Some(Self(vec))
        }
    }

    /// Removes the last element from the last `Vec<T>` and returns it.
    pub fn pop_pointee(self) -> (pointee: T)
        requires
            self.wf(),
        ensures
            pointee == self.pointee(),
            nested_view(*final(self.borrowed())) == self@.drop_last().push(
                self@.last().drop_last(),
            ),
    {
        let outer_idx = self.0.len() - 1;
        let last_inner_vec = &mut self.0[outer_idx];
        let popped = last_inner_vec.pop();
        popped.unwrap()
    }

    /// Pushes the given vector to the outer vector, unless it is empty.
    pub fn push_to_outer(&mut self, vec: Vec<T>) -> (pushed: Option<()>)
        requires
            old(self).wf(),
        ensures
            final(self).wf(),
            *final(final(self).borrowed()) == *final(old(self).borrowed()),
            pushed is Some <==> vec@.len() > 0,
            pushed is Some ==> final(self)@ == old(self)@.push(vec@),
            pushed is None ==> *final(self).borrowed() == *old(self).borrowed(),
    {
        if vec.is_empty() {
            return None;
        };
        self.0.push(vec);
        Some(())
    }

    /// Checks if the entry is the only element of the last inner vector.
    pub fn is_last_in_inner(&self) -> (alone: bool)
        requires
            self.wf(),
        ensures
            alone == (self@.last().len() == 1),
    {
        let outer_idx = self.0.len() - 1;
        let last_inner_vec = &self.0[outer_idx];
        let inner_idx = last_inner_vec.len() - 1;
        inner_idx == 0
    }

    /// A shared reference to the last element of the last inner vector.
    pub fn get(&self) -> (pointee: &T)
        requires
            self.wf(),
        ensures
            *pointee == self.pointee(),
    {
        let outer_idx = self.0.len() - 1;
        let last_inner_vec = &self.0[outer_idx];
        let inner_idx = last_inner_vec.len() - 1;
        &last_inner_vec[inner_idx]
    }

    /// A mutable reference to the last element of the last inner vector.
    pub fn get_mut(&mut self) -> (pointee: &mut T)
        requires
            old(self).wf(),
        ensures
            final(self).wf(),
            *final(final(self).borrowed()) == *final(old(self).borrowed()),
            *pointee == old(self).pointee(),
            final(self)@ == put(
                old(self)@,
                old(self)@.len() - 1,
                old(self)@.last().len() - 1,
                *final(pointee),
            ),
    {
        let outer_idx = self.0.len() - 1;
        let inner_idx = self.0[outer_idx].len() - 1;
        element_mut(self.0, outer_idx, inner_idx)
    }
}

} // verus!
