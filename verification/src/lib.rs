//! Traversals of a vector of vectors, and a handle on its last element.
//!
//! A `Vec<Vec<T>>` is read as a nested sequence, `Seq<Seq<T>>` (module
//! `nested`). Over it the crate offers, through the extension trait
//! [`VecVecExt`]:
//!
//! - [`LendingIter`] and [`LendingIterMut`], which lend the elements one at a
//!   time, front to back, for reading and for writing. Module `traversal`
//!   holds the order they follow and what follows from it.
//! - [`PoppingIter`], which pops the elements from the back and removes the
//!   inner vectors that it finds empty. Module `draining` holds what a pop
//!   returns and leaves.
//! - [`TrivialLastEntry`], a handle on the last element of the last inner
//!   vector, for a structure that has one.
//!
//! The three that hold a mutable borrow state in their contracts what the
//! structure is once the borrow ends: the final value of `borrowed()`. Outside
//! their modules, `lemma_released` ties it to the view they had when let go.

use vstd::prelude::*;

pub mod draining;
pub mod lending_iter;
pub mod lending_iter_mut;
pub mod nested;
pub mod popping_iter;
pub mod traversal;
pub mod trivial_last_entry;

pub use lending_iter::LendingIter;
pub use lending_iter_mut::LendingIterMut;
pub use popping_iter::PoppingIter;
pub use trivial_last_entry::TrivialLastEntry;

verus! {

use crate::nested::nested_view;
use crate::traversal::first_from;
use crate::trivial_last_entry::is_trivial;

/// An extension trait for `Vec<Vec<T>>`.
pub trait VecVecExt {
    /// The type `T` of the items contained in the `Vec<Vec<T>>`.
    type Item;

    /// The nested sequence that `self` stands for.
    spec fn nested(&self) -> Seq<Seq<Self::Item>>;

    /// Returns a [`PoppingIter`] over the `Vec<Vec<T>>`.
    fn popping_iter(&mut self) -> (it: PoppingIter<'_, Self::Item>)
        ensures
            it@ == old(self).nested(),
            nested_view(*final(it.borrowed())) == final(self).nested(),
    ;

    /// Returns a lending iterator over the mutable references to the elements
    /// of the `Vec<Vec<T>>`.
    fn lending_iter_mut(&mut self) -> (it: LendingIterMut<'_, Self::Item>)
        ensures
            it.wf(),
            it@ == old(self).nested(),
            it.position() == first_from(old(self).nested(), 0),
            nested_view(*final(it.borrowed())) == final(self).nested(),
    ;

    /// Returns a lending iterator over the shared references to the elements of
    /// the `Vec<Vec<T>>`.
    fn lending_iter(&self) -> (it: LendingIter<'_, Self::Item>)
        ensures
            it.wf(),
            it@ == self.nested(),
            it.position() == first_from(self.nested(), 0),
    ;

    /// Returns a handle on the last element of the last inner vector, where
    /// there is one.
    fn trivial_last_entry(&mut self) -> (entry: Option<TrivialLastEntry<'_, Self::Item>>)
        ensures
            entry is Some <==> is_trivial(old(self).nested()),
            entry is None ==> final(self).nested() == old(self).nested(),
            entry matches Some(e) ==> e.wf() && e@ == old(self).nested() && e.pointee() == old(
                self,
            ).nested().last().last() && nested_view(*final(e.borrowed())) == final(self).nested(),
    ;
}

impl<T> VecVecExt for Vec<Vec<T>> {
    type Item = T;

    open spec fn nested(&self) -> Seq<Seq<T>> {
        nested_view(*self)
    }

    fn popping_iter(&mut self) -> (it: PoppingIter<'_, T>)
        ensures
            *it.borrowed() == *old(self),
            *final(it.borrowed()) == *final(self),
    {
        PoppingIter::new(self)
    }

    fn lending_iter_mut(&mut self) -> (it: LendingIterMut<'_, T>)
        ensures
            *it.borrowed() == *old(self),
            *final(it.borrowed()) == *final(self),
    {
        LendingIterMut::new(self)
    }

    fn lending_iter(&self) -> (it: LendingIter<'_, T>)
        ensures
            *it.borrowed() == *self,
    {
        LendingIter::new(self)
    }

    fn trivial_last_entry(&mut self) -> (entry: Option<TrivialLastEntry<'_, T>>)
        ensures
            entry is None ==> *final(self) == *old(self),
            entry matches Some(e) ==> *e.borrowed() == *old(self) && *final(e.borrowed())
                == *final(self),
    {
        TrivialLastEntry::new(self)
    }
}

} // verus!
