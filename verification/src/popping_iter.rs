//! A traversal that pops what it yields.

use crate::draining::{after_pop, last_element, trim};
use crate::nested::nested_view;
use stack_trait::Stack;
use vstd::prelude::*;

verus! {

/// An iterator over the items of a `Vec<Vec<T>>` that pops the elements of the
/// inner `Vec`s from the back, last inner `Vec` first, and removes the inner
/// `Vec`s that it finds empty on its way.
pub struct PoppingIter<'a, T>(&'a mut Vec<Vec<T>>);

impl<'a, T> View for PoppingIter<'a, T> {
    type V = Seq<Seq<T>>;

    /// The nested sequence that is left, as it stands.
    open spec fn view(&self) -> Seq<Seq<T>> {
        nested_view(*self.borrowed())
    }
}

/// Whether the inner vector on top of `stack` is empty; `None` where `stack`
/// has no top. Calls `Stack::lifo` of the crate `stack_trait` and asks the
/// entry it returns, through the entry's `Deref`, for `Vec::is_empty`. The
/// contract claims that `lifo` gives an entry exactly for a `Vec` that is not
/// empty, that the entry stands for the last item, and that `stack` is left
/// as it was.
#[verifier::external_body]
fn top_is_empty<T>(stack: &mut Vec<Vec<T>>) -> (r: Option<bool>)
    ensures
        *final(stack) == *old(stack),
        old(stack)@.len() == 0 ==> r is None,
        old(stack)@.len() > 0 ==> r == Some(old(stack)@.last()@.len() == 0),
{
    match stack.lifo() {
        Some(entry) => Some(entry.is_empty()),
        None => None,
    }
}

/// Removes the inner vector on top of `stack` and returns it; `None` where
/// `stack` has no top. Calls `Stack::lifo` of the crate `stack_trait` and
/// `LIFOEntry::pop_pointee` on the entry it returns. The contract claims that
/// this removes the last item of the `Vec`, as `Vec::pop` does, and nothing
/// else.
#[verifier::external_body]
fn pop_top<T>(stack: &mut Vec<Vec<T>>) -> (r: Option<Vec<T>>)
    ensures
        old(stack)@.len() == 0 ==> r is None && final(stack)@ == old(stack)@,
        old(stack)@.len() > 0 ==> r == Some(old(stack)@.last()) && final(stack)@ == old(
            stack,
        )@.drop_last(),
{
    match stack.lifo() {
        Some(entry) => Some(entry.pop_pointee()),
        None => None,
    }
}

/// Pops the last element of the inner vector on top of `stack`; `None` where
/// `stack` has no top or that inner vector is empty. Calls `Stack::lifo` of the
/// crate `stack_trait` and, through the `DerefMut` of the entry it returns,
/// `Vec::pop`. The contract claims that the entry stands for the last inner
/// vector, so that the pop takes that vector's last element, and that the
/// inner vectors before it are left as they were.
#[verifier::external_body]
fn pop_from_top<T>(stack: &mut Vec<Vec<T>>) -> (r: Option<T>)
    ensures
        r is Some <==> old(stack)@.len() > 0 && old(stack)@.last()@.len() > 0,
        r is None ==> nested_view(*final(stack)) == nested_view(*old(stack)),
        r is Some ==> r == Some(old(stack)@.last()@.last()) && nested_view(*final(stack))
            == nested_view(*old(stack)).drop_last().push(old(stack)@.last()@.drop_last()),
{
    match stack.lifo() {
        Some(mut entry) => entry.pop(),
        None => None,
    }
}

impl<'a, T> PoppingIter<'a, T> {
    /// The borrow of the `Vec<Vec<T>>` that the traversal pops from. Its current
    /// value is the structure as it stands; its final value is the structure
    /// that the owner finds when the borrow ends.
    pub closed spec fn borrowed(&self) -> &'a mut Vec<Vec<T>> {
        self.0
    }

    /// Once nothing can write through the traversal any more, the structure is
    /// what the traversal left.
    pub proof fn lemma_released(self)
        requires
            has_resolved(self),
        ensures
            *final(self.borrowed()) == *self.borrowed(),
    {
    }

    /// A traversal that pops from `container`.
    pub(crate) fn new(container: &'a mut Vec<Vec<T>>) -> (it: Self)
        ensures
            *it.borrowed() == *old(container),
            *final(it.borrowed()) == *final(container),
    {
        PoppingIter(container)
    }

    /// Returns a shared reference from the inner reference to the `Vec<Vec<T>>`.
    pub fn container(&self) -> (c: &Vec<Vec<T>>)
        ensures
            *c == *self.borrowed(),
    {
        self.0
    }

    /// Returns a mutable reference from the inner reference to the `Vec<Vec<T>>`.
    pub fn container_mut(&mut self) -> (c: &mut Vec<Vec<T>>)
        ensures
            *c == *old(self).borrowed(),
            *final(self).borrowed() == *final(c),
            *final(final(self).borrowed()) == *final(old(self).borrowed()),
    {
        self.0
    }

    /// Pops the last element of the structure and returns it, after removing
    /// the empty inner vectors behind it. Returns `None`, and leaves the outer
    /// vector empty, once no element is left.
    pub fn next(&mut self) -> (popped: Option<T>)
        ensures
            *final(final(self).borrowed()) == *final(old(self).borrowed()),
            popped == last_element(old(self)@),
            final(self)@ == after_pop(old(self)@),
    {
        loop
            invariant
                *final(self.0) == *final(old(self).0),
                trim(self@) == trim(old(self)@),
            decreases self.0.len(),
        {
            match top_is_empty(self.0) {
                None => {
                    return None;
                },
                Some(true) => {
                    let ghost before = self@;
                    pop_top(self.0);
                    assert(self@ =~= before.drop_last());
                },
                Some(false) => {
                    return pop_from_top(self.0);
                },
            }
        }
    }
}

} // verus!
