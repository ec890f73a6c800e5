//! What popping the last element off a nested sequence returns and leaves.

use vstd::prelude::*;

verus! {

/// `s` without the empty inner sequences at its end.
pub open spec fn trim<T>(s: Seq<Seq<T>>) -> Seq<Seq<T>>
    decreases s.len(),
{
    if s.len() > 0 && s.last().len() == 0 {
        trim(s.drop_last())
    } else {
        s
    }
}

/// The last element of `s`: the last one of its last inner sequence that is
/// not empty. `None` where `s` holds no element.
pub open spec fn last_element<T>(s: Seq<Seq<T>>) -> Option<T> {
    let t = trim(s);
    if t.len() == 0 {
        None
    } else {
        Some(t.last().last())
    }
}

/// What is left of `s` once its last element is popped: the empty inner
/// sequences behind that element are gone, and so is the element. The inner
/// sequence that held it stays, even if empty now. Where `s` holds no element,
/// nothing is left at all.
pub open spec fn after_pop<T>(s: Seq<Seq<T>>) -> Seq<Seq<T>> {
    let t = trim(s);
    if t.len() == 0 {
        t
    } else {
        t.drop_last().push(t.last().drop_last())
    }
}

/// What `trim` leaves is empty or ends in an inner sequence that is not empty.
pub proof fn lemma_trim_ends_nonempty<T>(s: Seq<Seq<T>>)
    ensures
        trim(s).len() <= s.len(),
        trim(s).len() > 0 ==> trim(s).last().len() > 0,
        trim(s) == s.take(trim(s).len() as int),
        forall|o: int| trim(s).len() <= o < s.len() ==> (#[trigger] s[o]).len() == 0,
    decreases s.len(),
{
    if s.len() > 0 && s.last().len() == 0 {
        lemma_trim_ends_nonempty(s.drop_last());
        assert(s.drop_last().take(trim(s).len() as int) =~= s.take(trim(s).len() as int));
        assert forall|o: int| trim(s).len() <= o < s.len() implies (#[trigger] s[o]).len()
            == 0 by {
            if o < s.len() - 1 {
                assert(s.drop_last()[o] == s[o]);
            }
        }
    } else {
        assert(s.take(s.len() as int) =~= s);
    }
}

/// What popping yields, pop after pop, until a pop finds no element, and what
/// that last pop leaves of the structure: step by step `last_element`, as
/// `PoppingIter::next` returns it, and then on from `after_pop`.
pub open spec fn drained<T>(s: Seq<Seq<T>>) -> (Seq<T>, Seq<Seq<T>>)
    decreases s.flatten().len(),
    via drained_decreases::<T>
{
    match last_element(s) {
        None => (Seq::empty(), after_pop(s)),
        Some(x) => {
            let rest = drained(after_pop(s));
            (seq![x] + rest.0, rest.1)
        },
    }
}

#[via_fn]
proof fn drained_decreases<T>(s: Seq<Seq<T>>) {
    lemma_pop_in_flattening(s);
}

/// The empty inner sequences at the end add nothing to the flattening.
pub proof fn lemma_trim_keeps_flattening<T>(s: Seq<Seq<T>>)
    ensures
        trim(s).flatten() == s.flatten(),
    decreases s.len(),
{
    if s.len() > 0 && s.last().len() == 0 {
        lemma_trim_keeps_flattening(s.drop_last());
        s.drop_last().lemma_flatten_push(s.last());
        assert(s.drop_last().push(s.last()) =~= s);
        assert(s.drop_last().flatten() + s.last() =~= s.drop_last().flatten());
    }
}

/// A pop takes the last element of the flattening and leaves the rest of it.
/// It finds no element exactly where the flattening is empty, and then leaves
/// no inner sequence.
pub proof fn lemma_pop_in_flattening<T>(s: Seq<Seq<T>>)
    ensures
        last_element(s) is None <==> s.flatten().len() == 0,
        last_element(s) is None ==> after_pop(s).len() == 0,
        last_element(s) matches Some(x) ==> x == s.flatten().last() && after_pop(s).flatten()
            == s.flatten().drop_last(),
{
    let t = trim(s);
    lemma_trim_ends_nonempty(s);
    lemma_trim_keeps_flattening(s);
    if t.len() == 0 {
        assert(t.flatten() =~= Seq::<T>::empty());
    } else {
        let front = t.drop_last();
        front.lemma_flatten_push(t.last());
        assert(front.push(t.last()) =~= t);
        front.lemma_flatten_push(t.last().drop_last());
        assert(front.flatten() + t.last().drop_last() =~= (front.flatten()
            + t.last()).drop_last());
    }
}

/// Popping until a pop finds no element yields the flattening from its end to
/// its start: inner sequences from the last to the first, each from its last
/// element to its first. The outer sequence is then empty.
pub proof fn lemma_draining_reverses_flattening<T>(s: Seq<Seq<T>>)
    ensures
        drained(s) == (s.flatten().reverse(), Seq::<Seq<T>>::empty()),
    decreases s.flatten().len(),
{
    let flat = s.flatten();
    lemma_pop_in_flattening(s);
    match last_element(s) {
        None => {
            assert(flat.reverse() =~= Seq::<T>::empty());
            assert(after_pop(s) =~= Seq::<Seq<T>>::empty());
        },
        Some(x) => {
            lemma_draining_reverses_flattening(after_pop(s));
            assert(seq![x] + flat.drop_last().reverse() =~= flat.reverse());
        },
    }
}

/// Whether no inner sequence of `s` is empty.
pub open spec fn no_empty_inner<T>(s: Seq<Seq<T>>) -> bool {
    forall|o: int| 0 <= o < s.len() ==> (#[trigger] s[o]).len() > 0
}

/// Whether no inner sequence of `s` is empty, but for the last, which may be.
pub open spec fn no_empty_inner_before_last<T>(s: Seq<Seq<T>>) -> bool {
    forall|o: int| 0 <= o < s.len() - 1 ==> (#[trigger] s[o]).len() > 0
}

/// A pop that yields an element leaves no empty inner sequence, provided that
/// no inner sequence before the one popped from was empty and that the one
/// popped from held a second element.
pub proof fn lemma_pop_leaves_no_empty_inner<T>(s: Seq<Seq<T>>)
    requires
        last_element(s) is Some,
        no_empty_inner_before_last(trim(s)),
        trim(s).last().len() >= 2,
    ensures
        no_empty_inner(after_pop(s)),
{
    let t = trim(s);
    let left = after_pop(s);
    assert forall|o: int| 0 <= o < left.len() implies (#[trigger] left[o]).len() > 0 by {
        if o < t.len() - 1 {
            assert(left[o] == t[o]);
        }
    }
}

/// On every other structure, a pop that yields an element leaves an empty
/// inner sequence: one that was there before the one popped from, or the one
/// popped from, emptied by the pop.
pub proof fn lemma_pop_leaves_empty_inner<T>(s: Seq<Seq<T>>)
    requires
        last_element(s) is Some,
        !(no_empty_inner_before_last(trim(s)) && trim(s).last().len() >= 2),
    ensures
        !no_empty_inner(after_pop(s)),
{
    let t = trim(s);
    let left = after_pop(s);
    lemma_trim_ends_nonempty(s);
    if no_empty_inner(left) {
        assert(left[t.len() - 1].len() > 0);
        assert forall|o: int| 0 <= o < t.len() - 1 implies (#[trigger] t[o]).len() > 0 by {
            assert(left[o] == t[o]);
            assert(left[o].len() > 0);
        }
    }
}

/// Once no inner sequence before the last is empty, popping keeps it so: the
/// only inner sequence that a pop can leave empty is the one it popped from,
/// which is then the last.
pub proof fn lemma_pop_keeps_inners_before_last<T>(s: Seq<Seq<T>>)
    requires
        no_empty_inner_before_last(s),
    ensures
        no_empty_inner_before_last(after_pop(s)),
{
    let t = trim(s);
    let left = after_pop(s);
    lemma_trim_ends_nonempty(s);
    if t.len() > 0 {
        assert forall|o: int| 0 <= o < left.len() - 1 implies (#[trigger] left[o]).len() > 0 by {
            assert(left[o] == t[o]);
            assert(t[o] == s[o]);
        }
    }
}

} // verus!
