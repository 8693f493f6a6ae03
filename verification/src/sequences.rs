//! Facts about sequences that the proofs over token sequences lean on.

use vstd::prelude::*;

verus! {

/// Concatenation is associative. The result names `middle + last`, so that a
/// proof can carry it on as the part gathered so far.
pub proof fn lemma_gather<T>(first: Seq<T>, middle: Seq<T>, last: Seq<T>) -> (gathered: Seq<T>)
    ensures
        gathered == middle + last,
        first + middle + last == first + gathered,
{
    assert(first + middle + last =~= first + (middle + last));
    middle + last
}

/// Concatenation is associative.
pub proof fn lemma_add_assoc<T>(first: Seq<T>, middle: Seq<T>, last: Seq<T>)
    ensures
        first + middle + last == first + (middle + last),
{
    assert(first + middle + last =~= first + (middle + last));
}

/// The empty sequence adds nothing.
pub proof fn lemma_add_empty<T>(s: Seq<T>)
    ensures
        s + Seq::<T>::empty() == s,
        Seq::<T>::empty() + s == s,
{
    assert(s + Seq::<T>::empty() =~= s);
    assert(Seq::<T>::empty() + s =~= s);
}

/// The first `i + 1` elements are the first `i` and the one at `i`.
pub proof fn lemma_take_next<T>(s: Seq<T>, i: int)
    requires
        0 <= i < s.len(),
    ensures
        s.take(i + 1).drop_last() == s.take(i),
        s.take(i + 1).last() == s[i],
        s.take(i + 1).len() == i + 1,
        s.take(i + 1) == s.take(i).push(s[i]),
{
    assert(s.take(i + 1).drop_last() =~= s.take(i));
    assert(s.take(i + 1) =~= s.take(i).push(s[i]));
}

/// Taking everything changes nothing, and taking nothing leaves nothing.
pub proof fn lemma_take_ends<T>(s: Seq<T>)
    ensures
        s.take(s.len() as int) == s,
        s.take(0) == Seq::<T>::empty(),
{
    assert(s.take(s.len() as int) =~= s);
    assert(s.take(0) =~= Seq::<T>::empty());
}

/// A pushed element is the last one, and dropping it gives the sequence back.
pub proof fn lemma_push_last<T>(s: Seq<T>, x: T)
    ensures
        s.push(x).drop_last() == s,
        s.push(x).last() == x,
        s.push(x) == s + seq![x],
{
    assert(s.push(x).drop_last() =~= s);
    assert(s.push(x) =~= s + seq![x]);
}

} // verus!
