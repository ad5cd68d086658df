//! The first position of a sequence at which a predicate holds.

use vstd::prelude::*;

verus! {

/// The least index of `s` whose element satisfies `pred`, if there is one.
pub open spec fn first_index<A>(s: Seq<A>, pred: spec_fn(A) -> bool) -> Option<int>
    decreases s.len(),
{
    if s.len() == 0 {
        None
    } else if pred(s[0]) {
        Some(0)
    } else {
        match first_index(s.drop_first(), pred) {
            Some(i) => Some(i + 1),
            None => None,
        }
    }
}

/// What `first_index` returns is in range, satisfies the predicate, and
/// nothing before it does; where it returns nothing, no element does.
pub proof fn lemma_first_index<A>(s: Seq<A>, pred: spec_fn(A) -> bool)
    ensures
        match first_index(s, pred) {
            Some(i) => 0 <= i < s.len() && pred(s[i]) && forall|j: int|
                0 <= j < i ==> !pred(#[trigger] s[j]),
            None => forall|j: int| 0 <= j < s.len() ==> !pred(#[trigger] s[j]),
        },
    decreases s.len(),
{
    if s.len() > 0 && !pred(s[0]) {
        let rest = s.drop_first();
        lemma_first_index(rest, pred);
        match first_index(rest, pred) {
            Some(i) => {
                assert forall|j: int| 0 <= j < i + 1 implies !pred(#[trigger] s[j]) by {
                    if j > 0 {
                        assert(s[j] == rest[j - 1]);
                    }
                }
            },
            None => {
                assert forall|j: int| 0 <= j < s.len() implies !pred(#[trigger] s[j]) by {
                    if j > 0 {
                        assert(s[j] == rest[j - 1]);
                    }
                }
            },
        }
    }
}

/// An index that satisfies the predicate, with nothing before it that does,
/// is the one `first_index` returns.
pub proof fn lemma_first_index_is<A>(s: Seq<A>, pred: spec_fn(A) -> bool, i: int)
    requires
        0 <= i < s.len(),
        pred(s[i]),
        forall|j: int| 0 <= j < i ==> !pred(#[trigger] s[j]),
    ensures
        first_index(s, pred) == Some(i),
{
    lemma_first_index(s, pred);
}

/// Where no element satisfies the predicate, `first_index` returns nothing.
pub proof fn lemma_first_index_none<A>(s: Seq<A>, pred: spec_fn(A) -> bool)
    requires
        forall|j: int| 0 <= j < s.len() ==> !pred(#[trigger] s[j]),
    ensures
        first_index(s, pred).is_none(),
{
    lemma_first_index(s, pred);
}

/// Taking an element out of a sequence by moving the last element into its
/// place removes one occurrence of that element and nothing else.
pub proof fn lemma_swap_remove<A>(s: Seq<A>, i: int)
    requires
        0 <= i < s.len(),
    ensures
        s.update(i, s.last()).drop_last().len() == s.len() - 1,
        s.update(i, s.last()).drop_last().to_multiset() == s.to_multiset().remove(s[i]),
{
    broadcast use vstd::multiset::group_multiset_axioms;

    let last = s.len() - 1;
    let moved = s.update(i, s.last());
    assert(moved.drop_last() =~= moved.remove(last));
    vstd::seq_lib::to_multiset_update(s, i, s.last());
    vstd::seq_lib::to_multiset_remove(moved, last);
    vstd::seq_lib::to_multiset_contains(s, s.last());
    assert(s.contains(s.last())) by {
        assert(s[last] == s.last());
    }
    assert(moved.remove(last).to_multiset() =~= s.to_multiset().remove(s[i]));
}

} // verus!
