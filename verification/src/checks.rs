//! Validating a list item by item: the first item with a problem, given the
//! items before it, decides the error.

use vstd::prelude::*;

verus! {

/// The first problem of `s`: items are checked in order, each against the
/// items before it.
pub open spec fn first_problem<T>(s: Seq<T>, problem: spec_fn(Seq<T>, T) -> Option<Seq<char>>) -> Option<Seq<char>>
    decreases s.len(),
{
    if s.len() == 0 {
        None
    } else {
        match first_problem(s.drop_last(), problem) {
            Some(e) => Some(e),
            None => problem(s.drop_last(), s.last()),
        }
    }
}

/// Checking one more item.
pub proof fn lemma_first_problem_step<T>(s: Seq<T>, problem: spec_fn(Seq<T>, T) -> Option<Seq<char>>, i: int)
    requires
        0 <= i < s.len(),
    ensures
        first_problem(s.take(i + 1), problem) == match first_problem(s.take(i), problem) {
            Some(e) => Some(e),
            None => problem(s.take(i), s[i]),
        },
{
    assert(s.take(i + 1).drop_last() =~= s.take(i));
}

/// A problem found in a prefix is the problem of the whole list.
pub proof fn lemma_first_problem_prefix<T>(s: Seq<T>, problem: spec_fn(Seq<T>, T) -> Option<Seq<char>>, k: int)
    requires
        0 <= k <= s.len(),
        first_problem(s.take(k), problem).is_some(),
    ensures
        first_problem(s, problem) == first_problem(s.take(k), problem),
    decreases s.len(),
{
    if k == s.len() {
        assert(s.take(k) =~= s);
    } else {
        assert(s.drop_last().take(k) =~= s.take(k));
        lemma_first_problem_prefix(s.drop_last(), problem, k);
    }
}

/// A list whose every prefix is free of problems has none.
pub proof fn lemma_first_problem_whole<T>(s: Seq<T>, problem: spec_fn(Seq<T>, T) -> Option<Seq<char>>)
    ensures
        first_problem(s.take(s.len() as int), problem) == first_problem(s, problem),
{
    assert(s.take(s.len() as int) =~= s);
}

} // verus!
