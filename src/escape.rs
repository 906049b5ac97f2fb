//! When an orbit of the recurrence `z(n+1) = z(n)^2 + c` escapes.
//!
//! The orbit itself is computed in floating point by the caller, which hands
//! over, term by term, whether the term's squared magnitude exceeds the escape
//! bound. This module decides the escape time from those flags.
use vstd::prelude::*;

verus! {

/// How many terms of an orbit are inspected at most.
pub const MAX_ITERATIONS: usize = 100;

/// Term `index` is the first term within the budget that lies outside the
/// escape radius.
pub open spec fn escapes_first_at(escaped: Seq<bool>, index: int) -> bool {
    &&& 0 <= index < escaped.len()
    &&& index < MAX_ITERATIONS
    &&& escaped[index]
    &&& forall|j: int| 0 <= j < index ==> !escaped[j]
}

/// No term within the budget lies outside the escape radius.
pub open spec fn stays_bounded(escaped: Seq<bool>) -> bool {
    forall|j: int| 0 <= j < escaped.len() && j < MAX_ITERATIONS ==> !escaped[j]
}

/// The first escaping term at or after `from`, within the budget.
pub open spec fn first_escape_from(escaped: Seq<bool>, from: nat) -> Option<nat>
    decreases MAX_ITERATIONS - from,
{
    if from >= escaped.len() || from >= MAX_ITERATIONS {
        None
    } else if escaped[from as int] {
        Some(from)
    } else {
        first_escape_from(escaped, from + 1)
    }
}

/// The escape time of an orbit: the index of its first escaping term, or
/// `None` when no term within the budget escapes.
pub open spec fn escape_time_of(escaped: Seq<bool>) -> Option<nat> {
    first_escape_from(escaped, 0)
}

proof fn lemma_first_escape_from(escaped: Seq<bool>, from: nat)
    requires
        forall|j: int| 0 <= j < from ==> !escaped[j],
    ensures
        first_escape_from(escaped, from) matches Some(i) ==> escapes_first_at(escaped, i as int),
        first_escape_from(escaped, from) is None ==> stays_bounded(escaped),
    decreases MAX_ITERATIONS - from,
{
    if from < escaped.len() && from < MAX_ITERATIONS && !escaped[from as int] {
        lemma_first_escape_from(escaped, from + 1);
    }
}

/// An orbit has at most one first escaping term.
pub proof fn lemma_first_escape_unique(escaped: Seq<bool>, i: int, j: int)
    requires
        escapes_first_at(escaped, i),
        escapes_first_at(escaped, j),
    ensures
        i == j,
{
    if i < j {
        assert(!escaped[i]);
    } else if j < i {
        assert(!escaped[j]);
    }
}

/// The escape time is the index of the first escaping term when there is
/// one, and `None` exactly when the orbit stays bounded: it is determined by
/// the orbit alone.
pub proof fn lemma_escape_time_exact(escaped: Seq<bool>)
    ensures
        escape_time_of(escaped) is None <==> stays_bounded(escaped),
        forall|i: nat| #[trigger]
            escapes_first_at(escaped, i as int) <==> escape_time_of(escaped) == Some(i),
{
    lemma_first_escape_from(escaped, 0);
    assert forall|i: nat| #[trigger]
        escapes_first_at(escaped, i as int) <==> escape_time_of(escaped) == Some(i) by {
        if escapes_first_at(escaped, i as int) {
            if let Some(k) = escape_time_of(escaped) {
                lemma_first_escape_unique(escaped, i as int, k as int);
            } else {
                assert(!escaped[i as int]);
            }
        }
    }
}

/// An orbit whose first term lies outside the escape radius escapes at once.
pub proof fn lemma_immediate_escape(escaped: Seq<bool>)
    requires
        escaped.len() > 0,
        escaped[0],
    ensures
        escape_time_of(escaped) == Some(0nat),
{
}

/// Once a term escapes, the terms after it do not change the escape time:
/// an evaluator may stop at the first escaping term.
pub proof fn lemma_stop_at_first_escape(escaped: Seq<bool>, i: int)
    requires
        escapes_first_at(escaped, i),
    ensures
        escape_time_of(escaped.take(i + 1)) == escape_time_of(escaped),
{
    lemma_escape_time_exact(escaped);
    lemma_escape_time_exact(escaped.take(i + 1));
    assert(escapes_first_at(escaped.take(i + 1), i));
    assert(escapes_first_at(escaped, i as nat as int));
}

/// The escape time of the orbit whose flags are `escaped`: the index of the
/// first flag set among the first `MAX_ITERATIONS`, or `None` when none is.
pub fn mandelbrot_escape_time(escaped: &[bool]) -> (r: Option<usize>)
    ensures
        r matches Some(i) ==> escapes_first_at(escaped@, i as int),
        r is None <==> stays_bounded(escaped@),
        r matches Some(i) ==> escape_time_of(escaped@) == Some(i as nat),
        r is None ==> escape_time_of(escaped@) is None,
{
    proof {
        lemma_escape_time_exact(escaped@);
    }
    let mut i: usize = 0;
    while i < escaped.len() && i < MAX_ITERATIONS
        invariant
            i <= escaped@.len(),
            i <= MAX_ITERATIONS,
            forall|j: int| 0 <= j < i ==> !escaped@[j],
        decreases escaped@.len() - i,
    {
        if escaped[i] {
            proof {
                lemma_escape_time_exact(escaped@);
                assert(escapes_first_at(escaped@, i as nat as int));
            }
            return Some(i);
        }
        i = i + 1;
    }
    None
}

} // verus!
