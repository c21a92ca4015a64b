//! Edge counting and finite-injection facts used by graph validation.

use vstd::prelude::*;

use crate::identifiers::TaskId;
use super::types::TaskDependency;

verus! {

/// Number of dependencies into `id` whose prerequisite is not in `released`.
pub open spec fn pending_edges(deps: Seq<TaskDependency>, id: TaskId, released: Set<TaskId>) -> nat
    decreases deps.len(),
{
    if deps.len() == 0 {
        0
    } else {
        pending_edges(deps.drop_last(), id, released) + edge_pending(deps.last(), id, released)
    }
}

/// One dependency counts toward `id` while its prerequisite is unreleased.
pub open spec fn edge_pending(d: TaskDependency, id: TaskId, released: Set<TaskId>) -> nat {
    if d.dependent == id && !released.contains(d.prerequisite) {
        1
    } else {
        0
    }
}

/// Number of dependencies whose dependent is `id`.
pub open spec fn in_degree(deps: Seq<TaskDependency>, id: TaskId) -> nat {
    pending_edges(deps, id, Set::empty())
}

/// Counting distributes over concatenation.
pub proof fn lemma_pending_edges_concat(
    a: Seq<TaskDependency>,
    b: Seq<TaskDependency>,
    id: TaskId,
    released: Set<TaskId>,
)
    ensures
        pending_edges(a + b, id, released) == pending_edges(a, id, released) + pending_edges(
            b,
            id,
            released,
        ),
    decreases b.len(),
{
    if b.len() == 0 {
        assert(a + b =~= a);
    } else {
        lemma_pending_edges_concat(a, b.drop_last(), id, released);
        assert((a + b).drop_last() =~= a + b.drop_last());
        assert((a + b).last() == b.last());
    }
}

/// Counting a prefix one element longer adds that element's contribution.
pub proof fn lemma_pending_edges_take_succ(
    deps: Seq<TaskDependency>,
    k: int,
    id: TaskId,
    released: Set<TaskId>,
)
    requires
        0 <= k < deps.len(),
    ensures
        pending_edges(deps.take(k + 1), id, released) == pending_edges(deps.take(k), id, released)
            + edge_pending(deps[k], id, released),
{
    assert(deps.take(k + 1).drop_last() =~= deps.take(k));
    assert(deps.take(k + 1).last() == deps[k]);
}

/// Counting a suffix splits off its first element.
pub proof fn lemma_pending_edges_skip(
    deps: Seq<TaskDependency>,
    k: int,
    id: TaskId,
    released: Set<TaskId>,
)
    requires
        0 <= k < deps.len(),
    ensures
        pending_edges(deps.skip(k), id, released) == edge_pending(deps[k], id, released)
            + pending_edges(deps.skip(k + 1), id, released),
{
    let one = seq![deps[k]];
    assert(deps.skip(k) =~= one + deps.skip(k + 1));
    lemma_pending_edges_concat(one, deps.skip(k + 1), id, released);
    assert(one.drop_last() =~= Seq::<TaskDependency>::empty());
    assert(pending_edges(one.drop_last(), id, released) == 0);
    assert(one.last() == deps[k]);
    assert(pending_edges(one, id, released) == edge_pending(deps[k], id, released));
}

/// A prefix never holds more pending edges than the whole sequence.
pub proof fn lemma_pending_edges_prefix(
    deps: Seq<TaskDependency>,
    k: int,
    id: TaskId,
    released: Set<TaskId>,
)
    requires
        0 <= k <= deps.len(),
    ensures
        pending_edges(deps.take(k), id, released) <= pending_edges(deps, id, released),
    decreases deps.len() - k,
{
    if k < deps.len() {
        lemma_pending_edges_take_succ(deps, k, id, released);
        lemma_pending_edges_prefix(deps, k + 1, id, released);
    } else {
        assert(deps.take(k) =~= deps);
    }
}

/// With no pending edge, every dependency into `id` has a released prerequisite.
pub proof fn lemma_pending_edges_zero(
    deps: Seq<TaskDependency>,
    id: TaskId,
    released: Set<TaskId>,
    m: int,
)
    requires
        pending_edges(deps, id, released) == 0,
        0 <= m < deps.len(),
        deps[m].dependent == id,
    ensures
        released.contains(deps[m].prerequisite),
    decreases deps.len(),
{
    if m < deps.len() - 1 {
        lemma_pending_edges_zero(deps.drop_last(), id, released, m);
    }
}

/// A pending edge into `id` exists whenever the count is positive.
pub proof fn lemma_pending_edges_positive(
    deps: Seq<TaskDependency>,
    id: TaskId,
    released: Set<TaskId>,
) -> (m: int)
    requires
        pending_edges(deps, id, released) > 0,
    ensures
        0 <= m < deps.len(),
        deps[m].dependent == id,
        !released.contains(deps[m].prerequisite),
    decreases deps.len(),
{
    if edge_pending(deps.last(), id, released) == 1 {
        (deps.len() - 1) as int
    } else {
        lemma_pending_edges_positive(deps.drop_last(), id, released)
    }
}

/// Counting depends only on released membership of the counted prerequisites.
pub proof fn lemma_pending_edges_same_release(
    deps: Seq<TaskDependency>,
    id: TaskId,
    a: Set<TaskId>,
    b: Set<TaskId>,
)
    requires
        forall|m: int|
            0 <= m < deps.len() && deps[m].dependent == id ==> (a.contains(
                #[trigger] deps[m].prerequisite,
            ) <==> b.contains(deps[m].prerequisite)),
    ensures
        pending_edges(deps, id, a) == pending_edges(deps, id, b),
    decreases deps.len(),
{
    if deps.len() > 0 {
        let rest = deps.drop_last();
        assert forall|m: int|
            0 <= m < rest.len() && rest[m].dependent == id implies (a.contains(
                #[trigger] rest[m].prerequisite,
            ) <==> b.contains(rest[m].prerequisite)) by {
            assert(rest[m] == deps[m]);
        }
        lemma_pending_edges_same_release(rest, id, a, b);
        assert(deps.last() == deps[deps.len() - 1]);
    }
}

/// Distinct integers drawn from `0..n` number at most `n`.
pub proof fn lemma_distinct_bounded(s: Seq<int>, n: int)
    requires
        0 <= n,
        forall|i: int| 0 <= i < s.len() ==> 0 <= #[trigger] s[i] < n,
        forall|i: int, j: int| 0 <= i < j < s.len() ==> s[i] != s[j],
    ensures
        s.len() <= n,
    decreases s.len(),
{
    if s.len() > 0 {
        let v = s.last();
        let rest = s.drop_last();
        let shifted = rest.map_values(|w: int| if w < v { w } else { w - 1 });
        assert forall|i: int| 0 <= i < shifted.len() implies 0 <= #[trigger] shifted[i] < n - 1 by {
            assert(rest[i] == s[i]);
            assert(s[i] != v);
        }
        assert forall|i: int, j: int| 0 <= i < j < shifted.len() implies shifted[i] != shifted[j] by {
            assert(rest[i] == s[i]);
            assert(rest[j] == s[j]);
            assert(s[i] != v);
            assert(s[j] != v);
        }
        assert(0 <= s[0] < n);
        lemma_distinct_bounded(shifted, n - 1);
        assert(shifted.len() == s.len() - 1);
    }
}

/// Value `v` occurs in `s`.
pub open spec fn occurs(s: Seq<int>, v: int) -> bool {
    exists|i: int| 0 <= i < s.len() && s[i] == v
}

/// Fewer than `n` distinct values from `0..n` leave some value unused.
pub proof fn lemma_missing_value(s: Seq<int>, n: int) -> (v: int)
    requires
        forall|i: int| 0 <= i < s.len() ==> 0 <= #[trigger] s[i] < n,
        forall|i: int, j: int| 0 <= i < j < s.len() ==> s[i] != s[j],
        s.len() < n,
    ensures
        0 <= v < n,
        forall|i: int| 0 <= i < s.len() ==> s[i] != v,
{
    if forall|v: int| 0 <= v < n ==> #[trigger] occurs(s, v) {
        let position = |v: int| choose|i: int| 0 <= i < s.len() && s[i] == v;
        let image = Seq::new(n as nat, |v: int| position(v));
        assert forall|i: int| 0 <= i < image.len() implies 0 <= #[trigger] image[i] < s.len() by {
            assert(occurs(s, i));
        }
        assert forall|i: int, j: int| 0 <= i < j < image.len() implies image[i] != image[j] by {
            assert(occurs(s, i));
            assert(occurs(s, j));
        }
        lemma_distinct_bounded(image, s.len() as int);
        assert(false);
        0
    } else {
        let v = choose|v: int| 0 <= v < n && !occurs(s, v);
        v
    }
}

/// `n` distinct values from `0..n` cover every value in `0..n`.
pub proof fn lemma_covering(s: Seq<int>, n: int, v: int) -> (i: int)
    requires
        forall|i: int| 0 <= i < s.len() ==> 0 <= #[trigger] s[i] < n,
        forall|i: int, j: int| 0 <= i < j < s.len() ==> s[i] != s[j],
        s.len() == n,
        0 <= v < n,
    ensures
        0 <= i < s.len(),
        s[i] == v,
{
    if exists|i: int| 0 <= i < s.len() && s[i] == v {
        choose|i: int| 0 <= i < s.len() && s[i] == v
    } else {
        let extended = s.push(v);
        assert forall|i: int| 0 <= i < extended.len() implies 0 <= #[trigger] extended[i] < n by {
            if i < s.len() {
                assert(extended[i] == s[i]);
            }
        }
        assert forall|i: int, j: int| 0 <= i < j < extended.len() implies extended[i]
            != extended[j] by {
            assert(extended[i] == s[i]);
            if j < s.len() {
                assert(extended[j] == s[j]);
            }
        }
        lemma_distinct_bounded(extended, n);
        assert(false);
        0
    }
}

} // verus!
