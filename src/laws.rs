use vstd::prelude::*;

use crate::assertion::AssertionCriterion;
use crate::matcher::{
    accepts, covers, lemma_covers_trans, lemma_same_criteria_equiv, same_criteria, MatcherModel,
    SpanModel,
};
use crate::state::{State, Tally, Transition};

verus! {

/// Registering two matchers that ask the same of every span, one after the
/// other, gives both the same counter slot, and the second registration
/// changes nothing: the two handles observe the same counts.
pub proof fn law_equal_matchers_share_counters(
    s0: State,
    a: MatcherModel,
    ra: nat,
    s1: State,
    b: MatcherModel,
    rb: nat,
    s2: State,
)
    requires
        s0.wf(),
        same_criteria(a, b),
        State::registered(s0, a, ra, s1),
        State::registered(s1, b, rb, s2),
    ensures
        ra == rb,
        s2.live() == s1.live(),
        s2.tallies() == s1.tallies(),
{
    let i = if s0.has_entry(a) {
        s0.entry_index(a)
    } else {
        lemma_same_criteria_equiv(a, a, a);
        s0.live().len() as int
    };
    assert(s1.live()[i].1 == ra && same_criteria(s1.live()[i].0, a));
    lemma_same_criteria_equiv(s1.live()[i].0, a, b);
    s1.lemma_unique(b, i);
}

/// Two matchers that ask the same of every span accept the same spans.
pub proof fn law_equal_matchers_accept_same_spans(a: MatcherModel, b: MatcherModel, s: SpanModel)
    requires
        same_criteria(a, b),
    ensures
        accepts(a, s) == accepts(b, s),
{
    if covers(s.fields, a.fields) {
        lemma_covers_trans(b.fields, a.fields, s.fields);
    }
    if covers(s.fields, b.fields) {
        lemma_covers_trans(a.fields, b.fields, s.fields);
    }
}

/// An event that a live matcher does not accept leaves that matcher's
/// counts as they were.
pub proof fn law_dispatch_spares_other_matchers(
    pre: State,
    s: SpanModel,
    t: Transition,
    post: State,
    i: int,
)
    requires
        pre.wf(),
        State::dispatched(pre, s, t, post),
        0 <= i < pre.live().len(),
        !accepts(pre.live()[i].0, s),
    ensures
        post.tallies()[pre.live()[i].1 as int] == pre.tallies()[pre.live()[i].1 as int],
{
    let j = pre.live()[i].1 as int;
    assert(!pre.claims(j, s)) by {
        assert forall|k: int| 0 <= k < pre.live().len() && #[trigger] pre.live()[k].1 == j implies !accepts(
            pre.live()[k].0,
            s,
        ) by {
            if k != i {
                assert(pre.live()[k].1 != pre.live()[i].1);
            }
        }
    }
}

/// One registration, event or removal on the registry.
pub open spec fn registry_step(pre: State, post: State) -> bool {
    ||| exists|m: MatcherModel, r: nat| #[trigger] State::registered(pre, m, r, post)
    ||| exists|s: SpanModel, t: Transition| #[trigger] State::dispatched(pre, s, t, post)
    ||| exists|m: MatcherModel| #[trigger] State::removed(pre, m, post)
}

/// No registration, event or removal lowers a count, and no slot goes away.
pub proof fn law_counts_never_decrease(pre: State, post: State)
    requires
        pre.wf(),
        registry_step(pre, post),
    ensures
        post.wf(),
        post.tallies().len() >= pre.tallies().len(),
        forall|j: int|
            0 <= j < pre.tallies().len() ==> #[trigger] post.tallies()[j].no_less_than(
                pre.tallies()[j],
            ),
{
    if exists|s: SpanModel, t: Transition| #[trigger] State::dispatched(pre, s, t, post) {
        let (s, t) = choose|s: SpanModel, t: Transition| #[trigger] State::dispatched(pre, s, t, post);
        assert forall|j: int| 0 <= j < pre.tallies().len() implies #[trigger] post.tallies()[j].no_less_than(
            pre.tallies()[j],
        ) by {
            assert(post.tallies()[j] == if pre.claims(j, s) {
                pre.tallies()[j].bump(t)
            } else {
                pre.tallies()[j]
            });
        }
    } else if exists|m: MatcherModel, r: nat| #[trigger] State::registered(pre, m, r, post) {
        let (m, r) = choose|m: MatcherModel, r: nat| #[trigger] State::registered(pre, m, r, post);
        assert forall|j: int| 0 <= j < pre.tallies().len() implies #[trigger] post.tallies()[j].no_less_than(
            pre.tallies()[j],
        ) by {
            if !pre.has_entry(m) {
                assert(post.tallies()[j] == pre.tallies().push(Tally::zero())[j]);
            }
        }
    }
}

/// Over any run of registrations, events and removals that starts from a
/// well-formed registry, such as the lifetime of a handle, no count of any
/// slot ends below where it began.
pub proof fn law_counts_never_decrease_over_a_run(run: Seq<State>)
    requires
        run.len() > 0,
        run[0].wf(),
        forall|i: int| 0 <= i < run.len() - 1 ==> registry_step(#[trigger] run[i], run[i + 1]),
    ensures
        run.last().wf(),
        run.last().tallies().len() >= run[0].tallies().len(),
        forall|j: int|
            0 <= j < run[0].tallies().len() ==> #[trigger] run.last().tallies()[j].no_less_than(
                run[0].tallies()[j],
            ),
    decreases run.len(),
{
    if run.len() > 1 {
        let prefix = run.drop_last();
        assert forall|i: int| 0 <= i < prefix.len() - 1 implies registry_step(
            #[trigger] prefix[i],
            prefix[i + 1],
        ) by {
            assert(registry_step(run[i], run[i + 1]));
        }
        law_counts_never_decrease_over_a_run(prefix);
        let k = run.len() - 2;
        assert(registry_step(run[k], run[k + 1]));
        law_counts_never_decrease(prefix.last(), run.last());
        assert forall|j: int| 0 <= j < run[0].tallies().len() implies #[trigger] run.last().tallies()[j].no_less_than(
            run[0].tallies()[j],
        ) by {
            assert(prefix.last().tallies()[j].no_less_than(run[0].tallies()[j]));
            assert(run.last().tallies()[j].no_less_than(prefix.last().tallies()[j]));
        }
    }
}

/// Once a matcher is removed, registering a matcher that asks the same of
/// every span opens a fresh slot whose counts start at zero, whatever the
/// removed one had seen.
pub proof fn law_rebuild_after_removal_starts_at_zero(
    s0: State,
    m: MatcherModel,
    s1: State,
    m2: MatcherModel,
    r: nat,
    s2: State,
)
    requires
        s0.wf(),
        State::removed(s0, m, s1),
        same_criteria(m, m2),
        State::registered(s1, m2, r, s2),
    ensures
        r == s0.tallies().len(),
        s2.tallies()[r as int] == Tally::zero(),
{
    if s1.has_entry(m2) {
        let k = s1.entry_index(m2);
        lemma_same_criteria_equiv(s1.live()[k].0, m2, m);
        lemma_same_criteria_equiv(m, m2, m2);
        if s0.has_entry(m) {
            let idx = s0.entry_index(m);
            let k0 = if k < idx {
                k
            } else {
                k + 1
            };
            assert(s0.live()[k0] == s1.live()[k]);
            s0.lemma_unique(m, k0);
        } else {
            assert(s0.live()[k] == s1.live()[k]);
        }
    }
}

/// Along a chain of spans root, `a`, `b`, `c`, each the parent of the next,
/// a matcher that asks only for an ancestor named `a` accepts `b` and `c`
/// and not `a` itself.
pub proof fn law_ancestor_chain(
    m: MatcherModel,
    root: Seq<char>,
    a: Seq<char>,
    b: Seq<char>,
    span_a: SpanModel,
    span_b: SpanModel,
    span_c: SpanModel,
)
    requires
        root != a,
        m.name is None,
        m.target is None,
        m.parent_name == Some(a),
        m.fields.len() == 0,
        span_a.ancestors == seq![root],
        span_b.ancestors == seq![a, root],
        span_c.ancestors == seq![b, a, root],
    ensures
        accepts(m, span_b),
        accepts(m, span_c),
        !accepts(m, span_a),
{
    assert(span_b.ancestors[0] == a);
    assert(span_c.ancestors[1] == a);
    assert(span_a.ancestors.len() == 1 && span_a.ancestors[0] == root);
}

/// An exact-count criterion holds exactly when the count equals its number,
/// and an at-least criterion exactly when the count reaches it.
pub proof fn law_thresholds(t: Tally, n: usize)
    ensures
        AssertionCriterion::CreatedExactly(n).holds(t) <==> t.created == n,
        AssertionCriterion::EnteredExactly(n).holds(t) <==> t.entered == n,
        AssertionCriterion::ExitedExactly(n).holds(t) <==> t.exited == n,
        AssertionCriterion::ClosedExactly(n).holds(t) <==> t.closed == n,
        AssertionCriterion::CreatedAtLeast(n).holds(t) <==> t.created >= n,
        AssertionCriterion::EnteredAtLeast(n).holds(t) <==> t.entered >= n,
        AssertionCriterion::ExitedAtLeast(n).holds(t) <==> t.exited >= n,
        AssertionCriterion::ClosedAtLeast(n).holds(t) <==> t.closed >= n,
{
}

/// "Not entered" holds exactly when the entered count is zero, and once an
/// entered event reaches a live matcher, it no longer holds of that
/// matcher's counts.
pub proof fn law_not_entered_fails_after_entry(
    pre: State,
    s: SpanModel,
    post: State,
    i: int,
)
    requires
        pre.wf(),
        State::dispatched(pre, s, Transition::Entered, post),
        0 <= i < pre.live().len(),
        accepts(pre.live()[i].0, s),
    ensures
        forall|t: Tally| #[trigger] AssertionCriterion::WasNotEntered.holds(t) <==> t.entered == 0,
        !AssertionCriterion::WasNotEntered.holds(post.tallies()[pre.live()[i].1 as int]),
{
    let j = pre.live()[i].1 as int;
    assert(pre.claims(j, s));
    assert(post.tallies()[j] == pre.tallies()[j].bump(Transition::Entered));
}

} // verus!
