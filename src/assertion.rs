//! Assertions over span lifecycles: the criteria, the finalized handle, the
//! staged builder and the registry behind them.
use std::marker::PhantomData;

use vstd::prelude::*;

use crate::matcher::{empty_matcher, MatcherModel, SpanMatcher, SpanRecord};
use crate::state::{EntryState, State, Tally, Transition};

verus! {

/// One check over the counts of a matcher.
#[derive(Clone, Copy, PartialEq, Eq, Structural, Debug)]
pub enum AssertionCriterion {
    WasCreated,
    WasEntered,
    WasExited,
    WasClosed,
    WasNotCreated,
    WasNotEntered,
    WasNotExited,
    WasNotClosed,
    CreatedExactly(usize),
    EnteredExactly(usize),
    ExitedExactly(usize),
    ClosedExactly(usize),
    CreatedAtLeast(usize),
    EnteredAtLeast(usize),
    ExitedAtLeast(usize),
    ClosedAtLeast(usize),
}

/// A criterion that did not hold, with the count it read.
#[derive(Clone, Copy, PartialEq, Eq, Structural, Debug)]
pub struct AssertionFailure {
    pub criterion: AssertionCriterion,
    pub actual: usize,
}

impl AssertionCriterion {
    /// The transition whose count this criterion reads.
    pub open spec fn transition(self) -> Transition {
        match self {
            AssertionCriterion::WasCreated | AssertionCriterion::WasNotCreated
            | AssertionCriterion::CreatedExactly(_) | AssertionCriterion::CreatedAtLeast(
                _,
            ) => Transition::Created,
            AssertionCriterion::WasEntered | AssertionCriterion::WasNotEntered
            | AssertionCriterion::EnteredExactly(_) | AssertionCriterion::EnteredAtLeast(
                _,
            ) => Transition::Entered,
            AssertionCriterion::WasExited | AssertionCriterion::WasNotExited
            | AssertionCriterion::ExitedExactly(_) | AssertionCriterion::ExitedAtLeast(
                _,
            ) => Transition::Exited,
            AssertionCriterion::WasClosed | AssertionCriterion::WasNotClosed
            | AssertionCriterion::ClosedExactly(_) | AssertionCriterion::ClosedAtLeast(
                _,
            ) => Transition::Closed,
        }
    }

    /// Whether the criterion holds of the count `n` that it reads.
    pub open spec fn holds_of(self, n: nat) -> bool {
        match self {
            AssertionCriterion::WasCreated | AssertionCriterion::WasEntered
            | AssertionCriterion::WasExited | AssertionCriterion::WasClosed => n != 0,
            AssertionCriterion::WasNotCreated | AssertionCriterion::WasNotEntered
            | AssertionCriterion::WasNotExited | AssertionCriterion::WasNotClosed => n == 0,
            AssertionCriterion::CreatedExactly(k) | AssertionCriterion::EnteredExactly(k)
            | AssertionCriterion::ExitedExactly(k) | AssertionCriterion::ClosedExactly(k) => n == k,
            AssertionCriterion::CreatedAtLeast(k) | AssertionCriterion::EnteredAtLeast(k)
            | AssertionCriterion::ExitedAtLeast(k) | AssertionCriterion::ClosedAtLeast(k) => n >= k,
        }
    }

    /// Whether the criterion holds of the counts `t`.
    pub open spec fn holds(self, t: Tally) -> bool {
        self.holds_of(t.count(self.transition()))
    }

    fn transition_read(&self) -> (r: Transition)
        ensures
            r == self.transition(),
    {
        match self {
            AssertionCriterion::WasCreated | AssertionCriterion::WasNotCreated
            | AssertionCriterion::CreatedExactly(_) | AssertionCriterion::CreatedAtLeast(
                _,
            ) => Transition::Created,
            AssertionCriterion::WasEntered | AssertionCriterion::WasNotEntered
            | AssertionCriterion::EnteredExactly(_) | AssertionCriterion::EnteredAtLeast(
                _,
            ) => Transition::Entered,
            AssertionCriterion::WasExited | AssertionCriterion::WasNotExited
            | AssertionCriterion::ExitedExactly(_) | AssertionCriterion::ExitedAtLeast(
                _,
            ) => Transition::Exited,
            AssertionCriterion::WasClosed | AssertionCriterion::WasNotClosed
            | AssertionCriterion::ClosedExactly(_) | AssertionCriterion::ClosedAtLeast(
                _,
            ) => Transition::Closed,
        }
    }

    /// Whether the criterion holds of the counts in `state`.
    pub fn try_assert(&self, state: &EntryState) -> (r: bool)
        ensures
            r == self.holds(state@),
    {
        let n = state.count(self.transition_read());
        match *self {
            AssertionCriterion::WasCreated | AssertionCriterion::WasEntered
            | AssertionCriterion::WasExited | AssertionCriterion::WasClosed => n != 0,
            AssertionCriterion::WasNotCreated | AssertionCriterion::WasNotEntered
            | AssertionCriterion::WasNotExited | AssertionCriterion::WasNotClosed => n == 0,
            AssertionCriterion::CreatedExactly(k) | AssertionCriterion::EnteredExactly(k)
            | AssertionCriterion::ExitedExactly(k) | AssertionCriterion::ClosedExactly(k) => n == k,
            AssertionCriterion::CreatedAtLeast(k) | AssertionCriterion::EnteredAtLeast(k)
            | AssertionCriterion::ExitedAtLeast(k) | AssertionCriterion::ClosedAtLeast(k) => n >= k,
        }
    }

    /// Checks the criterion against the counts in `state`; when it does not
    /// hold, the failure names it and the count it read.
    pub fn assert_on(&self, state: &EntryState) -> (r: Result<(), AssertionFailure>)
        ensures
            r is Ok <==> self.holds(state@),
            r matches Err(f) ==> f.criterion == *self && f.actual == state@.count(self.transition()),
    {
        if self.try_assert(state) {
            Ok(())
        } else {
            Err(AssertionFailure { criterion: *self, actual: state.count(self.transition_read()) })
        }
    }
}

/// Every criterion of `cs` holds of the counts `t`.
pub open spec fn all_hold(cs: Seq<AssertionCriterion>, t: Tally) -> bool {
    forall|i: int| 0 <= i < cs.len() ==> #[trigger] cs[i].holds(t)
}

/// `f` reports the first criterion of `cs`, in order, that fails of `t`.
pub open spec fn first_failure(cs: Seq<AssertionCriterion>, t: Tally, f: AssertionFailure) -> bool {
    exists|i: int|
        0 <= i < cs.len() && #[trigger] cs[i] == f.criterion && !cs[i].holds(t) && f.actual
            == t.count(cs[i].transition()) && forall|j: int| 0 <= j < i ==> #[trigger] cs[j].holds(t)
}

/// A finalized assertion: a matcher, its criteria, and the slot of the
/// registry that keeps the matcher's counters. Disposing of it ends the
/// matcher's mapping in the registry.
pub struct Assertion {
    slot: usize,
    matcher: SpanMatcher,
    criteria: Vec<AssertionCriterion>,
}

impl Assertion {
    pub closed spec fn matcher(&self) -> MatcherModel {
        self.matcher@
    }

    /// The registry slot that holds this assertion's counters.
    pub closed spec fn slot(&self) -> nat {
        self.slot as nat
    }

    pub closed spec fn criteria(&self) -> Seq<AssertionCriterion> {
        self.criteria@
    }

    /// Checks the criteria in order against the counts in `counts`, and
    /// reports the first that fails.
    pub fn check_counts(&self, counts: &EntryState) -> (r: Result<(), AssertionFailure>)
        ensures
            r is Ok <==> all_hold(self.criteria(), counts@),
            r matches Err(f) ==> first_failure(self.criteria(), counts@, f),
    {
        let mut i: usize = 0;
        while i < self.criteria.len()
            invariant
                i <= self.criteria@.len(),
                forall|j: int| 0 <= j < i ==> #[trigger] self.criteria@[j].holds(counts@),
            decreases self.criteria@.len() - i,
        {
            let c = self.criteria[i];
            match c.assert_on(counts) {
                Ok(()) => {},
                Err(f) => {
                    assert(self.criteria()[i as int] == f.criterion);
                    assert(!self.criteria()[i as int].holds(counts@));
                    assert(forall|j: int| 0 <= j < i ==> #[trigger] self.criteria()[j].holds(counts@));
                    assert(first_failure(self.criteria(), counts@, f));
                    return Err(f);
                },
            }
            i += 1;
        }
        Ok(())
    }

    /// Whether every criterion holds of the counts in `counts`.
    pub fn check_passes(&self, counts: &EntryState) -> (r: bool)
        ensures
            r == all_hold(self.criteria(), counts@),
    {
        let mut i: usize = 0;
        while i < self.criteria.len()
            invariant
                i <= self.criteria@.len(),
                forall|j: int| 0 <= j < i ==> #[trigger] self.criteria@[j].holds(counts@),
            decreases self.criteria@.len() - i,
        {
            if !self.criteria[i].try_assert(counts) {
                return false;
            }
            i += 1;
        }
        true
    }

    /// A copy of the counts that `registry` holds for this assertion.
    pub fn counts(&self, registry: &AssertionRegistry) -> (r: EntryState)
        ensures
            r@ == registry.state().tally_of(self.slot()),
    {
        registry.state.tally_at(self.slot)
    }

    /// Checks every criterion, in order, against the counts that `registry`
    /// holds for this assertion, and reports the first that fails. A test
    /// ends on such a failure.
    pub fn assert_criteria(&self, registry: &AssertionRegistry) -> (r: Result<(), AssertionFailure>)
        ensures
            r is Ok <==> all_hold(self.criteria(), registry.state().tally_of(self.slot())),
            r matches Err(f) ==> first_failure(
                self.criteria(),
                registry.state().tally_of(self.slot()),
                f,
            ),
    {
        let counts = self.counts(registry);
        self.check_counts(&counts)
    }

    /// Whether every criterion holds of the counts that `registry` holds for
    /// this assertion. It changes nothing, so it can be polled.
    pub fn try_assert(&self, registry: &AssertionRegistry) -> (r: bool)
        ensures
            r == all_hold(self.criteria(), registry.state().tally_of(self.slot())),
    {
        let counts = self.counts(registry);
        self.check_passes(&counts)
    }

    /// Disposes of the assertion: the mapping of its matcher in `registry`
    /// ends. Counters already handed out keep working, and a later assertion
    /// built with an equal matcher starts from zero.
    pub fn dispose(self, registry: &mut AssertionRegistry)
        requires
            old(registry).wf(),
        ensures
            final(registry).wf(),
            State::removed(old(registry).state(), self.matcher(), final(registry).state()),
    {
        registry.state.remove_entry(&self.matcher);
    }
}

/// The stage of a builder that has no matcher yet.
pub struct NoMatcher {
    _p: PhantomData<()>,
}

/// The stage of a builder that has a matcher and no criteria yet.
pub struct NoCriteria {
    _p: PhantomData<()>,
}

/// The stage of a builder that has a matcher and at least one criterion;
/// only here can it be finalized.
pub struct Constrained {
    _p: PhantomData<()>,
}

/// Builds an [`Assertion`] in stages: a matcher first, then criteria, then
/// `finalize`.
pub struct AssertionBuilder<S> {
    matcher: SpanMatcher,
    criteria: Vec<AssertionCriterion>,
    _builder_state: PhantomData<S>,
}

impl<S> AssertionBuilder<S> {
    pub closed spec fn matcher(&self) -> MatcherModel {
        self.matcher@
    }

    pub closed spec fn criteria(&self) -> Seq<AssertionCriterion> {
        self.criteria@
    }

    /// The number of criteria asked for so far.
    pub fn criteria_len(&self) -> (r: usize)
        ensures
            r == self.criteria().len(),
    {
        self.criteria.len()
    }

    fn into_stage<T>(self) -> (r: AssertionBuilder<T>)
        ensures
            r.matcher() == self.matcher(),
            r.criteria() == self.criteria(),
    {
        AssertionBuilder {
            matcher: self.matcher,
            criteria: self.criteria,
            _builder_state: PhantomData,
        }
    }

    fn with_criterion<T>(self, c: AssertionCriterion) -> (r: AssertionBuilder<T>)
        ensures
            r.matcher() == self.matcher(),
            r.criteria() == self.criteria().push(c),
    {
        let mut b = self;
        b.criteria.push(c);
        b.into_stage()
    }
}

impl AssertionBuilder<NoMatcher> {
    /// Asks that the span has exactly this name; replaces any earlier name.
    pub fn with_name(self, name: &str) -> (r: AssertionBuilder<NoCriteria>)
        ensures
            r.matcher() == (MatcherModel { name: Some(name@), ..self.matcher() }),
            r.criteria() == self.criteria(),
    {
        let mut b = self;
        b.matcher.set_name(name.to_owned());
        b.into_stage()
    }

    /// Asks that the span has exactly this target, the module path it was
    /// declared in; replaces any earlier target.
    pub fn with_target(self, target: &str) -> (r: AssertionBuilder<NoCriteria>)
        ensures
            r.matcher() == (MatcherModel { target: Some(target@), ..self.matcher() }),
            r.criteria() == self.criteria(),
    {
        let mut b = self;
        b.matcher.set_target(target.to_owned());
        b.into_stage()
    }
}

impl AssertionBuilder<NoCriteria> {
    /// Asks that the span has exactly this name; replaces any earlier name.
    pub fn with_name(self, name: &str) -> (r: AssertionBuilder<NoCriteria>)
        ensures
            r.matcher() == (MatcherModel { name: Some(name@), ..self.matcher() }),
            r.criteria() == self.criteria(),
    {
        let mut b = self;
        b.matcher.set_name(name.to_owned());
        b.into_stage()
    }

    /// Asks that the span has exactly this target, the module path it was
    /// declared in; replaces any earlier target.
    pub fn with_target(self, target: &str) -> (r: AssertionBuilder<NoCriteria>)
        ensures
            r.matcher() == (MatcherModel { target: Some(target@), ..self.matcher() }),
            r.criteria() == self.criteria(),
    {
        let mut b = self;
        b.matcher.set_target(target.to_owned());
        b.into_stage()
    }

    /// Asks that some ancestor of the span, at any depth, has this name;
    /// replaces any earlier parent name.
    pub fn with_parent_name(self, name: &str) -> (r: AssertionBuilder<NoCriteria>)
        ensures
            r.matcher() == (MatcherModel { parent_name: Some(name@), ..self.matcher() }),
            r.criteria() == self.criteria(),
    {
        let mut b = self;
        b.matcher.set_parent_name(name.to_owned());
        b.into_stage()
    }

    /// Asks that the span carries a field of this name, besides any fields
    /// asked for before.
    pub fn with_span_field(self, field: &str) -> (r: AssertionBuilder<NoCriteria>)
        ensures
            r.matcher() == (MatcherModel { fields: self.matcher().fields.push(field@), ..self.matcher() }),
            r.criteria() == self.criteria(),
    {
        let mut b = self;
        b.matcher.add_field_exists(field.to_owned());
        b.into_stage()
    }

    /// Asks that a matching span was created at least once.
    pub fn was_created(self) -> (r: AssertionBuilder<Constrained>)
        ensures
            r.matcher() == self.matcher(),
            r.criteria() == self.criteria().push(AssertionCriterion::WasCreated),
    {
        self.with_criterion(AssertionCriterion::WasCreated)
    }

    /// Asks that a matching span was entered at least once.
    pub fn was_entered(self) -> (r: AssertionBuilder<Constrained>)
        ensures
            r.matcher() == self.matcher(),
            r.criteria() == self.criteria().push(AssertionCriterion::WasEntered),
    {
        self.with_criterion(AssertionCriterion::WasEntered)
    }

    /// Asks that a matching span was exited at least once.
    pub fn was_exited(self) -> (r: AssertionBuilder<Constrained>)
        ensures
            r.matcher() == self.matcher(),
            r.criteria() == self.criteria().push(AssertionCriterion::WasExited),
    {
        self.with_criterion(AssertionCriterion::WasExited)
    }

    /// Asks that a matching span was closed at least once.
    pub fn was_closed(self) -> (r: AssertionBuilder<Constrained>)
        ensures
            r.matcher() == self.matcher(),
            r.criteria() == self.criteria().push(AssertionCriterion::WasClosed),
    {
        self.with_criterion(AssertionCriterion::WasClosed)
    }

    /// Asks that no matching span was created.
    pub fn was_not_created(self) -> (r: AssertionBuilder<Constrained>)
        ensures
            r.matcher() == self.matcher(),
            r.criteria() == self.criteria().push(AssertionCriterion::WasNotCreated),
    {
        self.with_criterion(AssertionCriterion::WasNotCreated)
    }

    /// Asks that no matching span was entered.
    pub fn was_not_entered(self) -> (r: AssertionBuilder<Constrained>)
        ensures
            r.matcher() == self.matcher(),
            r.criteria() == self.criteria().push(AssertionCriterion::WasNotEntered),
    {
        self.with_criterion(AssertionCriterion::WasNotEntered)
    }

    /// Asks that no matching span was exited.
    pub fn was_not_exited(self) -> (r: AssertionBuilder<Constrained>)
        ensures
            r.matcher() == self.matcher(),
            r.criteria() == self.criteria().push(AssertionCriterion::WasNotExited),
    {
        self.with_criterion(AssertionCriterion::WasNotExited)
    }

    /// Asks that no matching span was closed.
    pub fn was_not_closed(self) -> (r: AssertionBuilder<Constrained>)
        ensures
            r.matcher() == self.matcher(),
            r.criteria() == self.criteria().push(AssertionCriterion::WasNotClosed),
    {
        self.with_criterion(AssertionCriterion::WasNotClosed)
    }

    /// Asks that matching spans were created exactly `n` times.
    pub fn was_created_exactly(self, n: usize) -> (r: AssertionBuilder<Constrained>)
        ensures
            r.matcher() == self.matcher(),
            r.criteria() == self.criteria().push(AssertionCriterion::CreatedExactly(n)),
    {
        self.with_criterion(AssertionCriterion::CreatedExactly(n))
    }

    /// Asks that matching spans were entered exactly `n` times.
    pub fn was_entered_exactly(self, n: usize) -> (r: AssertionBuilder<Constrained>)
        ensures
            r.matcher() == self.matcher(),
            r.criteria() == self.criteria().push(AssertionCriterion::EnteredExactly(n)),
    {
        self.with_criterion(AssertionCriterion::EnteredExactly(n))
    }

    /// Asks that matching spans were exited exactly `n` times.
    pub fn was_exited_exactly(self, n: usize) -> (r: AssertionBuilder<Constrained>)
        ensures
            r.matcher() == self.matcher(),
            r.criteria() == self.criteria().push(AssertionCriterion::ExitedExactly(n)),
    {
        self.with_criterion(AssertionCriterion::ExitedExactly(n))
    }

    /// Asks that matching spans were closed exactly `n` times.
    pub fn was_closed_exactly(self, n: usize) -> (r: AssertionBuilder<Constrained>)
        ensures
            r.matcher() == self.matcher(),
            r.criteria() == self.criteria().push(AssertionCriterion::ClosedExactly(n)),
    {
        self.with_criterion(AssertionCriterion::ClosedExactly(n))
    }

    /// Asks that matching spans were created at least `n` times.
    pub fn was_created_at_least(self, n: usize) -> (r: AssertionBuilder<Constrained>)
        ensures
            r.matcher() == self.matcher(),
            r.criteria() == self.criteria().push(AssertionCriterion::CreatedAtLeast(n)),
    {
        self.with_criterion(AssertionCriterion::CreatedAtLeast(n))
    }

    /// Asks that matching spans were entered at least `n` times.
    pub fn was_entered_at_least(self, n: usize) -> (r: AssertionBuilder<Constrained>)
        ensures
            r.matcher() == self.matcher(),
            r.criteria() == self.criteria().push(AssertionCriterion::EnteredAtLeast(n)),
    {
        self.with_criterion(AssertionCriterion::EnteredAtLeast(n))
    }

    /// Asks that matching spans were exited at least `n` times.
    pub fn was_exited_at_least(self, n: usize) -> (r: AssertionBuilder<Constrained>)
        ensures
            r.matcher() == self.matcher(),
            r.criteria() == self.criteria().push(AssertionCriterion::ExitedAtLeast(n)),
    {
        self.with_criterion(AssertionCriterion::ExitedAtLeast(n))
    }

    /// Asks that matching spans were closed at least `n` times.
    pub fn was_closed_at_least(self, n: usize) -> (r: AssertionBuilder<Constrained>)
        ensures
            r.matcher() == self.matcher(),
            r.criteria() == self.criteria().push(AssertionCriterion::ClosedAtLeast(n)),
    {
        self.with_criterion(AssertionCriterion::ClosedAtLeast(n))
    }
}

impl AssertionBuilder<Constrained> {
    /// Asks that the span has exactly this name; replaces any earlier name.
    pub fn with_name(self, name: &str) -> (r: AssertionBuilder<Constrained>)
        ensures
            r.matcher() == (MatcherModel { name: Some(name@), ..self.matcher() }),
            r.criteria() == self.criteria(),
    {
        let mut b = self;
        b.matcher.set_name(name.to_owned());
        b.into_stage()
    }

    /// Asks that the span has exactly this target, the module path it was
    /// declared in; replaces any earlier target.
    pub fn with_target(self, target: &str) -> (r: AssertionBuilder<Constrained>)
        ensures
            r.matcher() == (MatcherModel { target: Some(target@), ..self.matcher() }),
            r.criteria() == self.criteria(),
    {
        let mut b = self;
        b.matcher.set_target(target.to_owned());
        b.into_stage()
    }

    /// Asks that some ancestor of the span, at any depth, has this name;
    /// replaces any earlier parent name.
    pub fn with_parent_name(self, name: &str) -> (r: AssertionBuilder<Constrained>)
        ensures
            r.matcher() == (MatcherModel { parent_name: Some(name@), ..self.matcher() }),
            r.criteria() == self.criteria(),
    {
        let mut b = self;
        b.matcher.set_parent_name(name.to_owned());
        b.into_stage()
    }

    /// Asks that the span carries a field of this name, besides any fields
    /// asked for before.
    pub fn with_span_field(self, field: &str) -> (r: AssertionBuilder<Constrained>)
        ensures
            r.matcher() == (MatcherModel { fields: self.matcher().fields.push(field@), ..self.matcher() }),
            r.criteria() == self.criteria(),
    {
        let mut b = self;
        b.matcher.add_field_exists(field.to_owned());
        b.into_stage()
    }

    /// Asks that a matching span was created at least once.
    pub fn was_created(self) -> (r: AssertionBuilder<Constrained>)
        ensures
            r.matcher() == self.matcher(),
            r.criteria() == self.criteria().push(AssertionCriterion::WasCreated),
    {
        self.with_criterion(AssertionCriterion::WasCreated)
    }

    /// Asks that a matching span was entered at least once.
    pub fn was_entered(self) -> (r: AssertionBuilder<Constrained>)
        ensures
            r.matcher() == self.matcher(),
            r.criteria() == self.criteria().push(AssertionCriterion::WasEntered),
    {
        self.with_criterion(AssertionCriterion::WasEntered)
    }

    /// Asks that a matching span was exited at least once.
    pub fn was_exited(self) -> (r: AssertionBuilder<Constrained>)
        ensures
            r.matcher() == self.matcher(),
            r.criteria() == self.criteria().push(AssertionCriterion::WasExited),
    {
        self.with_criterion(AssertionCriterion::WasExited)
    }

    /// Asks that a matching span was closed at least once.
    pub fn was_closed(self) -> (r: AssertionBuilder<Constrained>)
        ensures
            r.matcher() == self.matcher(),
            r.criteria() == self.criteria().push(AssertionCriterion::WasClosed),
    {
        self.with_criterion(AssertionCriterion::WasClosed)
    }

    /// Asks that no matching span was created.
    pub fn was_not_created(self) -> (r: AssertionBuilder<Constrained>)
        ensures
            r.matcher() == self.matcher(),
            r.criteria() == self.criteria().push(AssertionCriterion::WasNotCreated),
    {
        self.with_criterion(AssertionCriterion::WasNotCreated)
    }

    /// Asks that no matching span was entered.
    pub fn was_not_entered(self) -> (r: AssertionBuilder<Constrained>)
        ensures
            r.matcher() == self.matcher(),
            r.criteria() == self.criteria().push(AssertionCriterion::WasNotEntered),
    {
        self.with_criterion(AssertionCriterion::WasNotEntered)
    }

    /// Asks that no matching span was exited.
    pub fn was_not_exited(self) -> (r: AssertionBuilder<Constrained>)
        ensures
            r.matcher() == self.matcher(),
            r.criteria() == self.criteria().push(AssertionCriterion::WasNotExited),
    {
        self.with_criterion(AssertionCriterion::WasNotExited)
    }

    /// Asks that no matching span was closed.
    pub fn was_not_closed(self) -> (r: AssertionBuilder<Constrained>)
        ensures
            r.matcher() == self.matcher(),
            r.criteria() == self.criteria().push(AssertionCriterion::WasNotClosed),
    {
        self.with_criterion(AssertionCriterion::WasNotClosed)
    }

    /// Asks that matching spans were created exactly `n` times.
    pub fn was_created_exactly(self, n: usize) -> (r: AssertionBuilder<Constrained>)
        ensures
            r.matcher() == self.matcher(),
            r.criteria() == self.criteria().push(AssertionCriterion::CreatedExactly(n)),
    {
        self.with_criterion(AssertionCriterion::CreatedExactly(n))
    }

    /// Asks that matching spans were entered exactly `n` times.
    pub fn was_entered_exactly(self, n: usize) -> (r: AssertionBuilder<Constrained>)
        ensures
            r.matcher() == self.matcher(),
            r.criteria() == self.criteria().push(AssertionCriterion::EnteredExactly(n)),
    {
        self.with_criterion(AssertionCriterion::EnteredExactly(n))
    }

    /// Asks that matching spans were exited exactly `n` times.
    pub fn was_exited_exactly(self, n: usize) -> (r: AssertionBuilder<Constrained>)
        ensures
            r.matcher() == self.matcher(),
            r.criteria() == self.criteria().push(AssertionCriterion::ExitedExactly(n)),
    {
        self.with_criterion(AssertionCriterion::ExitedExactly(n))
    }

    /// Asks that matching spans were closed exactly `n` times.
    pub fn was_closed_exactly(self, n: usize) -> (r: AssertionBuilder<Constrained>)
        ensures
            r.matcher() == self.matcher(),
            r.criteria() == self.criteria().push(AssertionCriterion::ClosedExactly(n)),
    {
        self.with_criterion(AssertionCriterion::ClosedExactly(n))
    }

    /// Asks that matching spans were created at least `n` times.
    pub fn was_created_at_least(self, n: usize) -> (r: AssertionBuilder<Constrained>)
        ensures
            r.matcher() == self.matcher(),
            r.criteria() == self.criteria().push(AssertionCriterion::CreatedAtLeast(n)),
    {
        self.with_criterion(AssertionCriterion::CreatedAtLeast(n))
    }

    /// Asks that matching spans were entered at least `n` times.
    pub fn was_entered_at_least(self, n: usize) -> (r: AssertionBuilder<Constrained>)
        ensures
            r.matcher() == self.matcher(),
            r.criteria() == self.criteria().push(AssertionCriterion::EnteredAtLeast(n)),
    {
        self.with_criterion(AssertionCriterion::EnteredAtLeast(n))
    }

    /// Asks that matching spans were exited at least `n` times.
    pub fn was_exited_at_least(self, n: usize) -> (r: AssertionBuilder<Constrained>)
        ensures
            r.matcher() == self.matcher(),
            r.criteria() == self.criteria().push(AssertionCriterion::ExitedAtLeast(n)),
    {
        self.with_criterion(AssertionCriterion::ExitedAtLeast(n))
    }

    /// Asks that matching spans were closed at least `n` times.
    pub fn was_closed_at_least(self, n: usize) -> (r: AssertionBuilder<Constrained>)
        ensures
            r.matcher() == self.matcher(),
            r.criteria() == self.criteria().push(AssertionCriterion::ClosedAtLeast(n)),
    {
        self.with_criterion(AssertionCriterion::ClosedAtLeast(n))
    }

    /// Registers the matcher with `registry` and gives the live assertion:
    /// it shares the counters of any live assertion whose matcher asks the
    /// same, and otherwise gets fresh counters at zero.
    pub fn finalize(self, registry: &mut AssertionRegistry) -> (r: Assertion)
        requires
            old(registry).wf(),
            self.criteria().len() > 0,
        ensures
            r.matcher() == self.matcher(),
            r.criteria() == self.criteria(),
            r.criteria().len() > 0,
            final(registry).wf(),
            State::registered(old(registry).state(), self.matcher(), r.slot(), final(registry).state()),
    {
        let slot = registry.state.create_entry(self.matcher.duplicate());
        Assertion { slot, matcher: self.matcher, criteria: self.criteria }
    }
}

/// The registry of matchers and their counters, with the hooks through
/// which span lifecycle events reach it. Every [`Assertion`] is built,
/// checked and disposed of against it.
pub struct AssertionRegistry {
    state: State,
}

impl AssertionRegistry {
    /// The matchers and counters held.
    pub closed spec fn state(&self) -> State {
        self.state
    }

    pub open spec fn wf(&self) -> bool {
        self.state().wf()
    }

    /// A registry with no matchers.
    pub fn new() -> (r: AssertionRegistry)
        ensures
            r.wf(),
            r.state().live().len() == 0,
            r.state().tallies().len() == 0,
    {
        AssertionRegistry { state: State::new() }
    }

    /// A builder for a new [`Assertion`], to be finalized on this registry.
    pub fn build(&self) -> (r: AssertionBuilder<NoMatcher>)
        ensures
            r.matcher() == empty_matcher(),
            r.criteria() == Seq::<AssertionCriterion>::empty(),
    {
        AssertionBuilder {
            matcher: SpanMatcher::default(),
            criteria: Vec::new(),
            _builder_state: PhantomData,
        }
    }

    /// Counts one event of kind `t` on `span` for every matcher that accepts
    /// it, once per matcher.
    pub fn record(&mut self, span: &SpanRecord, t: Transition)
        requires
            old(self).wf(),
        ensures
            final(self).wf(),
            State::dispatched(old(self).state(), span@, t, final(self).state()),
    {
        self.state.dispatch(span, t);
    }

    /// A span was created.
    pub fn on_new_span(&mut self, span: &SpanRecord)
        requires
            old(self).wf(),
        ensures
            final(self).wf(),
            State::dispatched(old(self).state(), span@, Transition::Created, final(self).state()),
    {
        self.record(span, Transition::Created);
    }

    /// A span was entered.
    pub fn on_enter(&mut self, span: &SpanRecord)
        requires
            old(self).wf(),
        ensures
            final(self).wf(),
            State::dispatched(old(self).state(), span@, Transition::Entered, final(self).state()),
    {
        self.record(span, Transition::Entered);
    }

    /// A span was exited.
    pub fn on_exit(&mut self, span: &SpanRecord)
        requires
            old(self).wf(),
        ensures
            final(self).wf(),
            State::dispatched(old(self).state(), span@, Transition::Exited, final(self).state()),
    {
        self.record(span, Transition::Exited);
    }

    /// A span was closed.
    pub fn on_close(&mut self, span: &SpanRecord)
        requires
            old(self).wf(),
        ensures
            final(self).wf(),
            State::dispatched(old(self).state(), span@, Transition::Closed, final(self).state()),
    {
        self.record(span, Transition::Closed);
    }
}

impl Default for AssertionRegistry {
    fn default() -> (r: AssertionRegistry)
        ensures
            r.wf(),
            r.state().live().len() == 0,
            r.state().tallies().len() == 0,
    {
        AssertionRegistry::new()
    }
}

} // verus!
