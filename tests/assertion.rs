use tracing_fluent_assertions::{
    AssertionCriterion, AssertionFailure, AssertionRegistry, EntryState, SpanRecord,
};

fn span(name: &str) -> SpanRecord {
    SpanRecord {
        name: name.to_string(),
        target: "shop".to_string(),
        fields: Vec::new(),
        ancestors: Vec::new(),
    }
}

fn counts(created: usize, entered: usize) -> EntryState {
    let mut e = EntryState::new();
    for _ in 0..created {
        e.track_created();
    }
    for _ in 0..entered {
        e.track_entered();
    }
    e
}

#[test]
fn exactly_and_at_least_thresholds() {
    let three = counts(3, 0);
    assert!(AssertionCriterion::CreatedExactly(3).try_assert(&three));
    assert!(!AssertionCriterion::CreatedExactly(2).try_assert(&three));
    assert!(!AssertionCriterion::CreatedExactly(4).try_assert(&three));
    for n in 0..=3 {
        assert!(AssertionCriterion::CreatedAtLeast(n).try_assert(&three));
    }
    assert!(!AssertionCriterion::CreatedAtLeast(4).try_assert(&three));
}

#[test]
fn was_and_was_not_criteria() {
    let none = counts(0, 0);
    let one = counts(0, 1);
    assert!(AssertionCriterion::WasNotEntered.try_assert(&none));
    assert!(!AssertionCriterion::WasNotEntered.try_assert(&one));
    assert!(!AssertionCriterion::WasEntered.try_assert(&none));
    assert!(AssertionCriterion::WasEntered.try_assert(&one));
    assert!(AssertionCriterion::WasNotClosed.try_assert(&one));
}

#[test]
fn failed_criterion_reports_expected_and_actual() {
    let two = counts(2, 0);
    assert_eq!(AssertionCriterion::CreatedExactly(2).assert_on(&two), Ok(()));
    assert_eq!(
        AssertionCriterion::CreatedExactly(5).assert_on(&two),
        Err(AssertionFailure { criterion: AssertionCriterion::CreatedExactly(5), actual: 2 })
    );
    assert_eq!(
        AssertionCriterion::WasExited.assert_on(&two),
        Err(AssertionFailure { criterion: AssertionCriterion::WasExited, actual: 0 })
    );
}

#[test]
fn checkout_end_to_end() {
    let mut registry = AssertionRegistry::default();
    let counted = registry
        .build()
        .with_name("checkout")
        .was_created_exactly(2)
        .was_closed_exactly(1)
        .finalize(&mut registry);
    let entered = registry.build().with_name("checkout").was_entered().finalize(&mut registry);
    let checkout = span("checkout");
    registry.on_new_span(&checkout);
    registry.on_new_span(&checkout);
    registry.on_close(&checkout);
    registry.on_new_span(&span("other"));
    assert!(counted.try_assert(&registry));
    assert_eq!(counted.assert_criteria(&registry), Ok(()));
    assert!(!entered.try_assert(&registry));
    assert_eq!(
        entered.assert_criteria(&registry),
        Err(AssertionFailure { criterion: AssertionCriterion::WasEntered, actual: 0 })
    );
}

#[test]
fn first_failing_criterion_is_reported() {
    let mut registry = AssertionRegistry::new();
    let a = registry
        .build()
        .with_name("job")
        .was_created()
        .was_entered_at_least(2)
        .was_exited_exactly(7)
        .finalize(&mut registry);
    registry.on_new_span(&span("job"));
    registry.on_enter(&span("job"));
    assert_eq!(
        a.assert_criteria(&registry),
        Err(AssertionFailure { criterion: AssertionCriterion::EnteredAtLeast(2), actual: 1 })
    );
    registry.on_enter(&span("job"));
    assert_eq!(
        a.assert_criteria(&registry),
        Err(AssertionFailure { criterion: AssertionCriterion::ExitedExactly(7), actual: 0 })
    );
}

#[test]
fn not_entered_fails_after_an_entry() {
    let mut registry = AssertionRegistry::new();
    let a = registry.build().with_name("s").was_not_entered().finalize(&mut registry);
    assert!(a.try_assert(&registry));
    registry.on_enter(&span("s"));
    assert!(!a.try_assert(&registry));
    registry.on_exit(&span("s"));
    assert!(!a.try_assert(&registry));
}

#[test]
fn equal_matchers_observe_the_same_counts() {
    let mut registry = AssertionRegistry::new();
    let first = registry
        .build()
        .with_name("n")
        .with_span_field("x")
        .with_span_field("y")
        .was_created()
        .finalize(&mut registry);
    let second = registry
        .build()
        .with_name("n")
        .with_span_field("y")
        .with_span_field("x")
        .was_created_exactly(1)
        .finalize(&mut registry);
    let mut s = span("n");
    s.fields = vec!["y".to_string(), "x".to_string()];
    registry.on_new_span(&s);
    assert_eq!(first.counts(&registry).num_created(), 1);
    assert_eq!(second.counts(&registry).num_created(), 1);
    assert!(first.try_assert(&registry) && second.try_assert(&registry));
}

#[test]
fn different_matchers_stay_independent() {
    let mut registry = AssertionRegistry::new();
    let a = registry.build().with_name("a").was_created().finalize(&mut registry);
    let b = registry.build().with_name("b").was_not_created().finalize(&mut registry);
    registry.on_new_span(&span("a"));
    assert_eq!(a.counts(&registry).num_created(), 1);
    assert_eq!(b.counts(&registry).num_created(), 0);
    assert!(b.try_assert(&registry));
}

#[test]
fn matcher_can_be_refined_after_criteria() {
    let mut registry = AssertionRegistry::new();
    let a = registry
        .build()
        .with_target("shop")
        .was_created()
        .with_name("pay")
        .with_parent_name("request")
        .finalize(&mut registry);
    registry.on_new_span(&span("pay"));
    assert!(!a.try_assert(&registry));
    let mut nested = span("pay");
    nested.ancestors = vec!["handler".to_string(), "request".to_string()];
    registry.on_new_span(&nested);
    assert!(a.try_assert(&registry));
}

#[test]
fn disposed_assertion_is_rebuilt_from_zero() {
    let mut registry = AssertionRegistry::new();
    let x = registry.build().with_name("m").was_created().finalize(&mut registry);
    registry.on_new_span(&span("m"));
    registry.on_new_span(&span("m"));
    assert_eq!(x.counts(&registry).num_created(), 2);
    x.dispose(&mut registry);
    let y = registry.build().with_name("m").was_not_created().finalize(&mut registry);
    assert_eq!(y.counts(&registry).num_created(), 0);
    assert!(y.try_assert(&registry));
    registry.on_new_span(&span("m"));
    assert_eq!(y.counts(&registry).num_created(), 1);
}

#[test]
fn every_criterion_kind_reads_its_own_counter() {
    let mut registry = AssertionRegistry::new();
    let s = span("life");
    let all = registry
        .build()
        .with_name("life")
        .was_created()
        .was_entered()
        .was_exited()
        .was_closed()
        .was_created_exactly(1)
        .was_entered_exactly(2)
        .was_exited_exactly(2)
        .was_closed_exactly(1)
        .was_created_at_least(1)
        .was_entered_at_least(2)
        .was_exited_at_least(1)
        .was_closed_at_least(0)
        .finalize(&mut registry);
    let none = registry
        .build()
        .with_target("elsewhere")
        .was_not_created()
        .was_not_entered()
        .was_not_exited()
        .was_not_closed()
        .finalize(&mut registry);
    registry.on_new_span(&s);
    registry.on_enter(&s);
    registry.on_exit(&s);
    registry.on_enter(&s);
    registry.on_exit(&s);
    assert!(!all.try_assert(&registry));
    assert_eq!(
        all.assert_criteria(&registry),
        Err(AssertionFailure { criterion: AssertionCriterion::WasClosed, actual: 0 })
    );
    registry.on_close(&s);
    assert!(all.try_assert(&registry));
    assert!(none.try_assert(&registry));
    let c = all.counts(&registry);
    assert_eq!(
        (c.num_created(), c.num_entered(), c.num_exited(), c.num_closed()),
        (1, 2, 2, 1)
    );
}

#[test]
fn builder_stages_keep_matcher_setters() {
    let mut registry = AssertionRegistry::new();
    let a = registry
        .build()
        .with_target("shop")
        .with_name("old")
        .with_span_field("id")
        .was_entered()
        .with_name("new")
        .with_span_field("user")
        .was_not_closed()
        .finalize(&mut registry);
    let mut s = span("new");
    s.fields = vec!["user".to_string(), "id".to_string()];
    registry.on_enter(&span("new"));
    assert!(!a.try_assert(&registry));
    registry.on_enter(&s);
    assert!(a.try_assert(&registry));
}

#[test]
fn disposing_a_shared_matcher_twice_is_harmless() {
    let mut registry = AssertionRegistry::new();
    let first = registry.build().with_name("m").was_created().finalize(&mut registry);
    let second = registry.build().with_name("m").was_created_exactly(1).finalize(&mut registry);
    registry.on_new_span(&span("m"));
    first.dispose(&mut registry);
    assert!(second.try_assert(&registry));
    registry.on_new_span(&span("m"));
    assert_eq!(second.counts(&registry).num_created(), 1);
    second.dispose(&mut registry);
    let fresh = registry.build().with_name("m").was_not_created().finalize(&mut registry);
    assert!(fresh.try_assert(&registry));
}

#[test]
fn at_least_thresholds_through_handles() {
    let mut registry = AssertionRegistry::new();
    let handles: Vec<_> = (0..=4)
        .map(|n| registry.build().with_name("s").was_created_at_least(n).finalize(&mut registry))
        .collect();
    for _ in 0..3 {
        registry.on_new_span(&span("s"));
    }
    let results: Vec<bool> = handles.iter().map(|h| h.try_assert(&registry)).collect();
    assert_eq!(results, vec![true, true, true, true, false]);
}

#[test]
fn criteria_len_counts_criteria() {
    let registry = AssertionRegistry::new();
    let b = registry.build().with_name("s");
    assert_eq!(b.criteria_len(), 0);
    let b = b.was_created().was_closed_exactly(1);
    assert_eq!(b.criteria_len(), 2);
}
