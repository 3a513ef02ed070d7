use tracing_fluent_assertions::{EntryState, SpanMatcher, SpanRecord, State, Transition};

fn span(name: &str, ancestors: &[&str]) -> SpanRecord {
    SpanRecord {
        name: name.to_string(),
        target: "app".to_string(),
        fields: Vec::new(),
        ancestors: ancestors.iter().map(|a| a.to_string()).collect(),
    }
}

fn named(name: &str) -> SpanMatcher {
    let mut m = SpanMatcher::default();
    m.set_name(name.to_string());
    m
}

#[test]
fn entry_counters_start_at_zero_and_count_once() {
    let mut e = EntryState::new();
    assert_eq!(e.num_created(), 0);
    e.track_created();
    e.track_created();
    e.track_entered();
    e.track_exited();
    e.track_closed();
    assert_eq!(e.num_created(), 2);
    assert_eq!(e.num_entered(), 1);
    assert_eq!(e.num_exited(), 1);
    assert_eq!(e.num_closed(), 1);
    e.track(Transition::Closed);
    assert_eq!(e.count(Transition::Closed), 2);
}

#[test]
fn equal_matchers_share_one_slot() {
    let mut st = State::new();
    let mut a = named("n");
    a.add_field_exists("x".to_string());
    a.add_field_exists("y".to_string());
    let mut b = named("n");
    b.add_field_exists("y".to_string());
    b.add_field_exists("x".to_string());
    let ra = st.create_entry(a);
    let rb = st.create_entry(b);
    assert_eq!(ra, rb);
    let mut s = span("n", &[]);
    s.fields = vec!["x".to_string(), "y".to_string()];
    st.dispatch(&s, Transition::Created);
    assert_eq!(st.tally_at(ra).num_created(), 1);
    assert_eq!(st.tally_at(rb).num_created(), 1);
}

#[test]
fn different_matchers_do_not_cross_count() {
    let mut st = State::new();
    let ra = st.create_entry(named("a"));
    let rb = st.create_entry(named("b"));
    assert_ne!(ra, rb);
    st.dispatch(&span("a", &[]), Transition::Entered);
    st.dispatch(&span("a", &[]), Transition::Entered);
    assert_eq!(st.tally_at(ra).num_entered(), 2);
    assert_eq!(st.tally_at(rb), EntryState::new());
}

#[test]
fn one_event_counts_in_every_matching_entry() {
    let mut st = State::new();
    let by_name = st.create_entry(named("c"));
    let mut under_a = SpanMatcher::default();
    under_a.set_parent_name("a".to_string());
    let by_parent = st.create_entry(under_a);
    st.dispatch(&span("c", &["b", "a"]), Transition::Created);
    assert_eq!(st.tally_at(by_name).num_created(), 1);
    assert_eq!(st.tally_at(by_parent).num_created(), 1);
}

#[test]
fn counts_never_decrease() {
    let mut st = State::new();
    let m = named("m");
    let r = st.create_entry(m.duplicate());
    let mut last = 0;
    for i in 0..5 {
        st.dispatch(&span("m", &[]), Transition::Exited);
        if i == 2 {
            st.create_entry(named("other"));
        }
        let now = st.tally_at(r).num_exited();
        assert!(now >= last);
        last = now;
    }
    st.remove_entry(&m);
    assert_eq!(st.tally_at(r).num_exited(), 5);
}

#[test]
fn removal_then_rebuild_starts_at_zero() {
    let mut st = State::new();
    let r1 = st.create_entry(named("m"));
    st.dispatch(&span("m", &[]), Transition::Created);
    assert_eq!(st.tally_at(r1).num_created(), 1);
    st.remove_entry(&named("m"));
    assert_eq!(st.lookup(&named("m")), None);
    st.dispatch(&span("m", &[]), Transition::Created);
    assert_eq!(st.tally_at(r1).num_created(), 1);
    let r2 = st.create_entry(named("m"));
    assert_ne!(r1, r2);
    assert_eq!(st.tally_at(r2).num_created(), 0);
    assert_eq!(st.lookup(&named("m")), Some(r2));
}

#[test]
fn removing_an_absent_matcher_is_a_no_op() {
    let mut st = State::new();
    let r = st.create_entry(named("kept"));
    st.remove_entry(&named("absent"));
    assert_eq!(st.lookup(&named("kept")), Some(r));
}

#[test]
fn slot_out_of_range_reads_zero() {
    let st = State::new();
    assert_eq!(st.tally_at(7), EntryState::new());
}
