use tracing_fluent_assertions::{SpanMatcher, SpanRecord};

fn span(name: &str, target: &str, fields: &[&str], ancestors: &[&str]) -> SpanRecord {
    SpanRecord {
        name: name.to_string(),
        target: target.to_string(),
        fields: fields.iter().map(|f| f.to_string()).collect(),
        ancestors: ancestors.iter().map(|a| a.to_string()).collect(),
    }
}

#[test]
fn empty_matcher_accepts_every_span() {
    let m = SpanMatcher::default();
    assert!(m.matches(&span("a", "t", &[], &[])));
    assert!(m.matches(&span("b", "u", &["x"], &["root"])));
}

#[test]
fn name_and_target_must_both_hold() {
    let mut m = SpanMatcher::default();
    m.set_name("checkout".to_string());
    m.set_target("shop::cart".to_string());
    assert!(m.matches(&span("checkout", "shop::cart", &[], &[])));
    assert!(!m.matches(&span("checkout", "shop::other", &[], &[])));
    assert!(!m.matches(&span("refund", "shop::cart", &[], &[])));
}

#[test]
fn later_name_replaces_earlier() {
    let mut m = SpanMatcher::default();
    m.set_name("first".to_string());
    m.set_name("second".to_string());
    assert!(m.matches(&span("second", "t", &[], &[])));
    assert!(!m.matches(&span("first", "t", &[], &[])));
}

#[test]
fn ancestor_chain_matches_descendants_only() {
    let mut m = SpanMatcher::default();
    m.set_parent_name("A".to_string());
    let a = span("A", "t", &[], &["root"]);
    let b = span("B", "t", &[], &["A", "root"]);
    let c = span("C", "t", &[], &["B", "A", "root"]);
    assert!(!m.matches(&a));
    assert!(m.matches(&b));
    assert!(m.matches(&c));
}

#[test]
fn required_fields_are_checked_by_presence() {
    let mut m = SpanMatcher::default();
    m.add_field_exists("user".to_string());
    m.add_field_exists("order".to_string());
    assert!(m.matches(&span("s", "t", &["order", "user", "extra"], &[])));
    assert!(!m.matches(&span("s", "t", &["user"], &[])));
}

#[test]
fn same_criteria_ignores_field_order() {
    let mut a = SpanMatcher::default();
    a.set_name("n".to_string());
    a.add_field_exists("x".to_string());
    a.add_field_exists("y".to_string());
    let mut b = SpanMatcher::default();
    b.set_name("n".to_string());
    b.add_field_exists("y".to_string());
    b.add_field_exists("x".to_string());
    assert!(a.same_criteria_as(&b));
    assert!(b.same_criteria_as(&a));
    let mut c = b.duplicate();
    assert!(c.same_criteria_as(&a));
    c.set_target("other".to_string());
    assert!(!c.same_criteria_as(&a));
}
