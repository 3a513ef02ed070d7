pub mod assertion;
pub mod laws;
pub mod matcher;
pub mod state;

pub use assertion::{
    Assertion, AssertionBuilder, AssertionCriterion, AssertionFailure, AssertionRegistry,
    Constrained, NoCriteria, NoMatcher,
};
pub use matcher::{SpanMatcher, SpanRecord};
pub use state::{EntryState, State, Transition};
