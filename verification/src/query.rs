//! Statements assembled from fragments, with positional parameters that are
//! numbered when the statement is rendered.

pub mod builder;
pub mod fragment;
pub mod group;
pub mod laws;
pub mod statement;
pub mod template;
pub mod value;

pub use builder::{Fragment, Joiner, Query};
pub use group::{Group, NoSteps, Step, Steps};
pub use statement::Statement;
pub use value::Value;
