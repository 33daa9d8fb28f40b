//! Guaranteed cleanup for a scope.
//!
//! A [`Scope`] owns a value together with a cleanup action. At its natural end,
//! [`Scope::finish`], it runs that action once on the value it holds; disarmed, it runs nothing.
//! Further steps can be stacked in front of the cleanup; they run in the reverse of the order
//! they were added.
//!
//! The [`scoped_run`] module holds the decisions of an asynchronous scoped run: the primary
//! computation settles first, the cleanup runs next, and only then is the primary's outcome
//! handed back or its unwind resumed.

mod scope;
pub mod scoped_run;

pub use scope::Scope;
