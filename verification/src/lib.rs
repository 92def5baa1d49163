//! A runtime engine for mock objects.
//!
//! A test registers, per mocked method, how calls are to be answered; the
//! mock's methods forward every call to [`ExpectationRegistry::call`], which
//! finds the first eligible expectation, runs its behavior and counts the
//! call, or reports why no expectation could serve it.
//!
//! The bookkeeping is verified: which group a call is looked up in, which
//! expectation is selected, how counters and lifecycle states move, and when
//! each failure is reported. The callables themselves are caller code and
//! stay opaque; see the `callable` and `signature` modules for what is taken
//! on trust.

pub mod callable;
pub mod double;
pub mod error;
pub mod expectation;
pub mod group;
pub mod registry;
pub mod signature;
pub mod theorems;

pub use error::MockError;
pub use expectation::{Expectation, ExpectationBuilder, ExpectationState};
pub use group::ExpectationGroup;
pub use registry::ExpectationRegistry;
pub use signature::TypeTag;
