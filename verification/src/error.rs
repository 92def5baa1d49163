//! The ways a dispatched call can fail.

use vstd::prelude::*;
use vstd::string::StringExecFns;

verus! {

/// Why a call could not be served.
///
/// Both kinds are meant to abort the test that made the call; nothing in this
/// library recovers from them.
#[derive(Debug, PartialEq, Eq)]
pub enum MockError {
    /// No expectation is eligible for the identifier: either none was ever
    /// registered under it, or every one is unconfigured, exhausted or guarded
    /// by a predicate that declined the arguments.
    NoMatchingExpectation { id: String },
    /// The identifier was registered with one `(Args, Return)` pair and used
    /// with another.
    TypeMismatch { id: String },
}

/// The model of a [`MockError`]: the failure kind with the identifier as a
/// sequence of characters.
pub enum MockErrorView {
    NoMatchingExpectation { id: Seq<char> },
    TypeMismatch { id: Seq<char> },
}

impl View for MockError {
    type V = MockErrorView;

    open spec fn view(&self) -> MockErrorView {
        match self {
            MockError::NoMatchingExpectation { id } => MockErrorView::NoMatchingExpectation {
                id: id@,
            },
            MockError::TypeMismatch { id } => MockErrorView::TypeMismatch { id: id@ },
        }
    }
}

impl MockErrorView {
    /// The identifier the failure is about.
    pub open spec fn id(self) -> Seq<char> {
        match self {
            MockErrorView::NoMatchingExpectation { id } => id,
            MockErrorView::TypeMismatch { id } => id,
        }
    }

    /// The text shown for the failure: a fixed sentence for the kind, followed
    /// by the identifier.
    pub open spec fn message(self) -> Seq<char> {
        match self {
            MockErrorView::NoMatchingExpectation { id } => {
                "No matching expectation found for "@ + id
            },
            MockErrorView::TypeMismatch { id } => "Mismatched argument or return types for "@ + id,
        }
    }
}

impl MockError {
    /// The identifier the failure is about.
    pub fn id(&self) -> (id: &str)
        ensures
            id@ == self@.id(),
    {
        match self {
            MockError::NoMatchingExpectation { id } => id.as_str(),
            MockError::TypeMismatch { id } => id.as_str(),
        }
    }

    /// The text to abort the test with. It always names the identifier.
    pub fn message(&self) -> (text: String)
        ensures
            text@ == self@.message(),
    {
        match self {
            MockError::NoMatchingExpectation { id } => {
                "No matching expectation found for ".to_owned().concat(id.as_str())
            },
            MockError::TypeMismatch { id } => {
                "Mismatched argument or return types for ".to_owned().concat(id.as_str())
            },
        }
    }
}

} // verus!
