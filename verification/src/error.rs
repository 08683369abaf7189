//! The error type shared by every module of the runtime.

use vstd::prelude::*;
use vstd::string::StringExecFns;

verus! {

/// Failure reported by the runtime and its collaborators.
#[derive(Debug, PartialEq, Eq)]
pub enum KituError {
    /// A declared capability that has no behaviour yet; carries the feature's name.
    NotImplemented(String),
    /// Data supplied by the caller broke a precondition; carries the reason.
    InvalidInput(&'static str),
}

/// Mathematical value of a [`KituError`]: its kind and the text it carries.
pub enum ErrorView {
    NotImplemented(Seq<char>),
    InvalidInput(Seq<char>),
}

impl View for KituError {
    type V = ErrorView;

    open spec fn view(&self) -> ErrorView {
        match self {
            KituError::NotImplemented(feature) => ErrorView::NotImplemented(feature@),
            KituError::InvalidInput(reason) => ErrorView::InvalidInput(reason@),
        }
    }
}

impl ErrorView {
    /// The message shown to a user: a prefix naming the kind, then the carried text.
    pub open spec fn message(self) -> Seq<char> {
        match self {
            ErrorView::NotImplemented(feature) => "not implemented: "@ + feature,
            ErrorView::InvalidInput(reason) => "invalid input: "@ + reason,
        }
    }
}

impl KituError {
    /// Renders the error as the message a user sees.
    pub fn to_string(&self) -> (text: String)
        ensures
            text@ == self@.message(),
    {
        match self {
            KituError::NotImplemented(feature) => {
                String::from_str("not implemented: ").concat(feature.as_str())
            },
            KituError::InvalidInput(reason) => {
                String::from_str("invalid input: ").concat(reason)
            },
        }
    }
}

/// Whether `outcome` is the failure with the value `expected`.
pub open spec fn fails_with<T>(outcome: Result<T, KituError>, expected: ErrorView) -> bool {
    outcome matches Err(e) && e@ == expected
}

} // verus!
