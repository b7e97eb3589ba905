//! Construction failures.

use vstd::prelude::*;

verus! {

/// Why building a configuration failed.
///
/// Every failure is detected synchronously while the configuration is
/// being constructed; no partially built configuration is ever
/// returned.
#[derive(Clone, Debug, PartialEq, Eq)]
pub enum OptError {
    /// No input binary path was supplied.
    MissingRequiredInput,
    /// A format token outside the recognized set; carries the token.
    UnrecognizedFormat(String),
    /// A token that could not be understood at its position: a flag
    /// whose value is missing or fails to parse, an unknown flag, or
    /// an unexpected positional argument. Carries the token.
    MalformedArgument(String),
}

/// Mathematical value of an [`OptError`]: the offending token as a
/// sequence of characters.
#[verifier::ext_equal]
pub enum ErrView {
    MissingRequiredInput,
    UnrecognizedFormat(Seq<char>),
    MalformedArgument(Seq<char>),
}

impl View for OptError {
    type V = ErrView;

    open spec fn view(&self) -> ErrView {
        match self {
            OptError::MissingRequiredInput => ErrView::MissingRequiredInput,
            OptError::UnrecognizedFormat(t) => ErrView::UnrecognizedFormat(t@),
            OptError::MalformedArgument(t) => ErrView::MalformedArgument(t@),
        }
    }
}

} // verus!
