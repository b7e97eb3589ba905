//! Where a report goes and how it is rendered.

use vstd::prelude::*;
use crate::errors::{ErrView, OptError};
use crate::text::str_eq;

verus! {

/// The sink a report is written to: standard output, or a named file.
///
/// The file is named only; nothing here checks that the path exists
/// or opens it. That is the renderer's concern.
#[derive(Clone, Debug, PartialEq, Eq)]
pub enum OutputDestination {
    Stdout,
    File(String),
}

/// Mathematical value of an [`OutputDestination`]: the file path as a
/// sequence of characters.
#[verifier::ext_equal]
pub enum DestView {
    Stdout,
    File(Seq<char>),
}

impl View for OutputDestination {
    type V = DestView;

    open spec fn view(&self) -> DestView {
        match self {
            OutputDestination::Stdout => DestView::Stdout,
            OutputDestination::File(p) => DestView::File(p@),
        }
    }
}

/// What [`OutputDestination::parse`] yields for any token: a dash
/// selects standard output, and any other token is kept verbatim as a
/// file path.
pub open spec fn spec_parse_destination(token: Seq<char>) -> DestView {
    if token == "-"@ {
        DestView::Stdout
    } else {
        DestView::File(token)
    }
}

impl OutputDestination {
    /// Resolve a sink token. Total: every token is accepted, so
    /// parsing a destination never fails.
    pub fn parse(token: &str) -> (r: OutputDestination)
        ensures
            r@ == spec_parse_destination(token@),
    {
        if str_eq(token, "-") {
            OutputDestination::Stdout
        } else {
            OutputDestination::File(token.to_owned())
        }
    }
}

impl Default for OutputDestination {
    /// The default sink is standard output.
    fn default() -> (r: OutputDestination)
        ensures
            r@ == DestView::Stdout,
    {
        OutputDestination::Stdout
    }
}

/// Destination parsing is total and two-valued: a dash selects
/// standard output, and every other token names a file, kept
/// unchanged.
pub proof fn lemma_destination_parse_total(token: Seq<char>)
    ensures
        token == "-"@ ==> spec_parse_destination(token) == DestView::Stdout,
        token != "-"@ ==> spec_parse_destination(token) == DestView::File(token),
{
}

/// The rendering mode of a report.
#[derive(Clone, Copy, Debug, PartialEq, Eq, Structural)]
pub enum OutputFormat {
    /// Human-readable plain text.
    Text,
    /// Machine-readable JSON.
    Json,
}

/// What [`OutputFormat::parse`] recognizes: the fixed, case-sensitive
/// set of format tokens, and nothing else.
pub open spec fn spec_parse_format(token: Seq<char>) -> Option<OutputFormat> {
    if token == "text"@ {
        Some(OutputFormat::Text)
    } else if token == "json"@ {
        Some(OutputFormat::Json)
    } else {
        None
    }
}

impl OutputFormat {
    /// Resolve a format token. Succeeds exactly on the recognized
    /// tokens; any other token fails with [`OptError::UnrecognizedFormat`]
    /// carrying that token.
    pub fn parse(token: &str) -> (r: Result<OutputFormat, OptError>)
        ensures
            match r {
                Ok(f) => spec_parse_format(token@) == Some(f),
                Err(e) => spec_parse_format(token@) is None && e@ == ErrView::UnrecognizedFormat(
                    token@,
                ),
            },
    {
        if str_eq(token, "text") {
            Ok(OutputFormat::Text)
        } else if str_eq(token, "json") {
            Ok(OutputFormat::Json)
        } else {
            Err(OptError::UnrecognizedFormat(token.to_owned()))
        }
    }
}

impl Default for OutputFormat {
    /// The default rendering mode is plain text.
    fn default() -> (r: OutputFormat)
        ensures
            r == OutputFormat::Text,
    {
        OutputFormat::Text
    }
}

} // verus!
