//! The failure taxonomy of the header parse.
//!
//! Parsing is fail-fast: the first failure anywhere in the header aborts the
//! whole parse with exactly one of the kinds below, and no partial result.

use vstd::prelude::*;
use vstd::string::StringExecFns;

verus! {

/// The fixed classification of a parse failure.
#[derive(Debug, Clone, Copy, PartialEq, Eq, Structural)]
pub enum ErrorKind {
    /// A link-value does not start with `<` after whitespace trimming.
    ExpectedOpenAngle,
    /// A URI token has no terminating `>`.
    ExpectedCloseAngle,
    /// The text after `>` is neither `;`, `,`, nor end of input.
    ExpectedSeparatorOrTermination,
    /// A parameter segment lacks `=`.
    MissingEquals,
    /// A quoted parameter value has no closing `"`.
    UnclosedQuote,
    /// A matched URI was rejected by the URI-parsing collaborator.
    InvalidUri,
}

/// A terminal parse failure: its fixed classification, and, for
/// [`ErrorKind::InvalidUri`] alone, the underlying URI-parse failure for
/// diagnostic chaining.
#[derive(Debug, Clone, Copy, PartialEq, Eq)]
pub struct Error {
    pub kind: ErrorKind,
    pub cause: Option<url::ParseError>,
}

impl Error {
    /// A failure of the header grammar itself, with no underlying cause.
    pub fn syntax(kind: ErrorKind) -> (r: Error)
        ensures
            r.kind == kind,
            r.cause is None,
    {
        Error { kind, cause: None }
    }

    /// A failure of the URI-parsing collaborator on a matched URI,
    /// chaining the underlying cause.
    pub fn url_parse_err(cause: url::ParseError) -> (r: Error)
        ensures
            r.kind == ErrorKind::InvalidUri,
            r.cause == Some(cause),
    {
        Error { kind: ErrorKind::InvalidUri, cause: Some(cause) }
    }

    /// The diagnostic text of this failure.
    pub fn message(&self) -> (r: String)
        ensures
            r@ == "Invalid http header link: "@ + kind_text(self.kind),
    {
        let mut m = String::from_str("Invalid http header link: ");
        let t: &str = match self.kind {
            ErrorKind::ExpectedOpenAngle => "Expected '<' for uri",
            ErrorKind::ExpectedCloseAngle => "Expected '>' for uri",
            ErrorKind::ExpectedSeparatorOrTermination => "Expected either ';' for next param, ',' for next uri or an empty string for termination",
            ErrorKind::MissingEquals => "Expected param",
            ErrorKind::UnclosedQuote => "Unclosed '\"' in param value",
            ErrorKind::InvalidUri => "Invalid uri",
        };
        m.append(t);
        m
    }
}

/// The diagnostic text of each failure kind.
pub open spec fn kind_text(kind: ErrorKind) -> Seq<char> {
    match kind {
        ErrorKind::ExpectedOpenAngle => "Expected '<' for uri"@,
        ErrorKind::ExpectedCloseAngle => "Expected '>' for uri"@,
        ErrorKind::ExpectedSeparatorOrTermination => "Expected either ';' for next param, ',' for next uri or an empty string for termination"@,
        ErrorKind::MissingEquals => "Expected param"@,
        ErrorKind::UnclosedQuote => "Unclosed '\"' in param value"@,
        ErrorKind::InvalidUri => "Invalid uri"@,
    }
}

} // verus!
