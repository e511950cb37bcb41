use vstd::prelude::*;
use crate::number::{decimal_text, render_unsigned};

verus! {

/// The text that an optional string holds.
pub open spec fn opt_text(o: Option<String>) -> Option<Seq<char>> {
    match o {
        Some(s) => Some(s@),
        None => None,
    }
}

/// A copy of an optional string.
pub fn clone_opt(o: &Option<String>) -> (r: Option<String>)
    ensures
        opt_text(r) == opt_text(*o),
{
    match o {
        Some(s) => Some(s.clone()),
        None => None,
    }
}

/// A parse failure: where it happened, why, and the comment and version text
/// that had been read but not yet attributed when it happened.
#[derive(Debug)]
pub struct FSOParsingError {
    pub line: usize,
    pub reason: String,
    pub comments: Option<String>,
    pub version_string: Option<String>,
}

/// What a parse failure says, as plain values.
pub struct ErrorView {
    pub line: nat,
    pub reason: Seq<char>,
    pub comments: Option<Seq<char>>,
    pub version_string: Option<Seq<char>>,
}

impl View for FSOParsingError {
    type V = ErrorView;

    open spec fn view(&self) -> ErrorView {
        ErrorView {
            line: self.line as nat,
            reason: self.reason@,
            comments: opt_text(self.comments),
            version_string: opt_text(self.version_string),
        }
    }
}

/// The text of a failure report for `line` and `reason`.
pub open spec fn error_message(line: nat, reason: Seq<char>) -> Seq<char> {
    "Error at line "@ + decimal_text(line) + ": "@ + reason
}

impl FSOParsingError {
    /// A failure at `line` with no pending comment or version text.
    pub fn new(line: usize, reason: String) -> (e: Self)
        ensures
            e@ == (ErrorView {
                line: line as nat,
                reason: reason@,
                comments: None,
                version_string: None,
            }),
    {
        FSOParsingError { line, reason, comments: None, version_string: None }
    }

    /// The same failure, carrying the given pending comment and version text
    /// in place of its own.
    pub fn with_context(self, comments: &Option<String>, version_string: &Option<String>) -> (e:
        Self)
        ensures
            e@ == (ErrorView {
                line: self@.line,
                reason: self@.reason,
                comments: opt_text(*comments),
                version_string: opt_text(*version_string),
            }),
    {
        FSOParsingError {
            line: self.line,
            reason: self.reason,
            comments: clone_opt(comments),
            version_string: clone_opt(version_string),
        }
    }

    /// The report shown to a user: the line and the reason.
    pub fn message(&self) -> (text: String)
        ensures
            text@ == error_message(self.line as nat, self.reason@),
    {
        let mut text = String::new();
        text.append("Error at line ");
        text.append(render_unsigned(self.line as u64).as_str());
        text.append(": ");
        text.append(self.reason.as_str());
        text
    }
}

/// Comment and version text that was read after a value and belongs to
/// whatever is parsed next.
#[derive(Debug)]
pub struct FSOParsingHangingGobble {
    pub comments: Option<String>,
    pub version_string: Option<String>,
}

/// A carried comment and version text, as plain values.
pub struct GobbleView {
    pub comments: Option<Seq<char>>,
    pub version_string: Option<Seq<char>>,
}

impl View for FSOParsingHangingGobble {
    type V = GobbleView;

    open spec fn view(&self) -> GobbleView {
        GobbleView {
            comments: opt_text(self.comments),
            version_string: opt_text(self.version_string),
        }
    }
}

/// The carried text that an optional carry holds.
pub open spec fn opt_gobble(o: Option<FSOParsingHangingGobble>) -> Option<GobbleView> {
    match o {
        Some(g) => Some(g@),
        None => None,
    }
}

} // verus!
