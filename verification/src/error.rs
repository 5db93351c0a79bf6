//! The error that parsing reports.
use crate::text::{decimal, decimal_text};
use vstd::prelude::*;
use vstd::string::*;

verus! {

/// A parse failure: the source line it was met on, and why.
#[derive(Debug, Clone, PartialEq)]
pub struct ParseError {
    pub line: u16,
    pub reason: String,
}

/// The model of a [`ParseError`].
pub struct ParseFailure {
    pub line: u16,
    pub reason: Seq<char>,
}

impl View for ParseError {
    type V = ParseFailure;

    open spec fn view(&self) -> ParseFailure {
        ParseFailure { line: self.line, reason: self.reason@ }
    }
}

impl ParseFailure {
    /// The failure as one line of text: the line number, then the reason.
    pub open spec fn text(self) -> Seq<char> {
        "Parse error line "@ + decimal_text(self.line as nat) + " : "@ + self.reason
    }

    /// The failure with more context put behind its reason.
    pub open spec fn msg(self, context: Seq<char>) -> ParseFailure {
        ParseFailure { line: self.line, reason: self.reason + context }
    }
}

impl ParseError {
    /// A failure on `line` for `reason`.
    pub fn new(line: u16, reason: String) -> (r: ParseError)
        ensures
            r.line == line,
            r.reason == reason,
    {
        ParseError { line, reason }
    }

    /// The same failure with `msg` put behind its reason. The line and the
    /// reason so far are kept.
    pub fn msg(self, msg: &'static str) -> (r: ParseError)
        ensures
            r@ == self@.msg(msg@),
    {
        let mut reason = self.reason;
        reason.append(msg);
        ParseError { line: self.line, reason }
    }

    /// The failure as one line of text.
    pub fn describe(&self) -> (r: String)
        ensures
            r@ == self@.text(),
    {
        let mut r = String::from_str("Parse error line ");
        r.append(decimal(self.line).as_str());
        r.append(" : ");
        r.append(self.reason.as_str());
        r
    }
}

} // verus!
