//! Diagnostics: the text of an error report and the flag that remembers
//! that one was made.

use vstd::prelude::*;
use vstd::string::*;
use crate::parser::ParseError;
use crate::scanner::ScanError;
use crate::text::{decimal, decimal_text, push_char};

verus! {

/// `[line N] Error<context>: <message>`.
pub open spec fn diagnostic_text(line: nat, context: Seq<char>, message: Seq<char>) -> Seq<char> {
    "[line "@ + decimal_text(line) + "] Error"@ + context + ": "@ + message
}

/// What a report says of a scan error.
pub open spec fn scan_error_text(e: ScanError) -> Seq<char> {
    match e {
        ScanError::UnexpectedCharacter { line, ch } => "Unexpected character '"@.push(ch)
            + "' at line "@ + decimal_text(line as nat) + "."@,
        ScanError::UnterminatedString { line } => "Unterminated string at line "@ + decimal_text(
            line as nat,
        ) + "."@,
    }
}

/// What a report says of a parse error.
pub open spec fn parse_error_text(e: ParseError) -> Seq<char> {
    match e {
        ParseError::ExpectedExpression { line } => "Expect expression."@,
        ParseError::UnclosedGroup { line } => "Expect ')' after expression."@,
    }
}

/// The line that a scan error names.
pub open spec fn scan_error_line(e: ScanError) -> usize {
    match e {
        ScanError::UnexpectedCharacter { line, ch } => line,
        ScanError::UnterminatedString { line } => line,
    }
}

/// The line that a parse error names.
pub open spec fn parse_error_line(e: ParseError) -> usize {
    match e {
        ParseError::ExpectedExpression { line } => line,
        ParseError::UnclosedGroup { line } => line,
    }
}

/// The message of a scan error.
pub fn scan_error_message(e: ScanError) -> (s: String)
    ensures
        s@ == scan_error_text(e),
{
    match e {
        ScanError::UnexpectedCharacter { line, ch } => {
            let mut s = String::from_str("Unexpected character '");
            push_char(&mut s, ch);
            s.append("' at line ");
            s.append(decimal(line).as_str());
            s.append(".");
            s
        },
        ScanError::UnterminatedString { line } => {
            let mut s = String::from_str("Unterminated string at line ");
            s.append(decimal(line).as_str());
            s.append(".");
            s
        },
    }
}

/// The message of a parse error.
pub fn parse_error_message(e: ParseError) -> (s: String)
    ensures
        s@ == parse_error_text(e),
{
    match e {
        ParseError::ExpectedExpression { line } => String::from_str("Expect expression."),
        ParseError::UnclosedGroup { line } => String::from_str("Expect ')' after expression."),
    }
}

/// The exit status after a static error in a script.
pub const EXIT_STATIC_ERROR: u8 = 65;

/// The exit status after a misuse of the command line.
pub const EXIT_USAGE: u8 = 64;

/// The interpreter's error state: whether an error was reported since the
/// flag was last cleared.
pub struct RuLox {
    had_error: bool,
}

impl RuLox {
    /// Whether an error has been reported.
    pub closed spec fn flagged(&self) -> bool {
        self.had_error
    }

    pub fn new() -> (r: Self)
        ensures
            !r.flagged(),
    {
        RuLox { had_error: false }
    }

    pub fn had_error(&self) -> (b: bool)
        ensures
            b == self.flagged(),
    {
        self.had_error
    }

    /// Clears the flag, as a prompt does before its next line.
    pub fn reset(&mut self)
        ensures
            !final(self).flagged(),
    {
        self.had_error = false;
    }

    /// Reports `message` for `line`: sets the flag and returns the text of
    /// the report.
    pub fn error(&mut self, line: usize, message: &str) -> (s: String)
        ensures
            final(self).flagged(),
            s@ == diagnostic_text(line as nat, Seq::empty(), message@),
    {
        proof {
            reveal_strlit("");
            assert(""@ =~= Seq::<char>::empty());
        }
        self.report(line, "", message)
    }

    /// Reports `message` for `line` with the context `loc`.
    pub fn report(&mut self, line: usize, loc: &str, message: &str) -> (s: String)
        ensures
            final(self).flagged(),
            s@ == diagnostic_text(line as nat, loc@, message@),
    {
        let mut s = String::from_str("[line ");
        s.append(decimal(line).as_str());
        s.append("] Error");
        s.append(loc);
        s.append(": ");
        s.append(message);
        self.had_error = true;
        s
    }

    /// Reports a scan error.
    pub fn scan_error(&mut self, e: ScanError) -> (s: String)
        ensures
            final(self).flagged(),
            s@ == diagnostic_text(scan_error_line(e) as nat, Seq::empty(), scan_error_text(e)),
    {
        let message = scan_error_message(e);
        match e {
            ScanError::UnexpectedCharacter { line, ch } => self.error(line, message.as_str()),
            ScanError::UnterminatedString { line } => self.error(line, message.as_str()),
        }
    }

    /// Reports a parse error.
    pub fn parse_error(&mut self, e: ParseError) -> (s: String)
        ensures
            final(self).flagged(),
            s@ == diagnostic_text(parse_error_line(e) as nat, Seq::empty(), parse_error_text(e)),
    {
        let message = parse_error_message(e);
        match e {
            ParseError::ExpectedExpression { line } => self.error(line, message.as_str()),
            ParseError::UnclosedGroup { line } => self.error(line, message.as_str()),
        }
    }

    /// The exit status that running a whole script ends with, if it is not
    /// zero.
    pub fn exit_status(&self) -> (r: Option<u8>)
        ensures
            r == if self.flagged() {
                Some(EXIT_STATIC_ERROR)
            } else {
                None
            },
    {
        if self.had_error {
            Some(EXIT_STATIC_ERROR)
        } else {
            None
        }
    }
}

} // verus!
