//! The one error kind of the command interpreter.
use vstd::prelude::*;

verus! {

/// Reply used for any command that does not fit the grammar.
pub const GENERIC_MESSAGE: &'static str = "Could not parse user command";

/// Reply for the criterion kind that has a dedicated facility elsewhere.
pub const PRINT_MESSAGE: &'static str = "Use lichess print ban instead";

/// Reply for a value that should have been an unsigned integer.
pub const BAD_INT_MESSAGE: &'static str = "Can't parse int";

/// Start of the reply for a pattern that does not compile.
pub const BAD_REGEX_PREFIX: &'static str = "Invalid regex: ";

/// Reply for an embedded JSON payload that cannot be decoded.
pub const BAD_JSON_MESSAGE: &'static str = "Can't (de)serialize";

/// A command that could not be turned into an event; `message` is the reply shown to the operator.
#[derive(Debug)]
pub struct ParseError {
    pub message: String,
}

impl ParseError {
    /// The reply text carried by the error.
    pub fn text(&self) -> (r: String)
        ensures
            r@ == self.message@,
    {
        self.message.clone()
    }
}

/// The error with the given message, or with the generic one.
pub fn parse_error(msg: Option<&str>) -> (r: ParseError)
    ensures
        r.message@ == (match msg {
            Some(m) => m@,
            None => GENERIC_MESSAGE@,
        }),
{
    match msg {
        Some(m) => ParseError { message: m.to_owned() },
        None => ParseError { message: GENERIC_MESSAGE.to_owned() },
    }
}

} // verus!
