use vstd::prelude::*;

verus! {

/// The ways in which parsing a token sequence can fail.
///
/// Each variant names the kind of failure; [`Error::message`] gives a
/// human-readable description.
#[derive(Debug, PartialEq, Eq, Clone, Copy, Structural)]
pub enum Error {
    MissingSemicolon,
    UnsupportedVersion,
    SourceError,
    MissingReal,
    MissingInt,
    MissingIdentifier,
    MissingVersion,
}

/// The fixed message of each kind of error.
pub open spec fn error_message(e: Error) -> Seq<char> {
    match e {
        Error::MissingSemicolon => "Missing Semicolon"@,
        Error::UnsupportedVersion => "Unsupported Version. Please Use OpenQASM Version 2.0"@,
        Error::SourceError => "There Was An Error In Your Source Code"@,
        Error::MissingReal => "Missing A Real Number"@,
        Error::MissingInt => "Missing An Integer"@,
        Error::MissingIdentifier => "Missing An Identifier"@,
        Error::MissingVersion => "Missing A Version Statement At The Start Of The File"@,
    }
}

impl Error {
    /// The human-readable message for this error.
    pub fn message(&self) -> (r: String)
        ensures
            r@ == error_message(*self),
    {
        let s = match self {
            Error::MissingSemicolon => "Missing Semicolon",
            Error::UnsupportedVersion => "Unsupported Version. Please Use OpenQASM Version 2.0",
            Error::SourceError => "There Was An Error In Your Source Code",
            Error::MissingReal => "Missing A Real Number",
            Error::MissingInt => "Missing An Integer",
            Error::MissingIdentifier => "Missing An Identifier",
            Error::MissingVersion => "Missing A Version Statement At The Start Of The File",
        };
        String::from_str(s)
    }
}

} // verus!
