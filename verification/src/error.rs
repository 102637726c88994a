//! Structured parse errors: an error kind plus the position at which the
//! parser gave up. Any error aborts parsing; there is no recovery and no
//! partial result.

use vstd::prelude::*;

verus! {

/// What went wrong, in three families: syntax errors from the primitive
/// parsers, structural errors from the scope state machine, and semantic
/// errors for values that are well-formed but violate an invariant.
#[derive(Debug, Clone, PartialEq, Eq)]
pub enum ErrorKind {
    /// A required literal (tag, separator or whitespace) was absent.
    ExpectedLiteral,
    /// A decimal digit was required and none was present.
    ExpectedDigit,
    /// An address did not parse as an IP literal or hostname.
    BadAddress,
    /// A numeric field exceeded the width its grammar allows.
    Overflow,
    /// A line was not terminated as the mode requires.
    UnterminatedLine,
    /// A field letter appeared outside the order its scope permits.
    MisorderedField(u8),
    /// A line letter that RFC 8866 does not define.
    UnknownFieldLetter(u8),
    /// A singleton field letter appeared twice in its scope.
    DuplicateField(u8),
    /// A required field letter was absent from its scope.
    MissingField(u8),
    /// The input ended before the mandatory fields were seen.
    UnexpectedEndOfInput,
    /// A `v=` line carried a protocol version other than zero.
    InvalidVersion(u8),
    /// The `s=` line was empty.
    EmptySessionName,
    /// A port count of zero in an `m=` line.
    ZeroPortCount,
    /// An IPv4 multicast connection address without a TTL suffix.
    MissingMulticastTTL,
}

/// An error kind together with the byte offset at which it was raised.
#[derive(Debug, Clone, PartialEq, Eq)]
pub struct Fail {
    pub kind: ErrorKind,
    pub at: usize,
}

/// The error handed to callers of the top-level parser: the kind, the
/// 1-based line number, the 1-based column within that line, and the
/// offending line's type letter where one was recognized.
#[derive(Debug, Clone, PartialEq, Eq)]
pub struct ParseError {
    pub kind: ErrorKind,
    pub line: usize,
    pub column: usize,
    pub letter: Option<u8>,
}

} // verus!
