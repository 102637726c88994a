//! The `v=` line: protocol version, which RFC 8866 requires to be zero.

use vstd::prelude::*;

use vstd::string::StringSliceAdditionalSpecFns;

use crate::error::{ErrorKind, Fail};
use crate::prim::{digit_run_end, digits_value, line_end_at, line_end, digits_u8};

verus! {

#[derive(Debug, PartialEq, Eq, Structural, Clone, Copy)]
pub struct Version {
    pub version: u8,
}

impl Version {
    pub fn new(version: u8) -> (r: Self)
        ensures
            r.version == version,
    {
        Self { version }
    }

    /// Parses a `v=` line at the head of the text, accepting a missing
    /// final terminator and ignoring whatever follows the line.
    pub fn from_str(s: &str) -> (r: Result<Version, ParseVersionError>)
        ensures
            r is Ok <==> (spec_version_line(s.spec_bytes(), 0, true) matches Some(p) && p.0 == 0),
            r matches Ok(v) ==> v.version == 0,
    {
        let b = s.as_bytes();
        match parse_version_at(b, 0, true) {
            Ok((v, _)) => Ok(Version::new(v)),
            Err(_) => Err(ParseVersionError),
        }
    }
}

#[derive(Debug, PartialEq, Eq)]
pub struct ParseVersionError;

/// What a `v=` line at `i` denotes: the version value and the cursor after
/// the terminator, or nothing when the line is not well-formed. The version
/// digits must fit in a u8; whether the value is zero is judged separately.
pub open spec fn spec_version_line(s: Seq<u8>, i: int, lenient: bool) -> Option<(u8, int)> {
    if !(i + 2 <= s.len() && s[i] == 0x76 && s[i + 1] == 0x3d) {
        None
    } else {
        let e = digit_run_end(s, i + 2);
        if e == i + 2 || digits_value(s.subrange(i + 2, e)) > 255 {
            None
        } else {
            match line_end_at(s, e, lenient) {
                Some(j) => Some((digits_value(s.subrange(i + 2, e)) as u8, j)),
                None => None,
            }
        }
    }
}

/// Reads one `v=` line at `i` and yields the protocol version, which must
/// be zero, and the cursor after the line terminator.
pub fn parse_version_at(s: &[u8], i: usize, lenient: bool) -> (r: Result<(u8, usize), Fail>)
    requires
        i <= s@.len(),
    ensures
        ({
            let sp = spec_version_line(s@, i as int, lenient);
            match r {
                Ok((v, j)) => sp == Some((v, j as int)) && v == 0 && i < j <= s@.len()
                    && (!lenient ==> j >= 2 && s@[j - 2] == 0x0d && s@[j - 1] == 0x0a),
                Err(f) => match sp {
                    Some((v, _)) => v != 0 && f.kind == ErrorKind::InvalidVersion(v),
                    None => f.kind == ErrorKind::ExpectedLiteral
                        || f.kind == ErrorKind::ExpectedDigit
                        || f.kind == ErrorKind::Overflow
                        || f.kind == ErrorKind::UnterminatedLine,
                },
            }
        }),
{
    if !(s.len() - i >= 2 && s[i] == 0x76 && s[i + 1] == 0x3d) {
        return Err(Fail { kind: ErrorKind::ExpectedLiteral, at: i });
    }
    let (v, j) = match digits_u8(s, i + 2) {
        Ok(p) => p,
        Err(f) => {
            return Err(f);
        },
    };
    let j2 = match line_end(s, j, lenient) {
        Ok(p) => p,
        Err(f) => {
            return Err(f);
        },
    };
    if v != 0 {
        return Err(Fail { kind: ErrorKind::InvalidVersion(v), at: i + 2 });
    }
    Ok((v, j2))
}

/// Parses a `v=` line at the head of the input, in lenient mode, and
/// returns the remaining input together with the version.
pub fn parse_version(input: &[u8]) -> (r: Result<(&[u8], Version), Fail>)
    ensures
        r is Ok <==> (spec_version_line(input@, 0, true) matches Some(p) && p.0 == 0),
        match r {
            Ok((tail, v)) => v.version == 0 && (spec_version_line(input@, 0, true) matches Some(p)
                && tail@ =~= input@.subrange(p.1, input@.len() as int)),
            Err(f) => match spec_version_line(input@, 0, true) {
                Some((v, _)) => v != 0 && f.kind == ErrorKind::InvalidVersion(v),
                None => f.kind == ErrorKind::ExpectedLiteral
                    || f.kind == ErrorKind::ExpectedDigit
                    || f.kind == ErrorKind::Overflow
                    || f.kind == ErrorKind::UnterminatedLine,
            },
        },
{
    match parse_version_at(input, 0, true) {
        Ok((v, j)) => Ok((vstd::slice::slice_subrange(input, j, input.len()), Version::new(v))),
        Err(f) => Err(f),
    }
}

} // verus!
