//! The `s=` line: the session name. RFC 8866 requires exactly one per
//! session description, and it must not be empty; `" "` or `"-"` stand for
//! a session with no meaningful name.

use vstd::prelude::*;

use vstd::string::{StringSliceAdditionalSpecFns, StrSliceExecFns};

use crate::error::{ErrorKind, Fail};
use crate::prim::{line_run_end, line_end_at, line_end, rest_of_line};

verus! {

#[derive(Debug, PartialEq, Eq)]
pub struct SessionName {
    pub name: Vec<u8>,
}

impl SessionName {
    pub fn new(name: &str) -> (r: Self)
        ensures
            r.name@ == name.spec_bytes(),
    {
        Self { name: name.as_bytes_vec() }
    }

    /// Whether the name is valid in the given charset.
    ///
    /// A session-level `a=charset:` attribute names the character set of
    /// the `s=` field; without one the field must be UTF-8. Decoding is
    /// delegated to an external collaborator, so the parser records the
    /// declared name and accepts every value here.
    pub fn validate_char_set(&self, char_set: &str) -> (r: bool)
        ensures
            r,
    {
        if char_set.is_empty() {
            return true;
        }
        true
    }
}

/// What the value of a generic text line `<letter>=<rest-of-line>` at `i`
/// denotes: the body bytes and the cursor after the terminator.
pub open spec fn spec_text_line(s: Seq<u8>, i: int, letter: u8, lenient: bool) -> Option<
    (Seq<u8>, int),
> {
    if !(i + 2 <= s.len() && s[i] == letter && s[i + 1] == 0x3d) {
        None
    } else {
        let e = line_run_end(s, i + 2);
        match line_end_at(s, e, lenient) {
            Some(j) => Some((s.subrange(i + 2, e), j)),
            None => None,
        }
    }
}

/// Reads one `<letter>=<text>` line at `i` and yields the body text and the
/// cursor after the line terminator.
pub fn parse_text_line_at(s: &[u8], i: usize, letter: u8, lenient: bool) -> (r: Result<
    (Vec<u8>, usize),
    Fail,
>)
    requires
        i <= s@.len(),
    ensures
        ({
            let sp = spec_text_line(s@, i as int, letter, lenient);
            match r {
                Ok((t, j)) => sp is Some && t@ =~= sp.unwrap().0 && j == sp.unwrap().1
                    && i < j <= s@.len()
                    && (!lenient ==> j >= 2 && s@[j - 2] == 0x0d && s@[j - 1] == 0x0a),
                Err(f) => sp is None && (f.kind == ErrorKind::ExpectedLiteral
                    || f.kind == ErrorKind::UnterminatedLine),
            }
        }),
{
    if !(s.len() - i >= 2 && s[i] == letter && s[i + 1] == 0x3d) {
        return Err(Fail { kind: ErrorKind::ExpectedLiteral, at: i });
    }
    let (t, e) = rest_of_line(s, i + 2);
    let j = match line_end(s, e, lenient) {
        Ok(p) => p,
        Err(f) => {
            return Err(f);
        },
    };
    Ok((t, j))
}

/// Reads one `s=` line at `i`. The name must be non-empty, else
/// `EmptySessionName`.
pub fn parse_session_name_at(s: &[u8], i: usize, lenient: bool) -> (r: Result<
    (SessionName, usize),
    Fail,
>)
    requires
        i <= s@.len(),
    ensures
        ({
            let sp = spec_text_line(s@, i as int, 0x73, lenient);
            match r {
                Ok((n, j)) => sp is Some && n.name@ =~= sp.unwrap().0 && j == sp.unwrap().1
                    && i < j <= s@.len() && n.name@.len() > 0
                    && (!lenient ==> j >= 2 && s@[j - 2] == 0x0d && s@[j - 1] == 0x0a),
                Err(f) => match sp {
                    Some((t, _)) => t.len() == 0 && f.kind == ErrorKind::EmptySessionName,
                    None => f.kind == ErrorKind::ExpectedLiteral
                        || f.kind == ErrorKind::UnterminatedLine,
                },
            }
        }),
{
    let (t, j) = match parse_text_line_at(s, i, 0x73, lenient) {
        Ok(p) => p,
        Err(f) => {
            return Err(f);
        },
    };
    if t.len() == 0 {
        return Err(Fail { kind: ErrorKind::EmptySessionName, at: i + 2 });
    }
    Ok((SessionName { name: t }, j))
}

/// Parses an `s=` line at the head of the input, in lenient mode, and
/// returns the remaining input together with the session name.
pub fn parse_session_name(input: &[u8]) -> (r: Result<(&[u8], SessionName), Fail>)
    ensures
        r is Ok <==> (spec_text_line(input@, 0, 0x73, true) matches Some(p) && p.0.len() > 0),
        match r {
            Ok((tail, n)) => n.name@.len() > 0 && (spec_text_line(input@, 0, 0x73, true)
                matches Some(p) && n.name@ == p.0 && tail@ =~= input@.subrange(
                p.1,
                input@.len() as int,
            )),
            Err(f) => match spec_text_line(input@, 0, 0x73, true) {
                Some((t, _)) => t.len() == 0 && f.kind == ErrorKind::EmptySessionName,
                None => f.kind == ErrorKind::ExpectedLiteral
                    || f.kind == ErrorKind::UnterminatedLine,
            },
        },
{
    match parse_session_name_at(input, 0, true) {
        Ok((n, j)) => Ok((vstd::slice::slice_subrange(input, j, input.len()), n)),
        Err(f) => Err(f),
    }
}

} // verus!
