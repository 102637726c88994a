//! The `o=` line: originator and session identifier. Grammar:
//! `o=<username> <sess-id> <sess-version> <nettype> <addrtype> <unicast-address>`.

use vstd::prelude::*;

use vstd::string::{StringSliceAdditionalSpecFns, StrSliceExecFns};

use crate::addr::{spec_ipv4, spec_ipv6, parse_ipv4_at, parse_ipv6_at, IpAddress};
use crate::error::{ErrorKind, Fail};
use crate::prim::{
    digit_run_end, line_end, line_end_at, scan_digits, take_range, token, token_run_end,
    whitespace, ws_run_end, digits_value, digits_u64,
};

verus! {

/// The network type of an origin or connection line; RFC 8866 defines
/// only `IN`, the internet.
#[derive(Debug, PartialEq, Eq, Structural, Clone, Copy)]
pub enum NetType {
    IN,
}

#[derive(Debug, PartialEq, Eq)]
pub struct ParseNetTypeError;

/// `IN` as bytes.
pub open spec fn spec_is_in(t: Seq<u8>) -> bool {
    t.len() == 2 && t[0] == 0x49 && t[1] == 0x4e
}

impl NetType {
    /// Reads a network type out of its textual form: only `IN` is known.
    pub fn from_str(s: &str) -> (r: Result<NetType, ParseNetTypeError>)
        ensures
            r is Ok <==> spec_is_in(s.spec_bytes()),
            r is Ok ==> r.unwrap() == NetType::IN,
    {
        let b = s.as_bytes();
        if b.len() == 2 && b[0] == 0x49 && b[1] == 0x4e {
            Ok(NetType::IN)
        } else {
            Err(ParseNetTypeError)
        }
    }
}

/// The address type of an origin or connection line.
#[derive(Debug, PartialEq, Eq, Structural, Clone, Copy)]
pub enum AddrType {
    IP4,
    IP6,
}

#[derive(Debug, PartialEq, Eq)]
pub struct ParseAddrTypeError;

/// `IP4` as bytes.
pub open spec fn spec_is_ip4(t: Seq<u8>) -> bool {
    t.len() == 3 && t[0] == 0x49 && t[1] == 0x50 && t[2] == 0x34
}

/// `IP6` as bytes.
pub open spec fn spec_is_ip6(t: Seq<u8>) -> bool {
    t.len() == 3 && t[0] == 0x49 && t[1] == 0x50 && t[2] == 0x36
}

impl AddrType {
    /// Reads an address type out of its textual form: `IP4` or `IP6`.
    pub fn from_str(s: &str) -> (r: Result<AddrType, ParseAddrTypeError>)
        ensures
            r is Ok <==> spec_is_ip4(s.spec_bytes()) || spec_is_ip6(s.spec_bytes()),
            r is Ok ==> (r.unwrap() == AddrType::IP4 <==> spec_is_ip4(s.spec_bytes())),
            r is Ok ==> (r.unwrap() == AddrType::IP6 <==> spec_is_ip6(s.spec_bytes())),
    {
        let b = s.as_bytes();
        if b.len() == 3 && b[0] == 0x49 && b[1] == 0x50 && b[2] == 0x34 {
            Ok(AddrType::IP4)
        } else if b.len() == 3 && b[0] == 0x49 && b[1] == 0x50 && b[2] == 0x36 {
            Ok(AddrType::IP6)
        } else {
            Err(ParseAddrTypeError)
        }
    }
}

/// The originator of the session: `o=` line values. The session id is
/// kept textual, since RFC 8866 constrains it to a numeric string without
/// mandating a 64-bit domain.
#[derive(Debug, PartialEq, Eq)]
pub struct Origin {
    pub username: Vec<u8>,
    pub session_id: Vec<u8>,
    pub session_version: u64,
    pub nettype: NetType,
    pub addrtype: AddrType,
    pub unicast_address: IpAddress,
}

impl Origin {
    pub fn new(
        username: &str,
        session_id: &str,
        session_version: u64,
        nettype: NetType,
        addrtype: AddrType,
        unicast_address: IpAddress,
    ) -> (r: Self)
        ensures
            r.username@ == username.spec_bytes(),
            r.session_id@ == session_id.spec_bytes(),
            r.session_version == session_version,
            r.nettype == nettype,
            r.addrtype == addrtype,
            r.unicast_address == unicast_address,
    {
        Self {
            username: username.as_bytes_vec(),
            session_id: session_id.as_bytes_vec(),
            session_version,
            nettype,
            addrtype,
            unicast_address,
        }
    }
}

/// What the head of an `o=` line at `i` denotes, up to the address:
/// username, textual session id, session version, whether the address
/// type is `IP6`, and the cursor where the address begins. Fields are
/// separated by runs of SP or HTAB, the deliberate leniency of
/// `whitespace`; RFC 8866 writes a single SP.
pub open spec fn spec_origin_head(s: Seq<u8>, i: int) -> Option<(Seq<u8>, Seq<u8>, int, bool, int)> {
    if !(i + 2 <= s.len() && s[i] == 0x6f && s[i + 1] == 0x3d) {
        None
    } else {
        let u0 = i + 2;
        let u1 = token_run_end(s, u0);
        let w1 = ws_run_end(s, u1);
        let d0 = w1;
        let d1 = digit_run_end(s, d0);
        let w2 = ws_run_end(s, d1);
        let v0 = w2;
        let v1 = digit_run_end(s, v0);
        let w3 = ws_run_end(s, v1);
        let n1 = token_run_end(s, w3);
        let w4 = ws_run_end(s, n1);
        let a1 = token_run_end(s, w4);
        let w5 = ws_run_end(s, a1);
        if u1 == u0 || w1 == u1 || d1 == d0 || w2 == d1 || v1 == v0 || w3 == v1
            || digits_value(s.subrange(v0, v1)) > u64::MAX || !spec_is_in(s.subrange(w3, n1))
            || w4 == n1 || !(spec_is_ip4(s.subrange(w4, a1)) || spec_is_ip6(s.subrange(w4, a1)))
            || w5 == a1 {
            None
        } else {
            Some(
                (
                    s.subrange(u0, u1),
                    s.subrange(d0, d1),
                    digits_value(s.subrange(v0, v1)),
                    spec_is_ip6(s.subrange(w4, a1)),
                    w5,
                ),
            )
        }
    }
}

/// What an `o=` line at `i` denotes: the address value and the cursor
/// after the line terminator, or nothing when the line is malformed.
pub open spec fn spec_origin_line(s: Seq<u8>, i: int, lenient: bool) -> Option<(IpAddress, int)> {
    match spec_origin_head(s, i) {
        Some((user, sid, sver, is6, apos)) => {
            let addr = if is6 {
                spec_ipv6(s, apos)
            } else {
                spec_ipv4(s, apos)
            };
            match addr {
                Some((a, ae)) => match line_end_at(s, ae, lenient) {
                    Some(j) => Some((a, j)),
                    None => None,
                },
                None => None,
            }
        },
        None => None,
    }
}

/// Reads one whole `o=` line at `i`, including its terminator.
///
/// Succeeds exactly when the line is well-formed; every field of the
/// result, the address value included, is pinned by `spec_origin_head`,
/// `spec_ipv4` / `spec_ipv6` and the terminator.
pub fn parse_origin_at(s: &[u8], i: usize, lenient: bool) -> (r: Result<(Origin, usize), Fail>)
    requires
        i <= s@.len(),
    ensures
        r is Ok <==> spec_origin_line(s@, i as int, lenient) is Some,
        ({
            let h = spec_origin_head(s@, i as int);
            match r {
                Ok((o, j)) => h is Some && i < j <= s@.len() && (!lenient ==> j >= 2 && s@[j
                    - 2] == 0x0d && s@[j - 1] == 0x0a) && spec_origin_line(s@, i as int, lenient)
                    == Some((o.unicast_address, j as int)) && {
                    let (user, sid, sver, is6, apos) = h.unwrap();
                    &&& o.username@ == user
                    &&& o.session_id@ == sid
                    &&& o.session_version == sver
                    &&& o.nettype == NetType::IN
                    &&& (o.addrtype == AddrType::IP6 <==> is6)
                    &&& (o.addrtype == AddrType::IP4 <==> !is6)
                },
                Err(f) => match h {
                    Some(_) => f.kind == ErrorKind::BadAddress
                        || f.kind == ErrorKind::UnterminatedLine,
                    None => f.kind == ErrorKind::ExpectedLiteral
                        || f.kind == ErrorKind::ExpectedDigit || f.kind == ErrorKind::Overflow
                        || f.kind == ErrorKind::BadAddress,
                },
            }
        }),
{
    if !(s.len() - i >= 2 && s[i] == 0x6f && s[i + 1] == 0x3d) {
        return Err(Fail { kind: ErrorKind::ExpectedLiteral, at: i });
    }
    let (user, u1) = match token(s, i + 2) {
        Ok(p) => p,
        Err(f) => {
            return Err(f);
        },
    };
    let w1 = match whitespace(s, u1) {
        Ok(p) => p,
        Err(f) => {
            return Err(f);
        },
    };
    let d1 = scan_digits(s, w1);
    if d1 == w1 {
        return Err(Fail { kind: ErrorKind::ExpectedDigit, at: w1 });
    }
    let sid = take_range(s, w1, d1);
    let w2 = match whitespace(s, d1) {
        Ok(p) => p,
        Err(f) => {
            return Err(f);
        },
    };
    let (sver, v1) = match digits_u64(s, w2) {
        Ok(p) => p,
        Err(f) => {
            return Err(f);
        },
    };
    let w3 = match whitespace(s, v1) {
        Ok(p) => p,
        Err(f) => {
            return Err(f);
        },
    };
    let (nt, n1) = match token(s, w3) {
        Ok(p) => p,
        Err(f) => {
            return Err(f);
        },
    };
    if !(nt.len() == 2 && nt[0] == 0x49 && nt[1] == 0x4e) {
        return Err(Fail { kind: ErrorKind::ExpectedLiteral, at: w3 });
    }
    let w4 = match whitespace(s, n1) {
        Ok(p) => p,
        Err(f) => {
            return Err(f);
        },
    };
    let (at, a1) = match token(s, w4) {
        Ok(p) => p,
        Err(f) => {
            return Err(f);
        },
    };
    let is4 = at.len() == 3 && at[0] == 0x49 && at[1] == 0x50 && at[2] == 0x34;
    let is6 = at.len() == 3 && at[0] == 0x49 && at[1] == 0x50 && at[2] == 0x36;
    if !(is4 || is6) {
        return Err(Fail { kind: ErrorKind::ExpectedLiteral, at: w4 });
    }
    let w5 = match whitespace(s, a1) {
        Ok(p) => p,
        Err(f) => {
            return Err(f);
        },
    };
    let (address, apos_end) = if is4 {
        match parse_ipv4_at(s, w5) {
            Ok(p) => p,
            Err(f) => {
                return Err(f);
            },
        }
    } else {
        match parse_ipv6_at(s, w5) {
            Ok(p) => p,
            Err(f) => {
                return Err(f);
            },
        }
    };
    let j = match line_end(s, apos_end, lenient) {
        Ok(p) => p,
        Err(f) => {
            return Err(f);
        },
    };
    let o = Origin {
        username: user,
        session_id: sid,
        session_version: sver,
        nettype: NetType::IN,
        addrtype: if is6 {
            AddrType::IP6
        } else {
            AddrType::IP4
        },
        unicast_address: address,
    };
    Ok((o, j))
}

/// Parses an `o=` line at the head of the input, in lenient mode, and
/// returns the remaining input together with the origin record. Succeeds
/// exactly when the line is well-formed; the tail is the text after the
/// consumed line.
pub fn parse_origin(input: &[u8]) -> (r: Result<(&[u8], Origin), Fail>)
    ensures
        r is Ok <==> spec_origin_line(input@, 0, true) is Some,
        match r {
            Ok((tail, o)) => spec_origin_head(input@, 0) is Some && (spec_origin_line(
                input@,
                0,
                true,
            ) matches Some((a, j)) && o.unicast_address == a && tail@ =~= input@.subrange(
                j,
                input@.len() as int,
            )) && {
                let (user, sid, sver, is6, apos) = spec_origin_head(input@, 0).unwrap();
                &&& o.username@ == user
                &&& o.session_id@ == sid
                &&& o.session_version == sver
                &&& o.nettype == NetType::IN
                &&& (o.addrtype == AddrType::IP6 <==> is6)
                &&& (o.addrtype == AddrType::IP4 <==> !is6)
            },
            Err(f) => f.kind == ErrorKind::ExpectedLiteral || f.kind == ErrorKind::ExpectedDigit
                || f.kind == ErrorKind::Overflow || f.kind == ErrorKind::BadAddress || f.kind
                == ErrorKind::UnterminatedLine,
        },
{
    match parse_origin_at(input, 0, true) {
        Ok((o, j)) => Ok((vstd::slice::slice_subrange(input, j, input.len()), o)),
        Err(f) => Err(f),
    }
}

/// Reads `<username> SP` at the head of the input: the username is a
/// token, `-` standing for an anonymous originator.
pub fn parse_username(input: &[u8]) -> (r: Result<(&[u8], Vec<u8>), Fail>)
    ensures
        ({
            let e = token_run_end(input@, 0);
            let w = ws_run_end(input@, e);
            match r {
                Ok((tail, u)) => e > 0 && w > e && u@ =~= input@.subrange(0, e)
                    && tail@ =~= input@.subrange(w, input@.len() as int),
                Err(_) => e == 0 || w == e,
            }
        }),
{
    let (u, e) = match token(input, 0) {
        Ok(p) => p,
        Err(f) => {
            return Err(f);
        },
    };
    let w = match whitespace(input, e) {
        Ok(p) => p,
        Err(f) => {
            return Err(f);
        },
    };
    Ok((vstd::slice::slice_subrange(input, w, input.len()), u))
}

/// Reads `<sess-id> SP` at the head of the input: a digit string, kept
/// textual.
pub fn parse_session_id(input: &[u8]) -> (r: Result<(&[u8], Vec<u8>), Fail>)
    ensures
        ({
            let e = digit_run_end(input@, 0);
            let w = ws_run_end(input@, e);
            match r {
                Ok((tail, d)) => e > 0 && w > e && d@ =~= input@.subrange(0, e)
                    && tail@ =~= input@.subrange(w, input@.len() as int),
                Err(_) => e == 0 || w == e,
            }
        }),
{
    let e = scan_digits(input, 0);
    if e == 0 {
        return Err(Fail { kind: ErrorKind::ExpectedDigit, at: 0 });
    }
    let d = take_range(input, 0, e);
    let w = match whitespace(input, e) {
        Ok(p) => p,
        Err(f) => {
            return Err(f);
        },
    };
    Ok((vstd::slice::slice_subrange(input, w, input.len()), d))
}

/// Reads `<sess-version> SP` at the head of the input, as a 64-bit number.
pub fn parse_session_version(input: &[u8]) -> (r: Result<(&[u8], u64), Fail>)
    ensures
        ({
            let e = digit_run_end(input@, 0);
            let w = ws_run_end(input@, e);
            match r {
                Ok((tail, v)) => e > 0 && w > e && v == digits_value(input@.subrange(0, e))
                    && tail@ =~= input@.subrange(w, input@.len() as int),
                Err(_) => e == 0 || w == e || digits_value(input@.subrange(0, e)) > u64::MAX,
            }
        }),
{
    let (v, e) = match digits_u64(input, 0) {
        Ok(p) => p,
        Err(f) => {
            return Err(f);
        },
    };
    let w = match whitespace(input, e) {
        Ok(p) => p,
        Err(f) => {
            return Err(f);
        },
    };
    Ok((vstd::slice::slice_subrange(input, w, input.len()), v))
}

/// Reads `<nettype> SP` at the head of the input: only `IN` is accepted.
pub fn parse_nettype(input: &[u8]) -> (r: Result<(&[u8], NetType), Fail>)
    ensures
        ({
            let e = token_run_end(input@, 0);
            let w = ws_run_end(input@, e);
            match r {
                Ok((tail, n)) => spec_is_in(input@.subrange(0, e)) && w > e && n == NetType::IN
                    && tail@ =~= input@.subrange(w, input@.len() as int),
                Err(_) => !spec_is_in(input@.subrange(0, e)) || w == e,
            }
        }),
{
    let (t, e) = match token(input, 0) {
        Ok(p) => p,
        Err(f) => {
            return Err(f);
        },
    };
    if !(t.len() == 2 && t[0] == 0x49 && t[1] == 0x4e) {
        return Err(Fail { kind: ErrorKind::ExpectedLiteral, at: 0 });
    }
    let w = match whitespace(input, e) {
        Ok(p) => p,
        Err(f) => {
            return Err(f);
        },
    };
    Ok((vstd::slice::slice_subrange(input, w, input.len()), NetType::IN))
}

/// Reads `<addrtype> SP` at the head of the input: `IP4` or `IP6`.
pub fn parse_addrtype(input: &[u8]) -> (r: Result<(&[u8], AddrType), Fail>)
    ensures
        ({
            let e = token_run_end(input@, 0);
            let w = ws_run_end(input@, e);
            match r {
                Ok((tail, a)) => (spec_is_ip4(input@.subrange(0, e)) || spec_is_ip6(
                    input@.subrange(0, e),
                )) && w > e && (a == AddrType::IP4 <==> spec_is_ip4(input@.subrange(0, e)))
                    && tail@ =~= input@.subrange(w, input@.len() as int),
                Err(_) => !(spec_is_ip4(input@.subrange(0, e)) || spec_is_ip6(
                    input@.subrange(0, e),
                )) || w == e,
            }
        }),
{
    let (t, e) = match token(input, 0) {
        Ok(p) => p,
        Err(f) => {
            return Err(f);
        },
    };
    let is4 = t.len() == 3 && t[0] == 0x49 && t[1] == 0x50 && t[2] == 0x34;
    let is6 = t.len() == 3 && t[0] == 0x49 && t[1] == 0x50 && t[2] == 0x36;
    if !(is4 || is6) {
        return Err(Fail { kind: ErrorKind::ExpectedLiteral, at: 0 });
    }
    let w = match whitespace(input, e) {
        Ok(p) => p,
        Err(f) => {
            return Err(f);
        },
    };
    Ok((
        vstd::slice::slice_subrange(input, w, input.len()),
        if is4 {
            AddrType::IP4
        } else {
            AddrType::IP6
        },
    ))
}

} // verus!
