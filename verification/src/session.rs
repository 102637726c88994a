//! The session-description assembler: drives the scope sequence (session
//! header, one or more time descriptions, trailing session fields, zero or
//! more media descriptions), detects scope transitions by the next line's
//! type letter, and enforces ordering and cardinality.

use vstd::prelude::*;

use vstd::string::StringSliceAdditionalSpecFns;

use crate::error::{ErrorKind, Fail, ParseError};
use crate::fields::{
    parse_attribute_at, parse_bandwidth_at, parse_connection_at, parse_media_at, parse_repeat_at,
    parse_time_at, parse_zone_at, Attribute, Bandwidth, Connection, MediaDescription, RepeatTime,
    TimeDescription, ZoneAdjustment,
};
use crate::origin::Origin;
use crate::prim::is_ws;
use crate::session_name::{parse_session_name_at, parse_text_line_at, SessionName};
use crate::version::{parse_version_at, Version};

verus! {

/// The three scopes of an SDP description.
#[derive(Debug, PartialEq, Eq, Structural, Clone, Copy)]
pub enum SDPLevel {
    SessionLevel,
    TimeDescriptionLevel,
    MediaDescriptionLevel,
}

impl SDPLevel {
    /// Reads a scope out of its type letter: `s`, `t` or `m`.
    pub fn from_str(s: &str) -> (r: Result<Self, ()>)
        ensures
            ({
                let b = s.spec_bytes();
                match r {
                    Ok(l) => b.len() == 1 && ((b[0] == 0x73 && l == SDPLevel::SessionLevel) || (
                    b[0] == 0x74 && l == SDPLevel::TimeDescriptionLevel) || (b[0] == 0x6d && l
                        == SDPLevel::MediaDescriptionLevel)),
                    Err(_) => !(b.len() == 1 && (b[0] == 0x73 || b[0] == 0x74 || b[0] == 0x6d)),
                }
            }),
    {
        let b = s.as_bytes();
        if b.len() == 1 && b[0] == 0x73 {
            Ok(SDPLevel::SessionLevel)
        } else if b.len() == 1 && b[0] == 0x74 {
            Ok(SDPLevel::TimeDescriptionLevel)
        } else if b.len() == 1 && b[0] == 0x6d {
            Ok(SDPLevel::MediaDescriptionLevel)
        } else {
            Err(())
        }
    }

    /// The type letter of this scope, as text.
    pub fn as_str(&self) -> (r: &str)
        ensures
            self == SDPLevel::SessionLevel ==> r@ =~= seq!['s'],
            self == SDPLevel::TimeDescriptionLevel ==> r@ =~= seq!['t'],
            self == SDPLevel::MediaDescriptionLevel ==> r@ =~= seq!['m'],
    {
        proof {
            reveal_strlit("s");
            reveal_strlit("t");
            reveal_strlit("m");
        }
        match self {
            SDPLevel::SessionLevel => "s",
            SDPLevel::TimeDescriptionLevel => "t",
            SDPLevel::MediaDescriptionLevel => "m",
        }
    }
}

/// The recognized line type letters, plus a catchall for letters RFC 8866
/// does not define.
#[derive(Debug, PartialEq, Eq, Structural, Clone, Copy)]
pub enum SessionDescriptionKeys {
    Version,
    Origin,
    SessionName,
    SessionInformation,
    URI,
    EmailAddress,
    PhoneNumber,
    ConnectionInformation,
    BandwidthInformation,
    Timing,
    RepeatTimes,
    TimeZones,
    EncryptionKey,
    Attribute,
    Media,
    Unknown(u8),
}

/// The key a line type letter denotes.
pub open spec fn spec_key_of(b: u8) -> SessionDescriptionKeys {
    if b == 0x76 {
        SessionDescriptionKeys::Version
    } else if b == 0x6f {
        SessionDescriptionKeys::Origin
    } else if b == 0x73 {
        SessionDescriptionKeys::SessionName
    } else if b == 0x69 {
        SessionDescriptionKeys::SessionInformation
    } else if b == 0x75 {
        SessionDescriptionKeys::URI
    } else if b == 0x65 {
        SessionDescriptionKeys::EmailAddress
    } else if b == 0x70 {
        SessionDescriptionKeys::PhoneNumber
    } else if b == 0x63 {
        SessionDescriptionKeys::ConnectionInformation
    } else if b == 0x62 {
        SessionDescriptionKeys::BandwidthInformation
    } else if b == 0x74 {
        SessionDescriptionKeys::Timing
    } else if b == 0x72 {
        SessionDescriptionKeys::RepeatTimes
    } else if b == 0x7a {
        SessionDescriptionKeys::TimeZones
    } else if b == 0x6b {
        SessionDescriptionKeys::EncryptionKey
    } else if b == 0x61 {
        SessionDescriptionKeys::Attribute
    } else if b == 0x6d {
        SessionDescriptionKeys::Media
    } else {
        SessionDescriptionKeys::Unknown(b)
    }
}

/// Looks at the next line's type letter without consuming anything.
pub fn peek_key(input: &[u8]) -> (r: Result<(&[u8], SessionDescriptionKeys), Fail>)
    ensures
        match r {
            Ok((tail, k)) => input@.len() > 0 && crate::prim::is_alpha(input@[0]) && tail@
                == input@ && k == spec_key_of(input@[0]),
            Err(f) => (input@.len() == 0 || !crate::prim::is_alpha(input@[0])) && f.kind
                == ErrorKind::ExpectedLiteral,
        },
{
    if input.len() == 0 {
        return Err(Fail { kind: ErrorKind::ExpectedLiteral, at: 0 });
    }
    let b = input[0];
    if !((0x41 <= b && b <= 0x5a) || (0x61 <= b && b <= 0x7a)) {
        return Err(Fail { kind: ErrorKind::ExpectedLiteral, at: 0 });
    }
    let key = if b == 0x76 {
        SessionDescriptionKeys::Version
    } else if b == 0x6f {
        SessionDescriptionKeys::Origin
    } else if b == 0x73 {
        SessionDescriptionKeys::SessionName
    } else if b == 0x69 {
        SessionDescriptionKeys::SessionInformation
    } else if b == 0x75 {
        SessionDescriptionKeys::URI
    } else if b == 0x65 {
        SessionDescriptionKeys::EmailAddress
    } else if b == 0x70 {
        SessionDescriptionKeys::PhoneNumber
    } else if b == 0x63 {
        SessionDescriptionKeys::ConnectionInformation
    } else if b == 0x62 {
        SessionDescriptionKeys::BandwidthInformation
    } else if b == 0x74 {
        SessionDescriptionKeys::Timing
    } else if b == 0x72 {
        SessionDescriptionKeys::RepeatTimes
    } else if b == 0x7a {
        SessionDescriptionKeys::TimeZones
    } else if b == 0x6b {
        SessionDescriptionKeys::EncryptionKey
    } else if b == 0x61 {
        SessionDescriptionKeys::Attribute
    } else if b == 0x6d {
        SessionDescriptionKeys::Media
    } else {
        SessionDescriptionKeys::Unknown(b)
    };
    Ok((input, key))
}

/// A complete parsed session description.
#[derive(Debug, PartialEq, Eq)]
pub struct SessionDescription {
    pub version: Version,
    pub origin: Origin,
    pub session_name: SessionName,
    pub session_information: Option<Vec<u8>>,
    pub uri: Option<Vec<u8>>,
    pub emails: Vec<Vec<u8>>,
    pub phones: Vec<Vec<u8>>,
    pub connection: Option<Connection>,
    pub bandwidths: Vec<Bandwidth>,
    pub time_descriptions: Vec<TimeDescription>,
    pub time_zone_adjustments: Vec<ZoneAdjustment>,
    /// Retained as opaque text; RFC 8866 deprecates the `k=` field.
    pub encryption_key: Option<Vec<u8>>,
    pub attributes: Vec<Attribute>,
    pub media_descriptions: Vec<MediaDescription>,
}

impl SessionDescription {
    /// The invariants of a parsed description: version zero, a non-empty
    /// session name, at least one time description, and in every media
    /// description a non-empty format list and a positive port count.
    pub open spec fn wf(&self) -> bool {
        &&& self.version.version == 0
        &&& self.session_name.name@.len() > 0
        &&& self.time_descriptions@.len() > 0
        &&& forall|k: int|
            0 <= k < self.media_descriptions@.len() ==> (#[trigger] self.media_descriptions@[k])
                .formats@.len() > 0
        &&& forall|k: int|
            0 <= k < self.media_descriptions@.len() ==> (#[trigger] self.media_descriptions@[k])
                .port_count >= 1
    }

    /// Builds a description out of the three mandatory fields, with every
    /// optional part absent.
    pub fn new(version: Version, origin: Origin, session_name: SessionName) -> (r: Self)
        ensures
            r.version == version,
            r.origin == origin,
            r.session_name == session_name,
            r.session_information is None,
            r.uri is None,
            r.emails@.len() == 0,
            r.phones@.len() == 0,
            r.connection is None,
            r.bandwidths@.len() == 0,
            r.time_descriptions@.len() == 0,
            r.time_zone_adjustments@.len() == 0,
            r.encryption_key is None,
            r.attributes@.len() == 0,
            r.media_descriptions@.len() == 0,
    {
        Self {
            version,
            origin,
            session_name,
            session_information: None,
            uri: None,
            emails: Vec::new(),
            phones: Vec::new(),
            connection: None,
            bandwidths: Vec::new(),
            time_descriptions: Vec::new(),
            time_zone_adjustments: Vec::new(),
            encryption_key: None,
            attributes: Vec::new(),
            media_descriptions: Vec::new(),
        }
    }

    /// Parses a whole session description in strict mode: every line,
    /// the last included, must end with CRLF.
    pub fn from_str(s: &str) -> (r: Result<SessionDescription, ParseError>)
        ensures
            r matches Ok(sd) ==> sd.wf(),
            r is Ok ==> exists|j: int| ends_with_crlf_then_ws(s.spec_bytes(), j),
            s.spec_bytes().len() == 0 ==> (r matches Err(e) && e.kind
                == ErrorKind::UnexpectedEndOfInput),
            s.spec_bytes().len() > 0 && s.spec_bytes()[0] != 0x76 ==> (r matches Err(e) && e.kind
                == ErrorKind::MissingField(0x76)),
            (match crate::version::spec_version_line(s.spec_bytes(), 0, false) {
                Some((n, _)) => n != 0 ==> (r matches Err(e) && e.kind
                    == ErrorKind::InvalidVersion(n)),
                None => true,
            }),
            (match r {
                Err(e) => match e.kind {
                    ErrorKind::InvalidVersion(n) => (crate::version::spec_version_line(
                        s.spec_bytes(),
                        0,
                        false,
                    ) matches Some(p) && p.0 == n && n != 0),
                    _ => true,
                },
                Ok(_) => true,
            }),
            spec_name_line_missing(s.spec_bytes(), false) ==> (r matches Err(e) && e.kind
                == ErrorKind::MissingField(0x73)),
            spec_time_line_missing(s.spec_bytes(), false) ==> (r matches Err(e) && e.kind
                == ErrorKind::MissingField(0x74)),
            spec_minimal_with_repeat(s.spec_bytes(), false) ==> r is Ok,
            spec_minimal_with_media(s.spec_bytes(), false) ==> r is Ok,
            spec_minimal_session(s.spec_bytes(), false) ==> (r matches Ok(sd) && {
                let v = crate::version::spec_version_line(s.spec_bytes(), 0, false);
                let h = crate::origin::spec_origin_head(s.spec_bytes(), v.unwrap().1);
                let ol = crate::origin::spec_origin_line(s.spec_bytes(), v.unwrap().1, false);
                let nl = crate::session_name::spec_text_line(
                    s.spec_bytes(),
                    ol.unwrap().1,
                    0x73,
                    false,
                );
                let tl = crate::fields::spec_time_line(s.spec_bytes(), nl.unwrap().1, false);
                &&& sd.version.version == 0
                &&& sd.origin.username@ == h.unwrap().0
                &&& sd.origin.session_id@ == h.unwrap().1
                &&& sd.origin.session_version == h.unwrap().2
                &&& sd.origin.unicast_address == ol.unwrap().0
                &&& sd.session_name.name@ == nl.unwrap().0
                &&& sd.time_descriptions@.len() == 1
                &&& sd.time_descriptions@[0].start == tl.unwrap().0
                &&& sd.time_descriptions@[0].stop == tl.unwrap().1
                &&& sd.time_descriptions@[0].repeats@.len() == 0
                &&& sd.session_information is None
                &&& sd.uri is None
                &&& sd.emails@.len() == 0
                &&& sd.phones@.len() == 0
                &&& sd.connection is None
                &&& sd.bandwidths@.len() == 0
                &&& sd.time_zone_adjustments@.len() == 0
                &&& sd.encryption_key is None
                &&& sd.attributes@.len() == 0
                &&& sd.media_descriptions@.len() == 0
            }),
    {
        parse_session_description(s.as_bytes(), false)
    }
}

/// The final line ends with CRLF at `j`, and only whitespace follows.
pub open spec fn ends_with_crlf_then_ws(s: Seq<u8>, j: int) -> bool {
    &&& 2 <= j <= s.len()
    &&& s[j - 2] == 0x0d
    &&& s[j - 1] == 0x0a
    &&& forall|k: int| j <= k < s.len() ==> is_ws(s[k])
}

/// In strict mode, a cursor that just passed a line terminator stands
/// right after a CRLF.
pub open spec fn strict_end(s: Seq<u8>, p: int, lenient: bool) -> bool {
    lenient || (p >= 2 && s[p - 2] == 0x0d && s[p - 1] == 0x0a)
}

/// The cursor after the `s=` line, when the input opens with the chain
/// `v=`, `o=` (IPv4 literal), `s=`; meaningless otherwise.
pub open spec fn spec_after_session_name(s: Seq<u8>, lenient: bool) -> int {
    let v = crate::version::spec_version_line(s, 0, lenient);
    if v is Some {
        let ol = crate::origin::spec_origin_line(s, v.unwrap().1, lenient);
        if ol is Some {
            let nl = crate::session_name::spec_text_line(s, ol.unwrap().1, 0x73, lenient);
            if nl is Some {
                nl.unwrap().1
            } else {
                0
            }
        } else {
            0
        }
    } else {
        0
    }
}

/// The input opens with a well-formed `v=0` line and a well-formed `o=`
/// line, but the line after them is not `s=`.
pub open spec fn spec_name_line_missing(s: Seq<u8>, lenient: bool) -> bool {
    let v = crate::version::spec_version_line(s, 0, lenient);
    &&& v is Some
    &&& v.unwrap().0 == 0
    &&& {
        let ol = crate::origin::spec_origin_line(s, v.unwrap().1, lenient);
        &&& ol is Some
        &&& !(ol.unwrap().1 < s.len() && s[ol.unwrap().1] == 0x73)
    }
}

/// A minimal well-formed description: a `v=0` line, an `o=` line with an
/// IPv4 address literal, a non-empty `s=` line, and one `t=` line that
/// ends the input. Such an input is never rejected.
pub open spec fn spec_minimal_session(s: Seq<u8>, lenient: bool) -> bool {
    let v = crate::version::spec_version_line(s, 0, lenient);
    &&& v is Some
    &&& v.unwrap().0 == 0
    &&& {
        let ol = crate::origin::spec_origin_line(s, v.unwrap().1, lenient);
        &&& ol is Some
        &&& {
            let nl = crate::session_name::spec_text_line(s, ol.unwrap().1, 0x73, lenient);
            &&& nl is Some
            &&& nl.unwrap().0.len() > 0
            &&& {
                let tl = crate::fields::spec_time_line(s, nl.unwrap().1, lenient);
                &&& tl is Some
                &&& tl.unwrap().2 == s.len()
            }
        }
    }
}

/// The input holds well-formed `v=0`, `o=` and `s=` lines and then ends:
/// the mandatory time description is absent.
pub open spec fn spec_time_line_missing(s: Seq<u8>, lenient: bool) -> bool {
    let v = crate::version::spec_version_line(s, 0, lenient);
    &&& v is Some
    &&& v.unwrap().0 == 0
    &&& {
        let ol = crate::origin::spec_origin_line(s, v.unwrap().1, lenient);
        &&& ol is Some
        &&& {
            let nl = crate::session_name::spec_text_line(s, ol.unwrap().1, 0x73, lenient);
            &&& nl is Some
            &&& nl.unwrap().0.len() > 0
            &&& nl.unwrap().1 == s.len()
        }
    }
}

/// A minimal session whose `t=` line is followed by exactly one `r=`
/// line that ends the input. Such an input is never rejected.
pub open spec fn spec_minimal_with_repeat(s: Seq<u8>, lenient: bool) -> bool {
    let v = crate::version::spec_version_line(s, 0, lenient);
    &&& v is Some
    &&& v.unwrap().0 == 0
    &&& {
        let ol = crate::origin::spec_origin_line(s, v.unwrap().1, lenient);
        &&& ol is Some
        &&& {
            let nl = crate::session_name::spec_text_line(s, ol.unwrap().1, 0x73, lenient);
            &&& nl is Some
            &&& nl.unwrap().0.len() > 0
            &&& {
                let tl = crate::fields::spec_time_line(s, nl.unwrap().1, lenient);
                &&& tl is Some
                &&& (crate::fields::spec_repeat_line(s, tl.unwrap().2, lenient) matches Some(rl)
                    && rl.3 == s.len())
            }
        }
    }
}

/// A minimal session followed by one `m=` line, alone or with one `c=`
/// line, ending the input. Such an input is never rejected.
pub open spec fn spec_minimal_with_media(s: Seq<u8>, lenient: bool) -> bool {
    let v = crate::version::spec_version_line(s, 0, lenient);
    &&& v is Some
    &&& v.unwrap().0 == 0
    &&& {
        let ol = crate::origin::spec_origin_line(s, v.unwrap().1, lenient);
        &&& ol is Some
        &&& {
            let nl = crate::session_name::spec_text_line(s, ol.unwrap().1, 0x73, lenient);
            &&& nl is Some
            &&& nl.unwrap().0.len() > 0
            &&& {
                let tl = crate::fields::spec_time_line(s, nl.unwrap().1, lenient);
                &&& tl is Some
                &&& (crate::fields::spec_media_line(s, tl.unwrap().2, lenient) matches Some(me)
                    && (me == s.len() || (crate::fields::spec_connection_line(s, me, lenient)
                        matches Some(cl) && cl.2 == s.len())))
            }
        }
    }
}

/// Where the `m=` line of a minimal-with-media input begins: the cursor
/// after its `t=` line. Meaningless on other inputs.
pub open spec fn spec_media_block_start(s: Seq<u8>, lenient: bool) -> int {
    let tl = crate::fields::spec_time_line(s, spec_after_session_name(s, lenient), lenient);
    if tl is Some {
        tl.unwrap().2
    } else {
        0
    }
}

/// The input opens with a well-formed `v=0` line.
pub open spec fn version_ok(s: Seq<u8>, lenient: bool) -> bool {
    &&& s.len() > 0
    &&& s[0] == 0x76
    &&& (crate::version::spec_version_line(s, 0, lenient) matches Some(p) && p.0 == 0)
}

fn mk_err(kind: ErrorKind, line: usize, line_start: usize, at: usize, letter: Option<u8>) -> (r:
    ParseError)
    ensures
        r.kind == kind,
        r.line == line,
        r.letter == letter,
{
    let column: usize = if at >= line_start {
        let d = at - line_start;
        if d < usize::MAX {
            d + 1
        } else {
            d
        }
    } else {
        1
    };
    ParseError { kind, line, column, letter }
}

/// Reads one time description at `pos`: a `t=` line and its `r=` lines.
fn parse_time_description_at(s: &[u8], pos: usize, lenient: bool) -> (r: Result<
    (TimeDescription, usize),
    Fail,
>)
    requires
        pos <= s@.len(),
    ensures
        match r {
            Ok((td, j)) => pos < j <= s@.len() && strict_end(s@, j as int, lenient),
            Err(f) => f.kind == ErrorKind::ExpectedLiteral || f.kind == ErrorKind::ExpectedDigit
                || f.kind == ErrorKind::Overflow || f.kind == ErrorKind::UnterminatedLine,
        },
        ({
            // a t= line not followed by an r= line is read alone
            let tl = crate::fields::spec_time_line(s@, pos as int, lenient);
            (tl is Some && !(tl.unwrap().2 < s@.len() && s@[tl.unwrap().2] == 0x72)) ==> (
            r matches Ok(p) && p.1 == tl.unwrap().2 && p.0.start == tl.unwrap().0 && p.0.stop
                == tl.unwrap().1 && p.0.repeats@.len() == 0)
        }),
        ({
            // a t= line followed by one r= line ending the input
            let tl = crate::fields::spec_time_line(s@, pos as int, lenient);
            (tl is Some && (crate::fields::spec_repeat_line(s@, tl.unwrap().2, lenient)
                matches Some(rl) && rl.3 == s@.len())) ==> (r matches Ok(p) && p.1 == s@.len())
        }),
{
    let (start, stop, mut p) = match parse_time_at(s, pos, lenient) {
        Ok(x) => x,
        Err(f) => {
            return Err(f);
        },
    };
    let mut repeats: Vec<RepeatTime> = Vec::new();
    loop
        invariant
            pos < p <= s@.len(),
            strict_end(s@, p as int, lenient),
            ({
                let tl = crate::fields::spec_time_line(s@, pos as int, lenient);
                (tl is Some && !(tl.unwrap().2 < s@.len() && s@[tl.unwrap().2] == 0x72)) ==> (p
                    == tl.unwrap().2 && repeats@.len() == 0)
            }),
            ({
                let tl = crate::fields::spec_time_line(s@, pos as int, lenient);
                (tl is Some && (crate::fields::spec_repeat_line(s@, tl.unwrap().2, lenient)
                    matches Some(rl) && rl.3 == s@.len())) ==> (p == tl.unwrap().2 || p
                    == s@.len())
            }),
        ensures
            !(p < s@.len() && s@[p as int] == 0x72),
        decreases s@.len() - p,
    {
        if p < s.len() && s[p] == 0x72 {
            let (rt, q) = match parse_repeat_at(s, p, lenient) {
                Ok(x) => x,
                Err(f) => {
                    return Err(f);
                },
            };
            repeats.push(rt);
            p = q;
        } else {
            break;
        }
    }
    Ok((TimeDescription { start, stop, repeats }, p))
}

/// Parses one whole session description out of `s`.
///
/// In lenient mode a bare LF terminates a line and the final terminator
/// may be absent; in strict mode every line must end with CRLF, so a
/// successful strict parse pins CRLF at the end of the last line, with
/// only whitespace after it.
pub fn parse_session_description(s: &[u8], lenient: bool) -> (r: Result<
    SessionDescription,
    ParseError,
>)
    ensures
        r matches Ok(sd) ==> sd.wf(),
        !lenient && r is Ok ==> exists|j: int| ends_with_crlf_then_ws(s@, j),
        s@.len() == 0 ==> (r matches Err(e) && e.kind == ErrorKind::UnexpectedEndOfInput),
        s@.len() > 0 && s@[0] != 0x76 ==> (r matches Err(e) && e.kind
            == ErrorKind::MissingField(0x76)),
        (match crate::version::spec_version_line(s@, 0, lenient) {
            Some((n, _)) => n != 0 ==> (r matches Err(e) && e.kind == ErrorKind::InvalidVersion(
                n,
            )),
            None => true,
        }),
        (match r {
            Err(e) => match e.kind {
                ErrorKind::InvalidVersion(n) => (crate::version::spec_version_line(s@, 0, lenient)
                    matches Some(p) && p.0 == n && n != 0),
                _ => true,
            },
            Ok(_) => true,
        }),
        spec_name_line_missing(s@, lenient) ==> (r matches Err(e) && e.kind
            == ErrorKind::MissingField(0x73)),
        spec_time_line_missing(s@, lenient) ==> (r matches Err(e) && e.kind
            == ErrorKind::MissingField(0x74)),
        spec_minimal_with_repeat(s@, lenient) ==> r is Ok,
        spec_minimal_with_media(s@, lenient) ==> r is Ok,
        spec_minimal_session(s@, lenient) ==> (r matches Ok(sd) && {
            let v = crate::version::spec_version_line(s@, 0, lenient);
            let h = crate::origin::spec_origin_head(s@, v.unwrap().1);
            let ol = crate::origin::spec_origin_line(s@, v.unwrap().1, lenient);
            let nl = crate::session_name::spec_text_line(s@, ol.unwrap().1, 0x73, lenient);
            let tl = crate::fields::spec_time_line(s@, nl.unwrap().1, lenient);
            &&& sd.version.version == 0
            &&& sd.origin.username@ == h.unwrap().0
            &&& sd.origin.session_id@ == h.unwrap().1
            &&& sd.origin.session_version == h.unwrap().2
            &&& sd.origin.unicast_address == ol.unwrap().0
            &&& sd.session_name.name@ == nl.unwrap().0
            &&& sd.time_descriptions@.len() == 1
            &&& sd.time_descriptions@[0].start == tl.unwrap().0
            &&& sd.time_descriptions@[0].stop == tl.unwrap().1
            &&& sd.time_descriptions@[0].repeats@.len() == 0
            &&& sd.session_information is None
            &&& sd.uri is None
            &&& sd.emails@.len() == 0
            &&& sd.phones@.len() == 0
            &&& sd.connection is None
            &&& sd.bandwidths@.len() == 0
            &&& sd.time_zone_adjustments@.len() == 0
            &&& sd.encryption_key is None
            &&& sd.attributes@.len() == 0
            &&& sd.media_descriptions@.len() == 0
        }),
{
    let n = s.len();
    // the v= line
    if n == 0 {
        return Err(mk_err(ErrorKind::UnexpectedEndOfInput, 1, 0, 0, None));
    }
    if s[0] != 0x76 {
        return Err(mk_err(ErrorKind::MissingField(0x76), 1, 0, 0, Some(s[0])));
    }
    let (v, p1) = match parse_version_at(s, 0, lenient) {
        Ok(x) => x,
        Err(f) => {
            return Err(mk_err(f.kind, 1, 0, f.at, Some(0x76)));
        },
    };
    let mut pos: usize = p1;
    let mut line_no: usize = 2;
    let mut line_start: usize = pos;
    // the o= line; an s= standing here is out of order rather than absent
    if pos < n && s[pos] == 0x73 {
        return Err(mk_err(ErrorKind::MisorderedField(0x73), line_no, pos, pos, Some(0x73)));
    }
    if pos >= n || s[pos] != 0x6f {
        let letter = if pos < n {
            Some(s[pos])
        } else {
            None
        };
        return Err(mk_err(ErrorKind::MissingField(0x6f), line_no, pos, pos, letter));
    }
    let origin = match crate::origin::parse_origin_at(s, pos, lenient) {
        Ok((o, j)) => {
            pos = j;
            o
        },
        Err(f) => {
            return Err(mk_err(f.kind, line_no, line_start, f.at, Some(0x6f)));
        },
    };
    line_no = if line_no < usize::MAX {
        line_no + 1
    } else {
        line_no
    };
    line_start = pos;
    // the s= line
    if pos >= n || s[pos] != 0x73 {
        let letter = if pos < n {
            Some(s[pos])
        } else {
            None
        };
        return Err(mk_err(ErrorKind::MissingField(0x73), line_no, pos, pos, letter));
    }
    let session_name = match parse_session_name_at(s, pos, lenient) {
        Ok((sn, j)) => {
            pos = j;
            sn
        },
        Err(f) => {
            return Err(mk_err(f.kind, line_no, line_start, f.at, Some(0x73)));
        },
    };
    line_no = if line_no < usize::MAX {
        line_no + 1
    } else {
        line_no
    };
    // the optional session-level fields, until the first t=
    let mut info: Option<Vec<u8>> = None;
    let mut uri: Option<Vec<u8>> = None;
    let mut emails: Vec<Vec<u8>> = Vec::new();
    let mut phones: Vec<Vec<u8>> = Vec::new();
    let mut connection: Option<Connection> = None;
    let mut bandwidths: Vec<Bandwidth> = Vec::new();
    let mut zones: Vec<ZoneAdjustment> = Vec::new();
    let mut key: Option<Vec<u8>> = None;
    let mut attributes: Vec<Attribute> = Vec::new();
    loop
        invariant
            pos <= s@.len(),
            n == s@.len(),
            strict_end(s@, pos as int, lenient),
            version_ok(s@, lenient),
            !spec_name_line_missing(s@, lenient),
            spec_minimal_with_repeat(s@, lenient) ==> pos == spec_after_session_name(s@, lenient),
            spec_minimal_with_media(s@, lenient) ==> pos == spec_after_session_name(s@, lenient),
            spec_time_line_missing(s@, lenient) ==> pos == spec_after_session_name(s@, lenient),
            spec_minimal_session(s@, lenient) ==> (pos == spec_after_session_name(s@, lenient)
                && info is None && uri is None && emails@.len() == 0 && phones@.len() == 0
                && connection is None && bandwidths@.len() == 0 && zones@.len() == 0
                && key is None && attributes@.len() == 0),
        decreases s@.len() - pos,
    {
        if pos >= n {
            break;
        }
        let c = s[pos];
        if c == 0x74 || c == 0x6d || c == 0x20 || c == 0x09 {
            break;
        }
        if c == 0x76 || c == 0x6f || c == 0x73 {
            return Err(mk_err(ErrorKind::DuplicateField(c), line_no, pos, pos, Some(c)));
        }
        if c == 0x69 {
            if info.is_some() {
                return Err(mk_err(ErrorKind::DuplicateField(c), line_no, pos, pos, Some(c)));
            }
            match parse_text_line_at(s, pos, 0x69, lenient) {
                Ok((t, j)) => {
                    info = Some(t);
                    pos = j;
                },
                Err(f) => {
                    return Err(mk_err(f.kind, line_no, pos, f.at, Some(c)));
                },
            }
        } else if c == 0x75 {
            if uri.is_some() {
                return Err(mk_err(ErrorKind::DuplicateField(c), line_no, pos, pos, Some(c)));
            }
            match parse_text_line_at(s, pos, 0x75, lenient) {
                Ok((t, j)) => {
                    uri = Some(t);
                    pos = j;
                },
                Err(f) => {
                    return Err(mk_err(f.kind, line_no, pos, f.at, Some(c)));
                },
            }
        } else if c == 0x65 {
            match parse_text_line_at(s, pos, 0x65, lenient) {
                Ok((t, j)) => {
                    emails.push(t);
                    pos = j;
                },
                Err(f) => {
                    return Err(mk_err(f.kind, line_no, pos, f.at, Some(c)));
                },
            }
        } else if c == 0x70 {
            match parse_text_line_at(s, pos, 0x70, lenient) {
                Ok((t, j)) => {
                    phones.push(t);
                    pos = j;
                },
                Err(f) => {
                    return Err(mk_err(f.kind, line_no, pos, f.at, Some(c)));
                },
            }
        } else if c == 0x63 {
            if connection.is_some() {
                return Err(mk_err(ErrorKind::DuplicateField(c), line_no, pos, pos, Some(c)));
            }
            match parse_connection_at(s, pos, lenient) {
                Ok((conn, j)) => {
                    connection = Some(conn);
                    pos = j;
                },
                Err(f) => {
                    return Err(mk_err(f.kind, line_no, pos, f.at, Some(c)));
                },
            }
        } else if c == 0x62 {
            match parse_bandwidth_at(s, pos, lenient) {
                Ok((b, j)) => {
                    bandwidths.push(b);
                    pos = j;
                },
                Err(f) => {
                    return Err(mk_err(f.kind, line_no, pos, f.at, Some(c)));
                },
            }
        } else if c == 0x7a {
            if zones.len() > 0 {
                return Err(mk_err(ErrorKind::DuplicateField(c), line_no, pos, pos, Some(c)));
            }
            match parse_zone_at(s, pos, lenient) {
                Ok((z, j)) => {
                    zones = z;
                    pos = j;
                },
                Err(f) => {
                    return Err(mk_err(f.kind, line_no, pos, f.at, Some(c)));
                },
            }
        } else if c == 0x6b {
            if key.is_some() {
                return Err(mk_err(ErrorKind::DuplicateField(c), line_no, pos, pos, Some(c)));
            }
            match parse_text_line_at(s, pos, 0x6b, lenient) {
                Ok((t, j)) => {
                    key = Some(t);
                    pos = j;
                },
                Err(f) => {
                    return Err(mk_err(f.kind, line_no, pos, f.at, Some(c)));
                },
            }
        } else if c == 0x61 {
            match parse_attribute_at(s, pos, lenient) {
                Ok((a, j)) => {
                    attributes.push(a);
                    pos = j;
                },
                Err(f) => {
                    return Err(mk_err(f.kind, line_no, pos, f.at, Some(c)));
                },
            }
        } else if c == 0x72 {
            return Err(mk_err(ErrorKind::MisorderedField(c), line_no, pos, pos, Some(c)));
        } else {
            return Err(mk_err(ErrorKind::UnknownFieldLetter(c), line_no, pos, pos, Some(c)));
        }
        line_no = if line_no < usize::MAX {
            line_no + 1
        } else {
            line_no
        };
    }
    // one or more time descriptions
    if pos >= n || s[pos] != 0x74 {
        let letter = if pos < n {
            Some(s[pos])
        } else {
            None
        };
        return Err(mk_err(ErrorKind::MissingField(0x74), line_no, pos, pos, letter));
    }
    let mut times: Vec<TimeDescription> = Vec::new();
    loop
        invariant
            pos <= s@.len(),
            n == s@.len(),
            strict_end(s@, pos as int, lenient),
            version_ok(s@, lenient),
            !spec_name_line_missing(s@, lenient),
            !spec_time_line_missing(s@, lenient),
            spec_minimal_with_repeat(s@, lenient) ==> ((times@.len() == 0 && pos
                == spec_after_session_name(s@, lenient)) || (times@.len() >= 1 && pos
                == s@.len())),
            spec_minimal_with_media(s@, lenient) ==> ((times@.len() == 0 && pos
                == spec_after_session_name(s@, lenient)) || (times@.len() >= 1 && pos
                == spec_media_block_start(s@, lenient))),
            spec_minimal_session(s@, lenient) ==> ((times@.len() == 0 && pos
                == spec_after_session_name(s@, lenient)) || (times@.len() == 1 && pos == s@.len()
                && ({
                let tl = crate::fields::spec_time_line(
                    s@,
                    spec_after_session_name(s@, lenient),
                    lenient,
                );
                times@[0].start == tl.unwrap().0 && times@[0].stop == tl.unwrap().1
                    && times@[0].repeats@.len() == 0
            }))),
        ensures
            !(pos < s@.len() && s@[pos as int] == 0x74),
        decreases s@.len() - pos,
    {
        if pos < n && s[pos] == 0x74 {
            match parse_time_description_at(s, pos, lenient) {
                Ok((td, j)) => {
                    times.push(td);
                    pos = j;
                },
                Err(f) => {
                    return Err(mk_err(f.kind, line_no, pos, f.at, Some(0x74)));
                },
            }
            line_no = if line_no < usize::MAX {
                line_no + 1
            } else {
                line_no
            };
        } else {
            break;
        }
    }
    if times.len() == 0 {
        return Err(mk_err(ErrorKind::MissingField(0x74), line_no, pos, pos, None));
    }
    // trailing session-level fields: z=, k=, a=
    loop
        invariant
            pos <= s@.len(),
            n == s@.len(),
            strict_end(s@, pos as int, lenient),
            version_ok(s@, lenient),
            !spec_name_line_missing(s@, lenient),
            !spec_time_line_missing(s@, lenient),
            spec_minimal_with_repeat(s@, lenient) ==> pos == s@.len(),
            spec_minimal_with_media(s@, lenient) ==> pos == spec_media_block_start(s@, lenient),
            spec_minimal_session(s@, lenient) ==> (pos == s@.len() && zones@.len() == 0
                && key is None && attributes@.len() == 0),
        decreases s@.len() - pos,
    {
        if pos >= n {
            break;
        }
        let c = s[pos];
        if c == 0x6d || c == 0x20 || c == 0x09 {
            break;
        }
        if c == 0x7a {
            if zones.len() > 0 {
                return Err(mk_err(ErrorKind::DuplicateField(c), line_no, pos, pos, Some(c)));
            }
            match parse_zone_at(s, pos, lenient) {
                Ok((z, j)) => {
                    zones = z;
                    pos = j;
                },
                Err(f) => {
                    return Err(mk_err(f.kind, line_no, pos, f.at, Some(c)));
                },
            }
        } else if c == 0x6b {
            if key.is_some() {
                return Err(mk_err(ErrorKind::DuplicateField(c), line_no, pos, pos, Some(c)));
            }
            match parse_text_line_at(s, pos, 0x6b, lenient) {
                Ok((t, j)) => {
                    key = Some(t);
                    pos = j;
                },
                Err(f) => {
                    return Err(mk_err(f.kind, line_no, pos, f.at, Some(c)));
                },
            }
        } else if c == 0x61 {
            match parse_attribute_at(s, pos, lenient) {
                Ok((a, j)) => {
                    attributes.push(a);
                    pos = j;
                },
                Err(f) => {
                    return Err(mk_err(f.kind, line_no, pos, f.at, Some(c)));
                },
            }
        } else if c == 0x76 || c == 0x6f || c == 0x73 || c == 0x74 {
            return Err(mk_err(ErrorKind::DuplicateField(c), line_no, pos, pos, Some(c)));
        } else if c == 0x69 || c == 0x75 || c == 0x65 || c == 0x70 || c == 0x63 || c == 0x62 || c
            == 0x72 {
            return Err(mk_err(ErrorKind::MisorderedField(c), line_no, pos, pos, Some(c)));
        } else {
            return Err(mk_err(ErrorKind::UnknownFieldLetter(c), line_no, pos, pos, Some(c)));
        }
        line_no = if line_no < usize::MAX {
            line_no + 1
        } else {
            line_no
        };
    }
    // zero or more media descriptions
    let mut media: Vec<MediaDescription> = Vec::new();
    loop
        invariant
            pos <= s@.len(),
            n == s@.len(),
            strict_end(s@, pos as int, lenient),
            version_ok(s@, lenient),
            !spec_name_line_missing(s@, lenient),
            !spec_time_line_missing(s@, lenient),
            spec_minimal_with_repeat(s@, lenient) ==> pos == s@.len(),
            spec_minimal_with_media(s@, lenient) ==> ((media@.len() == 0 && pos
                == spec_media_block_start(s@, lenient)) || pos == s@.len()),
            spec_minimal_session(s@, lenient) ==> (pos == s@.len() && media@.len() == 0),
            forall|k: int|
                0 <= k < media@.len() ==> (#[trigger] media@[k]).formats@.len() > 0,
            forall|k: int| 0 <= k < media@.len() ==> (#[trigger] media@[k]).port_count >= 1,
        ensures
            !(pos < s@.len() && s@[pos as int] == 0x6d),
        decreases s@.len() - pos,
    {
        if !(pos < n && s[pos] == 0x6d) {
            break;
        }
        let mut md = match parse_media_at(s, pos, lenient) {
            Ok((m, j)) => {
                pos = j;
                m
            },
            Err(f) => {
                return Err(mk_err(f.kind, line_no, pos, f.at, Some(0x6d)));
            },
        };
        line_no = if line_no < usize::MAX {
            line_no + 1
        } else {
            line_no
        };
        // the fields of this media description
        let ghost inner_start = pos;
        loop
            invariant
                inner_start <= pos <= s@.len(),
                n == s@.len(),
                strict_end(s@, pos as int, lenient),
                version_ok(s@, lenient),
                !spec_name_line_missing(s@, lenient),
                !spec_time_line_missing(s@, lenient),
                !spec_minimal_session(s@, lenient),
                !spec_minimal_with_repeat(s@, lenient),
                spec_minimal_with_media(s@, lenient) ==> (pos == crate::fields::spec_media_line(
                    s@,
                    spec_media_block_start(s@, lenient),
                    lenient,
                ).unwrap() || pos == s@.len()),
                md.formats@.len() > 0,
                md.port_count >= 1,
            ensures
                pos >= s@.len() || s@[pos as int] == 0x6d || is_ws(s@[pos as int]),
            decreases s@.len() - pos,
        {
            if pos >= n {
                break;
            }
            let c = s[pos];
            if c == 0x6d || c == 0x20 || c == 0x09 {
                break;
            }
            if c == 0x69 {
                if md.title.is_some() {
                    return Err(mk_err(ErrorKind::DuplicateField(c), line_no, pos, pos, Some(c)));
                }
                match parse_text_line_at(s, pos, 0x69, lenient) {
                    Ok((t, j)) => {
                        md.title = Some(t);
                        pos = j;
                    },
                    Err(f) => {
                        return Err(mk_err(f.kind, line_no, pos, f.at, Some(c)));
                    },
                }
            } else if c == 0x63 {
                match parse_connection_at(s, pos, lenient) {
                    Ok((conn, j)) => {
                        md.connections.push(conn);
                        pos = j;
                    },
                    Err(f) => {
                        return Err(mk_err(f.kind, line_no, pos, f.at, Some(c)));
                    },
                }
            } else if c == 0x62 {
                match parse_bandwidth_at(s, pos, lenient) {
                    Ok((b, j)) => {
                        md.bandwidths.push(b);
                        pos = j;
                    },
                    Err(f) => {
                        return Err(mk_err(f.kind, line_no, pos, f.at, Some(c)));
                    },
                }
            } else if c == 0x6b {
                if md.encryption_key.is_some() {
                    return Err(mk_err(ErrorKind::DuplicateField(c), line_no, pos, pos, Some(c)));
                }
                match parse_text_line_at(s, pos, 0x6b, lenient) {
                    Ok((t, j)) => {
                        md.encryption_key = Some(t);
                        pos = j;
                    },
                    Err(f) => {
                        return Err(mk_err(f.kind, line_no, pos, f.at, Some(c)));
                    },
                }
            } else if c == 0x61 {
                match parse_attribute_at(s, pos, lenient) {
                    Ok((a, j)) => {
                        md.attributes.push(a);
                        pos = j;
                    },
                    Err(f) => {
                        return Err(mk_err(f.kind, line_no, pos, f.at, Some(c)));
                    },
                }
            } else if c == 0x76 || c == 0x6f || c == 0x73 || c == 0x74 || c == 0x75 || c == 0x65
                || c == 0x70 || c == 0x72 || c == 0x7a {
                return Err(mk_err(ErrorKind::MisorderedField(c), line_no, pos, pos, Some(c)));
            } else {
                return Err(mk_err(ErrorKind::UnknownFieldLetter(c), line_no, pos, pos, Some(c)));
            }
            line_no = if line_no < usize::MAX {
                line_no + 1
            } else {
                line_no
            };
        }
        media.push(md);
    }
    // the input must be exhausted, up to trailing whitespace
    let ghost tend = pos as int;
    let mut q: usize = pos;
    while q < n && (s[q] == 0x20 || s[q] == 0x09)
        invariant
            pos <= q <= s@.len(),
            n == s@.len(),
            forall|k: int| pos <= k < q ==> is_ws(s@[k]),
        decreases s@.len() - q,
    {
        q += 1;
    }
    if q != n {
        let c = s[q];
        return Err(mk_err(ErrorKind::UnknownFieldLetter(c), line_no, pos, q, Some(c)));
    }
    proof {
        if !lenient {
            assert(ends_with_crlf_then_ws(s@, tend));
        }
    }
    Ok(SessionDescription {
        version: Version { version: v },
        origin,
        session_name,
        session_information: info,
        uri,
        emails,
        phones,
        connection,
        bandwidths,
        time_descriptions: times,
        time_zone_adjustments: zones,
        encryption_key: key,
        attributes,
        media_descriptions: media,
    })
}

} // verus!
