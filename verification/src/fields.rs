//! Field parsers for the remaining SDP line types: connection data `c=`,
//! bandwidth `b=`, timing `t=`, repeat times `r=`, time zones `z=`,
//! attributes `a=` and media descriptions `m=`.

use vstd::prelude::*;

use crate::addr::{parse_ipv4_at, parse_ipv6_at, spec_ipv4, spec_ipv6, IpAddress};
use crate::error::{ErrorKind, Fail};
use crate::origin::{spec_is_in, spec_is_ip4, spec_is_ip6, AddrType, NetType};
use crate::prim::{
    digit_run_end, digits_u16, digits_u64, digits_value, line_end, line_end_at, rest_of_line,
    take_range, token, token_run_end, whitespace, ws_run_end,
};

verus! {

/// Connection data: the `c=` line. The address is kept textual, since RFC
/// 8866 also permits a hostname there; `ttl` and `count` are the optional
/// multicast suffixes.
#[derive(Debug, PartialEq, Eq)]
pub struct Connection {
    pub nettype: NetType,
    pub addrtype: AddrType,
    pub address: Vec<u8>,
    pub ttl: Option<u8>,
    pub count: Option<u64>,
}

/// The bandwidth type of a `b=` line.
#[derive(Debug, PartialEq, Eq)]
pub enum BandwidthType {
    CT,
    AS,
    TIAS,
    Other(Vec<u8>),
}

/// A `b=` line: bandwidth type and a kilobit-per-second figure.
#[derive(Debug, PartialEq, Eq)]
pub struct Bandwidth {
    pub bwtype: BandwidthType,
    pub kbps: u64,
}

/// An `a=` line: a bare property, or a name with a value.
#[derive(Debug, PartialEq, Eq)]
pub enum Attribute {
    Property(Vec<u8>),
    Value(Vec<u8>, Vec<u8>),
}

/// A repeat specification from an `r=` line, expanded to seconds.
#[derive(Debug, PartialEq, Eq)]
pub struct RepeatTime {
    pub interval: u64,
    pub active: u64,
    pub offsets: Vec<u64>,
}

/// A `t=` line with its `r=` repeats. `start == 0` means unbounded past,
/// `stop == 0` unbounded future.
#[derive(Debug, PartialEq, Eq)]
pub struct TimeDescription {
    pub start: u64,
    pub stop: u64,
    pub repeats: Vec<RepeatTime>,
}

/// One `<adjustment-time, offset>` pair of a `z=` line; the offset is in
/// seconds and may be negative.
#[derive(Debug, PartialEq, Eq)]
pub struct ZoneAdjustment {
    pub time: u64,
    pub offset_seconds: i64,
}

/// The media type of an `m=` line.
#[derive(Debug, PartialEq, Eq)]
pub enum MediaType {
    Audio,
    Video,
    Text,
    Application,
    Message,
    Other(Vec<u8>),
}

/// An `m=` line with the fields of its scope.
#[derive(Debug, PartialEq, Eq)]
pub struct MediaDescription {
    pub media_type: MediaType,
    pub port: u16,
    pub port_count: u16,
    pub proto: Vec<u8>,
    pub formats: Vec<Vec<u8>>,
    pub title: Option<Vec<u8>>,
    pub connections: Vec<Connection>,
    pub bandwidths: Vec<Bandwidth>,
    /// Retained as opaque text; RFC 8866 deprecates the `k=` field.
    pub encryption_key: Option<Vec<u8>>,
    pub attributes: Vec<Attribute>,
}

/// What one duration at `i` denotes: seconds and the cursor after it.
/// A duration is a digit run with an optional unit suffix `d`, `h`, `m`
/// or `s`, expanded to seconds; the product must fit in a u64.
pub open spec fn spec_duration(s: Seq<u8>, i: int) -> Option<(int, int)> {
    let e = digit_run_end(s, i);
    if e == i || digits_value(s.subrange(i, e)) > u64::MAX {
        None
    } else {
        let v = digits_value(s.subrange(i, e));
        if e < s.len() && s[e] == 0x64 {
            if v * 86400 > u64::MAX {
                None
            } else {
                Some((v * 86400, e + 1))
            }
        } else if e < s.len() && s[e] == 0x68 {
            if v * 3600 > u64::MAX {
                None
            } else {
                Some((v * 3600, e + 1))
            }
        } else if e < s.len() && s[e] == 0x6d {
            if v * 60 > u64::MAX {
                None
            } else {
                Some((v * 60, e + 1))
            }
        } else if e < s.len() && s[e] == 0x73 {
            Some((v, e + 1))
        } else {
            Some((v, e))
        }
    }
}

/// Reads one duration at `i` and expands it to seconds.
pub fn parse_duration(s: &[u8], i: usize) -> (r: Result<(u64, usize), Fail>)
    requires
        i <= s@.len(),
    ensures
        match r {
            Ok((v, j)) => spec_duration(s@, i as int) == Some((v as int, j as int)) && i < j
                <= s@.len(),
            Err(f) => spec_duration(s@, i as int) is None && (f.kind == ErrorKind::ExpectedDigit
                || f.kind == ErrorKind::Overflow),
        },
{
    let (v, e) = match digits_u64(s, i) {
        Ok(p) => p,
        Err(f) => {
            return Err(f);
        },
    };
    if e < s.len() && s[e] == 0x64 {
        if v > u64::MAX / 86400 {
            return Err(Fail { kind: ErrorKind::Overflow, at: i });
        }
        Ok((v * 86400, e + 1))
    } else if e < s.len() && s[e] == 0x68 {
        if v > u64::MAX / 3600 {
            return Err(Fail { kind: ErrorKind::Overflow, at: i });
        }
        Ok((v * 3600, e + 1))
    } else if e < s.len() && s[e] == 0x6d {
        if v > u64::MAX / 60 {
            return Err(Fail { kind: ErrorKind::Overflow, at: i });
        }
        Ok((v * 60, e + 1))
    } else if e < s.len() && s[e] == 0x73 {
        Ok((v, e + 1))
    } else {
        Ok((v, e))
    }
}

/// What one signed duration at `i` denotes: an optional leading `-`, then
/// a duration; the value must fit in an i64.
pub open spec fn spec_signed_duration(s: Seq<u8>, i: int) -> Option<(int, int)> {
    if i < s.len() && s[i] == 0x2d {
        match spec_duration(s, i + 1) {
            Some((v, j)) => if v > i64::MAX {
                None
            } else {
                Some((-v, j))
            },
            None => None,
        }
    } else {
        match spec_duration(s, i) {
            Some((v, j)) => if v > i64::MAX {
                None
            } else {
                Some((v, j))
            },
            None => None,
        }
    }
}

/// Reads one signed duration at `i` in seconds.
pub fn parse_signed_duration(s: &[u8], i: usize) -> (r: Result<(i64, usize), Fail>)
    requires
        i <= s@.len(),
    ensures
        match r {
            Ok((v, j)) => spec_signed_duration(s@, i as int) == Some((v as int, j as int)) && i < j
                <= s@.len(),
            Err(f) => spec_signed_duration(s@, i as int) is None && (f.kind
                == ErrorKind::ExpectedDigit || f.kind == ErrorKind::Overflow),
        },
{
    let neg = i < s.len() && s[i] == 0x2d;
    let start = if neg {
        i + 1
    } else {
        i
    };
    let (v, j) = match parse_duration(s, start) {
        Ok(p) => p,
        Err(f) => {
            return Err(f);
        },
    };
    if v > i64::MAX as u64 {
        return Err(Fail { kind: ErrorKind::Overflow, at: i });
    }
    if neg {
        Ok((-(v as i64), j))
    } else {
        Ok((v as i64, j))
    }
}

/// The durations that follow, each preceded by whitespace: their values
/// in seconds and the cursor where the list stops. Nothing when a
/// whitespace run is followed by a malformed duration.
pub open spec fn spec_offset_list(s: Seq<u8>, p: int) -> Option<(Seq<int>, int)>
    decreases s.len() - p,
        when 0 <= p <= s.len()
        via spec_offset_list_decreases
{
    let w = ws_run_end(s, p);
    if w == p {
        Some((Seq::empty(), p))
    } else {
        match spec_duration(s, w) {
            Some((v, j)) => match spec_offset_list(s, j) {
                Some((rest, e)) => Some((seq![v] + rest, e)),
                None => None,
            },
            None => None,
        }
    }
}

#[via_fn]
proof fn spec_offset_list_decreases(s: Seq<u8>, p: int) {
    crate::prim::lemma_ws_run_end(s, p);
    let w = ws_run_end(s, p);
    if w != p {
        crate::prim::lemma_digit_run_end(s, w);
    }
}

/// What the head of a `t=` line at `i` denotes: start, stop and the
/// cursor after the terminator.
pub open spec fn spec_time_line(s: Seq<u8>, i: int, lenient: bool) -> Option<(int, int, int)> {
    if !(i + 2 <= s.len() && s[i] == 0x74 && s[i + 1] == 0x3d) {
        None
    } else {
        let a0 = i + 2;
        let a1 = digit_run_end(s, a0);
        let w1 = ws_run_end(s, a1);
        let b0 = w1;
        let b1 = digit_run_end(s, b0);
        if a1 == a0 || digits_value(s.subrange(a0, a1)) > u64::MAX || w1 == a1 || b1 == b0
            || digits_value(s.subrange(b0, b1)) > u64::MAX {
            None
        } else {
            match line_end_at(s, b1, lenient) {
                Some(j) => Some(
                    (digits_value(s.subrange(a0, a1)), digits_value(s.subrange(b0, b1)), j),
                ),
                None => None,
            }
        }
    }
}

/// Reads one `t=` line at `i`: start time and stop time, as seconds since
/// the NTP epoch.
pub fn parse_time_at(s: &[u8], i: usize, lenient: bool) -> (r: Result<(u64, u64, usize), Fail>)
    requires
        i <= s@.len(),
    ensures
        match r {
            Ok((t0, t1, j)) => spec_time_line(s@, i as int, lenient) == Some(
                (t0 as int, t1 as int, j as int),
            ) && i < j <= s@.len() && (!lenient ==> j >= 2 && s@[j - 2] == 0x0d && s@[j - 1]
                == 0x0a),
            Err(f) => spec_time_line(s@, i as int, lenient) is None && (f.kind
                == ErrorKind::ExpectedLiteral || f.kind == ErrorKind::ExpectedDigit || f.kind
                == ErrorKind::Overflow || f.kind == ErrorKind::UnterminatedLine),
        },
{
    if !(s.len() - i >= 2 && s[i] == 0x74 && s[i + 1] == 0x3d) {
        return Err(Fail { kind: ErrorKind::ExpectedLiteral, at: i });
    }
    let (t0, a1) = match digits_u64(s, i + 2) {
        Ok(p) => p,
        Err(f) => {
            return Err(f);
        },
    };
    let w1 = match whitespace(s, a1) {
        Ok(p) => p,
        Err(f) => {
            return Err(Fail { kind: ErrorKind::ExpectedLiteral, at: a1 });
        },
    };
    let (t1, b1) = match digits_u64(s, w1) {
        Ok(p) => p,
        Err(f) => {
            return Err(f);
        },
    };
    let j = match line_end(s, b1, lenient) {
        Ok(p) => p,
        Err(f) => {
            return Err(f);
        },
    };
    Ok((t0, t1, j))
}

/// What an `r=` line at `i` denotes: interval, active duration, the
/// offsets, each in seconds, and the cursor after the terminator.
pub open spec fn spec_repeat_line(s: Seq<u8>, i: int, lenient: bool) -> Option<
    (int, int, Seq<int>, int),
> {
    if !(i + 2 <= s.len() && s[i] == 0x72 && s[i + 1] == 0x3d) {
        None
    } else {
        match spec_duration(s, i + 2) {
            Some((v1, q1)) => {
                let w1 = ws_run_end(s, q1);
                if w1 == q1 {
                    None
                } else {
                    match spec_duration(s, w1) {
                        Some((v2, q2)) => match spec_offset_list(s, q2) {
                            Some((offs, oe)) => if offs.len() == 0 {
                                None
                            } else {
                                match line_end_at(s, oe, lenient) {
                                    Some(j) => Some((v1, v2, offs, j)),
                                    None => None,
                                }
                            },
                            None => None,
                        },
                        None => None,
                    }
                }
            },
            None => None,
        }
    }
}

/// Reads one `r=` line at `i`: a repeat interval, an active duration and
/// one or more offsets, each a duration expanded to seconds.
///
/// On success the interval and active duration are the first two
/// durations of the line, and at least one offset was read; every offset
/// is the value of a duration read left to right. Succeeds exactly when
/// the line is well-formed.
pub fn parse_repeat_at(s: &[u8], i: usize, lenient: bool) -> (r: Result<(RepeatTime, usize), Fail>)
    requires
        i <= s@.len(),
    ensures
        r is Ok <==> spec_repeat_line(s@, i as int, lenient) is Some,
        match r {
            Ok((rt, j)) => i < j <= s@.len() && rt.offsets@.len() >= 1 && (!lenient ==> j >= 2
                && s@[j - 2] == 0x0d && s@[j - 1] == 0x0a) && {
                let d1 = spec_duration(s@, i + 2);
                &&& i + 2 <= s@.len() && s@[i as int] == 0x72 && s@[i + 1] == 0x3d
                &&& d1 is Some && rt.interval == d1.unwrap().0
                &&& {
                    let w1 = ws_run_end(s@, d1.unwrap().1);
                    let d2 = spec_duration(s@, w1);
                    &&& w1 > d1.unwrap().1 && d2 is Some && rt.active == d2.unwrap().0
                    &&& {
                        let ol = spec_offset_list(s@, d2.unwrap().1);
                        &&& ol is Some
                        &&& rt.offsets@.map_values(|o: u64| o as int) =~= ol.unwrap().0
                        &&& line_end_at(s@, ol.unwrap().1, lenient) == Some(j as int)
                    }
                }
            },
            Err(f) => f.kind == ErrorKind::ExpectedLiteral || f.kind == ErrorKind::ExpectedDigit
                || f.kind == ErrorKind::Overflow || f.kind == ErrorKind::UnterminatedLine,
        },
{
    if !(s.len() - i >= 2 && s[i] == 0x72 && s[i + 1] == 0x3d) {
        return Err(Fail { kind: ErrorKind::ExpectedLiteral, at: i });
    }
    let (interval, p1) = match parse_duration(s, i + 2) {
        Ok(p) => p,
        Err(f) => {
            return Err(f);
        },
    };
    let w1 = match whitespace(s, p1) {
        Ok(p) => p,
        Err(_) => {
            return Err(Fail { kind: ErrorKind::ExpectedLiteral, at: p1 });
        },
    };
    let (active, p2) = match parse_duration(s, w1) {
        Ok(p) => p,
        Err(f) => {
            return Err(f);
        },
    };
    let mut offsets: Vec<u64> = Vec::new();
    let mut p: usize = p2;
    proof {
        assert(spec_offset_list(s@, p2 as int) is None ==> spec_repeat_line(
            s@,
            i as int,
            lenient,
        ) is None);
    }
    loop
        invariant
            i < p <= s@.len(),
            spec_offset_list(s@, p2 as int) is None ==> spec_repeat_line(
                s@,
                i as int,
                lenient,
            ) is None,
            spec_offset_list(s@, p2 as int) is Some <==> spec_offset_list(s@, p as int) is Some,
            spec_offset_list(s@, p as int) matches Some(rest) ==> (spec_offset_list(s@, p2 as int)
                matches Some(whole) && whole.0 =~= offsets@.map_values(|o: u64| o as int) + rest.0
                && whole.1 == rest.1),
        ensures
            ws_run_end(s@, p as int) == p,
        decreases s@.len() - p,
    {
        let w = match whitespace(s, p) {
            Ok(x) => x,
            Err(_) => {
                break;
            },
        };
        let (off, q) = match parse_duration(s, w) {
            Ok(x) => x,
            Err(f) => {
                return Err(f);
            },
        };
        proof {
            assert(offsets@.push(off).map_values(|o: u64| o as int) =~= offsets@.map_values(
                |o: u64| o as int,
            ).push(off as int));
        }
        offsets.push(off);
        p = q;
    }
    if offsets.len() == 0 {
        return Err(Fail { kind: ErrorKind::ExpectedDigit, at: p });
    }
    let j = match line_end(s, p, lenient) {
        Ok(x) => x,
        Err(f) => {
            return Err(f);
        },
    };
    Ok((RepeatTime { interval, active, offsets }, j))
}

/// What a `z=` line at `i` denotes: the adjustment pairs and the cursor
/// after the terminator.
pub open spec fn spec_zone_line(s: Seq<u8>, i: int, lenient: bool) -> Option<(Seq<(int, int)>, int)> {
    if !(i + 2 <= s.len() && s[i] == 0x7a && s[i + 1] == 0x3d) {
        None
    } else {
        let a0 = i + 2;
        let e0 = digit_run_end(s, a0);
        if e0 == a0 || digits_value(s.subrange(a0, e0)) > u64::MAX {
            None
        } else {
            let w0 = ws_run_end(s, e0);
            if w0 == e0 {
                None
            } else {
                match spec_signed_duration(s, w0) {
                    Some((o0, p1)) => match spec_zone_pairs(s, p1) {
                        Some((rest, pe)) => match line_end_at(s, pe, lenient) {
                            Some(j) => Some(
                                (seq![(digits_value(s.subrange(a0, e0)), o0)] + rest, j),
                            ),
                            None => None,
                        },
                        None => None,
                    },
                    None => None,
                }
            }
        }
    }
}

/// The `<time> <signed-duration>` pairs that follow, each preceded by
/// whitespace: their values and the cursor where the list stops.
pub open spec fn spec_zone_pairs(s: Seq<u8>, p: int) -> Option<(Seq<(int, int)>, int)>
    decreases s.len() - p,
        when 0 <= p <= s.len()
        via spec_zone_pairs_decreases
{
    let w = ws_run_end(s, p);
    if w == p {
        Some((Seq::empty(), p))
    } else {
        let e = digit_run_end(s, w);
        if e == w || digits_value(s.subrange(w, e)) > u64::MAX {
            None
        } else {
            let w2 = ws_run_end(s, e);
            if w2 == e {
                None
            } else {
                match spec_signed_duration(s, w2) {
                    Some((o, j)) => match spec_zone_pairs(s, j) {
                        Some((rest, end)) => Some(
                            (seq![(digits_value(s.subrange(w, e)), o)] + rest, end),
                        ),
                        None => None,
                    },
                    None => None,
                }
            }
        }
    }
}

#[via_fn]
proof fn spec_zone_pairs_decreases(s: Seq<u8>, p: int) {
    crate::prim::lemma_ws_run_end(s, p);
    let w = ws_run_end(s, p);
    if w != p {
        crate::prim::lemma_digit_run_end(s, w);
        let e = digit_run_end(s, w);
        crate::prim::lemma_ws_run_end(s, e);
        let w2 = ws_run_end(s, e);
        if 0 <= w2 && w2 <= s.len() {
            crate::prim::lemma_digit_run_end(s, w2);
            if w2 < s.len() {
                crate::prim::lemma_digit_run_end(s, w2 + 1);
            }
        }
    }
}

/// Reads one `z=` line at `i`: one or more pairs of an adjustment time
/// and a signed offset. Succeeds exactly when the line is well-formed.
pub fn parse_zone_at(s: &[u8], i: usize, lenient: bool) -> (r: Result<
    (Vec<ZoneAdjustment>, usize),
    Fail,
>)
    requires
        i <= s@.len(),
    ensures
        r is Ok <==> spec_zone_line(s@, i as int, lenient) is Some,
        match r {
            Ok((z, j)) => i < j <= s@.len() && z@.len() >= 1 && i + 2 <= s@.len() && s@[i as int]
                == 0x7a && s@[i + 1] == 0x3d && (!lenient ==> j >= 2 && s@[j - 2] == 0x0d && s@[j
                - 1] == 0x0a) && {
                let a0 = i + 2;
                let e0 = digit_run_end(s@, a0);
                let w0 = ws_run_end(s@, e0);
                let sd0 = spec_signed_duration(s@, w0);
                &&& e0 > a0
                &&& w0 > e0
                &&& sd0 is Some
                &&& {
                    let zp = spec_zone_pairs(s@, sd0.unwrap().1);
                    &&& zp is Some
                    &&& z@.map_values(|za: ZoneAdjustment| (za.time as int, za.offset_seconds as int))
                        =~= seq![(digits_value(s@.subrange(a0, e0)), sd0.unwrap().0)] + zp.unwrap().0
                    &&& line_end_at(s@, zp.unwrap().1, lenient) == Some(j as int)
                }
            },
            Err(f) => f.kind == ErrorKind::ExpectedLiteral || f.kind == ErrorKind::ExpectedDigit
                || f.kind == ErrorKind::Overflow || f.kind == ErrorKind::UnterminatedLine,
        },
{
    if !(s.len() - i >= 2 && s[i] == 0x7a && s[i + 1] == 0x3d) {
        return Err(Fail { kind: ErrorKind::ExpectedLiteral, at: i });
    }
    let (t0, p0) = match digits_u64(s, i + 2) {
        Ok(p) => p,
        Err(f) => {
            return Err(f);
        },
    };
    let w0 = match whitespace(s, p0) {
        Ok(p) => p,
        Err(_) => {
            return Err(Fail { kind: ErrorKind::ExpectedLiteral, at: p0 });
        },
    };
    let (o0, p1) = match parse_signed_duration(s, w0) {
        Ok(p) => p,
        Err(f) => {
            return Err(f);
        },
    };
    let mut pairs: Vec<ZoneAdjustment> = Vec::new();
    pairs.push(ZoneAdjustment { time: t0, offset_seconds: o0 });
    let mut p: usize = p1;
    proof {
        assert(spec_zone_pairs(s@, p1 as int) is None ==> spec_zone_line(
            s@,
            i as int,
            lenient,
        ) is None);
    }
    loop
        invariant
            i < p <= s@.len(),
            spec_zone_pairs(s@, p1 as int) is None ==> spec_zone_line(s@, i as int, lenient)
                is None,
            pairs@.len() >= 1,
            pairs@[0].time == t0 && pairs@[0].offset_seconds == o0,
            spec_zone_pairs(s@, p1 as int) is Some <==> spec_zone_pairs(s@, p as int) is Some,
            spec_zone_pairs(s@, p as int) matches Some(rest) ==> (spec_zone_pairs(s@, p1 as int)
                matches Some(whole) && whole.0 =~= pairs@.map_values(
                |za: ZoneAdjustment| (za.time as int, za.offset_seconds as int),
            ).skip(1) + rest.0 && whole.1 == rest.1),
        ensures
            ws_run_end(s@, p as int) == p,
        decreases s@.len() - p,
    {
        let w = match whitespace(s, p) {
            Ok(x) => x,
            Err(_) => {
                break;
            },
        };
        let (t, q0) = match digits_u64(s, w) {
            Ok(x) => x,
            Err(f) => {
                return Err(f);
            },
        };
        let w2 = match whitespace(s, q0) {
            Ok(x) => x,
            Err(_) => {
                return Err(Fail { kind: ErrorKind::ExpectedLiteral, at: q0 });
            },
        };
        let (o, q1) = match parse_signed_duration(s, w2) {
            Ok(x) => x,
            Err(f) => {
                return Err(f);
            },
        };
        proof {
            let f = |za: ZoneAdjustment| (za.time as int, za.offset_seconds as int);
            let nz = ZoneAdjustment { time: t, offset_seconds: o };
            assert(pairs@.push(nz).map_values(f).skip(1) =~= pairs@.map_values(f).skip(1).push(
                (t as int, o as int),
            ));
        }
        pairs.push(ZoneAdjustment { time: t, offset_seconds: o });
        p = q1;
    }
    let j = match line_end(s, p, lenient) {
        Ok(x) => x,
        Err(f) => {
            return Err(f);
        },
    };
    Ok((pairs, j))
}

/// What a `b=` line at `i` denotes: the bandwidth-type token, the
/// kilobit figure and the cursor after the terminator.
pub open spec fn spec_bandwidth_line(s: Seq<u8>, i: int, lenient: bool) -> Option<
    (Seq<u8>, int, int),
> {
    if !(i + 2 <= s.len() && s[i] == 0x62 && s[i + 1] == 0x3d) {
        None
    } else {
        let t0 = i + 2;
        let t1 = token_run_end(s, t0);
        if t1 == t0 || !(t1 < s.len() && s[t1] == 0x3a) {
            None
        } else {
            let d0 = t1 + 1;
            let d1 = digit_run_end(s, d0);
            if d1 == d0 || digits_value(s.subrange(d0, d1)) > u64::MAX {
                None
            } else {
                match line_end_at(s, d1, lenient) {
                    Some(j) => Some(
                        (s.subrange(t0, t1), digits_value(s.subrange(d0, d1)), j),
                    ),
                    None => None,
                }
            }
        }
    }
}

/// `CT` as bytes.
pub open spec fn spec_is_ct(t: Seq<u8>) -> bool {
    t.len() == 2 && t[0] == 0x43 && t[1] == 0x54
}

/// `AS` as bytes.
pub open spec fn spec_is_as(t: Seq<u8>) -> bool {
    t.len() == 2 && t[0] == 0x41 && t[1] == 0x53
}

/// `TIAS` as bytes.
pub open spec fn spec_is_tias(t: Seq<u8>) -> bool {
    t.len() == 4 && t[0] == 0x54 && t[1] == 0x49 && t[2] == 0x41 && t[3] == 0x53
}

/// Reads one `b=` line at `i`: `b=<bwtype>:<bandwidth>`.
pub fn parse_bandwidth_at(s: &[u8], i: usize, lenient: bool) -> (r: Result<
    (Bandwidth, usize),
    Fail,
>)
    requires
        i <= s@.len(),
    ensures
        ({
            let sp = spec_bandwidth_line(s@, i as int, lenient);
            match r {
                Ok((b, j)) => sp is Some && i < j <= s@.len() && (!lenient ==> j >= 2 && s@[j
                    - 2] == 0x0d && s@[j - 1] == 0x0a) && {
                    let (tok, kb, jj) = sp.unwrap();
                    &&& j == jj
                    &&& b.kbps == kb
                    &&& (spec_is_ct(tok) ==> b.bwtype == BandwidthType::CT)
                    &&& (spec_is_as(tok) ==> b.bwtype == BandwidthType::AS)
                    &&& (spec_is_tias(tok) ==> b.bwtype == BandwidthType::TIAS)
                    &&& (!(spec_is_ct(tok) || spec_is_as(tok) || spec_is_tias(tok))
                        ==> (b.bwtype matches BandwidthType::Other(o) && o@ == tok))
                },
                Err(f) => sp is None && (f.kind == ErrorKind::ExpectedLiteral || f.kind
                    == ErrorKind::ExpectedDigit || f.kind == ErrorKind::Overflow || f.kind
                    == ErrorKind::UnterminatedLine),
            }
        }),
{
    if !(s.len() - i >= 2 && s[i] == 0x62 && s[i + 1] == 0x3d) {
        return Err(Fail { kind: ErrorKind::ExpectedLiteral, at: i });
    }
    let (t, t1) = match token(s, i + 2) {
        Ok(p) => p,
        Err(f) => {
            return Err(f);
        },
    };
    if !(t1 < s.len() && s[t1] == 0x3a) {
        return Err(Fail { kind: ErrorKind::ExpectedLiteral, at: t1 });
    }
    let (kb, d1) = match digits_u64(s, t1 + 1) {
        Ok(p) => p,
        Err(f) => {
            return Err(f);
        },
    };
    let j = match line_end(s, d1, lenient) {
        Ok(p) => p,
        Err(f) => {
            return Err(f);
        },
    };
    let bwtype = if t.len() == 2 && t[0] == 0x43 && t[1] == 0x54 {
        BandwidthType::CT
    } else if t.len() == 2 && t[0] == 0x41 && t[1] == 0x53 {
        BandwidthType::AS
    } else if t.len() == 4 && t[0] == 0x54 && t[1] == 0x49 && t[2] == 0x41 && t[3] == 0x53 {
        BandwidthType::TIAS
    } else {
        BandwidthType::Other(t)
    };
    Ok((Bandwidth { bwtype, kbps: kb }, j))
}

/// What an `a=` line at `i` denotes: the name, the value when a `:` is
/// present, and the cursor after the terminator.
pub open spec fn spec_attribute_line(s: Seq<u8>, i: int, lenient: bool) -> Option<
    (Seq<u8>, Option<Seq<u8>>, int),
> {
    if !(i + 2 <= s.len() && s[i] == 0x61 && s[i + 1] == 0x3d) {
        None
    } else {
        let n0 = i + 2;
        let n1 = token_run_end(s, n0);
        if n1 == n0 {
            None
        } else if n1 < s.len() && s[n1] == 0x3a {
            let v0 = n1 + 1;
            let v1 = crate::prim::line_run_end(s, v0);
            match line_end_at(s, v1, lenient) {
                Some(j) => Some((s.subrange(n0, n1), Some(s.subrange(v0, v1)), j)),
                None => None,
            }
        } else {
            match line_end_at(s, n1, lenient) {
                Some(j) => Some((s.subrange(n0, n1), None, j)),
                None => None,
            }
        }
    }
}

/// Reads one `a=` line at `i`: a property attribute `a=<name>`, or a
/// value attribute `a=<name>:<value>`.
pub fn parse_attribute_at(s: &[u8], i: usize, lenient: bool) -> (r: Result<
    (Attribute, usize),
    Fail,
>)
    requires
        i <= s@.len(),
    ensures
        ({
            let sp = spec_attribute_line(s@, i as int, lenient);
            match r {
                Ok((a, j)) => sp is Some && i < j <= s@.len() && (!lenient ==> j >= 2 && s@[j
                    - 2] == 0x0d && s@[j - 1] == 0x0a) && j == sp.unwrap().2 && (match sp
                    .unwrap().1 {
                    Some(v) => a matches Attribute::Value(n, w) && n@ == sp.unwrap().0 && w@ == v,
                    None => a matches Attribute::Property(n) && n@ == sp.unwrap().0,
                }),
                Err(f) => sp is None && (f.kind == ErrorKind::ExpectedLiteral || f.kind
                    == ErrorKind::UnterminatedLine),
            }
        }),
{
    if !(s.len() - i >= 2 && s[i] == 0x61 && s[i + 1] == 0x3d) {
        return Err(Fail { kind: ErrorKind::ExpectedLiteral, at: i });
    }
    let (name, n1) = match token(s, i + 2) {
        Ok(p) => p,
        Err(f) => {
            return Err(f);
        },
    };
    if n1 < s.len() && s[n1] == 0x3a {
        let (v, v1) = rest_of_line(s, n1 + 1);
        let j = match line_end(s, v1, lenient) {
            Ok(p) => p,
            Err(f) => {
                return Err(f);
            },
        };
        Ok((Attribute::Value(name, v), j))
    } else {
        let j = match line_end(s, n1, lenient) {
            Ok(p) => p,
            Err(f) => {
                return Err(f);
            },
        };
        Ok((Attribute::Property(name), j))
    }
}

/// Whether an address is an IPv4 multicast address: first octet 224-239.
pub open spec fn is_multicast_v4(a: IpAddress) -> bool {
    match a {
        IpAddress::V4(x, _, _, _) => 224 <= x && x <= 239,
        IpAddress::V6(..) => false,
    }
}

/// What the head of a `c=` line at `i` denotes: whether the address type
/// is `IP6`, and the cursor where the connection address begins.
pub open spec fn spec_connection_head(s: Seq<u8>, i: int) -> Option<(bool, int)> {
    if !(i + 2 <= s.len() && s[i] == 0x63 && s[i + 1] == 0x3d) {
        None
    } else {
        let n0 = i + 2;
        let n1 = token_run_end(s, n0);
        let w1 = ws_run_end(s, n1);
        let a1 = token_run_end(s, w1);
        let w2 = ws_run_end(s, a1);
        if !spec_is_in(s.subrange(n0, n1)) || w1 == n1 || !(spec_is_ip4(s.subrange(w1, a1))
            || spec_is_ip6(s.subrange(w1, a1))) || w2 == a1 {
            None
        } else {
            Some((spec_is_ip6(s.subrange(w1, a1)), w2))
        }
    }
}

/// What a `c=` line at `i` denotes: the optional TTL and address count
/// suffixes and the cursor after the terminator, or nothing when the
/// line is malformed.
///
/// The connection address runs to the first byte outside the address
/// class. A base that contains a colon must be an IPv6 literal filling
/// the whole run, under address type `IP6`; one of digits and dots only
/// must be an IPv4 literal filling the run, under `IP4`; anything else
/// is a hostname, which RFC 8866 permits. An IPv4 multicast literal
/// must carry a TTL suffix.
pub open spec fn spec_connection_line(s: Seq<u8>, i: int, lenient: bool) -> Option<
    (Option<int>, Option<int>, int),
> {
    match spec_connection_head(s, i) {
        Some((is6, apos)) => {
            let ae = crate::prim::addr_run_end(s, apos);
            let hascolon = crate::prim::host_run_end(s, apos) != ae;
            let numeric = crate::prim::num_run_end(s, apos) == ae;
            if ae == apos {
                None
            } else if hascolon && (!is6 || !(spec_ipv6(s, apos) matches Some(a6) && a6.1 == ae)) {
                None
            } else if !hascolon && numeric && (is6 || !(spec_ipv4(s, apos) matches Some(a4)
                && a4.1 == ae)) {
                None
            } else {
                let multicast = !is6 && numeric && (spec_ipv4(s, apos) matches Some(a4)
                    && is_multicast_v4(a4.0));
                if ae < s.len() && s[ae] == 0x2f {
                    if !is6 {
                        let t1 = digit_run_end(s, ae + 1);
                        if t1 == ae + 1 || digits_value(s.subrange(ae + 1, t1)) > 255 {
                            None
                        } else {
                            let tv = digits_value(s.subrange(ae + 1, t1));
                            if t1 < s.len() && s[t1] == 0x2f {
                                let c1 = digit_run_end(s, t1 + 1);
                                if c1 == t1 + 1 || digits_value(s.subrange(t1 + 1, c1))
                                    > u64::MAX {
                                    None
                                } else {
                                    match line_end_at(s, c1, lenient) {
                                        Some(j) => Some(
                                            (
                                                Some(tv),
                                                Some(digits_value(s.subrange(t1 + 1, c1))),
                                                j,
                                            ),
                                        ),
                                        None => None,
                                    }
                                }
                            } else {
                                match line_end_at(s, t1, lenient) {
                                    Some(j) => Some((Some(tv), None, j)),
                                    None => None,
                                }
                            }
                        }
                    } else {
                        let c1 = digit_run_end(s, ae + 1);
                        if c1 == ae + 1 || digits_value(s.subrange(ae + 1, c1)) > u64::MAX {
                            None
                        } else {
                            match line_end_at(s, c1, lenient) {
                                Some(j) => Some(
                                    (None, Some(digits_value(s.subrange(ae + 1, c1))), j),
                                ),
                                None => None,
                            }
                        }
                    }
                } else if multicast {
                    None
                } else {
                    match line_end_at(s, ae, lenient) {
                        Some(j) => Some((None, None, j)),
                        None => None,
                    }
                }
            }
        },
        None => None,
    }
}

/// Reads one `c=` line at `i`: `c=<nettype> <addrtype> <connection-address>`.
///
/// Succeeds exactly when the line is well-formed under the address rule
/// of `spec_connection_line`; the address text, TTL and count are pinned.
pub fn parse_connection_at(s: &[u8], i: usize, lenient: bool) -> (r: Result<
    (Connection, usize),
    Fail,
>)
    requires
        i <= s@.len(),
    ensures
        r is Ok <==> spec_connection_line(s@, i as int, lenient) is Some,
        ({
            let h = spec_connection_head(s@, i as int);
            match r {
                Ok((c, j)) => h is Some && i < j <= s@.len() && (!lenient ==> j >= 2 && s@[j
                    - 2] == 0x0d && s@[j - 1] == 0x0a) && {
                    let (is6, apos) = h.unwrap();
                    let ae = crate::prim::addr_run_end(s@, apos);
                    &&& c.nettype == NetType::IN
                    &&& (c.addrtype == AddrType::IP6 <==> is6)
                    &&& (c.addrtype == AddrType::IP4 <==> !is6)
                    &&& c.address@ == s@.subrange(apos, ae)
                    &&& c.address@.len() > 0
                    &&& (spec_connection_line(s@, i as int, lenient) matches Some((tv, cv, jj))
                        && jj == j as int && (match tv {
                        Some(x) => c.ttl matches Some(y) && y == x,
                        None => c.ttl is None,
                    }) && (match cv {
                        Some(x) => c.count matches Some(y) && y == x,
                        None => c.count is None,
                    }))
                },
                Err(f) => f.kind == ErrorKind::ExpectedLiteral || f.kind == ErrorKind::BadAddress
                    || f.kind == ErrorKind::ExpectedDigit || f.kind == ErrorKind::Overflow
                    || f.kind == ErrorKind::UnterminatedLine || f.kind
                    == ErrorKind::MissingMulticastTTL,
            }
        }),
{
    if !(s.len() - i >= 2 && s[i] == 0x63 && s[i + 1] == 0x3d) {
        return Err(Fail { kind: ErrorKind::ExpectedLiteral, at: i });
    }
    let (nt, n1) = match token(s, i + 2) {
        Ok(p) => p,
        Err(f) => {
            return Err(f);
        },
    };
    if !(nt.len() == 2 && nt[0] == 0x49 && nt[1] == 0x4e) {
        return Err(Fail { kind: ErrorKind::ExpectedLiteral, at: i + 2 });
    }
    let w1 = match whitespace(s, n1) {
        Ok(p) => p,
        Err(f) => {
            return Err(f);
        },
    };
    let (at, a1) = match token(s, w1) {
        Ok(p) => p,
        Err(f) => {
            return Err(f);
        },
    };
    let is4 = at.len() == 3 && at[0] == 0x49 && at[1] == 0x50 && at[2] == 0x34;
    let is6 = at.len() == 3 && at[0] == 0x49 && at[1] == 0x50 && at[2] == 0x36;
    if !(is4 || is6) {
        return Err(Fail { kind: ErrorKind::ExpectedLiteral, at: w1 });
    }
    let w2 = match whitespace(s, a1) {
        Ok(p) => p,
        Err(f) => {
            return Err(f);
        },
    };
    // the base address: a literal of the declared type, else a hostname
    let ae = crate::prim::scan_addr(s, w2);
    if ae == w2 {
        return Err(Fail { kind: ErrorKind::BadAddress, at: w2 });
    }
    let hascolon = crate::prim::scan_host(s, w2) != ae;
    let numeric = crate::prim::scan_num(s, w2) == ae;
    let mut multicast = false;
    if hascolon {
        if !is6 {
            return Err(Fail { kind: ErrorKind::BadAddress, at: w2 });
        }
        match parse_ipv6_at(s, w2) {
            Ok((_, e6)) => {
                if e6 != ae {
                    return Err(Fail { kind: ErrorKind::BadAddress, at: w2 });
                }
            },
            Err(f) => {
                return Err(f);
            },
        }
    } else if numeric {
        if is6 {
            return Err(Fail { kind: ErrorKind::BadAddress, at: w2 });
        }
        match parse_ipv4_at(s, w2) {
            Ok((a, e4)) => {
                if e4 != ae {
                    return Err(Fail { kind: ErrorKind::BadAddress, at: w2 });
                }
                multicast = match a {
                    IpAddress::V4(x, _, _, _) => 224 <= x && x <= 239,
                    IpAddress::V6(..) => false,
                };
            },
            Err(f) => {
                return Err(f);
            },
        }
    }
    let address = take_range(s, w2, ae);
    let mut ttl: Option<u8> = None;
    let mut count: Option<u64> = None;
    let mut p: usize = ae;
    if p < s.len() && s[p] == 0x2f {
        if is4 {
            let (t, q) = match crate::prim::digits_u8(s, p + 1) {
                Ok(x) => x,
                Err(f) => {
                    return Err(f);
                },
            };
            ttl = Some(t);
            p = q;
            if p < s.len() && s[p] == 0x2f {
                let (c, q2) = match digits_u64(s, p + 1) {
                    Ok(x) => x,
                    Err(f) => {
                        return Err(f);
                    },
                };
                count = Some(c);
                p = q2;
            }
        } else {
            let (c, q) = match digits_u64(s, p + 1) {
                Ok(x) => x,
                Err(f) => {
                    return Err(f);
                },
            };
            count = Some(c);
            p = q;
        }
    } else if multicast {
        return Err(Fail { kind: ErrorKind::MissingMulticastTTL, at: w2 });
    }
    let j = match line_end(s, p, lenient) {
        Ok(x) => x,
        Err(f) => {
            return Err(f);
        },
    };
    Ok((
        Connection {
            nettype: NetType::IN,
            addrtype: if is6 {
                AddrType::IP6
            } else {
                AddrType::IP4
            },
            address,
            ttl,
            count,
        },
        j,
    ))
}

/// `audio` as bytes.
pub open spec fn spec_is_audio(t: Seq<u8>) -> bool {
    t.len() == 5 && t[0] == 0x61 && t[1] == 0x75 && t[2] == 0x64 && t[3] == 0x69 && t[4] == 0x6f
}

/// `video` as bytes.
pub open spec fn spec_is_video(t: Seq<u8>) -> bool {
    t.len() == 5 && t[0] == 0x76 && t[1] == 0x69 && t[2] == 0x64 && t[3] == 0x65 && t[4] == 0x6f
}

/// `text` as bytes.
pub open spec fn spec_is_text(t: Seq<u8>) -> bool {
    t.len() == 4 && t[0] == 0x74 && t[1] == 0x65 && t[2] == 0x78 && t[3] == 0x74
}

/// `application` as bytes.
pub open spec fn spec_is_application(t: Seq<u8>) -> bool {
    t.len() == 11 && t[0] == 0x61 && t[1] == 0x70 && t[2] == 0x70 && t[3] == 0x6c && t[4] == 0x69
        && t[5] == 0x63 && t[6] == 0x61 && t[7] == 0x74 && t[8] == 0x69 && t[9] == 0x6f && t[10]
        == 0x6e
}

/// `message` as bytes.
pub open spec fn spec_is_message(t: Seq<u8>) -> bool {
    t.len() == 7 && t[0] == 0x6d && t[1] == 0x65 && t[2] == 0x73 && t[3] == 0x73 && t[4] == 0x61
        && t[5] == 0x67 && t[6] == 0x65
}

/// Whether a media-type value matches its token text.
pub open spec fn media_type_matches(m: MediaType, t: Seq<u8>) -> bool {
    if spec_is_audio(t) {
        m == MediaType::Audio
    } else if spec_is_video(t) {
        m == MediaType::Video
    } else if spec_is_text(t) {
        m == MediaType::Text
    } else if spec_is_application(t) {
        m == MediaType::Application
    } else if spec_is_message(t) {
        m == MediaType::Message
    } else {
        m matches MediaType::Other(o) && o@ == t
    }
}

/// A byte that may stand in a media protocol: a token byte or `/`.
pub open spec fn is_proto_byte(b: u8) -> bool {
    crate::prim::is_token_byte(b) || b == 0x2f
}

/// First index at or after `i` that does not hold a protocol byte.
pub open spec fn proto_run_end(s: Seq<u8>, i: int) -> int
    decreases s.len() - i,
{
    if 0 <= i && i < s.len() && is_proto_byte(s[i]) {
        proto_run_end(s, i + 1)
    } else {
        i
    }
}

/// The end of a `/`-joined token chain whose first token ends at `p`:
/// each `/` must be followed by a non-empty token.
pub open spec fn spec_proto_scan(s: Seq<u8>, p: int) -> Option<int>
    decreases s.len() - p,
        when 0 <= p <= s.len()
        via spec_proto_scan_decreases
{
    if p < s.len() && s[p] == 0x2f {
        let q = token_run_end(s, p + 1);
        if q == p + 1 {
            None
        } else {
            spec_proto_scan(s, q)
        }
    } else {
        Some(p)
    }
}

#[via_fn]
proof fn spec_proto_scan_decreases(s: Seq<u8>, p: int) {
    if p < s.len() {
        crate::prim::lemma_token_run_end(s, p + 1);
    }
}

/// Skipping protocol bytes does not move the end of the run.
proof fn lemma_proto_run_skip(s: Seq<u8>, a: int, b: int)
    requires
        0 <= a <= b <= s.len(),
        forall|k: int| a <= k < b ==> is_proto_byte(s[k]),
    ensures
        proto_run_end(s, a) == proto_run_end(s, b),
    decreases b - a,
{
    if a < b {
        lemma_proto_run_skip(s, a + 1, b);
    }
}

/// What the head of an `m=` line at `i` denotes: the media-type token,
/// the port, the declared port count if any, and the cursor after the
/// port part.
pub open spec fn spec_media_head(s: Seq<u8>, i: int) -> Option<(Seq<u8>, int, Option<int>, int)> {
    if !(i + 2 <= s.len() && s[i] == 0x6d && s[i + 1] == 0x3d) {
        None
    } else {
        let t0 = i + 2;
        let t1 = token_run_end(s, t0);
        let w1 = ws_run_end(s, t1);
        let d0 = w1;
        let d1 = digit_run_end(s, d0);
        if t1 == t0 || w1 == t1 || d1 == d0 || digits_value(s.subrange(d0, d1)) > u16::MAX {
            None
        } else if d1 < s.len() && s[d1] == 0x2f {
            let c0 = d1 + 1;
            let c1 = digit_run_end(s, c0);
            if c1 == c0 || digits_value(s.subrange(c0, c1)) > u16::MAX {
                None
            } else {
                Some(
                    (
                        s.subrange(t0, t1),
                        digits_value(s.subrange(d0, d1)),
                        Some(digits_value(s.subrange(c0, c1))),
                        c1,
                    ),
                )
            }
        } else {
            Some((s.subrange(t0, t1), digits_value(s.subrange(d0, d1)), None, d1))
        }
    }
}

/// The format tokens that follow, each preceded by whitespace: their
/// texts and the cursor where the list stops.
pub open spec fn spec_format_list(s: Seq<u8>, p: int) -> Option<(Seq<Seq<u8>>, int)>
    decreases s.len() - p,
        when 0 <= p <= s.len()
        via spec_format_list_decreases
{
    let w = ws_run_end(s, p);
    if w == p {
        Some((Seq::empty(), p))
    } else {
        let e = token_run_end(s, w);
        if e == w {
            None
        } else {
            match spec_format_list(s, e) {
                Some((rest, end)) => Some((seq![s.subrange(w, e)] + rest, end)),
                None => None,
            }
        }
    }
}

#[via_fn]
proof fn spec_format_list_decreases(s: Seq<u8>, p: int) {
    crate::prim::lemma_ws_run_end(s, p);
    let w = ws_run_end(s, p);
    if w != p {
        crate::prim::lemma_token_run_end(s, w);
    }
}

/// What an `m=` line at `i` denotes: the cursor after the terminator, or
/// nothing when the line is malformed (a zero port count included).
pub open spec fn spec_media_line(s: Seq<u8>, i: int, lenient: bool) -> Option<int> {
    match spec_media_head(s, i) {
        Some((mt, port, pc, after)) => if pc == Some(0int) {
            None
        } else {
            let w2 = ws_run_end(s, after);
            if w2 == after {
                None
            } else {
                let pt = token_run_end(s, w2);
                if pt == w2 {
                    None
                } else {
                    match spec_proto_scan(s, pt) {
                        Some(pe) => match spec_format_list(s, pe) {
                            Some((fs, fe)) => if fs.len() == 0 {
                                None
                            } else {
                                match line_end_at(s, fe, lenient) {
                                    Some(j) => Some(j),
                                    None => None,
                                }
                            },
                            None => None,
                        },
                        None => None,
                    }
                }
            }
        },
        None => None,
    }
}

/// Reads one `m=` line at `i`:
/// `m=<media> <port>[/<number of ports>] <proto> <fmt> ...`.
///
/// The media type, port and port count are pinned by the head of the
/// line; the protocol is the following slash-joined token text, and at
/// least one format token follows it. A declared port count of zero is
/// rejected with `ZeroPortCount`. Succeeds exactly when the line is
/// well-formed.
pub fn parse_media_at(s: &[u8], i: usize, lenient: bool) -> (r: Result<
    (MediaDescription, usize),
    Fail,
>)
    requires
        i <= s@.len(),
    ensures
        r is Ok <==> spec_media_line(s@, i as int, lenient) is Some,
        r matches Ok(p) ==> spec_media_line(s@, i as int, lenient) == Some(p.1 as int),
        ({
            let h = spec_media_head(s@, i as int);
            match r {
                Ok((m, j)) => h is Some && i < j <= s@.len() && (!lenient ==> j >= 2 && s@[j
                    - 2] == 0x0d && s@[j - 1] == 0x0a) && {
                    let (mt, port, pc, after) = h.unwrap();
                    &&& media_type_matches(m.media_type, mt)
                    &&& m.port == port
                    &&& (match pc {
                        Some(n) => m.port_count == n && n >= 1,
                        None => m.port_count == 1,
                    })
                    &&& m.proto@.len() > 0
                    &&& ({
                        let w2 = ws_run_end(s@, after);
                        let pe = proto_run_end(s@, w2);
                        &&& m.proto@ == s@.subrange(w2, pe)
                        &&& {
                            let fl = spec_format_list(s@, pe);
                            &&& fl is Some
                            &&& m.formats@.map_values(|f: Vec<u8>| f@) =~= fl.unwrap().0
                            &&& line_end_at(s@, fl.unwrap().1, lenient) == Some(j as int)
                        }
                    })
                    &&& m.formats@.len() >= 1
                    &&& forall|k: int|
                        0 <= k < m.formats@.len() ==> (#[trigger] m.formats@[k])@.len() > 0
                    &&& m.title is None
                    &&& m.connections@.len() == 0
                    &&& m.bandwidths@.len() == 0
                    &&& m.encryption_key is None
                    &&& m.attributes@.len() == 0
                },
                Err(f) => {
                    &&& (f.kind == ErrorKind::ZeroPortCount ==> h is Some && h.unwrap().2 == Some(
                        0int,
                    ))
                    &&& (f.kind == ErrorKind::ExpectedLiteral || f.kind == ErrorKind::ExpectedDigit
                        || f.kind == ErrorKind::Overflow || f.kind == ErrorKind::UnterminatedLine
                        || f.kind == ErrorKind::ZeroPortCount)
                },
            }
        }),
{
    if !(s.len() - i >= 2 && s[i] == 0x6d && s[i + 1] == 0x3d) {
        return Err(Fail { kind: ErrorKind::ExpectedLiteral, at: i });
    }
    let (mt_tok, t1) = match token(s, i + 2) {
        Ok(p) => p,
        Err(f) => {
            return Err(f);
        },
    };
    let w1 = match whitespace(s, t1) {
        Ok(p) => p,
        Err(f) => {
            return Err(f);
        },
    };
    let (port, d1) = match digits_u16(s, w1) {
        Ok(p) => p,
        Err(f) => {
            return Err(f);
        },
    };
    let mut port_count: u16 = 1;
    let mut p: usize = d1;
    if p < s.len() && s[p] == 0x2f {
        let (pc, q) = match digits_u16(s, p + 1) {
            Ok(x) => x,
            Err(f) => {
                return Err(f);
            },
        };
        if pc == 0 {
            return Err(Fail { kind: ErrorKind::ZeroPortCount, at: p + 1 });
        }
        port_count = pc;
        p = q;
    }
    let w2 = match whitespace(s, p) {
        Ok(x) => x,
        Err(f) => {
            return Err(f);
        },
    };
    // proto: one or more tokens joined by `/`
    let (_, mut pp) = match token(s, w2) {
        Ok(x) => x,
        Err(f) => {
            return Err(f);
        },
    };
    let ghost pt0 = pp as int;
    proof {
        crate::prim::lemma_token_run_end(s@, w2 as int);
        lemma_proto_run_skip(s@, w2 as int, pp as int);
        assert(spec_proto_scan(s@, pt0) is None ==> spec_media_line(s@, i as int, lenient)
            is None);
    }
    loop
        invariant
            w2 < pp <= s@.len(),
            proto_run_end(s@, w2 as int) == proto_run_end(s@, pp as int),
            spec_proto_scan(s@, pt0) == spec_proto_scan(s@, pp as int),
            spec_proto_scan(s@, pt0) is None ==> spec_media_line(s@, i as int, lenient) is None,
            pp == s@.len() || !crate::prim::is_token_byte(s@[pp as int]),
        ensures
            !(pp < s@.len() && s@[pp as int] == 0x2f),
        decreases s@.len() - pp,
    {
        if pp < s.len() && s[pp] == 0x2f {
            let (_, q) = match token(s, pp + 1) {
                Ok(x) => x,
                Err(f) => {
                    return Err(f);
                },
            };
            proof {
                assert(proto_run_end(s@, pp as int) == proto_run_end(s@, pp + 1));
                crate::prim::lemma_token_run_end(s@, pp + 1);
                lemma_proto_run_skip(s@, pp + 1, q as int);
            }
            pp = q;
        } else {
            break;
        }
    }
    proof {
        assert(proto_run_end(s@, pp as int) == pp as int);
        assert(pp == proto_run_end(s@, w2 as int));
    }
    let proto = take_range(s, w2, pp);
    // formats: one or more tokens separated by whitespace
    let mut formats: Vec<Vec<u8>> = Vec::new();
    let mut fp: usize = pp;
    proof {
        assert(spec_format_list(s@, pp as int) is None ==> spec_media_line(s@, i as int, lenient)
            is None);
    }
    loop
        invariant
            i < fp <= s@.len(),
            spec_format_list(s@, pp as int) is None ==> spec_media_line(s@, i as int, lenient)
                is None,
            forall|k: int| 0 <= k < formats@.len() ==> (#[trigger] formats@[k])@.len() > 0,
            spec_format_list(s@, pp as int) is Some <==> spec_format_list(s@, fp as int) is Some,
            spec_format_list(s@, fp as int) matches Some(rest) ==> (spec_format_list(s@, pp as int)
                matches Some(whole) && whole.0 =~= formats@.map_values(|f: Vec<u8>| f@) + rest.0
                && whole.1 == rest.1),
        ensures
            ws_run_end(s@, fp as int) == fp,
        decreases s@.len() - fp,
    {
        let w = match whitespace(s, fp) {
            Ok(x) => x,
            Err(_) => {
                break;
            },
        };
        let (fmt, q) = match token(s, w) {
            Ok(x) => x,
            Err(f) => {
                return Err(f);
            },
        };
        proof {
            assert(formats@.push(fmt).map_values(|f: Vec<u8>| f@) =~= formats@.map_values(
                |f: Vec<u8>| f@,
            ).push(fmt@));
        }
        formats.push(fmt);
        fp = q;
    }
    if formats.len() == 0 {
        return Err(Fail { kind: ErrorKind::ExpectedLiteral, at: fp });
    }
    let j = match line_end(s, fp, lenient) {
        Ok(x) => x,
        Err(f) => {
            return Err(f);
        },
    };
    let media_type = if mt_tok.len() == 5 && mt_tok[0] == 0x61 && mt_tok[1] == 0x75 && mt_tok[2]
        == 0x64 && mt_tok[3] == 0x69 && mt_tok[4] == 0x6f {
        MediaType::Audio
    } else if mt_tok.len() == 5 && mt_tok[0] == 0x76 && mt_tok[1] == 0x69 && mt_tok[2] == 0x64
        && mt_tok[3] == 0x65 && mt_tok[4] == 0x6f {
        MediaType::Video
    } else if mt_tok.len() == 4 && mt_tok[0] == 0x74 && mt_tok[1] == 0x65 && mt_tok[2] == 0x78
        && mt_tok[3] == 0x74 {
        MediaType::Text
    } else if mt_tok.len() == 11 && mt_tok[0] == 0x61 && mt_tok[1] == 0x70 && mt_tok[2] == 0x70
        && mt_tok[3] == 0x6c && mt_tok[4] == 0x69 && mt_tok[5] == 0x63 && mt_tok[6] == 0x61
        && mt_tok[7] == 0x74 && mt_tok[8] == 0x69 && mt_tok[9] == 0x6f && mt_tok[10] == 0x6e {
        MediaType::Application
    } else if mt_tok.len() == 7 && mt_tok[0] == 0x6d && mt_tok[1] == 0x65 && mt_tok[2] == 0x73
        && mt_tok[3] == 0x73 && mt_tok[4] == 0x61 && mt_tok[5] == 0x67 && mt_tok[6] == 0x65 {
        MediaType::Message
    } else {
        MediaType::Other(mt_tok)
    };
    Ok((
        MediaDescription {
            media_type,
            port,
            port_count,
            proto,
            formats,
            title: None,
            connections: Vec::new(),
            bandwidths: Vec::new(),
            encryption_key: None,
            attributes: Vec::new(),
        },
        j,
    ))
}

} // verus!
