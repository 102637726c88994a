//! IP address literals: IPv4 dotted-quad and the RFC 4291 textual IPv6
//! form, including `::` compression and an embedded IPv4 trailer. The
//! parser models an address as its numeric parts, so that the logic that
//! reads them is plain data.

use vstd::prelude::*;

use crate::error::{ErrorKind, Fail};
use crate::prim::{
    digit_run_end, digits_value, digits_u8, hex_digits_value, hex_run_end, is_digit,
    is_hex_digit, lemma_digit_run_end, lemma_hex_run_end,
};

verus! {

/// An IP address as numeric parts: four octets, or eight 16-bit groups.
#[derive(Debug, PartialEq, Eq, Structural, Clone, Copy)]
pub enum IpAddress {
    V4(u8, u8, u8, u8),
    V6(u16, u16, u16, u16, u16, u16, u16, u16),
}

/// What an IPv4 dotted-quad at `i` denotes: the address and the cursor
/// after its last digit. Each octet is a maximal digit run valued at most
/// 255; runs are separated by single dots.
pub open spec fn spec_ipv4(s: Seq<u8>, i: int) -> Option<(IpAddress, int)> {
    let e1 = digit_run_end(s, i);
    if e1 == i || digits_value(s.subrange(i, e1)) > 255 || !(e1 < s.len() && s[e1] == 0x2e) {
        None
    } else {
        let i2 = e1 + 1;
        let e2 = digit_run_end(s, i2);
        if e2 == i2 || digits_value(s.subrange(i2, e2)) > 255 || !(e2 < s.len() && s[e2]
            == 0x2e) {
            None
        } else {
            let i3 = e2 + 1;
            let e3 = digit_run_end(s, i3);
            if e3 == i3 || digits_value(s.subrange(i3, e3)) > 255 || !(e3 < s.len() && s[e3]
                == 0x2e) {
                None
            } else {
                let i4 = e3 + 1;
                let e4 = digit_run_end(s, i4);
                if e4 == i4 || digits_value(s.subrange(i4, e4)) > 255 {
                    None
                } else {
                    Some(
                        (
                            IpAddress::V4(
                                digits_value(s.subrange(i, e1)) as u8,
                                digits_value(s.subrange(i2, e2)) as u8,
                                digits_value(s.subrange(i3, e3)) as u8,
                                digits_value(s.subrange(i4, e4)) as u8,
                            ),
                            e4,
                        ),
                    )
                }
            }
        }
    }
}

/// Every byte of a dotted-quad is a digit or a dot.
pub proof fn lemma_ipv4_bytes(s: Seq<u8>, i: int)
    requires
        0 <= i <= s.len(),
        spec_ipv4(s, i) is Some,
    ensures
        i <= spec_ipv4(s, i).unwrap().1 <= s.len(),
        forall|k: int|
            i <= k < spec_ipv4(s, i).unwrap().1 ==> is_digit(#[trigger] s[k]) || s[k] == 0x2e,
{
    let e1 = digit_run_end(s, i);
    lemma_digit_run_end(s, i);
    let i2 = e1 + 1;
    let e2 = digit_run_end(s, i2);
    lemma_digit_run_end(s, i2);
    let i3 = e2 + 1;
    let e3 = digit_run_end(s, i3);
    lemma_digit_run_end(s, i3);
    let i4 = e3 + 1;
    let e4 = digit_run_end(s, i4);
    lemma_digit_run_end(s, i4);
    assert forall|k: int| i <= k < e4 implies is_digit(#[trigger] s[k]) || s[k] == 0x2e by {
        if k < e1 {
        } else if k == e1 {
        } else if k < e2 {
        } else if k == e2 {
        } else if k < e3 {
        } else if k == e3 {
        }
    }
}

/// Reads an IPv4 dotted-quad at `i`.
pub fn parse_ipv4_at(s: &[u8], i: usize) -> (r: Result<(IpAddress, usize), Fail>)
    requires
        i <= s@.len(),
    ensures
        match r {
            Ok((a, j)) => spec_ipv4(s@, i as int) == Some((a, j as int)) && i < j <= s@.len(),
            Err(f) => spec_ipv4(s@, i as int) is None && f.kind == ErrorKind::BadAddress,
        },
{
    let (a, p1) = match digits_u8(s, i) {
        Ok(p) => p,
        Err(_) => {
            return Err(Fail { kind: ErrorKind::BadAddress, at: i });
        },
    };
    if !(p1 < s.len() && s[p1] == 0x2e) {
        return Err(Fail { kind: ErrorKind::BadAddress, at: i });
    }
    let (b, p2) = match digits_u8(s, p1 + 1) {
        Ok(p) => p,
        Err(_) => {
            return Err(Fail { kind: ErrorKind::BadAddress, at: i });
        },
    };
    if !(p2 < s.len() && s[p2] == 0x2e) {
        return Err(Fail { kind: ErrorKind::BadAddress, at: i });
    }
    let (c, p3) = match digits_u8(s, p2 + 1) {
        Ok(p) => p,
        Err(_) => {
            return Err(Fail { kind: ErrorKind::BadAddress, at: i });
        },
    };
    if !(p3 < s.len() && s[p3] == 0x2e) {
        return Err(Fail { kind: ErrorKind::BadAddress, at: i });
    }
    let (d, p4) = match digits_u8(s, p3 + 1) {
        Ok(p) => p,
        Err(_) => {
            return Err(Fail { kind: ErrorKind::BadAddress, at: i });
        },
    };
    Ok((IpAddress::V4(a, b, c, d), p4))
}

/// Reads one hexadecimal group of one to four digits ending at the given
/// run end.
fn hex_group(s: &[u8], i: usize, e: usize) -> (v: u16)
    requires
        i <= s@.len(),
        e == hex_run_end(s@, i as int),
        i < e <= s@.len(),
        e - i <= 4,
    ensures
        v == hex_digits_value(s@.subrange(i as int, e as int)),
{
    proof {
        lemma_hex_run_end(s@, i as int);
    }
    let mut k: usize = i;
    let mut v: u16 = 0;
    while k < e
        invariant
            i <= k <= e <= s@.len(),
            e - i <= 4,
            forall|m: int| i <= m < e ==> is_hex_digit(s@[m]),
            v == hex_digits_value(s@.subrange(i as int, k as int)),
            k - i == 0 ==> v == 0,
            k - i == 1 ==> v <= 0xf,
            k - i == 2 ==> v <= 0xff,
            k - i == 3 ==> v <= 0xfff,
        decreases e - k,
    {
        let b = s[k];
        let d: u16 = if 0x30 <= b && b <= 0x39 {
            (b - 0x30) as u16
        } else if 0x41 <= b && b <= 0x46 {
            (b - 0x41 + 10) as u16
        } else {
            (b - 0x61 + 10) as u16
        };
        proof {
            assert(s@.subrange(i as int, k + 1).drop_last() =~= s@.subrange(i as int, k as int));
        }
        v = v * 16 + d;
        k += 1;
    }
    v
}

/// Whether eight groups assemble from `head`, then zeros, then `tail`.
pub open spec fn spec_v6_assembles(
    head: Seq<u16>,
    tail: Seq<u16>,
    a: IpAddress,
) -> bool {
    let pad = 8 - head.len() - tail.len();
    let g = head + Seq::new(pad as nat, |k: int| 0u16) + tail;
    g.len() == 8 && a == IpAddress::V6(g[0], g[1], g[2], g[3], g[4], g[5], g[6], g[7])
}

/// Builds the address out of the groups before and after a `::` gap.
fn assemble_v6(head: &Vec<u16>, tail: &Vec<u16>) -> (r: IpAddress)
    requires
        head@.len() + tail@.len() <= 8,
    ensures
        spec_v6_assembles(head@, tail@, r),
{
    let mut g: Vec<u16> = Vec::new();
    let mut k: usize = 0;
    while k < head.len()
        invariant
            0 <= k <= head@.len(),
            g@ =~= head@.subrange(0, k as int),
        decreases head@.len() - k,
    {
        g.push(head[k]);
        proof {
            assert(g@ =~= head@.subrange(0, k + 1));
        }
        k += 1;
    }
    assert(g@ =~= head@);
    while g.len() < 8 - tail.len()
        invariant
            head@.len() + tail@.len() <= 8,
            head@.len() <= g@.len() <= 8 - tail@.len(),
            g@.subrange(0, head@.len() as int) =~= head@,
            forall|m: int| head@.len() <= m < g@.len() ==> g@[m] == 0u16,
        decreases 8 - tail@.len() - g@.len(),
    {
        g.push(0u16);
    }
    let mut k2: usize = 0;
    while k2 < tail.len()
        invariant
            head@.len() + tail@.len() <= 8,
            g@.len() == 8 - tail@.len() + k2,
            0 <= k2 <= tail@.len(),
            g@.subrange(0, head@.len() as int) =~= head@,
            forall|m: int| head@.len() <= m < 8 - tail@.len() ==> g@[m] == 0u16,
            g@.subrange(8 - tail@.len(), g@.len() as int) =~= tail@.subrange(0, k2 as int),
        decreases tail@.len() - k2,
    {
        g.push(tail[k2]);
        proof {
            assert(g@.subrange(0, head@.len() as int) =~= head@);
            assert(g@.subrange(8 - tail@.len(), g@.len() as int) =~= tail@.subrange(
                0,
                k2 + 1,
            ));
        }
        k2 += 1;
    }
    proof {
        let h = head@.len() as int;
        let t = tail@.len() as int;
        let pad = 8 - h - t;
        let spec_g = head@ + Seq::new(pad as nat, |m: int| 0u16) + tail@;
        assert(g@.len() == 8);
        assert(spec_g.len() == 8);
        assert forall|m: int| 0 <= m < 8 implies g@[m] == spec_g[m] by {
            if m < h {
                assert(g@.subrange(0, h)[m] == g@[m]);
                assert(spec_g[m] == head@[m]);
            } else if m < 8 - t {
                assert(spec_g[m] == Seq::new(pad as nat, |n: int| 0u16)[m - h]);
            } else {
                assert(g@.subrange(8 - t, 8)[m - (8 - t)] == g@[m]);
                assert(tail@.subrange(0, t)[m - (8 - t)] == tail@[m - (8 - t)]);
                assert(spec_g[m] == tail@[m - (8 - t)]);
            }
        };
        assert(g@ =~= spec_g);
    }
    IpAddress::V6(g[0], g[1], g[2], g[3], g[4], g[5], g[6], g[7])
}

/// A byte that may stand in an IPv6 textual address: a hex digit, `:`
/// or `.`.
pub open spec fn is_v6_byte(b: u8) -> bool {
    is_hex_digit(b) || b == 0x3a || b == 0x2e
}

/// One step at a time through the groups of an IPv6 literal: the groups
/// read before and after the `::` gap so far, whether a gap was seen, and
/// the cursor. Yields the final state, or nothing when the text is not a
/// well-formed group sequence.
pub open spec fn spec_v6_scan(s: Seq<u8>, p: int, head: Seq<u16>, tail: Seq<u16>, gap: bool) -> Option<
    (Seq<u16>, Seq<u16>, bool, int),
>
    decreases s.len() - p,
        when 0 <= p <= s.len()
        via spec_v6_scan_decreases
{
    if head.len() + tail.len() >= 8 || (gap && head.len() + tail.len() >= 7) {
        Some((head, tail, gap, p))
    } else if p >= s.len() {
        Some((head, tail, gap, p))
    } else {
        let e = hex_run_end(s, p);
        if e == p {
            Some((head, tail, gap, p))
        } else if e < s.len() && s[e] == 0x2e {
            if head.len() + tail.len() > 6 || (gap && head.len() + tail.len() > 5) {
                None
            } else {
                match spec_ipv4(s, p) {
                    Some((quad, q)) => match quad {
                        IpAddress::V4(a, b, c, d) => if gap {
                            Some(
                                (
                                    head,
                                    tail + seq![(a * 256 + b) as u16, (c * 256 + d) as u16],
                                    gap,
                                    q,
                                ),
                            )
                        } else {
                            Some(
                                (
                                    head + seq![(a * 256 + b) as u16, (c * 256 + d) as u16],
                                    tail,
                                    gap,
                                    q,
                                ),
                            )
                        },
                        IpAddress::V6(..) => None,
                    },
                    None => None,
                }
            }
        } else if e - p > 4 {
            None
        } else {
            let head2 = if gap {
                head
            } else {
                head.push(hex_digits_value(s.subrange(p, e)) as u16)
            };
            let tail2 = if gap {
                tail.push(hex_digits_value(s.subrange(p, e)) as u16)
            } else {
                tail
            };
            if e + 2 <= s.len() && s[e] == 0x3a && s[e + 1] == 0x3a {
                if gap || head2.len() >= 8 {
                    None
                } else {
                    spec_v6_scan(s, e + 2, head2, tail2, true)
                }
            } else if e < s.len() && s[e] == 0x3a {
                if e + 1 >= s.len() || hex_run_end(s, e + 1) == e + 1 {
                    None
                } else {
                    spec_v6_scan(s, e + 1, head2, tail2, gap)
                }
            } else {
                Some((head2, tail2, gap, e))
            }
        }
    }
}

#[via_fn]
proof fn spec_v6_scan_decreases(s: Seq<u8>, p: int, head: Seq<u16>, tail: Seq<u16>, gap: bool) {
    lemma_hex_run_end(s, p);
}

/// What an IPv6 textual address at `i` denotes: the address and the
/// cursor after its last byte. Without a `::` gap exactly eight groups
/// must be present; with one, at most seven, the rest zeros.
pub open spec fn spec_ipv6(s: Seq<u8>, i: int) -> Option<(IpAddress, int)> {
    let lead = i + 2 <= s.len() && s[i] == 0x3a && s[i + 1] == 0x3a;
    let start = if lead {
        i + 2
    } else {
        i
    };
    match spec_v6_scan(s, start, Seq::<u16>::empty(), Seq::<u16>::empty(), lead) {
        Some((head, tail, gap, p)) => {
            let total = head.len() + tail.len();
            if (if gap {
                total <= 7
            } else {
                total == 8
            }) && p != i {
                let pad = 8 - total;
                let g = head + Seq::new(pad as nat, |k: int| 0u16) + tail;
                Some((IpAddress::V6(g[0], g[1], g[2], g[3], g[4], g[5], g[6], g[7]), p))
            } else {
                None
            }
        },
        None => None,
    }
}

/// Reads an IPv6 textual address at `i`: hex groups separated by `:`, at
/// most one `::` gap standing for one or more zero groups, and optionally
/// a trailing embedded IPv4 dotted-quad standing for the last two groups.
///
/// On success the cursor stops after the last byte of the address; the
/// result is always a `V6` value built from the groups read.
pub fn parse_ipv6_at(s: &[u8], i: usize) -> (r: Result<(IpAddress, usize), Fail>)
    requires
        i <= s@.len(),
    ensures
        match r {
            Ok((a, j)) => spec_ipv6(s@, i as int) == Some((a, j as int)) && i < j <= s@.len()
                && (forall|k: int| i <= k < j ==> is_v6_byte(#[trigger] s@[k])),
            Err(f) => spec_ipv6(s@, i as int) is None && f.kind == ErrorKind::BadAddress,
        },
{
    let mut head: Vec<u16> = Vec::new();
    let mut tail: Vec<u16> = Vec::new();
    let mut gap = false;
    let mut p: usize = i;
    if s.len() - p >= 2 && s[p] == 0x3a && s[p + 1] == 0x3a {
        gap = true;
        p += 2;
    }
    let ghost lead = gap;
    let ghost start = p as int;
    loop
        invariant_except_break
            spec_v6_scan(s@, start, Seq::<u16>::empty(), Seq::<u16>::empty(), lead)
                == spec_v6_scan(s@, p as int, head@, tail@, gap),
        invariant
            i <= p <= s@.len(),
            start <= p,
            head@.len() + tail@.len() <= 8,
            gap ==> head@.len() + tail@.len() <= 7,
            !gap ==> tail@.len() == 0,
            forall|k: int| i <= k < p ==> is_v6_byte(#[trigger] s@[k]),
            lead == (i + 2 <= s@.len() && s@[i as int] == 0x3a && s@[i + 1] == 0x3a),
            start == if lead {
                i + 2
            } else {
                i as int
            },
        ensures
            spec_v6_scan(s@, start, Seq::<u16>::empty(), Seq::<u16>::empty(), lead) == Some(
                (head@, tail@, gap, p as int),
            ),
        decreases s@.len() - p,
    {
        let ghost h_at = head@;
        let ghost t_at = tail@;
        let ghost p_at = p as int;
        let count = head.len() + tail.len();
        if count >= 8 || (gap && count >= 7) {
            proof {
                assert(spec_v6_scan(s@, p_at, h_at, t_at, gap) == Some((h_at, t_at, gap, p_at)));
            }
            break;
        }
        if p >= s.len() {
            proof {
                assert(spec_v6_scan(s@, p_at, h_at, t_at, gap) == Some((h_at, t_at, gap, p_at)));
            }
            break;
        }
        let e = hex_run_end_exec(s, p);
        if e == p {
            proof {
                assert(spec_v6_scan(s@, p_at, h_at, t_at, gap) == Some((h_at, t_at, gap, p_at)));
            }
            break;
        }
        if e < s.len() && s[e] == 0x2e {
            // an embedded IPv4 trailer: the last two groups
            if count > 6 || (gap && count > 5) {
                proof {
                    assert(spec_v6_scan(s@, p_at, h_at, t_at, gap) is None);
                }
                return Err(Fail { kind: ErrorKind::BadAddress, at: i });
            }
            let (quad, q) = match parse_ipv4_at(s, p) {
                Ok(x) => x,
                Err(_) => {
                    proof {
                        assert(spec_v6_scan(s@, p_at, h_at, t_at, gap) is None);
                    }
                    return Err(Fail { kind: ErrorKind::BadAddress, at: i });
                },
            };
            proof {
                lemma_ipv4_bytes(s@, p as int);
            }
            let (a, b, c, d) = match quad {
                IpAddress::V4(a, b, c, d) => (a, b, c, d),
                IpAddress::V6(..) => {
                    proof {
                        assert(spec_v6_scan(s@, p_at, h_at, t_at, gap) is None);
                    }
                    return Err(Fail { kind: ErrorKind::BadAddress, at: i });
                },
            };
            let hi: u16 = (a as u16) * 256 + (b as u16);
            let lo: u16 = (c as u16) * 256 + (d as u16);
            if gap {
                tail.push(hi);
                tail.push(lo);
            } else {
                head.push(hi);
                head.push(lo);
            }
            p = q;
            proof {
                if gap {
                    assert(tail@ =~= t_at + seq![hi, lo]);
                } else {
                    assert(head@ =~= h_at + seq![hi, lo]);
                }
                assert(spec_v6_scan(s@, p_at, h_at, t_at, gap) == Some(
                    (head@, tail@, gap, p as int),
                ));
            }
            break;
        }
        if e - p > 4 {
            proof {
                assert(spec_v6_scan(s@, p_at, h_at, t_at, gap) is None);
            }
            return Err(Fail { kind: ErrorKind::BadAddress, at: i });
        }
        proof {
            lemma_hex_run_end(s@, p as int);
        }
        let v = hex_group(s, p, e);
        if gap {
            tail.push(v);
        } else {
            head.push(v);
        }
        p = e;
        if s.len() - p >= 2 && s[p] == 0x3a && s[p + 1] == 0x3a {
            if gap || head.len() >= 8 {
                proof {
                    assert(spec_v6_scan(s@, p_at, h_at, t_at, gap) is None);
                }
                return Err(Fail { kind: ErrorKind::BadAddress, at: i });
            }
            gap = true;
            p += 2;
        } else if p < s.len() && s[p] == 0x3a {
            p += 1;
            // a single colon must be followed by another group
            if p >= s.len() {
                proof {
                    assert(spec_v6_scan(s@, p_at, h_at, t_at, gap) is None);
                }
                return Err(Fail { kind: ErrorKind::BadAddress, at: i });
            }
            if hex_run_end_exec(s, p) == p {
                proof {
                    assert(spec_v6_scan(s@, p_at, h_at, t_at, gap) is None);
                }
                return Err(Fail { kind: ErrorKind::BadAddress, at: i });
            }
        } else {
            proof {
                assert(spec_v6_scan(s@, p_at, h_at, t_at, gap) == Some(
                    (head@, tail@, gap, p as int),
                ));
            }
            break;
        }
    }
    let total = head.len() + tail.len();
    if gap {
        if total > 7 {
            return Err(Fail { kind: ErrorKind::BadAddress, at: i });
        }
    } else {
        if total != 8 {
            return Err(Fail { kind: ErrorKind::BadAddress, at: i });
        }
    }
    if p == i {
        return Err(Fail { kind: ErrorKind::BadAddress, at: i });
    }
    let addr = assemble_v6(&head, &tail);
    proof {
        let pad = 8 - head@.len() - tail@.len();
        let g = head@ + Seq::new(pad as nat, |k: int| 0u16) + tail@;
        assert(addr == IpAddress::V6(g[0], g[1], g[2], g[3], g[4], g[5], g[6], g[7]));
        assert(spec_ipv6(s@, i as int) == Some((addr, p as int)));
    }
    Ok((addr, p))
}

/// Finds the end of the maximal hex-digit run at `i`.
fn hex_run_end_exec(s: &[u8], i: usize) -> (j: usize)
    requires
        i <= s@.len(),
    ensures
        j == hex_run_end(s@, i as int),
        i <= j <= s@.len(),
{
    proof {
        lemma_hex_run_end(s@, i as int);
    }
    let mut j: usize = i;
    while j < s.len() && ((0x30 <= s[j] && s[j] <= 0x39) || (0x41 <= s[j] && s[j] <= 0x46) || (0x61
        <= s[j] && s[j] <= 0x66))
        invariant
            i <= j <= s@.len(),
            hex_run_end(s@, j as int) == hex_run_end(s@, i as int),
        decreases s@.len() - j,
    {
        j += 1;
    }
    j
}

} // verus!
