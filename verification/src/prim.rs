//! Primitive parsers: byte classes, maximal-munch runs, decimal numbers,
//! whitespace, line terminators and rest-of-line. Every parser is a pure
//! function from an input buffer and a cursor to a new cursor and a value,
//! or a failure; all of them are maximal-munch.

use vstd::prelude::*;

use crate::error::{ErrorKind, Fail};

verus! {

pub const SP: u8 = 0x20;
pub const HTAB: u8 = 0x09;
pub const CR: u8 = 0x0d;
pub const LF: u8 = 0x0a;

pub open spec fn is_digit(b: u8) -> bool {
    0x30 <= b && b <= 0x39
}

pub open spec fn is_alpha(b: u8) -> bool {
    (0x41 <= b && b <= 0x5a) || (0x61 <= b && b <= 0x7a)
}

pub open spec fn is_alnum(b: u8) -> bool {
    is_digit(b) || is_alpha(b)
}

/// Bytes permitted in a token: letters, digits and `-`.
pub open spec fn is_token_byte(b: u8) -> bool {
    is_alnum(b) || b == 0x2d
}

/// SP or HTAB.
pub open spec fn is_ws(b: u8) -> bool {
    b == SP || b == HTAB
}

/// Any byte that may stand inside a line body: everything but CR and LF.
pub open spec fn is_line_byte(b: u8) -> bool {
    b != CR && b != LF
}

pub open spec fn is_hex_digit(b: u8) -> bool {
    is_digit(b) || (0x41 <= b && b <= 0x46) || (0x61 <= b && b <= 0x66)
}

pub open spec fn hex_value(b: u8) -> int {
    if is_digit(b) {
        b - 0x30
    } else if 0x41 <= b && b <= 0x46 {
        b - 0x41 + 10
    } else {
        b - 0x61 + 10
    }
}

/// First index at or after `i` that does not hold a decimal digit.
pub open spec fn digit_run_end(s: Seq<u8>, i: int) -> int
    decreases s.len() - i,
{
    if 0 <= i && i < s.len() && is_digit(s[i]) {
        digit_run_end(s, i + 1)
    } else {
        i
    }
}

/// First index at or after `i` that does not hold a token byte.
pub open spec fn token_run_end(s: Seq<u8>, i: int) -> int
    decreases s.len() - i,
{
    if 0 <= i && i < s.len() && is_token_byte(s[i]) {
        token_run_end(s, i + 1)
    } else {
        i
    }
}

/// First index at or after `i` that does not hold SP or HTAB.
pub open spec fn ws_run_end(s: Seq<u8>, i: int) -> int
    decreases s.len() - i,
{
    if 0 <= i && i < s.len() && is_ws(s[i]) {
        ws_run_end(s, i + 1)
    } else {
        i
    }
}

/// First index at or after `i` that holds CR, LF, or the end of the input.
pub open spec fn line_run_end(s: Seq<u8>, i: int) -> int
    decreases s.len() - i,
{
    if 0 <= i && i < s.len() && is_line_byte(s[i]) {
        line_run_end(s, i + 1)
    } else {
        i
    }
}

/// First index at or after `i` that does not hold a hex digit.
pub open spec fn hex_run_end(s: Seq<u8>, i: int) -> int
    decreases s.len() - i,
{
    if 0 <= i && i < s.len() && is_hex_digit(s[i]) {
        hex_run_end(s, i + 1)
    } else {
        i
    }
}

pub proof fn lemma_digit_run_end(s: Seq<u8>, i: int)
    requires
        0 <= i <= s.len(),
    ensures
        i <= digit_run_end(s, i) <= s.len(),
        forall|k: int| i <= k < digit_run_end(s, i) ==> is_digit(s[k]),
        digit_run_end(s, i) == s.len() || !is_digit(s[digit_run_end(s, i)]),
    decreases s.len() - i,
{
    if i < s.len() && is_digit(s[i]) {
        lemma_digit_run_end(s, i + 1);
    }
}

pub proof fn lemma_token_run_end(s: Seq<u8>, i: int)
    requires
        0 <= i <= s.len(),
    ensures
        i <= token_run_end(s, i) <= s.len(),
        forall|k: int| i <= k < token_run_end(s, i) ==> is_token_byte(s[k]),
        token_run_end(s, i) == s.len() || !is_token_byte(s[token_run_end(s, i)]),
    decreases s.len() - i,
{
    if i < s.len() && is_token_byte(s[i]) {
        lemma_token_run_end(s, i + 1);
    }
}

pub proof fn lemma_ws_run_end(s: Seq<u8>, i: int)
    requires
        0 <= i <= s.len(),
    ensures
        i <= ws_run_end(s, i) <= s.len(),
        forall|k: int| i <= k < ws_run_end(s, i) ==> is_ws(s[k]),
        ws_run_end(s, i) == s.len() || !is_ws(s[ws_run_end(s, i)]),
    decreases s.len() - i,
{
    if i < s.len() && is_ws(s[i]) {
        lemma_ws_run_end(s, i + 1);
    }
}

pub proof fn lemma_line_run_end(s: Seq<u8>, i: int)
    requires
        0 <= i <= s.len(),
    ensures
        i <= line_run_end(s, i) <= s.len(),
        forall|k: int| i <= k < line_run_end(s, i) ==> is_line_byte(s[k]),
        line_run_end(s, i) == s.len() || !is_line_byte(s[line_run_end(s, i)]),
    decreases s.len() - i,
{
    if i < s.len() && is_line_byte(s[i]) {
        lemma_line_run_end(s, i + 1);
    }
}

pub proof fn lemma_hex_run_end(s: Seq<u8>, i: int)
    requires
        0 <= i <= s.len(),
    ensures
        i <= hex_run_end(s, i) <= s.len(),
        forall|k: int| i <= k < hex_run_end(s, i) ==> is_hex_digit(s[k]),
        hex_run_end(s, i) == s.len() || !is_hex_digit(s[hex_run_end(s, i)]),
    decreases s.len() - i,
{
    if i < s.len() && is_hex_digit(s[i]) {
        lemma_hex_run_end(s, i + 1);
    }
}

/// The number denoted by a sequence of decimal digit bytes, most significant
/// first.
pub open spec fn digits_value(s: Seq<u8>) -> int
    decreases s.len(),
{
    if s.len() == 0 {
        0
    } else {
        digits_value(s.drop_last()) * 10 + (s.last() - 0x30)
    }
}

/// The number denoted by a sequence of hex digit bytes, most significant
/// first.
pub open spec fn hex_digits_value(s: Seq<u8>) -> int
    decreases s.len(),
{
    if s.len() == 0 {
        0
    } else {
        hex_digits_value(s.drop_last()) * 16 + hex_value(s.last())
    }
}

pub proof fn lemma_digits_value_nonneg(s: Seq<u8>)
    requires
        forall|k: int| 0 <= k < s.len() ==> is_digit(s[k]),
    ensures
        digits_value(s) >= 0,
    decreases s.len(),
{
    if s.len() > 0 {
        lemma_digits_value_nonneg(s.drop_last());
    }
}

/// Extending a digit run never shrinks its value.
pub proof fn lemma_digits_value_extend(s: Seq<u8>, i: int, j: int, k: int)
    requires
        0 <= i <= j <= k <= s.len(),
        forall|m: int| i <= m < k ==> is_digit(s[m]),
    ensures
        digits_value(s.subrange(i, j)) <= digits_value(s.subrange(i, k)),
    decreases k - j,
{
    if j < k {
        let a = s.subrange(i, k);
        assert(a.drop_last() =~= s.subrange(i, k - 1));
        lemma_digits_value_extend(s, i, j, k - 1);
        lemma_digits_value_nonneg(s.subrange(i, k - 1));
        assert(digits_value(s.subrange(i, k))
            == digits_value(s.subrange(i, k - 1)) * 10 + (s[k - 1] - 0x30));
    }
}

/// Consumes the maximal run of decimal digits and yields its value, which
/// must fit in a u64.
pub fn digits_u64(s: &[u8], i: usize) -> (r: Result<(u64, usize), Fail>)
    requires
        i <= s@.len(),
    ensures
        ({
            let e = digit_run_end(s@, i as int);
            match r {
                Ok((v, j)) => j == e && i < e && j <= s@.len()
                    && v == digits_value(s@.subrange(i as int, e)),
                Err(f) => if e == i {
                    f.kind == ErrorKind::ExpectedDigit
                } else {
                    f.kind == ErrorKind::Overflow
                        && digits_value(s@.subrange(i as int, e)) > u64::MAX
                },
            }
        }),
{
    proof {
        lemma_digit_run_end(s@, i as int);
    }
    let ghost e = digit_run_end(s@, i as int);
    if i == s.len() || !(0x30 <= s[i] && s[i] <= 0x39) {
        return Err(Fail { kind: ErrorKind::ExpectedDigit, at: i });
    }
    let mut j: usize = i;
    let mut v: u64 = 0;
    while j < s.len() && 0x30 <= s[j] && s[j] <= 0x39
        invariant
            i <= j <= s@.len(),
            e == digit_run_end(s@, i as int),
            digit_run_end(s@, j as int) == e,
            j <= e,
            forall|m: int| i <= m < e ==> is_digit(s@[m]),
            e <= s@.len(),
            v == digits_value(s@.subrange(i as int, j as int)),
        decreases s@.len() - j,
    {
        let d: u64 = (s[j] - 0x30) as u64;
        proof {
            lemma_digit_run_end(s@, j + 1);
            assert(digit_run_end(s@, j as int) == digit_run_end(s@, j + 1));
            assert(j < e);
            assert(s@.subrange(i as int, j + 1).drop_last() =~= s@.subrange(i as int, j as int));
        }
        if v > (u64::MAX - d) / 10 {
            proof {
                assert(digits_value(s@.subrange(i as int, j + 1)) == v * 10 + d);
                assert(v * 10 + d > u64::MAX) by (nonlinear_arith)
                    requires v > (u64::MAX - d) / 10 && d <= 9;
                lemma_digits_value_extend(s@, i as int, j + 1, e);
            }
            return Err(Fail { kind: ErrorKind::Overflow, at: i });
        }
        proof {
            assert(v * 10 + d <= u64::MAX) by (nonlinear_arith)
                requires v <= (u64::MAX - d) / 10 && d <= 9;
        }
        v = v * 10 + d;
        j += 1;
    }
    Ok((v, j))
}

/// Consumes the maximal run of decimal digits and yields its value as a u8.
pub fn digits_u8(s: &[u8], i: usize) -> (r: Result<(u8, usize), Fail>)
    requires
        i <= s@.len(),
    ensures
        ({
            let e = digit_run_end(s@, i as int);
            match r {
                Ok((v, j)) => j == e && i < e && j <= s@.len()
                    && v == digits_value(s@.subrange(i as int, e)),
                Err(f) => if e == i {
                    f.kind == ErrorKind::ExpectedDigit
                } else {
                    f.kind == ErrorKind::Overflow
                        && digits_value(s@.subrange(i as int, e)) > u8::MAX
                },
            }
        }),
{
    match digits_u64(s, i) {
        Ok((v, j)) => {
            if v > 0xff {
                Err(Fail { kind: ErrorKind::Overflow, at: i })
            } else {
                Ok((v as u8, j))
            }
        },
        Err(f) => Err(f),
    }
}

/// Consumes the maximal run of decimal digits and yields its value as a u16.
pub fn digits_u16(s: &[u8], i: usize) -> (r: Result<(u16, usize), Fail>)
    requires
        i <= s@.len(),
    ensures
        ({
            let e = digit_run_end(s@, i as int);
            match r {
                Ok((v, j)) => j == e && i < e && j <= s@.len()
                    && v == digits_value(s@.subrange(i as int, e)),
                Err(f) => if e == i {
                    f.kind == ErrorKind::ExpectedDigit
                } else {
                    f.kind == ErrorKind::Overflow
                        && digits_value(s@.subrange(i as int, e)) > u16::MAX
                },
            }
        }),
{
    match digits_u64(s, i) {
        Ok((v, j)) => {
            if v > 0xffff {
                Err(Fail { kind: ErrorKind::Overflow, at: i })
            } else {
                Ok((v as u16, j))
            }
        },
        Err(f) => Err(f),
    }
}

/// Copies `s[i..j]` into an owned vector.
pub fn take_range(s: &[u8], i: usize, j: usize) -> (r: Vec<u8>)
    requires
        i <= j <= s@.len(),
    ensures
        r@ =~= s@.subrange(i as int, j as int),
{
    let mut out: Vec<u8> = Vec::new();
    let mut k: usize = i;
    while k < j
        invariant
            i <= k <= j <= s@.len(),
            out@ =~= s@.subrange(i as int, k as int),
        decreases j - k,
    {
        out.push(s[k]);
        proof {
            assert(out@ =~= s@.subrange(i as int, k + 1));
        }
        k += 1;
    }
    out
}

/// Consumes the maximal non-empty run of token bytes.
pub fn token(s: &[u8], i: usize) -> (r: Result<(Vec<u8>, usize), Fail>)
    requires
        i <= s@.len(),
    ensures
        ({
            let e = token_run_end(s@, i as int);
            match r {
                Ok((t, j)) => j == e && i < e && j <= s@.len()
                    && t@ =~= s@.subrange(i as int, e),
                Err(f) => e == i && f.kind == ErrorKind::ExpectedLiteral,
            }
        }),
{
    proof {
        lemma_token_run_end(s@, i as int);
    }
    let mut j: usize = i;
    while j < s.len() && is_token_byte_exec(s[j])
        invariant
            i <= j <= s@.len(),
            token_run_end(s@, j as int) == token_run_end(s@, i as int),
        decreases s@.len() - j,
    {
        j += 1;
    }
    if j == i {
        return Err(Fail { kind: ErrorKind::ExpectedLiteral, at: i });
    }
    Ok((take_range(s, i, j), j))
}

#[verifier::when_used_as_spec(is_token_byte)]
pub fn is_token_byte_exec(b: u8) -> (r: bool)
    ensures
        r == is_token_byte(b),
{
    (0x30 <= b && b <= 0x39) || (0x41 <= b && b <= 0x5a) || (0x61 <= b && b <= 0x7a) || b == 0x2d
}

/// Consumes one or more SP / HTAB bytes.
///
/// RFC 8866 writes a single SP between the fields of a line; this parser
/// deliberately accepts a run of SP or HTAB there, a leniency the field
/// grammars inherit by separating fields with this primitive.
pub fn whitespace(s: &[u8], i: usize) -> (r: Result<usize, Fail>)
    requires
        i <= s@.len(),
    ensures
        ({
            let e = ws_run_end(s@, i as int);
            match r {
                Ok(j) => j == e && i < e && j <= s@.len(),
                Err(f) => e == i && f.kind == ErrorKind::ExpectedLiteral,
            }
        }),
{
    proof {
        lemma_ws_run_end(s@, i as int);
    }
    let mut j: usize = i;
    while j < s.len() && (s[j] == SP || s[j] == HTAB)
        invariant
            i <= j <= s@.len(),
            ws_run_end(s@, j as int) == ws_run_end(s@, i as int),
        decreases s@.len() - j,
    {
        j += 1;
    }
    if j == i {
        return Err(Fail { kind: ErrorKind::ExpectedLiteral, at: i });
    }
    Ok(j)
}

/// Where a line terminator at `i` ends, if the mode accepts one there:
/// CRLF always; a bare LF, or the end of the input, only in lenient mode.
pub open spec fn line_end_at(s: Seq<u8>, i: int, lenient: bool) -> Option<int> {
    if i + 2 <= s.len() && s[i] == CR && s[i + 1] == LF {
        Some(i + 2)
    } else if lenient && i < s.len() && s[i] == LF {
        Some(i + 1)
    } else if lenient && i == s.len() {
        Some(i)
    } else {
        None
    }
}

/// Consumes one line terminator per the leniency mode.
pub fn line_end(s: &[u8], i: usize, lenient: bool) -> (r: Result<usize, Fail>)
    requires
        i <= s@.len(),
    ensures
        match r {
            Ok(j) => line_end_at(s@, i as int, lenient) == Some(j as int) && i <= j <= s@.len(),
            Err(f) => line_end_at(s@, i as int, lenient) is None
                && f.kind == ErrorKind::UnterminatedLine,
        },
{
    if s.len() - i >= 2 && s[i] == CR && s[i + 1] == LF {
        Ok(i + 2)
    } else if lenient && i < s.len() && s[i] == LF {
        Ok(i + 1)
    } else if lenient && i == s.len() {
        Ok(i)
    } else {
        Err(Fail { kind: ErrorKind::UnterminatedLine, at: i })
    }
}

/// Consumes every byte up to, but not including, the next CR, LF or the end
/// of the input.
pub fn rest_of_line(s: &[u8], i: usize) -> (r: (Vec<u8>, usize))
    requires
        i <= s@.len(),
    ensures
        r.1 == line_run_end(s@, i as int),
        i <= r.1 <= s@.len(),
        r.0@ =~= s@.subrange(i as int, r.1 as int),
{
    proof {
        lemma_line_run_end(s@, i as int);
    }
    let mut j: usize = i;
    while j < s.len() && s[j] != CR && s[j] != LF
        invariant
            i <= j <= s@.len(),
            line_run_end(s@, j as int) == line_run_end(s@, i as int),
        decreases s@.len() - j,
    {
        j += 1;
    }
    (take_range(s, i, j), j)
}

/// Bytes permitted in a hostname: letters, digits, `-` and `.`.
pub open spec fn is_host_byte(b: u8) -> bool {
    is_alnum(b) || b == 0x2d || b == 0x2e
}

/// First index at or after `i` that does not hold a hostname byte.
pub open spec fn host_run_end(s: Seq<u8>, i: int) -> int
    decreases s.len() - i,
{
    if 0 <= i && i < s.len() && is_host_byte(s[i]) {
        host_run_end(s, i + 1)
    } else {
        i
    }
}

pub proof fn lemma_host_run_end(s: Seq<u8>, i: int)
    requires
        0 <= i <= s.len(),
    ensures
        i <= host_run_end(s, i) <= s.len(),
        forall|k: int| i <= k < host_run_end(s, i) ==> is_host_byte(s[k]),
        host_run_end(s, i) == s.len() || !is_host_byte(s[host_run_end(s, i)]),
    decreases s.len() - i,
{
    if i < s.len() && is_host_byte(s[i]) {
        lemma_host_run_end(s, i + 1);
    }
}

/// Finds the end of the maximal hostname-byte run at `i`.
pub fn scan_host(s: &[u8], i: usize) -> (j: usize)
    requires
        i <= s@.len(),
    ensures
        j == host_run_end(s@, i as int),
        i <= j <= s@.len(),
{
    proof {
        lemma_host_run_end(s@, i as int);
    }
    let mut j: usize = i;
    while j < s.len() && ((0x30 <= s[j] && s[j] <= 0x39) || (0x41 <= s[j] && s[j] <= 0x5a) || (0x61
        <= s[j] && s[j] <= 0x7a) || s[j] == 0x2d || s[j] == 0x2e)
        invariant
            i <= j <= s@.len(),
            host_run_end(s@, j as int) == host_run_end(s@, i as int),
        decreases s@.len() - j,
    {
        j += 1;
    }
    j
}

/// A byte that may stand in a connection address: a hostname byte or `:`.
pub open spec fn is_addr_byte(b: u8) -> bool {
    is_host_byte(b) || b == 0x3a
}

/// First index at or after `i` that does not hold an address byte.
pub open spec fn addr_run_end(s: Seq<u8>, i: int) -> int
    decreases s.len() - i,
{
    if 0 <= i && i < s.len() && is_addr_byte(s[i]) {
        addr_run_end(s, i + 1)
    } else {
        i
    }
}

pub proof fn lemma_addr_run_end(s: Seq<u8>, i: int)
    requires
        0 <= i <= s.len(),
    ensures
        i <= addr_run_end(s, i) <= s.len(),
        forall|k: int| i <= k < addr_run_end(s, i) ==> is_addr_byte(s[k]),
        addr_run_end(s, i) == s.len() || !is_addr_byte(s[addr_run_end(s, i)]),
    decreases s.len() - i,
{
    if i < s.len() && is_addr_byte(s[i]) {
        lemma_addr_run_end(s, i + 1);
    }
}

/// Finds the end of the maximal address-byte run at `i`.
pub fn scan_addr(s: &[u8], i: usize) -> (j: usize)
    requires
        i <= s@.len(),
    ensures
        j == addr_run_end(s@, i as int),
        i <= j <= s@.len(),
{
    proof {
        lemma_addr_run_end(s@, i as int);
    }
    let mut j: usize = i;
    while j < s.len() && ((0x30 <= s[j] && s[j] <= 0x39) || (0x41 <= s[j] && s[j] <= 0x5a) || (0x61
        <= s[j] && s[j] <= 0x7a) || s[j] == 0x2d || s[j] == 0x2e || s[j] == 0x3a)
        invariant
            i <= j <= s@.len(),
            addr_run_end(s@, j as int) == addr_run_end(s@, i as int),
        decreases s@.len() - j,
    {
        j += 1;
    }
    j
}

/// A decimal digit or a dot: the bytes of an IPv4 literal.
pub open spec fn is_num_byte(b: u8) -> bool {
    is_digit(b) || b == 0x2e
}

/// First index at or after `i` that does not hold a digit or dot.
pub open spec fn num_run_end(s: Seq<u8>, i: int) -> int
    decreases s.len() - i,
{
    if 0 <= i && i < s.len() && is_num_byte(s[i]) {
        num_run_end(s, i + 1)
    } else {
        i
    }
}

pub proof fn lemma_num_run_end(s: Seq<u8>, i: int)
    requires
        0 <= i <= s.len(),
    ensures
        i <= num_run_end(s, i) <= s.len(),
        forall|k: int| i <= k < num_run_end(s, i) ==> is_num_byte(s[k]),
        num_run_end(s, i) == s.len() || !is_num_byte(s[num_run_end(s, i)]),
    decreases s.len() - i,
{
    if i < s.len() && is_num_byte(s[i]) {
        lemma_num_run_end(s, i + 1);
    }
}

/// Finds the end of the maximal digit-or-dot run at `i`.
pub fn scan_num(s: &[u8], i: usize) -> (j: usize)
    requires
        i <= s@.len(),
    ensures
        j == num_run_end(s@, i as int),
        i <= j <= s@.len(),
{
    proof {
        lemma_num_run_end(s@, i as int);
    }
    let mut j: usize = i;
    while j < s.len() && ((0x30 <= s[j] && s[j] <= 0x39) || s[j] == 0x2e)
        invariant
            i <= j <= s@.len(),
            num_run_end(s@, j as int) == num_run_end(s@, i as int),
        decreases s@.len() - j,
    {
        j += 1;
    }
    j
}

/// Finds the end of the maximal digit run at `i` without reading its value.
pub fn scan_digits(s: &[u8], i: usize) -> (j: usize)
    requires
        i <= s@.len(),
    ensures
        j == digit_run_end(s@, i as int),
        i <= j <= s@.len(),
{
    proof {
        lemma_digit_run_end(s@, i as int);
    }
    let mut j: usize = i;
    while j < s.len() && 0x30 <= s[j] && s[j] <= 0x39
        invariant
            i <= j <= s@.len(),
            digit_run_end(s@, j as int) == digit_run_end(s@, i as int),
        decreases s@.len() - j,
    {
        j += 1;
    }
    j
}

} // verus!
