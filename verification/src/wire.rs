//! LSP-style byte framing for the RPC wire protocol.
//!
//! A message is sent as `Content-Length: <decimal>\r\n\r\n<body>`, where the
//! decimal counts the bytes of the body. This module frames a body for
//! sending and scans a received buffer back into a body: header lines are
//! read until a blank line, the `Content-Length` header gives the byte count,
//! and exactly that many bytes form the body. Framing a body and scanning
//! the result returns the body unchanged (`lemma_frame_roundtrip`).

use vstd::prelude::*;

verus! {

use crate::spec_udec;
use vstd::slice::{slice_subrange, slice_to_vec};

/// Bytes of the ASCII header name `Content-Length:`, without the space.
pub open spec fn spec_cl_name() -> Seq<u8> {
    seq![67u8, 111u8, 110u8, 116u8, 101u8, 110u8, 116u8, 45u8, 76u8, 101u8, 110u8, 103u8, 116u8, 104u8, 58u8]
}

/// Bytes of the ASCII header prefix `Content-Length: `.
pub open spec fn spec_header_prefix() -> Seq<u8> {
    spec_cl_name() + seq![32u8]
}

/// Bytes of the header terminator `\r\n\r\n`.
pub open spec fn spec_crlfcrlf() -> Seq<u8> {
    seq![13u8, 10u8, 13u8, 10u8]
}

/// The exact bytes that framing a body produces.
pub open spec fn spec_frame(body: Seq<u8>) -> Seq<u8> {
    spec_header_prefix() + spec_udec(body.len()) + spec_crlfcrlf() + body
}

/// Append the decimal digits of `n` to `out`.
pub fn push_udec(out: &mut Vec<u8>, n: u64)
    ensures
        final(out)@ == old(out)@ + spec_udec(n as nat),
    decreases n,
{
    if n < 10 {
        out.push((48 + n) as u8);
    } else {
        push_udec(out, n / 10);
        out.push((48 + n % 10) as u8);
        proof {
            assert(out@ =~= old(out)@ + spec_udec(n as nat));
        }
    }
}

fn push_header_prefix(out: &mut Vec<u8>)
    ensures
        final(out)@ == old(out)@ + spec_header_prefix(),
{
    out.push(67u8);
    out.push(111u8);
    out.push(110u8);
    out.push(116u8);
    out.push(101u8);
    out.push(110u8);
    out.push(116u8);
    out.push(45u8);
    out.push(76u8);
    out.push(101u8);
    out.push(110u8);
    out.push(103u8);
    out.push(116u8);
    out.push(104u8);
    out.push(58u8);
    out.push(32u8);
    proof {
        assert(out@ =~= old(out)@ + spec_header_prefix());
    }
}

/// Frame a message body for the wire: header name, byte count, blank line, body.
pub fn frame_message(body: &[u8]) -> (r: Vec<u8>)
    ensures
        r@ == spec_frame(body@),
{
    let mut out: Vec<u8> = Vec::new();
    push_header_prefix(&mut out);
    push_udec(&mut out, body.len() as u64);
    out.push(13u8);
    out.push(10u8);
    out.push(13u8);
    out.push(10u8);
    let mut i: usize = 0;
    while i < body.len()
        invariant
            i <= body@.len(),
            out@ == spec_header_prefix() + spec_udec(body@.len()) + spec_crlfcrlf() + body@.subrange(0, i as int),
        decreases body@.len() - i,
    {
        out.push(body[i]);
        i = i + 1;
        proof {
            assert(out@ =~= spec_header_prefix() + spec_udec(body@.len()) + spec_crlfcrlf() + body@.subrange(0, i as int));
        }
    }
    proof {
        assert(body@.subrange(0, body@.len() as int) =~= body@);
    }
    out
}

// ---------------------------------------------------------------------------
// Scanning a received buffer
// ---------------------------------------------------------------------------

/// What scanning a buffer yields: more bytes are needed, the headers are
/// unusable, or a complete body was framed.
pub enum FrameScan {
    /// The buffer does not yet hold a whole message.
    Incomplete,
    /// The headers ended without a usable `Content-Length`.
    Invalid,
    /// The headers and the full body are present.
    Complete { body: Vec<u8> },
}

/// Spec-level counterpart of `FrameScan`.
pub enum SpecScan {
    Incomplete,
    Invalid,
    Complete(Seq<u8>),
}

pub open spec fn frame_scan_model(r: FrameScan) -> SpecScan {
    match r {
        FrameScan::Incomplete => SpecScan::Incomplete,
        FrameScan::Invalid => SpecScan::Invalid,
        FrameScan::Complete { body } => SpecScan::Complete(body@),
    }
}

pub open spec fn is_digit(b: u8) -> bool {
    48 <= b <= 57
}

pub open spec fn all_digits(s: Seq<u8>) -> bool {
    forall|i: int| 0 <= i < s.len() ==> is_digit(#[trigger] s[i])
}

/// Value of a sequence of decimal digit bytes.
pub open spec fn dec_val(s: Seq<u8>) -> nat
    decreases s.len(),
{
    if s.len() == 0 {
        0
    } else {
        dec_val(s.drop_last()) * 10 + (s.last() - 48) as nat
    }
}

pub open spec fn drop_leading_spaces(s: Seq<u8>) -> Seq<u8>
    decreases s.len(),
{
    if s.len() > 0 && s[0] == 32 {
        drop_leading_spaces(s.drop_first())
    } else {
        s
    }
}

pub open spec fn drop_trailing_spaces(s: Seq<u8>) -> Seq<u8>
    decreases s.len(),
{
    if s.len() > 0 && s.last() == 32 {
        drop_trailing_spaces(s.drop_last())
    } else {
        s
    }
}

/// Value of a `Content-Length` header, after the name: spaces are trimmed
/// and the rest must be one or more decimal digits.
pub open spec fn parse_cl_value(s: Seq<u8>) -> Option<nat> {
    let t = drop_trailing_spaces(drop_leading_spaces(s));
    if t.len() > 0 && all_digits(t) {
        Some(dec_val(t))
    } else {
        None
    }
}

/// First position at or after `from` where a `\r\n` pair starts.
pub open spec fn spec_find_crlf(buf: Seq<u8>, from: nat) -> Option<nat>
    decreases buf.len() - from,
{
    if from + 2 > buf.len() {
        None
    } else if buf[from as int] == 13 && buf[from as int + 1] == 10 {
        Some(from)
    } else {
        spec_find_crlf(buf, from + 1)
    }
}

pub open spec fn spec_has_cl_name(line: Seq<u8>) -> bool {
    line.len() >= 15 && line.subrange(0, 15) == spec_cl_name()
}

/// Scan header lines from position `p`, with `cl` the value of the last
/// `Content-Length` header seen so far.
pub open spec fn spec_scan_from(buf: Seq<u8>, p: nat, cl: Option<nat>) -> SpecScan
    decreases buf.len() - p,
{
    match spec_find_crlf(buf, p) {
        None => SpecScan::Incomplete,
        Some(j) => {
            if j < p || j + 2 > buf.len() {
                // spec_find_crlf never yields such a position
                SpecScan::Invalid
            } else if j == p {
                // blank line: end of headers
                match cl {
                    None => SpecScan::Invalid,
                    Some(n) => {
                        if p + 2 + n <= buf.len() {
                            SpecScan::Complete(buf.subrange(p as int + 2, p as int + 2 + n as int))
                        } else {
                            SpecScan::Incomplete
                        }
                    },
                }
            } else {
                let line = buf.subrange(p as int, j as int);
                if spec_has_cl_name(line) {
                    match parse_cl_value(line.skip(15)) {
                        None => SpecScan::Invalid,
                        Some(n) => spec_scan_from(buf, j + 2, Some(n)),
                    }
                } else {
                    spec_scan_from(buf, j + 2, cl)
                }
            }
        },
    }
}

/// What scanning a whole buffer from its start yields.
pub open spec fn spec_scan(buf: Seq<u8>) -> SpecScan {
    spec_scan_from(buf, 0, None)
}

proof fn lemma_find_crlf_props(buf: Seq<u8>, from: nat)
    requires
        from <= buf.len(),
    ensures
        match spec_find_crlf(buf, from) {
            Some(j) => from <= j && j + 2 <= buf.len() && buf[j as int] == 13 && buf[j as int + 1] == 10
                && forall|k: int| from <= k < j ==> !(#[trigger] buf[k] == 13 && buf[k + 1] == 10),
            None => forall|k: int| from <= k && k + 2 <= buf.len() ==> !(#[trigger] buf[k] == 13 && buf[k + 1] == 10),
        },
    decreases buf.len() - from,
{
    if from + 2 > buf.len() {
    } else if buf[from as int] == 13 && buf[from as int + 1] == 10 {
    } else {
        lemma_find_crlf_props(buf, from + 1);
    }
}

fn find_crlf(buf: &[u8], from: usize) -> (r: Option<usize>)
    requires
        from <= buf@.len(),
    ensures
        match r {
            Some(j) => spec_find_crlf(buf@, from as nat) == Some(j as nat),
            None => spec_find_crlf(buf@, from as nat) == None::<nat>,
        },
{
    let mut i: usize = from;
    loop
        invariant
            from <= i <= buf@.len(),
            spec_find_crlf(buf@, from as nat) == spec_find_crlf(buf@, i as nat),
        decreases buf@.len() - i,
    {
        if buf.len() < 2 || i > buf.len() - 2 {
            return None;
        }
        if buf[i] == 13 && buf[i + 1] == 10 {
            return Some(i);
        }
        i = i + 1;
    }
}

fn has_cl_name_at(buf: &[u8], p: usize, j: usize) -> (r: bool)
    requires
        p <= j <= buf@.len(),
    ensures
        r == spec_has_cl_name(buf@.subrange(p as int, j as int)),
{
    if j - p < 15 {
        return false;
    }
    let r = buf[p] == 67 && buf[p + 1] == 111 && buf[p + 2] == 110 && buf[p + 3] == 116
        && buf[p + 4] == 101 && buf[p + 5] == 110 && buf[p + 6] == 116 && buf[p + 7] == 45
        && buf[p + 8] == 76 && buf[p + 9] == 101 && buf[p + 10] == 110 && buf[p + 11] == 103
        && buf[p + 12] == 116 && buf[p + 13] == 104 && buf[p + 14] == 58;
    proof {
        let line = buf@.subrange(p as int, j as int);
        if r {
            assert(line.subrange(0, 15) =~= spec_cl_name());
        } else {
            assert(line.subrange(0, 15) != spec_cl_name()) by {
                if line.subrange(0, 15) == spec_cl_name() {
                    assert(forall|k: int| 0 <= k < 15 ==> line.subrange(0, 15)[k] == spec_cl_name()[k]);
                    assert(false);
                }
            }
        }
    }
    r
}

/// Parse the value part of a `Content-Length` line, `buf[from..to]`.
/// Returns the value, saturated at `u64::MAX` when it does not fit.
fn parse_cl_at(buf: &[u8], from: usize, to: usize) -> (r: Option<u64>)
    requires
        from <= to <= buf@.len(),
    ensures
        match r {
            Some(v) => {
                &&& parse_cl_value(buf@.subrange(from as int, to as int)) matches Some(n)
                &&& v <= n
                &&& (v < u64::MAX ==> v == n)
            },
            None => parse_cl_value(buf@.subrange(from as int, to as int)) == None::<nat>,
        },
{
    let ghost s = buf@.subrange(from as int, to as int);
    // trim leading spaces
    let mut lo: usize = from;
    while lo < to && buf[lo] == 32
        invariant
            from <= lo <= to <= buf@.len(),
            drop_leading_spaces(s) == drop_leading_spaces(buf@.subrange(lo as int, to as int)),
        decreases to - lo,
    {
        proof {
            assert(buf@.subrange(lo as int, to as int).drop_first()
                =~= buf@.subrange(lo + 1, to as int));
        }
        lo = lo + 1;
    }
    proof {
        assert(drop_leading_spaces(buf@.subrange(lo as int, to as int))
            == buf@.subrange(lo as int, to as int));
    }
    // trim trailing spaces
    let mut hi: usize = to;
    while hi > lo && buf[hi - 1] == 32
        invariant
            from <= lo <= hi <= to <= buf@.len(),
            drop_leading_spaces(s) == buf@.subrange(lo as int, to as int),
            drop_trailing_spaces(buf@.subrange(lo as int, to as int))
                == drop_trailing_spaces(buf@.subrange(lo as int, hi as int)),
        decreases hi,
    {
        proof {
            assert(buf@.subrange(lo as int, hi as int).drop_last()
                =~= buf@.subrange(lo as int, hi - 1));
        }
        hi = hi - 1;
    }
    let ghost t = buf@.subrange(lo as int, hi as int);
    proof {
        assert(drop_trailing_spaces(t) == t);
        assert(drop_trailing_spaces(drop_leading_spaces(s)) == t);
    }
    if lo == hi {
        proof {
            assert(t.len() == 0);
        }
        return None;
    }
    // parse the digits, saturating at u64::MAX
    let mut i: usize = lo;
    let mut acc: u64 = 0;
    while i < hi
        invariant
            from <= lo < hi <= to <= buf@.len(),
            lo <= i <= hi,
            t == buf@.subrange(lo as int, hi as int),
            t.len() > 0,
            drop_trailing_spaces(drop_leading_spaces(buf@.subrange(from as int, to as int))) == t,
            all_digits(t.subrange(0, i - lo)),
            acc <= dec_val(t.subrange(0, i - lo)),
            acc < u64::MAX ==> acc == dec_val(t.subrange(0, i - lo)),
        decreases hi - i,
    {
        let b = buf[i];
        if b < 48 || b > 57 {
            proof {
                assert(t[i - lo] == b);
                assert(!all_digits(t));
            }
            return None;
        }
        let d = (b - 48) as u64;
        let ghost prev = t.subrange(0, i - lo);
        let ghost cur = t.subrange(0, i + 1 - lo);
        proof {
            assert(cur.drop_last() =~= prev);
            assert(cur.last() == b);
            assert(dec_val(cur) == dec_val(prev) * 10 + d);
        }
        if acc > (u64::MAX - d) / 10 {
            // saturate: the true value no longer fits in a u64
            proof {
                assert(acc * 10 + d > u64::MAX) by (nonlinear_arith)
                    requires
                        acc > (u64::MAX - d) / 10,
                        d <= 9,
                ;
                assert(dec_val(prev) * 10 + d >= acc * 10 + d) by (nonlinear_arith)
                    requires
                        dec_val(prev) >= acc,
                        d >= 0,
                ;
            }
            acc = u64::MAX;
        } else {
            proof {
                assert(acc * 10 + d <= u64::MAX) by (nonlinear_arith)
                    requires
                        acc <= (u64::MAX - d) / 10,
                        d <= 9,
                ;
                if acc < dec_val(prev) {
                    assert(acc == u64::MAX);
                    assert(false);
                }
            }
            acc = acc * 10 + d;
        }
        i = i + 1;
        proof {
            if acc < u64::MAX && acc != dec_val(cur) {
                assert(false);
            }
        }
    }
    proof {
        assert(t.subrange(0, hi - lo) =~= t);
    }
    Some(acc)
}

/// Scan a received buffer: read header lines until a blank line, take the
/// byte count from the `Content-Length` header (the last one, if repeated),
/// then take exactly that many bytes as the body.
pub fn scan_frame(buf: &[u8]) -> (r: FrameScan)
    ensures
        frame_scan_model(r) == spec_scan(buf@),
{
    let mut p: usize = 0;
    let mut cl: Option<u64> = None;
    let ghost mut cl_true: Option<nat> = None;
    loop
        invariant
            p <= buf@.len(),
            spec_scan(buf@) == spec_scan_from(buf@, p as nat, cl_true),
            match (cl, cl_true) {
                (Option::None, Option::None) => true,
                (Option::Some(v), Option::Some(n)) => v <= n && (v < u64::MAX ==> v == n),
                _ => false,
            },
        decreases buf@.len() - p,
    {
        let buf_len = buf.len();
        let j = match find_crlf(buf, p) {
            None => {
                return FrameScan::Incomplete;
            },
            Some(j) => j,
        };
        proof {
            lemma_find_crlf_props(buf@, p as nat);
            assert(p <= j && j as nat + 2 <= buf@.len());
        }
        if j == p {
            // blank line: end of headers
            match cl {
                None => {
                    return FrameScan::Invalid;
                },
                Some(v) => {
                    let avail = buf.len() - p - 2;
                    if v <= avail as u64 {
                        proof {
                            assert(cl_true == Some(v as nat));
                        }
                        let body = slice_to_vec(slice_subrange(buf, p + 2, p + 2 + (v as usize)));
                        return FrameScan::Complete { body };
                    } else {
                        proof {
                            let n = cl_true->Some_0;
                            assert(n >= v);
                            assert(p + 2 + n > buf@.len());
                        }
                        return FrameScan::Incomplete;
                    }
                },
            }
        }
        let ghost line = buf@.subrange(p as int, j as int);
        if has_cl_name_at(buf, p, j) {
            proof {
                assert(line.skip(15) =~= buf@.subrange(p + 15, j as int));
            }
            match parse_cl_at(buf, p + 15, j) {
                None => {
                    return FrameScan::Invalid;
                },
                Some(v) => {
                    proof {
                        cl_true = parse_cl_value(line.skip(15));
                    }
                    cl = Some(v);
                },
            }
        }
        p = j + 2;
    }
}

// ---------------------------------------------------------------------------
// The framing round trip
// ---------------------------------------------------------------------------

proof fn lemma_udec_digits(n: nat)
    ensures
        spec_udec(n).len() >= 1,
        all_digits(spec_udec(n)),
    decreases n,
{
    if n >= 10 {
        lemma_udec_digits(n / 10);
    }
}

proof fn lemma_udec_val(n: nat)
    ensures
        dec_val(spec_udec(n)) == n,
    decreases n,
{
    if n < 10 {
        assert(spec_udec(n).drop_last() =~= Seq::<u8>::empty());
        assert(dec_val(spec_udec(n).drop_last()) == 0);
        assert(spec_udec(n).last() == (48 + n) as u8);
        assert((spec_udec(n).last() - 48) as nat == n);
    } else {
        lemma_udec_val(n / 10);
        assert(spec_udec(n).drop_last() =~= spec_udec(n / 10));
        assert(spec_udec(n).last() == (48 + n % 10) as u8);
        assert(n % 10 < 10);
        assert((spec_udec(n).last() - 48) as nat == n % 10);
        assert(dec_val(spec_udec(n)) == dec_val(spec_udec(n / 10)) * 10 + n % 10);
        assert(n == (n / 10) * 10 + n % 10) by (nonlinear_arith);
    }
}

proof fn lemma_find_crlf_exact(buf: Seq<u8>, from: nat, j: nat)
    requires
        from <= j,
        j + 2 <= buf.len(),
        buf[j as int] == 13,
        buf[j as int + 1] == 10,
        forall|k: int| from <= k < j ==> buf[k] != 13,
    ensures
        spec_find_crlf(buf, from) == Some(j),
    decreases j - from,
{
    if from < j {
        lemma_find_crlf_exact(buf, from + 1, j);
    }
}

/// Framing a body and scanning the framed bytes yields the body unchanged:
/// a peer that reads `Content-Length` and then exactly that many bytes
/// reconstructs what was framed, byte for byte.
proof fn lemma_header_prefix_no13()
    ensures
        forall|k: int| 0 <= k < 16 ==> #[trigger] spec_header_prefix()[k] != 13,
{
    assert forall|k: int| 0 <= k < 16 implies #[trigger] spec_header_prefix()[k] != 13 by {
        if k < 15 {
            assert(spec_header_prefix()[k] == spec_cl_name()[k]);
        } else {
            assert(spec_header_prefix()[k] == 32);
        }
    }
}

/// Framing a body and scanning the framed bytes yields the body unchanged:
/// a peer that reads `Content-Length` and then exactly that many bytes
/// reconstructs what was framed, byte for byte.
#[verifier::rlimit(100)]
pub proof fn lemma_frame_roundtrip(body: Seq<u8>)
    ensures
        spec_scan(spec_frame(body)) == SpecScan::Complete(body),
{
    let d = spec_udec(body.len());
    let hd = spec_header_prefix() + d;
    let f = spec_frame(body);
    let t = hd.len() as int;
    lemma_udec_digits(body.len());
    lemma_udec_val(body.len());
    lemma_header_prefix_no13();
    assert(f =~= hd + spec_crlfcrlf() + body);
    assert(f.len() == t + 4 + body.len());
    assert forall|k: int| 0 <= k < t implies f[k] != 13 by {
        assert(f[k] == hd[k]);
        if k < 16 {
            assert(hd[k] == spec_header_prefix()[k]);
        } else {
            assert(hd[k] == d[k - 16]);
            assert(is_digit(d[k - 16]));
        }
    }
    assert(f[t] == 13 && f[t + 1] == 10 && f[t + 2] == 13 && f[t + 3] == 10);
    lemma_find_crlf_exact(f, 0, t as nat);
    let line = f.subrange(0, t);
    assert(line =~= hd);
    assert(line.subrange(0, 15) =~= spec_cl_name());
    assert(spec_has_cl_name(line));
    let v = line.skip(15);
    assert(v =~= seq![32u8] + d);
    assert(v.drop_first() =~= d);
    assert(is_digit(d[0]));
    assert(drop_leading_spaces(d) == d);
    assert(drop_leading_spaces(v) == drop_leading_spaces(v.drop_first()));
    assert(drop_leading_spaces(v) == d);
    assert(is_digit(d[d.len() - 1]));
    assert(d.last() != 32);
    assert(drop_trailing_spaces(d) == d);
    assert(parse_cl_value(line.skip(15)) == Some(body.len()));
    assert(spec_scan_from(f, 0, None) == spec_scan_from(f, (t + 2) as nat, Some(body.len())));
    lemma_find_crlf_exact(f, (t + 2) as nat, (t + 2) as nat);
    assert(f.subrange(t + 4, t + 4 + body.len() as int) =~= body);
    assert(spec_scan_from(f, (t + 2) as nat, Some(body.len())) == SpecScan::Complete(body));
}

} // verus!
