//! Building JSON-RPC 2.0 request envelopes as wire bytes.
//!
//! A request is `{"jsonrpc":"2.0","id":<id>,"method":<name>,"params":<object>}`.
//! Before the envelope is built, the endpoint's auth token is merged into the
//! parameters: a JSON object gets an `auth` member, `null` (or nothing) becomes
//! `{"auth":<token>}`, and any other value is wrapped under a `data` member
//! beside `auth`.

use vstd::prelude::*;

verus! {

use crate::spec_udec;
use crate::wire::{drop_leading_spaces, drop_trailing_spaces, push_udec};
use vstd::slice::slice_subrange;

/// Bytes of `{"jsonrpc":"2.0","id":`.
pub open spec fn spec_lit_open() -> Seq<u8> {
    seq![123u8, 34u8, 106u8, 115u8, 111u8, 110u8, 114u8, 112u8, 99u8, 34u8, 58u8, 34u8, 50u8, 46u8, 48u8, 34u8, 44u8, 34u8, 105u8, 100u8, 34u8, 58u8]
}

fn push_lit_open(out: &mut Vec<u8>)
    ensures
        final(out)@ == old(out)@ + spec_lit_open(),
{
    out.push(123u8);
    out.push(34u8);
    out.push(106u8);
    out.push(115u8);
    out.push(111u8);
    out.push(110u8);
    out.push(114u8);
    out.push(112u8);
    out.push(99u8);
    out.push(34u8);
    out.push(58u8);
    out.push(34u8);
    out.push(50u8);
    out.push(46u8);
    out.push(48u8);
    out.push(34u8);
    out.push(44u8);
    out.push(34u8);
    out.push(105u8);
    out.push(100u8);
    out.push(34u8);
    out.push(58u8);
    proof {
        assert(out@ =~= old(out)@ + spec_lit_open());
    }
}

/// Bytes of `,"method":`.
pub open spec fn spec_lit_method() -> Seq<u8> {
    seq![44u8, 34u8, 109u8, 101u8, 116u8, 104u8, 111u8, 100u8, 34u8, 58u8]
}

fn push_lit_method(out: &mut Vec<u8>)
    ensures
        final(out)@ == old(out)@ + spec_lit_method(),
{
    out.push(44u8);
    out.push(34u8);
    out.push(109u8);
    out.push(101u8);
    out.push(116u8);
    out.push(104u8);
    out.push(111u8);
    out.push(100u8);
    out.push(34u8);
    out.push(58u8);
    proof {
        assert(out@ =~= old(out)@ + spec_lit_method());
    }
}

/// Bytes of `,"params":`.
pub open spec fn spec_lit_params() -> Seq<u8> {
    seq![44u8, 34u8, 112u8, 97u8, 114u8, 97u8, 109u8, 115u8, 34u8, 58u8]
}

fn push_lit_params(out: &mut Vec<u8>)
    ensures
        final(out)@ == old(out)@ + spec_lit_params(),
{
    out.push(44u8);
    out.push(34u8);
    out.push(112u8);
    out.push(97u8);
    out.push(114u8);
    out.push(97u8);
    out.push(109u8);
    out.push(115u8);
    out.push(34u8);
    out.push(58u8);
    proof {
        assert(out@ =~= old(out)@ + spec_lit_params());
    }
}

/// Bytes of `{"auth":`.
pub open spec fn spec_lit_auth() -> Seq<u8> {
    seq![123u8, 34u8, 97u8, 117u8, 116u8, 104u8, 34u8, 58u8]
}

fn push_lit_auth(out: &mut Vec<u8>)
    ensures
        final(out)@ == old(out)@ + spec_lit_auth(),
{
    out.push(123u8);
    out.push(34u8);
    out.push(97u8);
    out.push(117u8);
    out.push(116u8);
    out.push(104u8);
    out.push(34u8);
    out.push(58u8);
    proof {
        assert(out@ =~= old(out)@ + spec_lit_auth());
    }
}

/// Bytes of `,"data":`.
pub open spec fn spec_lit_data() -> Seq<u8> {
    seq![44u8, 34u8, 100u8, 97u8, 116u8, 97u8, 34u8, 58u8]
}

fn push_lit_data(out: &mut Vec<u8>)
    ensures
        final(out)@ == old(out)@ + spec_lit_data(),
{
    out.push(44u8);
    out.push(34u8);
    out.push(100u8);
    out.push(97u8);
    out.push(116u8);
    out.push(97u8);
    out.push(34u8);
    out.push(58u8);
    proof {
        assert(out@ =~= old(out)@ + spec_lit_data());
    }
}

/// Bytes of `null`.
pub open spec fn spec_lit_null() -> Seq<u8> {
    seq![110u8, 117u8, 108u8, 108u8]
}

/// Push `extra` onto `out`.
pub fn push_bytes(out: &mut Vec<u8>, extra: &[u8])
    ensures
        final(out)@ == old(out)@ + extra@,
{
    let mut i: usize = 0;
    while i < extra.len()
        invariant
            i <= extra@.len(),
            out@ == old(out)@ + extra@.subrange(0, i as int),
        decreases extra@.len() - i,
    {
        out.push(extra[i]);
        i = i + 1;
        proof {
            assert(out@ =~= old(out)@ + extra@.subrange(0, i as int));
        }
    }
    proof {
        assert(extra@.subrange(0, extra@.len() as int) =~= extra@);
    }
}

/// The parameter value that `merge_auth` produces: an object keeps its members
/// and gains `auth`, nothing or `null` becomes a bare `{"auth":...}`, and any
/// other value is wrapped under `data`.
pub open spec fn spec_merge_auth(params: Seq<u8>, token_json: Seq<u8>) -> Seq<u8> {
    let p = drop_trailing_spaces(drop_leading_spaces(params));
    if p.len() == 0 || p == spec_lit_null() {
        spec_lit_auth() + token_json + seq![125u8]
    } else if p.len() >= 2 && p[0] == 123 && p.last() == 125 {
        let inner = p.subrange(1, p.len() - 1);
        let trimmed = drop_trailing_spaces(drop_leading_spaces(inner));
        if trimmed.len() == 0 {
            spec_lit_auth() + token_json + seq![125u8]
        } else {
            spec_lit_auth() + token_json + seq![44u8] + trimmed + seq![125u8]
        }
    } else {
        spec_lit_auth() + token_json + spec_lit_data() + p + seq![125u8]
    }
}

fn trim_region(buf: &[u8], from: usize, to: usize) -> (r: (usize, usize))
    requires
        from <= to <= buf@.len(),
    ensures
        from <= r.0 <= r.1 <= to,
        buf@.subrange(r.0 as int, r.1 as int)
            == drop_trailing_spaces(drop_leading_spaces(buf@.subrange(from as int, to as int))),
{
    let ghost s = buf@.subrange(from as int, to as int);
    let mut lo: usize = from;
    while lo < to && buf[lo] == 32
        invariant
            from <= lo <= to <= buf@.len(),
            drop_leading_spaces(s) == drop_leading_spaces(buf@.subrange(lo as int, to as int)),
        decreases to - lo,
    {
        proof {
            assert(buf@.subrange(lo as int, to as int).drop_first()
                =~= buf@.subrange(lo + 1, to as int));
        }
        lo = lo + 1;
    }
    proof {
        assert(drop_leading_spaces(buf@.subrange(lo as int, to as int))
            == buf@.subrange(lo as int, to as int));
    }
    let mut hi: usize = to;
    while hi > lo && buf[hi - 1] == 32
        invariant
            from <= lo <= hi <= to <= buf@.len(),
            drop_leading_spaces(s) == buf@.subrange(lo as int, to as int),
            drop_trailing_spaces(buf@.subrange(lo as int, to as int))
                == drop_trailing_spaces(buf@.subrange(lo as int, hi as int)),
        decreases hi,
    {
        proof {
            assert(buf@.subrange(lo as int, hi as int).drop_last()
                =~= buf@.subrange(lo as int, hi - 1));
        }
        hi = hi - 1;
    }
    proof {
        assert(drop_trailing_spaces(buf@.subrange(lo as int, hi as int))
            == buf@.subrange(lo as int, hi as int));
    }
    (lo, hi)
}

fn is_null_lit(buf: &[u8], lo: usize, hi: usize) -> (r: bool)
    requires
        lo <= hi <= buf@.len(),
    ensures
        r == (buf@.subrange(lo as int, hi as int) == spec_lit_null()),
{
    let ghost p = buf@.subrange(lo as int, hi as int);
    if hi - lo != 4 {
        proof {
            assert(p.len() != 4 && spec_lit_null().len() == 4);
        }
        return false;
    }
    let r = buf[lo] == 110 && buf[lo + 1] == 117 && buf[lo + 2] == 108 && buf[lo + 3] == 108;
    proof {
        if r {
            assert(p =~= spec_lit_null());
        } else {
            if p == spec_lit_null() {
                assert(forall|k: int| 0 <= k < 4 ==> p[k] == spec_lit_null()[k]);
                assert(false);
            }
        }
    }
    r
}

/// Merge the (already JSON-quoted) auth token into a serialized parameter
/// value, as the wire protocol requires.
pub fn merge_auth(params: &[u8], token_json: &[u8]) -> (r: Vec<u8>)
    ensures
        r@ == spec_merge_auth(params@, token_json@),
{
    let (lo, hi) = trim_region(params, 0, params.len());
    let ghost p = drop_trailing_spaces(drop_leading_spaces(params@));
    proof {
        assert(params@.subrange(0, params@.len() as int) =~= params@);
        assert(params@.subrange(lo as int, hi as int) == p);
    }
    let mut out: Vec<u8> = Vec::new();
    push_lit_auth(&mut out);
    push_bytes(&mut out, token_json);
    if lo == hi || is_null_lit(params, lo, hi) {
        proof {
            assert(p.len() == 0 || p == spec_lit_null());
        }
        out.push(125u8);
        proof {
            assert(out@ =~= spec_merge_auth(params@, token_json@));
        }
        return out;
    }
    if hi - lo >= 2 && params[lo] == 123 && params[hi - 1] == 125 {
        let (ilo, ihi) = trim_region(params, lo + 1, hi - 1);
        let ghost inner = p.subrange(1, p.len() - 1);
        proof {
            assert(inner =~= params@.subrange(lo + 1, hi - 1));
            assert(params@.subrange(ilo as int, ihi as int)
                == drop_trailing_spaces(drop_leading_spaces(inner)));
        }
        if ilo == ihi {
            out.push(125u8);
            proof {
                assert(out@ =~= spec_merge_auth(params@, token_json@));
            }
        } else {
            out.push(44u8);
            push_bytes(&mut out, slice_subrange(params, ilo, ihi));
            out.push(125u8);
            proof {
                assert(out@ =~= spec_merge_auth(params@, token_json@));
            }
        }
        return out;
    }
    push_lit_data(&mut out);
    push_bytes(&mut out, slice_subrange(params, lo, hi));
    out.push(125u8);
    proof {
        assert(out@ =~= spec_merge_auth(params@, token_json@));
    }
    out
}

/// The bytes of a JSON-RPC 2.0 request envelope.
pub open spec fn spec_request(id: nat, method_json: Seq<u8>, params: Seq<u8>) -> Seq<u8> {
    spec_lit_open() + spec_udec(id) + spec_lit_method() + method_json + spec_lit_params() + params
        + seq![125u8]
}

/// Build a request envelope from an id, a JSON-quoted method name, and a
/// serialized parameter value.
pub fn build_request(id: u64, method_json: &[u8], params: &[u8]) -> (r: Vec<u8>)
    ensures
        r@ == spec_request(id as nat, method_json@, params@),
{
    let mut out: Vec<u8> = Vec::new();
    push_lit_open(&mut out);
    push_udec(&mut out, id);
    push_lit_method(&mut out);
    push_bytes(&mut out, method_json);
    push_lit_params(&mut out);
    push_bytes(&mut out, params);
    out.push(125u8);
    proof {
        assert(out@ =~= spec_request(id as nat, method_json@, params@));
    }
    out
}

} // verus!
