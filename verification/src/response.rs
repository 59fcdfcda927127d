//! Parsing one response envelope.
//!
//! A response body is the compact JSON object
//! `{"t":code,...}` with the payload under `"r"`, and for server errors the
//! code under `"e"`, the backtrace span under `"b"` and the message as the
//! single element of `"r"`. The leading `{"t":` and the decimal code are
//! read directly; the remaining members are located with the scanner.
use vstd::prelude::*;
use vstd::utf8::{encode_utf8, valid_utf8};
use crate::errors::{Error, ErrorKind, ServerErrorKind};
use crate::scan::{
    all_digits, dec_value, find_byte, find_byte_ex, find_field, find_field_ex, parse_u32,
    value_end, value_end_ex,
};

verus! {

/// Whether a batch was the last one of its request.
#[derive(Debug, Clone, Copy, PartialEq, Eq, Structural)]
pub enum Complete {
    Yes,
    No,
}

/// Wire code of a single-document response.
pub const SUCCESS_ATOM: u32 = 1;

/// Wire code of a final batch.
pub const SUCCESS_SEQUENCE: u32 = 2;

/// Wire code of a batch with more to follow.
pub const SUCCESS_PARTIAL: u32 = 3;

/// Wire code of a client error report.
pub const CLIENT_ERROR: u32 = 16;

/// Wire code of a compile error report.
pub const COMPILE_ERROR: u32 = 17;

/// Wire code of a runtime error report.
pub const RUNTIME_ERROR: u32 = 18;

/// Outcome of reading one envelope.
pub enum Resp {
    /// The envelope itself could not be read: a transport-level fault.
    Malformed,
    /// The envelope was readable but the payload had the wrong shape.
    BadShape,
    /// A single document, the request is finished.
    Atom(Seq<u8>),
    /// A final batch of documents.
    Sequence(Seq<u8>),
    /// A batch of documents with more to follow.
    Partial(Seq<u8>),
    /// A server-reported error: kind, code, backtrace span, message bytes.
    ServerErr(ServerErrorKind, int, Seq<u32>, Seq<u8>),
}

/// The five bytes every response starts with: `{"t":`.
pub open spec fn response_prefix() -> Seq<u8> {
    seq![0x7bu8, 0x22u8, 0x74u8, 0x22u8, 0x3au8]
}

/// Response type code and the position after its trailing comma.
pub open spec fn rtype_of(s: Seq<u8>) -> Option<(int, int)> {
    if s.len() < 6 || s.subrange(0, 5) != response_prefix() {
        None
    } else {
        match find_byte(s, 5, 0x2c) {
            None => None,
            Some(c) => {
                let digits = s.subrange(5, c);
                if digits.len() > 0 && all_digits(digits) && dec_value(digits) <= u32::MAX {
                    Some((dec_value(digits), c + 1))
                } else {
                    None
                }
            },
        }
    }
}

/// The single element of the `"r"` array of an atom response.
pub open spec fn atom_payload(s: Seq<u8>, i: int) -> Option<Seq<u8>> {
    match find_field(s, i, 0x72) {
        None => None,
        Some((vs, ve)) => if vs < s.len() && s[vs] == 0x5b {
            match value_end(s, vs + 1) {
                None => None,
                Some(e) => if s[e] == 0x5d && e == ve - 1 && vs + 1 < e {
                    Some(s.subrange(vs + 1, e))
                } else {
                    None
                },
            }
        } else {
            None
        },
    }
}

/// The whole `"r"` value of a sequence or partial response.
pub open spec fn seq_payload(s: Seq<u8>, i: int) -> Option<Seq<u8>> {
    match find_field(s, i, 0x72) {
        None => None,
        Some((vs, ve)) => Some(s.subrange(vs, ve)),
    }
}

/// The error code of an error response; `-1` when the field is absent.
pub open spec fn err_code(s: Seq<u8>, i: int) -> Option<int> {
    match find_field(s, i, 0x65) {
        None => Some(-1),
        Some((vs, ve)) => {
            let digits = s.subrange(vs, ve);
            if digits.len() > 0 && all_digits(digits) && dec_value(digits) <= i32::MAX {
                Some(dec_value(digits))
            } else {
                None
            }
        },
    }
}

/// Position of the first non-digit in `[i, end)`, or `end`.
pub open spec fn digit_run_end(s: Seq<u8>, i: int, end: int) -> int
    decreases end - i,
{
    if i < 0 || i >= end || i >= s.len() {
        i
    } else if 0x30 <= s[i] <= 0x39 {
        digit_run_end(s, i + 1, end)
    } else {
        i
    }
}

/// The numbers of a comma-separated run of decimals spanning `[i, end)`.
pub open spec fn u32_items(s: Seq<u8>, i: int, end: int) -> Option<Seq<u32>>
    decreases end - i,
{
    if !(0 <= i && i <= end && end <= s.len()) {
        None
    } else {
        let j = digit_run_end(s, i, end);
        if j == i || dec_value(s.subrange(i, j)) > u32::MAX {
            None
        } else if j == end {
            Some(seq![dec_value(s.subrange(i, j)) as u32])
        } else if s[j] == 0x2c && j + 1 <= end && j > i {
            match u32_items(s, j + 1, end) {
                None => None,
                Some(rest) => Some(seq![dec_value(s.subrange(i, j)) as u32] + rest),
            }
        } else {
            None
        }
    }
}

/// The backtrace span array of an error response.
pub open spec fn err_span(s: Seq<u8>, i: int) -> Option<Seq<u32>> {
    match find_field(s, i, 0x62) {
        None => None,
        Some((vs, ve)) => if ve - vs >= 2 && s[vs] == 0x5b && s[ve - 1] == 0x5d {
            if ve - vs == 2 {
                Some(Seq::empty())
            } else {
                u32_items(s, vs + 1, ve - 1)
            }
        } else {
            None
        },
    }
}

/// Value of one hexadecimal digit.
pub open spec fn hex_val(b: u8) -> Option<u32> {
    if 0x30 <= b <= 0x39 {
        Some((b - 0x30) as u32)
    } else if 0x61 <= b <= 0x66 {
        Some((b - 0x61 + 10) as u32)
    } else if 0x41 <= b <= 0x46 {
        Some((b - 0x41 + 10) as u32)
    } else {
        None
    }
}

/// Value of the four hexadecimal digits at `i`.
pub open spec fn hex4(s: Seq<u8>, i: int) -> Option<u32> {
    if i < 0 || i + 4 > s.len() {
        None
    } else {
        match (hex_val(s[i]), hex_val(s[i + 1]), hex_val(s[i + 2]), hex_val(s[i + 3])) {
            (Some(a), Some(b), Some(c), Some(d)) => Some(
                ((a << 12) | (b << 8) | (c << 4) | d) as u32,
            ),
            _ => None,
        }
    }
}

/// UTF-8 bytes of a code point.
pub open spec fn utf8_enc(cp: u32) -> Seq<u8>
    recommends
        cp < 0x110000,
{
    if cp < 0x80 {
        seq![cp as u8]
    } else if cp < 0x800 {
        seq![(0xc0 | (cp >> 6)) as u8, (0x80 | (cp & 0x3f)) as u8]
    } else if cp < 0x10000 {
        seq![
            (0xe0 | (cp >> 12)) as u8,
            (0x80 | ((cp >> 6) & 0x3f)) as u8,
            (0x80 | (cp & 0x3f)) as u8,
        ]
    } else {
        seq![
            (0xf0 | (cp >> 18)) as u8,
            (0x80 | ((cp >> 12) & 0x3f)) as u8,
            (0x80 | ((cp >> 6) & 0x3f)) as u8,
            (0x80 | (cp & 0x3f)) as u8,
        ]
    }
}

/// Unescaped bytes of the JSON string whose contents start at `i`, and the
/// position just after its closing quote. Handles the named escapes,
/// `\uXXXX`, and surrogate pairs; anything else makes the string unreadable.
pub open spec fn unescape(s: Seq<u8>, i: int) -> Option<(Seq<u8>, int)>
    decreases s.len() - i,
{
    if i < 0 || i >= s.len() {
        None
    } else if s[i] == 0x22 {
        Some((Seq::empty(), i + 1))
    } else if s[i] == 0x5c {
        if i + 2 > s.len() {
            None
        } else {
            let e = s[i + 1];
            if e == 0x22 || e == 0x5c || e == 0x2f {
                match unescape(s, i + 2) {
                    None => None,
                    Some(p) => Some((seq![e] + p.0, p.1)),
                }
            } else if e == 0x62 || e == 0x66 || e == 0x6e || e == 0x72 || e == 0x74 {
                let c: u8 = if e == 0x62 {
                    0x08
                } else if e == 0x66 {
                    0x0c
                } else if e == 0x6e {
                    0x0a
                } else if e == 0x72 {
                    0x0d
                } else {
                    0x09
                };
                match unescape(s, i + 2) {
                    None => None,
                    Some(p) => Some((seq![c] + p.0, p.1)),
                }
            } else if e == 0x75 {
                match hex4(s, i + 2) {
                    None => None,
                    Some(cp) => if 0xd800 <= cp < 0xdc00 {
                        if i + 12 > s.len() || s[i + 6] != 0x5c || s[i + 7] != 0x75 {
                            None
                        } else {
                            match hex4(s, i + 8) {
                                None => None,
                                Some(cp2) => if 0xdc00 <= cp2 < 0xe000 {
                                    let full = (0x10000 + ((((cp - 0xd800) as u32)
                                        << 10u32) as int) + (cp2 - 0xdc00)) as u32;
                                    match unescape(s, i + 12) {
                                        None => None,
                                        Some(p) => Some((utf8_enc(full) + p.0, p.1)),
                                    }
                                } else {
                                    None
                                },
                            }
                        }
                    } else if 0xdc00 <= cp < 0xe000 {
                        None
                    } else {
                        match unescape(s, i + 6) {
                            None => None,
                            Some(p) => Some((utf8_enc(cp) + p.0, p.1)),
                        }
                    },
                }
            } else {
                None
            }
        }
    } else {
        match unescape(s, i + 1) {
            None => None,
            Some(p) => Some((seq![s[i]] + p.0, p.1)),
        }
    }
}

/// The unescaped message of an error response: the single string element of
/// its `"r"` array.
pub open spec fn err_msg(s: Seq<u8>, i: int) -> Option<Seq<u8>> {
    match find_field(s, i, 0x72) {
        None => None,
        Some((vs, ve)) => if vs + 1 < s.len() && s[vs] == 0x5b && s[vs + 1] == 0x22 {
            match unescape(s, vs + 2) {
                None => None,
                Some(p) => if p.1 == ve - 1 && 0 <= p.1 < s.len() && s[p.1] == 0x5d {
                    Some(p.0)
                } else {
                    None
                },
            }
        } else {
            None
        },
    }
}

/// Reading of one whole envelope.
pub open spec fn parse_response(s: Seq<u8>) -> Resp {
    match rtype_of(s) {
        None => Resp::Malformed,
        Some((t, i)) => if t == SUCCESS_ATOM as int {
            match atom_payload(s, i) {
                Some(p) => Resp::Atom(p),
                None => Resp::BadShape,
            }
        } else if t == SUCCESS_SEQUENCE as int {
            match seq_payload(s, i) {
                Some(p) => Resp::Sequence(p),
                None => Resp::BadShape,
            }
        } else if t == SUCCESS_PARTIAL as int {
            match seq_payload(s, i) {
                Some(p) => Resp::Partial(p),
                None => Resp::BadShape,
            }
        } else if t == CLIENT_ERROR as int || t == COMPILE_ERROR as int || t == RUNTIME_ERROR as int {
            let kind = if t == CLIENT_ERROR as int {
                ServerErrorKind::Client
            } else if t == COMPILE_ERROR as int {
                ServerErrorKind::Compile
            } else {
                ServerErrorKind::Runtime
            };
            match (err_code(s, i), err_span(s, i), err_msg(s, i)) {
                (Some(code), Some(span), Some(msg)) => Resp::ServerErr(kind, code, span, msg),
                _ => Resp::Malformed,
            }
        } else {
            Resp::Malformed
        },
    }
}

/// Relies on String::from_utf8: yields the string with exactly the given
/// bytes when they are valid UTF-8, and nothing otherwise.
#[verifier::external_body]
fn string_from_utf8(v: Vec<u8>) -> (r: Option<String>)
    ensures
        match r {
            Some(s) => encode_utf8(s@) == v@ && valid_utf8(v@),
            None => !valid_utf8(v@),
        },
{
    String::from_utf8(v).ok()
}

fn hex4_ex(s: &[u8], i: usize) -> (r: Option<u32>)
    ensures
        r == hex4(s@, i as int),
{
    if i >= s.len() || s.len() - i < 4 {
        return None;
    }
    let a = match hex_val_ex(s[i]) {
        None => {
            return None;
        },
        Some(x) => x,
    };
    let b = match hex_val_ex(s[i + 1]) {
        None => {
            return None;
        },
        Some(x) => x,
    };
    let c = match hex_val_ex(s[i + 2]) {
        None => {
            return None;
        },
        Some(x) => x,
    };
    let d = match hex_val_ex(s[i + 3]) {
        None => {
            return None;
        },
        Some(x) => x,
    };
    Some(((a << 12u32) | (b << 8u32) | (c << 4u32) | d) as u32)
}

fn hex_val_ex(b: u8) -> (r: Option<u32>)
    ensures
        r == hex_val(b),
{
    if 0x30 <= b && b <= 0x39 {
        Some((b - 0x30) as u32)
    } else if 0x61 <= b && b <= 0x66 {
        Some((b - 0x61 + 10) as u32)
    } else if 0x41 <= b && b <= 0x46 {
        Some((b - 0x41 + 10) as u32)
    } else {
        None
    }
}

/// Append the UTF-8 bytes of a code point.
fn push_utf8(cp: u32, out: &mut Vec<u8>)
    requires
        cp < 0x110000,
    ensures
        final(out)@ == old(out)@ + utf8_enc(cp),
{
    if cp < 0x80 {
        out.push(cp as u8);
    } else if cp < 0x800 {
        out.push((0xc0 | (cp >> 6u32)) as u8);
        out.push((0x80 | (cp & 0x3f)) as u8);
    } else if cp < 0x10000 {
        out.push((0xe0 | (cp >> 12u32)) as u8);
        out.push((0x80 | ((cp >> 6u32) & 0x3f)) as u8);
        out.push((0x80 | (cp & 0x3f)) as u8);
    } else {
        out.push((0xf0 | (cp >> 18u32)) as u8);
        out.push((0x80 | ((cp >> 12u32) & 0x3f)) as u8);
        out.push((0x80 | ((cp >> 6u32) & 0x3f)) as u8);
        out.push((0x80 | (cp & 0x3f)) as u8);
    }
    assert(out@ =~= old(out)@ + utf8_enc(cp));
}

/// Unescape a JSON string's contents starting at `i`, appending the bytes;
/// yields the position just after the closing quote.
fn unescape_ex(s: &[u8], i: usize, out: &mut Vec<u8>) -> (r: Option<usize>)
    requires
        i <= s@.len(),
    ensures
        match r {
            Some(end) => match unescape(s@, i as int) {
                Some(p) => final(out)@ == old(out)@ + p.0 && p.1 == end as int,
                None => false,
            },
            None => unescape(s@, i as int) is None,
        },
    decreases s@.len() - i,
{
    if i >= s.len() {
        return None;
    }
    let b = s[i];
    if b == 0x22 {
        assert(out@ =~= old(out)@ + Seq::<u8>::empty());
        return Some(i + 1);
    }
    if b == 0x5c {
        if s.len() - i < 2 {
            return None;
        }
        let e = s[i + 1];
        if e == 0x22 || e == 0x5c || e == 0x2f {
            out.push(e);
            let r = unescape_ex(s, i + 2, out);
            proof {
                if r is Some {
                    assert(out@ =~= old(out)@ + (seq![e]
                        + unescape(s@, i as int + 2)->Some_0.0));
                }
            }
            return r;
        }
        if e == 0x62 || e == 0x66 || e == 0x6e || e == 0x72 || e == 0x74 {
            let c: u8 = if e == 0x62 {
                0x08
            } else if e == 0x66 {
                0x0c
            } else if e == 0x6e {
                0x0a
            } else if e == 0x72 {
                0x0d
            } else {
                0x09
            };
            out.push(c);
            let r = unescape_ex(s, i + 2, out);
            proof {
                if r is Some {
                    assert(out@ =~= old(out)@ + (seq![c]
                        + unescape(s@, i as int + 2)->Some_0.0));
                }
            }
            return r;
        }
        if e == 0x75 {
            let cp = match hex4_ex(s, i + 2) {
                None => {
                    return None;
                },
                Some(cp) => cp,
            };
            proof {
                lemma_hex4_bound(s@, i as int + 2);
            }
            if 0xd800 <= cp && cp < 0xdc00 {
                if s.len() - i < 12 || s[i + 6] != 0x5c || s[i + 7] != 0x75 {
                    return None;
                }
                let cp2 = match hex4_ex(s, i + 8) {
                    None => {
                        return None;
                    },
                    Some(cp2) => cp2,
                };
                if !(0xdc00 <= cp2 && cp2 < 0xe000) {
                    return None;
                }
                proof {
                    assert(cp < 0xdc00 && cp >= 0xd800 ==> ((((cp - 0xd800) as u32) << 10u32))
                        <= 0xffc00) by (bit_vector);
                }
                let full: u32 = 0x10000 + ((cp - 0xd800) << 10u32) + (cp2 - 0xdc00);
                push_utf8(full, out);
                let r = unescape_ex(s, i + 12, out);
                proof {
                    if r is Some {
                        assert(out@ =~= old(out)@ + (utf8_enc(full) + unescape(
                            s@,
                            i as int + 12,
                        )->Some_0.0));
                    }
                }
                return r;
            }
            if 0xdc00 <= cp && cp < 0xe000 {
                return None;
            }
            push_utf8(cp, out);
            let r = unescape_ex(s, i + 6, out);
            proof {
                if r is Some {
                    assert(out@ =~= old(out)@ + (utf8_enc(cp) + unescape(
                        s@,
                        i as int + 6,
                    )->Some_0.0));
                }
            }
            return r;
        }
        return None;
    }
    out.push(b);
    let r = unescape_ex(s, i + 1, out);
    proof {
        if r is Some {
            assert(out@ =~= old(out)@ + (seq![b] + unescape(s@, i as int + 1)->Some_0.0));
        }
    }
    r
}

proof fn lemma_hex4_bound(s: Seq<u8>, i: int)
    ensures
        hex4(s, i) is Some ==> hex4(s, i)->Some_0 < 0x10000,
{
    if hex4(s, i) is Some {
        let a = hex_val(s[i])->Some_0;
        let b = hex_val(s[i + 1])->Some_0;
        let c = hex_val(s[i + 2])->Some_0;
        let d = hex_val(s[i + 3])->Some_0;
        assert(a < 16 && b < 16 && c < 16 && d < 16);
        assert(a < 16 && b < 16 && c < 16 && d < 16 ==> ((a << 12u32) | (b << 8u32) | (c
            << 4u32) | d) < 0x10000) by (bit_vector);
    }
}


/// Bytes of the span `[from, to)`.
fn copy_span(s: &[u8], from: usize, to: usize) -> (r: Vec<u8>)
    requires
        from <= to <= s@.len(),
    ensures
        r@ == s@.subrange(from as int, to as int),
{
    vstd::slice::slice_to_vec(vstd::slice::slice_subrange(s, from, to))
}

fn digit_run_end_ex(s: &[u8], from: usize, end: usize) -> (r: usize)
    requires
        from <= end <= s@.len(),
    ensures
        r as int == digit_run_end(s@, from as int, end as int),
        from <= r <= end,
{
    let mut i = from;
    while i < end
        invariant
            from <= i <= end <= s@.len(),
            digit_run_end(s@, from as int, end as int) == digit_run_end(s@, i as int, end as int),
        decreases end - i,
    {
        let b = s[i];
        if b < 0x30 || b > 0x39 {
            return i;
        }
        i += 1;
    }
    end
}

proof fn lemma_digit_run_all_digits(s: Seq<u8>, i: int, end: int)
    requires
        0 <= i <= end <= s.len(),
    ensures
        all_digits(s.subrange(i, digit_run_end(s, i, end))),
        i <= digit_run_end(s, i, end) <= end,
    decreases end - i,
{
    let j = digit_run_end(s, i, end);
    if i < end && 0x30 <= s[i] <= 0x39 {
        lemma_digit_run_all_digits(s, i + 1, end);
        assert forall|k: int| 0 <= k < j - i implies 0x30 <= #[trigger] s.subrange(i, j)[k]
            <= 0x39 by {
            assert(s.subrange(i, j)[k] == s[i + k]);
            if k > 0 {
                assert(s.subrange(i + 1, j)[k - 1] == s[i + k]);
            }
        }
    } else {
        assert(s.subrange(i, j) =~= Seq::<u8>::empty());
    }
}

fn u32_items_ex(s: &[u8], from: usize, end: usize) -> (r: Option<Vec<u32>>)
    requires
        from <= end <= s@.len(),
    ensures
        match r {
            Some(v) => u32_items(s@, from as int, end as int) == Some(v@),
            None => u32_items(s@, from as int, end as int) is None,
        },
{
    let mut acc: Vec<u32> = Vec::new();
    let mut pos = from;
    loop
        invariant
            from <= pos <= end <= s@.len(),
            match u32_items(s@, pos as int, end as int) {
                Some(rest) => u32_items(s@, from as int, end as int) == Some(acc@ + rest),
                None => u32_items(s@, from as int, end as int) is None,
            },
        decreases end - pos,
    {
        let j = digit_run_end_ex(s, pos, end);
        proof {
            lemma_digit_run_all_digits(s@, pos as int, end as int);
        }
        if j == pos {
            return None;
        }
        let v = match parse_u32(s, pos, j) {
            None => {
                return None;
            },
            Some(v) => v,
        };
        let ghost acc_pre = acc@;
        acc.push(v);
        proof {
            assert(acc@ =~= acc_pre + seq![v]);
        }
        if j == end {
            proof {
                assert(u32_items(s@, pos as int, end as int) == Some(seq![v]));
                assert(acc_pre + seq![v] =~= acc@);
            }
            return Some(acc);
        }
        if s[j] != 0x2c {
            return None;
        }
        pos = j + 1;
        proof {
            assert(forall|rest: Seq<u32>| acc_pre + (seq![v] + rest) =~= acc@ + rest);
        }
    }
}

/// Make a transport-level error.
fn conn_error(msg: &str) -> (r: Error)
    ensures
        r.kind_v() matches ErrorKind::Connection(_),
{
    Error::from_kind(ErrorKind::Connection(msg.to_owned()))
}

/// Read one response envelope: the batch payload and whether the request is
/// complete, or the error the envelope reports.
#[verifier::rlimit(100)]
#[verifier::spinoff_prover]
pub fn extract_from_response(rec: &[u8]) -> (r: Result<(Vec<u8>, Complete), Error>)
    ensures
        ({
            match parse_response(rec@) {
                Resp::Malformed => r matches Err(e) && e.kind_v() matches ErrorKind::Connection(
                    _,
                ),
                Resp::BadShape => r matches Err(e) && e.kind_v()
                    == ErrorKind::UnexpectedResponse,
                Resp::Atom(p) => r matches Ok(b) && b.0@ == p && b.1 == Complete::Yes,
                Resp::Sequence(p) => r matches Ok(b) && b.0@ == p && b.1 == Complete::Yes,
                Resp::Partial(p) => r matches Ok(b) && b.0@ == p && b.1 == Complete::No,
                Resp::ServerErr(kind, code, span, msg) => r matches Err(e) && (if valid_utf8(
                    msg,
                ) {
                    e.kind_v() matches ErrorKind::Server {
                        kind: k2,
                        code: c2,
                        span: sp2,
                        message: m2,
                    } && k2 == kind && c2 as int == code && sp2@ == span && encode_utf8(m2@)
                        == msg
                } else {
                    e.kind_v() matches ErrorKind::Connection(_)
                }),
            }
        }),
{
    if rec.len() < 6 || rec[0] != 0x7b || rec[1] != 0x22 || rec[2] != 0x74 || rec[3] != 0x22
        || rec[4] != 0x3a {
        proof {
            if rec@.len() >= 6 && rec@.subrange(0, 5) == response_prefix() {
                assert(rec@.subrange(0, 5)[0] == rec@[0]);
                assert(rec@.subrange(0, 5)[1] == rec@[1]);
                assert(rec@.subrange(0, 5)[2] == rec@[2]);
                assert(rec@.subrange(0, 5)[3] == rec@[3]);
                assert(rec@.subrange(0, 5)[4] == rec@[4]);
            }
        }
        return Err(conn_error("unexpected start of response"));
    }
    proof {
        assert(rec@.subrange(0, 5) =~= response_prefix());
    }
    let comma = match find_byte_ex(rec, 5, 0x2c) {
        None => {
            return Err(conn_error("comma missing in response"));
        },
        Some(c) => c,
    };
    let t = match parse_u32(rec, 5, comma) {
        None => {
            return Err(conn_error("response type not a number"));
        },
        Some(t) => t,
    };
    let i = comma + 1;
    if t == SUCCESS_ATOM {
        let span = match find_field_ex(rec, i, 0x72) {
            None => {
                return Err(Error::from_kind(ErrorKind::UnexpectedResponse));
            },
            Some(x) => x,
        };
        let vs = span.0;
        let ve = span.1;
        if rec[vs] != 0x5b {
            return Err(Error::from_kind(ErrorKind::UnexpectedResponse));
        }
        let e = match value_end_ex(rec, vs + 1) {
            None => {
                return Err(Error::from_kind(ErrorKind::UnexpectedResponse));
            },
            Some(e) => e,
        };
        if !(rec[e] == 0x5d && e + 1 == ve && vs + 1 < e) {
            return Err(Error::from_kind(ErrorKind::UnexpectedResponse));
        }
        let payload = copy_span(rec, vs + 1, e);
        return Ok((payload, Complete::Yes));
    }
    if t == SUCCESS_SEQUENCE || t == SUCCESS_PARTIAL {
        let span = match find_field_ex(rec, i, 0x72) {
            None => {
                return Err(Error::from_kind(ErrorKind::UnexpectedResponse));
            },
            Some(x) => x,
        };
        let payload = copy_span(rec, span.0, span.1);
        let complete = if t == SUCCESS_SEQUENCE {
            Complete::Yes
        } else {
            Complete::No
        };
        return Ok((payload, complete));
    }
    if t == CLIENT_ERROR || t == COMPILE_ERROR || t == RUNTIME_ERROR {
        let kind = if t == CLIENT_ERROR {
            ServerErrorKind::Client
        } else if t == COMPILE_ERROR {
            ServerErrorKind::Compile
        } else {
            ServerErrorKind::Runtime
        };
        let code: i32 = match find_field_ex(rec, i, 0x65) {
            None => -1,
            Some(span) => match parse_u32(rec, span.0, span.1) {
                None => {
                    return Err(conn_error("invalid json in error response"));
                },
                Some(v) => {
                    if v > 0x7fffffff {
                        return Err(conn_error("invalid json in error response"));
                    }
                    v as i32
                },
            },
        };
        let bspan = match find_field_ex(rec, i, 0x62) {
            None => {
                return Err(conn_error("invalid json in error response"));
            },
            Some(x) => x,
        };
        let bs = bspan.0;
        let be = bspan.1;
        if !(be - bs >= 2 && rec[bs] == 0x5b && rec[be - 1] == 0x5d) {
            return Err(conn_error("invalid json in error response"));
        }
        let span_values: Vec<u32> = if be - bs == 2 {
            Vec::new()
        } else {
            match u32_items_ex(rec, bs + 1, be - 1) {
                None => {
                    return Err(conn_error("invalid json in error response"));
                },
                Some(v) => v,
            }
        };
        let mspan = match find_field_ex(rec, i, 0x72) {
            None => {
                return Err(conn_error("invalid json in error response"));
            },
            Some(x) => x,
        };
        let ms = mspan.0;
        let me = mspan.1;
        if !(ms + 1 < rec.len() && rec[ms] == 0x5b && rec[ms + 1] == 0x22) {
            return Err(conn_error("invalid json in error response"));
        }
        let mut msg_bytes: Vec<u8> = Vec::new();
        let msg_end = match unescape_ex(rec, ms + 2, &mut msg_bytes) {
            None => {
                return Err(conn_error("invalid json in error response"));
            },
            Some(e) => e,
        };
        if !(msg_end < rec.len() && msg_end + 1 == me && rec[msg_end] == 0x5d) {
            return Err(conn_error("invalid json in error response"));
        }
        let message = match string_from_utf8(msg_bytes) {
            None => {
                return Err(conn_error("invalid utf-8 in response"));
            },
            Some(m) => m,
        };
        return Err(
            Error::from_kind(ErrorKind::Server { kind, code, span: span_values, message }),
        );
    }
    Err(conn_error("unexpected response type"))
}


/// The item spans of a JSON array body, reading values from `i` up to a
/// closing bracket that must end the buffer.
pub open spec fn json_items(s: Seq<u8>, i: int) -> Option<Seq<Seq<u8>>>
    decreases s.len() - i,
{
    match value_end(s, i) {
        None => None,
        Some(e) => {
            let item = s.subrange(i, e);
            if s[e] == 0x5d && e == s.len() - 1 {
                Some(seq![item])
            } else if s[e] == 0x2c && e + 1 > i && e < s.len() {
                match json_items(s, e + 1) {
                    None => None,
                    Some(rest) => Some(seq![item] + rest),
                }
            } else {
                None
            }
        },
    }
}

/// The items of a whole JSON array.
pub open spec fn split_items_spec(s: Seq<u8>) -> Option<Seq<Seq<u8>>> {
    if s.len() < 2 || s[0] != 0x5b || s[s.len() - 1] != 0x5d {
        None
    } else if s.len() == 2 {
        Some(Seq::empty())
    } else {
        json_items(s, 1)
    }
}

/// Split a batch payload, a JSON array, into the bytes of its items.
pub fn split_items(s: &[u8]) -> (r: Option<Vec<Vec<u8>>>)
    ensures
        match r {
            Some(items) => split_items_spec(s@) == Some(
                Seq::new(items@.len(), |k: int| items@[k]@),
            ),
            None => split_items_spec(s@) is None,
        },
{
    if s.len() < 2 || s[0] != 0x5b || s[s.len() - 1] != 0x5d {
        return None;
    }
    let mut items: Vec<Vec<u8>> = Vec::new();
    if s.len() == 2 {
        proof {
            assert(Seq::new(items@.len(), |k: int| items@[k]@) =~= Seq::<Seq<u8>>::empty());
        }
        return Some(items);
    }
    let mut i: usize = 1;
    loop
        invariant
            1 <= i < s@.len(),
            match json_items(s@, i as int) {
                Some(rest) => split_items_spec(s@) == Some(
                    Seq::new(items@.len(), |k: int| items@[k]@) + rest,
                ),
                None => split_items_spec(s@) is None,
            },
        decreases s@.len() - i,
    {
        let e = match value_end_ex(s, i) {
            None => {
                return None;
            },
            Some(e) => e,
        };
        let item = copy_span(s, i, e);
        let ghost items0 = items@;
        items.push(item);
        proof {
            assert(Seq::new(items@.len(), |k: int| items@[k]@) =~= Seq::new(
                items0.len(),
                |k: int| items0[k]@,
            ).push(s@.subrange(i as int, e as int)));
            assert(forall|rest: Seq<Seq<u8>>|
                Seq::new(items0.len(), |k: int| items0[k]@) + (seq![
                    s@.subrange(i as int, e as int),
                ] + rest) =~= (Seq::new(items0.len(), |k: int| items0[k]@).push(
                    s@.subrange(i as int, e as int),
                )) + rest);
        }
        if s[e] == 0x5d && e == s.len() - 1 {
            proof {
                assert(Seq::new(items0.len(), |k: int| items0[k]@) + seq![
                    s@.subrange(i as int, e as int),
                ] =~= Seq::new(items@.len(), |k: int| items@[k]@));
            }
            return Some(items);
        }
        if s[e] != 0x2c {
            return None;
        }
        i = e + 1;
        if i >= s.len() {
            proof {
                assert(json_items(s@, (e + 1) as int) is None);
            }
            return None;
        }
    }
}

} // verus!
