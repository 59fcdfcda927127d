//! JSON serialization of query trees.
//!
//! A term node serializes as `[tag,[args...]]`, with `,{opts...}` inserted
//! before the closing bracket when at least one option is set. Strings are
//! escaped the way the wire expects: `"` and `\` get a backslash, the control
//! characters with short forms use them, and the remaining control characters
//! use `\u00XX`; all other bytes pass through unchanged.
use vstd::prelude::*;
use vstd::utf8::encode_utf8;
use crate::ast::{Ast, AstV, OptArgs, ast_view, asts_view, opts_view, lemma_asts_view_push};

verus! {

/// Decimal digits of a non-negative number, most significant first.
pub open spec fn dec_digits(n: int) -> Seq<u8>
    recommends
        n >= 0,
    decreases n,
{
    if n < 10 {
        seq![(0x30 + n) as u8]
    } else {
        dec_digits(n / 10).push((0x30 + (n % 10)) as u8)
    }
}

/// Decimal form of an integer: a minus sign for negative values, then digits.
pub open spec fn dec_int(n: int) -> Seq<u8> {
    if n < 0 {
        seq![0x2du8] + dec_digits(-n)
    } else {
        dec_digits(n)
    }
}

/// Lower-case hexadecimal digit for a value below 16.
pub open spec fn hex_digit(n: int) -> u8
    recommends
        0 <= n < 16,
{
    if n < 10 {
        (0x30 + n) as u8
    } else {
        (0x57 + n) as u8
    }
}

/// How one byte of a string's UTF-8 form appears inside a JSON string.
pub open spec fn escape_byte(b: u8) -> Seq<u8> {
    if b == 0x22 {
        seq![0x5cu8, 0x22u8]
    } else if b == 0x5c {
        seq![0x5cu8, 0x5cu8]
    } else if b == 0x08 {
        seq![0x5cu8, 0x62u8]
    } else if b == 0x09 {
        seq![0x5cu8, 0x74u8]
    } else if b == 0x0a {
        seq![0x5cu8, 0x6eu8]
    } else if b == 0x0c {
        seq![0x5cu8, 0x66u8]
    } else if b == 0x0d {
        seq![0x5cu8, 0x72u8]
    } else if b < 0x20 {
        seq![0x5cu8, 0x75u8, 0x30u8, 0x30u8, hex_digit(b as int / 16), hex_digit(b as int % 16)]
    } else {
        seq![b]
    }
}

/// A byte sequence with every byte escaped for a JSON string.
pub open spec fn escaped(s: Seq<u8>) -> Seq<u8>
    decreases s.len(),
{
    if s.len() == 0 {
        Seq::empty()
    } else {
        escaped(s.drop_last()) + escape_byte(s.last())
    }
}

/// A JSON string literal: quotes around the escaped UTF-8 bytes.
pub open spec fn json_str(s: Seq<char>) -> Seq<u8> {
    seq![0x22u8] + escaped(encode_utf8(s)) + seq![0x22u8]
}

/// The bytes of one JSON value.
pub open spec fn json_of(v: AstV) -> Seq<u8>
    decreases v,
{
    match v {
        AstV::Null => seq![0x6eu8, 0x75u8, 0x6cu8, 0x6cu8],
        AstV::Bool(b) => if b {
            seq![0x74u8, 0x72u8, 0x75u8, 0x65u8]
        } else {
            seq![0x66u8, 0x61u8, 0x6cu8, 0x73u8, 0x65u8]
        },
        AstV::Num(n) => dec_int(n),
        AstV::Str(s) => json_str(s),
        AstV::Arr(items) => seq![0x5bu8] + json_list(items) + seq![0x5du8],
        AstV::Term(tag, args, opts) => seq![0x5bu8] + dec_int(tag) + seq![0x2cu8, 0x5bu8]
            + json_list(args) + seq![0x5du8] + (if opts.is_empty() {
            Seq::<u8>::empty()
        } else {
            seq![0x2cu8, 0x7bu8] + json_join(
                json_join(
                    json_opt_part(opts.index, "index"@),
                    json_opt_part(opts.left_bound, "left_bound"@),
                ),
                json_opt_part(opts.right_bound, "right_bound"@),
            ) + seq![0x7du8]
        }) + seq![0x5du8],
    }
}

/// Comma-separated JSON values.
pub open spec fn json_list(items: Seq<AstV>) -> Seq<u8>
    decreases items,
{
    if items.len() == 0 {
        Seq::empty()
    } else if items.len() == 1 {
        json_of(items[0])
    } else {
        json_list(items.drop_last()) + seq![0x2cu8] + json_of(items.last())
    }
}

/// One `"name":value` object member for an option slot, or nothing when the
/// slot is unset.
pub open spec fn json_opt_part(slot: Seq<AstV>, name: Seq<char>) -> Seq<u8>
    decreases slot,
{
    if slot.len() == 0 {
        Seq::empty()
    } else {
        json_str(name) + seq![0x3au8] + json_of(slot[0])
    }
}

/// Two object-body pieces joined with a comma when both are present.
pub open spec fn json_join(pre: Seq<u8>, part: Seq<u8>) -> Seq<u8> {
    if pre.len() == 0 {
        part
    } else if part.len() == 0 {
        pre
    } else {
        pre + seq![0x2cu8] + part
    }
}

pub proof fn lemma_json_list_push(s: Seq<AstV>, x: AstV)
    ensures
        json_list(s.push(x)) == if s.len() == 0 {
            json_of(x)
        } else {
            json_list(s) + seq![0x2cu8] + json_of(x)
        },
{
    let p = s.push(x);
    assert(p.len() == s.len() + 1);
    assert(p.drop_last() =~= s);
    assert(p.last() == x);
    if s.len() == 0 {
        assert(p[0] == x);
    }
}

proof fn lemma_escaped_push(s: Seq<u8>, b: u8)
    ensures
        escaped(s.push(b)) == escaped(s) + escape_byte(b),
{
    let p = s.push(b);
    assert(p.drop_last() =~= s);
    assert(p.last() == b);
}

/// Append the decimal digits of `n`.
pub fn push_dec_u64(n: u64, out: &mut Vec<u8>)
    ensures
        final(out)@ == old(out)@ + dec_digits(n as int),
    decreases n,
{
    if n >= 10 {
        push_dec_u64(n / 10, out);
    }
    out.push((0x30 + (n % 10)) as u8);
    assert(out@ =~= old(out)@ + dec_digits(n as int));
}

/// Append the decimal form of a signed number.
pub fn push_dec_i64(n: i64, out: &mut Vec<u8>)
    ensures
        final(out)@ == old(out)@ + dec_int(n as int),
{
    if n < 0 {
        out.push(0x2d);
        let magnitude: u64 = (-(n + 1)) as u64 + 1;
        assert(magnitude == -(n as int));
        push_dec_u64(magnitude, out);
        assert(out@ =~= old(out)@ + dec_int(n as int));
    } else {
        push_dec_u64(n as u64, out);
    }
}

fn hex_digit_ex(n: u8) -> (r: u8)
    requires
        n < 16,
    ensures
        r == hex_digit(n as int),
{
    if n < 10 {
        0x30 + n
    } else {
        0x57 + n
    }
}

/// Append one escaped byte of a JSON string body.
fn push_escaped_byte(b: u8, out: &mut Vec<u8>)
    ensures
        final(out)@ == old(out)@ + escape_byte(b),
{
    if b == 0x22 {
        out.push(0x5c);
        out.push(0x22);
    } else if b == 0x5c {
        out.push(0x5c);
        out.push(0x5c);
    } else if b == 0x08 {
        out.push(0x5c);
        out.push(0x62);
    } else if b == 0x09 {
        out.push(0x5c);
        out.push(0x74);
    } else if b == 0x0a {
        out.push(0x5c);
        out.push(0x6e);
    } else if b == 0x0c {
        out.push(0x5c);
        out.push(0x66);
    } else if b == 0x0d {
        out.push(0x5c);
        out.push(0x72);
    } else if b < 0x20 {
        out.push(0x5c);
        out.push(0x75);
        out.push(0x30);
        out.push(0x30);
        out.push(hex_digit_ex(b / 16));
        out.push(hex_digit_ex(b % 16));
    } else {
        out.push(b);
    }
    assert(out@ =~= old(out)@ + escape_byte(b));
}

/// Append a JSON string literal for `s`.
pub fn push_json_str(s: &str, out: &mut Vec<u8>)
    ensures
        final(out)@ == old(out)@ + json_str(s@),
{
    out.push(0x22);
    let bs = s.as_bytes();
    let ghost all = bs@;
    let mut i: usize = 0;
    while i < bs.len()
        invariant
            i <= bs.len(),
            bs@ == all,
            out@ == old(out)@ + seq![0x22u8] + escaped(all.subrange(0, i as int)),
        decreases bs.len() - i,
    {
        proof {
            assert(all.subrange(0, i as int).push(all[i as int]) =~= all.subrange(
                0,
                i as int + 1,
            ));
            lemma_escaped_push(all.subrange(0, i as int), all[i as int]);
        }
        push_escaped_byte(bs[i], out);
        i += 1;
    }
    proof {
        assert(all.subrange(0, all.len() as int) =~= all);
    }
    out.push(0x22);
    assert(out@ =~= old(out)@ + json_str(s@));
}

/// Append the JSON form of one syntax tree.
#[verifier::rlimit(100)]
pub fn write_json(a: &Ast, out: &mut Vec<u8>)
    ensures
        final(out)@ == old(out)@ + json_of(a@),
    decreases *a, 1int,
{
    match a {
        Ast::Null => {
            out.push(0x6e);
            out.push(0x75);
            out.push(0x6c);
            out.push(0x6c);
            assert(out@ =~= old(out)@ + json_of(a@));
        },
        Ast::Bool(b) => {
            if *b {
                out.push(0x74);
                out.push(0x72);
                out.push(0x75);
                out.push(0x65);
            } else {
                out.push(0x66);
                out.push(0x61);
                out.push(0x6c);
                out.push(0x73);
                out.push(0x65);
            }
            assert(out@ =~= old(out)@ + json_of(a@));
        },
        Ast::Int(i) => {
            push_dec_i64(*i, out);
        },
        Ast::UInt(u) => {
            push_dec_u64(*u, out);
            assert(out@ =~= old(out)@ + json_of(a@));
        },
        Ast::Str(s) => {
            push_json_str(s.as_str(), out);
        },
        Ast::Arr(items) => {
            out.push(0x5b);
            write_json_list(a, items, out);
            out.push(0x5d);
            assert(out@ =~= old(out)@ + json_of(a@));
        },
        Ast::Term(tag, args, opts) => {
            out.push(0x5b);
            push_dec_u64(*tag as u64, out);
            out.push(0x2c);
            out.push(0x5b);
            write_json_list(a, args, out);
            out.push(0x5d);
            proof {
                assert(decreases_to!(*a => *opts));
            }
            write_term_opts(a, opts, out);
            out.push(0x5d);
            assert(out@ =~= old(out)@ + json_of(a@));
        },
    }
}

/// Append `,{opts...}` when at least one option slot of a term is set, and
/// nothing when none is; `owner` is the node the options belong to, carried
/// for termination.
#[verifier::rlimit(100)]
#[verifier::spinoff_prover]
fn write_term_opts(owner: &Ast, opts: &OptArgs, out: &mut Vec<u8>)
    requires
        decreases_to!(*owner => *opts),
    ensures
        final(out)@ == old(out)@ + (if opts_view(*opts).is_empty() {
            Seq::<u8>::empty()
        } else {
            seq![0x2cu8, 0x7bu8] + json_join(
                json_join(
                    json_opt_part(opts_view(*opts).index, "index"@),
                    json_opt_part(opts_view(*opts).left_bound, "left_bound"@),
                ),
                json_opt_part(opts_view(*opts).right_bound, "right_bound"@),
            ) + seq![0x7du8]
        }),
    decreases *owner, 0int,
{
    let has_opts = opts.index.is_some() || opts.left_bound.is_some() || opts.right_bound.is_some();
    if has_opts {
        out.push(0x2c);
        out.push(0x7b);
        let ghost mark = out@;
        if let Some(v) = &opts.index {
            proof {
                assert(decreases_to!(*opts => **v));
            }
            push_json_str("index", out);
            out.push(0x3a);
            write_json(&**v, out);
        }
        proof {
            assert(out@ =~= mark + json_opt_part(opts_view(*opts).index, "index"@));
        }
        if let Some(v) = &opts.left_bound {
            proof {
                assert(decreases_to!(*opts => **v));
            }
            if opts.index.is_some() {
                out.push(0x2c);
            }
            push_json_str("left_bound", out);
            out.push(0x3a);
            write_json(&**v, out);
        }
        proof {
            assert(out@ =~= mark + json_join(
                json_opt_part(opts_view(*opts).index, "index"@),
                json_opt_part(opts_view(*opts).left_bound, "left_bound"@),
            ));
        }
        if let Some(v) = &opts.right_bound {
            proof {
                assert(decreases_to!(*opts => **v));
            }
            if opts.index.is_some() || opts.left_bound.is_some() {
                out.push(0x2c);
            }
            push_json_str("right_bound", out);
            out.push(0x3a);
            write_json(&**v, out);
        }
        proof {
            assert(out@ =~= mark + json_join(
                json_join(
                    json_opt_part(opts_view(*opts).index, "index"@),
                    json_opt_part(opts_view(*opts).left_bound, "left_bound"@),
                ),
                json_opt_part(opts_view(*opts).right_bound, "right_bound"@),
            ));
        }
        out.push(0x7d);
        assert(out@ =~= old(out)@ + seq![0x2cu8, 0x7bu8] + json_join(
            json_join(
                json_opt_part(opts_view(*opts).index, "index"@),
                json_opt_part(opts_view(*opts).left_bound, "left_bound"@),
            ),
            json_opt_part(opts_view(*opts).right_bound, "right_bound"@),
        ) + seq![0x7du8]);
    } else {
        assert(opts_view(*opts).is_empty());
    }
}

/// Append the comma-separated JSON forms of `items`; `owner` is the node the
/// items belong to, carried for termination.
fn write_json_list(owner: &Ast, items: &Vec<Ast>, out: &mut Vec<u8>)
    requires
        decreases_to!(*owner => items@),
    ensures
        final(out)@ == old(out)@ + json_list(asts_view(items@)),
    decreases *owner, 0int,
{
    let mut i: usize = 0;
    while i < items.len()
        invariant
            i <= items@.len(),
            decreases_to!(*owner => items@),
            out@ == old(out)@ + json_list(asts_view(items@.subrange(0, i as int))),
        decreases items@.len() - i,
    {
        proof {
            assert(decreases_to!(items@ => items@[i as int]));
            assert(items@.subrange(0, i as int).push(items@[i as int]) =~= items@.subrange(
                0,
                i as int + 1,
            ));
            lemma_asts_view_push(items@.subrange(0, i as int), items@[i as int]);
            lemma_json_list_push(asts_view(items@.subrange(0, i as int)), items@[i as int]@);
        }
        if i > 0 {
            out.push(0x2c);
        }
        write_json(&items[i], out);
        i += 1;
    }
    proof {
        assert(items@.subrange(0, items@.len() as int) =~= items@);
    }
}

/// The JSON form of one syntax tree.
pub fn to_json(a: &Ast) -> (r: Vec<u8>)
    ensures
        r@ == json_of(a@),
{
    let mut out: Vec<u8> = Vec::new();
    write_json(a, &mut out);
    out
}

} // verus!
