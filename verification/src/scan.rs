//! Byte-level scanning of server JSON: finding delimiters, reading decimal
//! numbers, locating the value of a key inside a compact JSON object, and
//! unescaping string contents.
//!
//! The server emits compact JSON (no blanks between tokens), and the scanner
//! works on that form: a value ends right before the first `,`, `]` or `}`
//! that sits at nesting depth zero outside any string.
use vstd::prelude::*;

verus! {

/// First position at or after `i` holding byte `b`.
pub open spec fn find_byte(s: Seq<u8>, i: int, b: u8) -> Option<int>
    decreases s.len() - i,
{
    if i < 0 || i >= s.len() {
        None
    } else if s[i] == b {
        Some(i)
    } else {
        find_byte(s, i + 1, b)
    }
}

/// Find the first `b` at or after `from`.
pub fn find_byte_ex(s: &[u8], from: usize, b: u8) -> (r: Option<usize>)
    requires
        from <= s@.len(),
    ensures
        match r {
            Some(j) => find_byte(s@, from as int, b) == Some(j as int) && from <= j < s@.len(),
            None => find_byte(s@, from as int, b) is None,
        },
{
    let mut i = from;
    while i < s.len()
        invariant
            from <= i <= s@.len(),
            find_byte(s@, from as int, b) == find_byte(s@, i as int, b),
        decreases s@.len() - i,
    {
        if s[i] == b {
            return Some(i);
        }
        i += 1;
    }
    None
}

/// Whether every byte of the span is an ASCII digit.
pub open spec fn all_digits(s: Seq<u8>) -> bool {
    forall|i: int| 0 <= i < s.len() ==> 0x30 <= #[trigger] s[i] <= 0x39
}

/// Numeric value of a digit span, most significant digit first.
pub open spec fn dec_value(s: Seq<u8>) -> int
    decreases s.len(),
{
    if s.len() == 0 {
        0
    } else {
        dec_value(s.drop_last()) * 10 + (s.last() - 0x30)
    }
}

proof fn lemma_dec_value_nonneg(s: Seq<u8>)
    requires
        all_digits(s),
    ensures
        dec_value(s) >= 0,
    decreases s.len(),
{
    if s.len() > 0 {
        assert(all_digits(s.drop_last()));
        lemma_dec_value_nonneg(s.drop_last());
    }
}

proof fn lemma_dec_value_snoc(s: Seq<u8>, b: u8)
    ensures
        dec_value(s.push(b)) == dec_value(s) * 10 + (b - 0x30),
{
    assert(s.push(b).drop_last() =~= s);
}

/// Read the decimal number spanning `[from, to)`. Yields the value exactly
/// when the span is a non-empty run of digits whose value fits in `u32`.
pub fn parse_u32(s: &[u8], from: usize, to: usize) -> (r: Option<u32>)
    requires
        from <= to <= s@.len(),
    ensures
        match r {
            Some(v) => {
                &&& from < to
                &&& all_digits(s@.subrange(from as int, to as int))
                &&& dec_value(s@.subrange(from as int, to as int)) == v as int
            },
            None => from >= to || !all_digits(s@.subrange(from as int, to as int)) || dec_value(
                s@.subrange(from as int, to as int),
            ) > u32::MAX,
        },
{
    if from >= to {
        return None;
    }
    let ghost whole = s@.subrange(from as int, to as int);
    let mut value: u64 = 0;
    let mut i = from;
    while i < to
        invariant
            from <= i <= to <= s@.len(),
            whole == s@.subrange(from as int, to as int),
            all_digits(s@.subrange(from as int, i as int)),
            value == dec_value(s@.subrange(from as int, i as int)),
            value <= u32::MAX,
        decreases to - i,
    {
        let b = s[i];
        proof {
            assert(s@.subrange(from as int, i as int).push(s@[i as int]) =~= s@.subrange(
                from as int,
                i as int + 1,
            ));
            lemma_dec_value_snoc(s@.subrange(from as int, i as int), s@[i as int]);
        }
        if b < 0x30 || b > 0x39 {
            proof {
                assert(!all_digits(whole)) by {
                    assert(whole[i - from] == s@[i as int]);
                }
            }
            return None;
        }
        value = value * 10 + ((b - 0x30) as u64);
        i += 1;
        if value > (u32::MAX as u64) {
            proof {
                lemma_dec_value_grows(s@, from as int, i as int, to as int);
            }
            return None;
        }
    }
    proof {
        assert(s@.subrange(from as int, to as int) == whole);
    }
    Some(value as u32)
}

proof fn lemma_dec_value_grows(s: Seq<u8>, from: int, mid: int, to: int)
    requires
        0 <= from <= mid <= to <= s.len(),
        all_digits(s.subrange(from, mid)),
    ensures
        all_digits(s.subrange(from, to)) ==> dec_value(s.subrange(from, to)) >= dec_value(
            s.subrange(from, mid),
        ),
    decreases to - mid,
{
    if mid < to {
        if all_digits(s.subrange(from, to)) {
            assert(all_digits(s.subrange(from, mid + 1))) by {
                assert(forall|i: int|
                    0 <= i < mid + 1 - from ==> s.subrange(from, mid + 1)[i] == s.subrange(
                        from,
                        to,
                    )[i]);
            }
            lemma_dec_value_grows(s, from, mid + 1, to);
            assert(s.subrange(from, mid).push(s[mid]) =~= s.subrange(from, mid + 1));
            lemma_dec_value_snoc(s.subrange(from, mid), s[mid]);
            lemma_dec_value_nonneg(s.subrange(from, mid));
            assert(dec_value(s.subrange(from, mid + 1)) >= dec_value(s.subrange(from, mid)));
        }
    } else {
        assert(s.subrange(from, mid) =~= s.subrange(from, to));
    }
}

/// End of the JSON value starting at `i`: the position of the first `,`, `]`
/// or `}` at depth zero outside strings, tracking the scanner state.
pub open spec fn scan_end(s: Seq<u8>, i: int, depth: int, in_str: bool, esc: bool) -> Option<int>
    decreases s.len() - i,
{
    if i < 0 || i >= s.len() {
        None
    } else {
        let b = s[i];
        if in_str {
            if esc {
                scan_end(s, i + 1, depth, true, false)
            } else if b == 0x5c {
                scan_end(s, i + 1, depth, true, true)
            } else if b == 0x22 {
                scan_end(s, i + 1, depth, false, false)
            } else {
                scan_end(s, i + 1, depth, true, false)
            }
        } else if depth == 0 && (b == 0x2c || b == 0x5d || b == 0x7d) {
            Some(i)
        } else if b == 0x22 {
            scan_end(s, i + 1, depth, true, false)
        } else if b == 0x5b || b == 0x7b {
            scan_end(s, i + 1, depth + 1, false, false)
        } else if b == 0x5d || b == 0x7d {
            scan_end(s, i + 1, depth - 1, false, false)
        } else {
            scan_end(s, i + 1, depth, false, false)
        }
    }
}

/// End of the JSON value starting at `i`.
pub open spec fn value_end(s: Seq<u8>, i: int) -> Option<int> {
    scan_end(s, i, 0, false, false)
}

/// Find the end of the JSON value starting at `from`.
pub fn value_end_ex(s: &[u8], from: usize) -> (r: Option<usize>)
    requires
        from <= s@.len(),
    ensures
        match r {
            Some(j) => value_end(s@, from as int) == Some(j as int) && from <= j < s@.len(),
            None => value_end(s@, from as int) is None,
        },
{
    let mut i = from;
    let mut depth: usize = 0;
    let mut in_str = false;
    let mut esc = false;
    while i < s.len()
        invariant
            from <= i <= s@.len(),
            depth <= i,
            value_end(s@, from as int) == scan_end(s@, i as int, depth as int, in_str, esc),
            esc ==> in_str,
        decreases s@.len() - i,
    {
        let b = s[i];
        if in_str {
            if esc {
                esc = false;
            } else if b == 0x5c {
                esc = true;
            } else if b == 0x22 {
                in_str = false;
            }
        } else if depth == 0 && (b == 0x2c || b == 0x5d || b == 0x7d) {
            return Some(i);
        } else if b == 0x22 {
            in_str = true;
        } else if b == 0x5b || b == 0x7b {
            depth += 1;
        } else if b == 0x5d || b == 0x7d {
            depth -= 1;
        }
        i += 1;
    }
    None
}

/// Position of the closing quote of a string with no escapes, starting just
/// after the opening quote. Strings holding a backslash are not plain.
pub open spec fn plain_string_end(s: Seq<u8>, i: int) -> Option<int>
    decreases s.len() - i,
{
    if i < 0 || i >= s.len() {
        None
    } else if s[i] == 0x22 {
        Some(i)
    } else if s[i] == 0x5c {
        None
    } else {
        plain_string_end(s, i + 1)
    }
}

fn plain_string_end_ex(s: &[u8], from: usize) -> (r: Option<usize>)
    requires
        from <= s@.len(),
    ensures
        match r {
            Some(j) => plain_string_end(s@, from as int) == Some(j as int) && from <= j
                < s@.len(),
            None => plain_string_end(s@, from as int) is None,
        },
{
    let mut i = from;
    while i < s.len()
        invariant
            from <= i <= s@.len(),
            plain_string_end(s@, from as int) == plain_string_end(s@, i as int),
        decreases s@.len() - i,
    {
        if s[i] == 0x22 {
            return Some(i);
        }
        if s[i] == 0x5c {
            return None;
        }
        i += 1;
    }
    None
}

/// Span of the value of the member named `key` in the run of object members
/// starting at `i`: looks at each member's plain-string name in turn and
/// skips its value until the name matches or the object ends.
pub open spec fn find_field(s: Seq<u8>, i: int, key: u8) -> Option<(int, int)>
    decreases s.len() - i,
{
    if i < 0 || i + 3 > s.len() || s[i] != 0x22 {
        None
    } else {
        match plain_string_end(s, i + 1) {
            None => None,
            Some(q) => if q + 1 >= s.len() || s[q + 1] != 0x3a {
                None
            } else {
                let matched = q == i + 2 && s[i + 1] == key;
                match value_end(s, q + 2) {
                    None => None,
                    Some(e) => if matched {
                        Some((q + 2, e))
                    } else if s[e] == 0x2c && e + 1 > i && e < s.len() {
                        find_field(s, e + 1, key)
                    } else {
                        None
                    },
                }
            },
        }
    }
}

/// Find the value span of the member named `key`, starting at member
/// position `from`.
pub fn find_field_ex(s: &[u8], from: usize, key: u8) -> (r: Option<(usize, usize)>)
    requires
        from <= s@.len(),
    ensures
        match r {
            Some(span) => find_field(s@, from as int, key) == Some(
                (span.0 as int, span.1 as int),
            ) && from <= span.0 <= span.1 < s@.len(),
            None => find_field(s@, from as int, key) is None,
        },
{
    let mut i = from;
    loop
        invariant
            from <= i,
            i <= s@.len(),
            find_field(s@, from as int, key) == find_field(s@, i as int, key),
        decreases s@.len() - i,
    {
        if s.len() < 3 || i > s.len() - 3 || s[i] != 0x22 {
            return None;
        }
        let q = match plain_string_end_ex(s, i + 1) {
            None => {
                return None;
            },
            Some(q) => q,
        };
        if q + 1 >= s.len() || s[q + 1] != 0x3a {
            return None;
        }
        let matched = q == i + 2 && s[i + 1] == key;
        let e = match value_end_ex(s, q + 2) {
            None => {
                return None;
            },
            Some(e) => e,
        };
        if matched {
            return Some((q + 2, e));
        }
        if s[e] != 0x2c {
            return None;
        }
        i = e + 1;
    }
}

} // verus!
