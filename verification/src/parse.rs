//! Decoding of raw argument tokens into signed integers.
//!
//! A token parses exactly as a decimal integer literal does: an optional
//! single `+` or `-` sign, then one or more ASCII digits, and a value
//! that fits the 32-bit signed range. The lenient form used by the byte
//! decoder first decodes the bytes as UTF-8 and trims Unicode
//! whitespace, and answers zero for anything that does not parse.

use vstd::prelude::*;

verus! {

pub open spec fn is_digit(c: char) -> bool {
    48 <= c as u32 <= 57
}

pub open spec fn digit_val(c: char) -> int {
    c as u32 - 48
}

pub open spec fn all_digits(s: Seq<char>) -> bool {
    forall|i: int| 0 <= i < s.len() ==> is_digit(s[i])
}

/// The value of a digit string read in base ten.
pub open spec fn dec_val(s: Seq<char>) -> int
    decreases s.len(),
{
    if s.len() == 0 {
        0
    } else {
        dec_val(s.drop_last()) * 10 + digit_val(s.last())
    }
}

/// The digits of a token, after the optional single leading sign.
pub open spec fn token_digits(s: Seq<char>) -> Seq<char> {
    if s.len() > 0 && (s[0] == '-' || s[0] == '+') {
        s.subrange(1, s.len() as int)
    } else {
        s
    }
}

pub open spec fn token_negative(s: Seq<char>) -> bool {
    s.len() > 0 && s[0] == '-'
}

/// What a token decodes to: the signed decimal value when the token is
/// well formed and in the 32-bit signed range, nothing otherwise.
pub open spec fn parse_i32_spec(s: Seq<char>) -> Option<i32> {
    let ds = token_digits(s);
    if ds.len() >= 1 && all_digits(ds) {
        let v = dec_val(ds);
        if token_negative(s) && v <= 0x8000_0000 {
            Some((-v) as i32)
        } else if !token_negative(s) && v <= 0x7fff_ffff {
            Some(v as i32)
        } else {
            None
        }
    } else {
        None
    }
}

/// The Unicode whitespace characters, as the lenient decoder's trim
/// understands them: the ASCII controls and space, next-line, no-break
/// space, ogham space mark, the typographic spaces, the two separator
/// characters, narrow no-break space, medium mathematical space, and
/// ideographic space.
pub open spec fn is_space(c: char) -> bool {
    let u = c as u32;
    ||| u == 32
    ||| 9 <= u <= 13
    ||| u == 0x85
    ||| u == 0xa0
    ||| u == 0x1680
    ||| 0x2000 <= u <= 0x200a
    ||| u == 0x2028
    ||| u == 0x2029
    ||| u == 0x202f
    ||| u == 0x205f
    ||| u == 0x3000
}

pub open spec fn trim_front(s: Seq<char>) -> Seq<char>
    decreases s.len(),
{
    if s.len() > 0 && is_space(s[0]) {
        trim_front(s.drop_first())
    } else {
        s
    }
}

pub open spec fn trim_back(s: Seq<char>) -> Seq<char>
    decreases s.len(),
{
    if s.len() > 0 && is_space(s.last()) {
        trim_back(s.drop_last())
    } else {
        s
    }
}

/// A token with whitespace removed from both ends.
pub open spec fn trimmed(s: Seq<char>) -> Seq<char> {
    trim_back(trim_front(s))
}

/// What the lenient byte decoder substitutes for a token: decode the
/// bytes as UTF-8, trim whitespace from both ends, and read a decimal
/// integer, answering zero for a token that does not parse. A token
/// that is not well-formed UTF-8 decodes with replacement characters,
/// which can never read as an integer, so its value is zero outright.
pub open spec fn lenient_i32_spec(t: Seq<u8>) -> i32 {
    if vstd::utf8::valid_utf8(t) {
        match parse_i32_spec(trimmed(vstd::utf8::decode_utf8(t))) {
            Some(v) => v,
            None => 0,
        }
    } else {
        0
    }
}

/// Relies on char::from_u32: a Unicode scalar value converts to the
/// character with that code, and a surrogate or out-of-range value to
/// nothing.
pub assume_specification[ char::from_u32 ](v: u32) -> (r: Option<char>)
    ensures
        r == (if vstd::utf8::is_scalar(v) {
            Some(v as char)
        } else {
            None::<char>
        }),
;

/// Whether the character at a position is whitespace.
fn space_at(cs: &Vec<char>, i: usize) -> (r: bool)
    requires
        i < cs@.len(),
    ensures
        r == is_space(cs@[i as int]),
{
    let cu = cs[i] as u32;
    cu == 32 || (9 <= cu && cu <= 13) || cu == 0x85 || cu == 0xa0 || cu == 0x1680 || (0x2000 <= cu
        && cu <= 0x200a) || cu == 0x2028 || cu == 0x2029 || cu == 0x202f || cu == 0x205f || cu
        == 0x3000
}

/// Parse the character range `[lo, hi)` of a buffer as a decimal
/// integer.
pub fn parse_i32_range(cs: &Vec<char>, lo: usize, hi: usize) -> (r: Option<i32>)
    requires
        lo <= hi <= cs@.len(),
    ensures
        r == parse_i32_spec(cs@.subrange(lo as int, hi as int)),
{
    let ghost tok = cs@.subrange(lo as int, hi as int);
    if lo == hi {
        return None;
    }
    let first = cs[lo];
    let neg = first == '-';
    let has_sign = neg || first == '+';
    let start: usize = if has_sign {
        lo + 1
    } else {
        lo
    };
    proof {
        assert(token_digits(tok) =~= cs@.subrange(start as int, hi as int));
    }
    if start == hi {
        return None;
    }
    let mut m: u64 = 0;
    let mut overflow = false;
    let mut i = start;
    while i < hi
        invariant
            start <= i <= hi <= cs@.len(),
            tok == cs@.subrange(lo as int, hi as int),
            token_digits(tok) == cs@.subrange(start as int, hi as int),
            forall|k: int| start <= k < i ==> is_digit(cs@[k]),
            !overflow ==> m == dec_val(cs@.subrange(start as int, i as int)) && m <= 0xffff_ffff,
            overflow ==> dec_val(cs@.subrange(start as int, i as int)) > 0xffff_ffff,
        decreases hi - i,
    {
        let c = cs[i];
        let cu = c as u32;
        if cu < 48 || cu > 57 {
            proof {
                assert(token_digits(tok)[i - start] == cs@[i as int]);
                assert(!all_digits(token_digits(tok)));
            }
            return None;
        }
        proof {
            let pre1 = cs@.subrange(start as int, i as int + 1);
            assert(pre1.drop_last() =~= cs@.subrange(start as int, i as int));
            assert(pre1.last() == cs@[i as int]);
        }
        let d = (cu - 48) as u64;
        if !overflow {
            let next = m * 10 + d;
            if next > 0xffff_ffff {
                overflow = true;
            } else {
                m = next;
            }
        }
        i = i + 1;
    }
    proof {
        assert(cs@.subrange(start as int, hi as int) == token_digits(tok));
        assert(all_digits(token_digits(tok)));
    }
    if overflow {
        return None;
    }
    if neg {
        if m > 0x8000_0000 {
            None
        } else if m == 0x8000_0000 {
            Some(i32::MIN)
        } else {
            Some(-(m as i32))
        }
    } else {
        if m > 0x7fff_ffff {
            None
        } else {
            Some(m as i32)
        }
    }
}

/// Parse a whole string token as a decimal integer.
pub fn parse_i32(s: &str) -> (r: Option<i32>)
    ensures
        r == parse_i32_spec(s@),
{
    let n = s.unicode_len();
    let mut cs: Vec<char> = Vec::new();
    let mut i: usize = 0;
    while i < n
        invariant
            i <= n == s@.len(),
            cs@ == s@.subrange(0, i as int),
        decreases n - i,
    {
        let c = s.get_char(i);
        cs.push(c);
        proof {
            assert(cs@ =~= s@.subrange(0, i as int + 1));
        }
        i = i + 1;
    }
    proof {
        assert(cs@ =~= s@);
        assert(cs@.subrange(0, n as int) =~= s@);
    }
    parse_i32_range(&cs, 0, n)
}

/// Decode a token's bytes as UTF-8: all of its characters when the
/// token is well formed, nothing otherwise.
fn utf8_chars(t: &Vec<u8>) -> (r: Option<Vec<char>>)
    ensures
        r is Some <==> vstd::utf8::valid_utf8(t@),
        r matches Some(cs) ==> cs@ == vstd::utf8::decode_utf8(t@),
{
    let n = t.len();
    let mut cs: Vec<char> = Vec::new();
    let mut p: usize = 0;
    proof {
        assert(t@.subrange(0, n as int) =~= t@);
    }
    while p < n
        invariant
            p <= n == t@.len(),
            vstd::utf8::valid_utf8(t@) == vstd::utf8::valid_utf8(t@.subrange(p as int, n as int)),
            vstd::utf8::valid_utf8(t@) ==> vstd::utf8::decode_utf8(t@) == cs@
                + vstd::utf8::decode_utf8(t@.subrange(p as int, n as int)),
        decreases n - p,
    {
        let ghost rest = t@.subrange(p as int, n as int);
        proof {
            assert(forall|k: int| 0 <= k < rest.len() ==> rest[k] == t@[p + k]);
        }
        let b0 = t[p];
        let avail = n - p;
        let w: usize;
        let cp: u32;
        if b0 < 0x80 {
            w = 1;
            cp = b0 as u32;
            proof {
                assert(((b0 & 0x7f) as u32) == b0 as u32) by (bit_vector)
                    requires
                        b0 < 0x80,
                ;
            }
        } else if 0xc0 <= b0 && b0 <= 0xdf {
            if avail < 2 || !(0x80 <= t[p + 1] && t[p + 1] <= 0xbf) {
                proof {
                    assert(!vstd::utf8::valid_first_scalar(rest));
                }
                return None;
            }
            let b1 = t[p + 1];
            w = 2;
            cp = (((b0 & 0x1f) as u32) << 6u32) | ((b1 & 0x3f) as u32);
            proof {
                assert(cp <= 0x7ff) by (bit_vector)
                    requires
                        cp == (((b0 & 0x1f) as u32) << 6u32) | ((b1 & 0x3f) as u32),
                ;
            }
            if cp < 0x80 {
                proof {
                    assert(!vstd::utf8::valid_first_scalar(rest));
                }
                return None;
            }
        } else if 0xe0 <= b0 && b0 <= 0xef {
            if avail < 3 || !(0x80 <= t[p + 1] && t[p + 1] <= 0xbf) || !(0x80 <= t[p + 2] && t[p
                + 2] <= 0xbf) {
                proof {
                    assert(!vstd::utf8::valid_first_scalar(rest));
                }
                return None;
            }
            let b1 = t[p + 1];
            let b2 = t[p + 2];
            w = 3;
            cp = (((b0 & 0x0f) as u32) << 12u32) | (((b1 & 0x3f) as u32) << 6u32) | ((b2
                & 0x3f) as u32);
            proof {
                assert(cp <= 0xffff) by (bit_vector)
                    requires
                        cp == (((b0 & 0x0f) as u32) << 12u32) | (((b1 & 0x3f) as u32) << 6u32) | ((
                        b2 & 0x3f) as u32),
                ;
            }
            if cp < 0x800 || (0xd800 <= cp && cp <= 0xdfff) {
                proof {
                    assert(!vstd::utf8::valid_first_scalar(rest));
                }
                return None;
            }
        } else if 0xf0 <= b0 && b0 <= 0xf7 {
            if avail < 4 || !(0x80 <= t[p + 1] && t[p + 1] <= 0xbf) || !(0x80 <= t[p + 2] && t[p
                + 2] <= 0xbf) || !(0x80 <= t[p + 3] && t[p + 3] <= 0xbf) {
                proof {
                    assert(!vstd::utf8::valid_first_scalar(rest));
                }
                return None;
            }
            let b1 = t[p + 1];
            let b2 = t[p + 2];
            let b3 = t[p + 3];
            w = 4;
            cp = (((b0 & 0x07) as u32) << 18u32) | (((b1 & 0x3f) as u32) << 12u32) | (((b2
                & 0x3f) as u32) << 6u32) | ((b3 & 0x3f) as u32);
            if cp < 0x10000 || cp > 0x10ffff {
                proof {
                    assert(!vstd::utf8::valid_first_scalar(rest));
                }
                return None;
            }
        } else {
            proof {
                assert(!vstd::utf8::valid_first_scalar(rest));
            }
            return None;
        }
        proof {
            assert(vstd::utf8::valid_first_scalar(rest));
            assert(vstd::utf8::decode_first_scalar(rest) == cp);
            assert(vstd::utf8::length_of_first_scalar(rest) == w as int);
            assert(vstd::utf8::pop_first_scalar(rest) =~= t@.subrange(p + w, n as int));
            assert(vstd::utf8::is_scalar(cp));
        }
        match char::from_u32(cp) {
            Some(c) => {
                let ghost before = cs@;
                cs.push(c);
                proof {
                    if vstd::utf8::valid_utf8(t@) {
                        assert(vstd::utf8::decode_utf8(rest) == seq![c] + vstd::utf8::decode_utf8(
                            t@.subrange(p + w, n as int),
                        ));
                        assert(before + vstd::utf8::decode_utf8(rest) =~= cs@
                            + vstd::utf8::decode_utf8(t@.subrange(p + w, n as int)));
                    }
                }
            },
            None => {
                proof {
                    assert(false);
                }
                return None;
            },
        }
        p = p + w;
    }
    proof {
        assert(vstd::utf8::valid_utf8(t@.subrange(n as int, n as int)));
        assert(cs@ + vstd::utf8::decode_utf8(t@.subrange(n as int, n as int)) =~= cs@);
    }
    Some(cs)
}

/// Parse a byte token leniently, as the unchecked byte decoder does:
/// decode UTF-8, trim whitespace, then read a decimal integer,
/// answering zero for a token that does not parse — a malformed token
/// among them, since its replacement characters never read as an
/// integer.
pub fn lenient_i32(t: &Vec<u8>) -> (r: i32)
    ensures
        r == lenient_i32_spec(t@),
{
    let cs = match utf8_chars(t) {
        Some(cs) => cs,
        None => {
            return 0;
        },
    };
    let n = cs.len();
    let mut lo: usize = 0;
    let mut hi: usize = n;
    proof {
        assert(cs@.subrange(0, n as int) =~= cs@);
    }
    while lo < hi && space_at(&cs, lo)
        invariant
            lo <= hi <= cs@.len() == n,
            hi == n,
            trim_front(cs@) == trim_front(cs@.subrange(lo as int, n as int)),
        decreases hi - lo,
    {
        proof {
            let cur = cs@.subrange(lo as int, n as int);
            assert(cur.drop_first() =~= cs@.subrange(lo as int + 1, n as int));
        }
        lo = lo + 1;
    }
    proof {
        assert(trim_front(cs@) == cs@.subrange(lo as int, n as int));
    }
    while hi > lo && space_at(&cs, hi - 1)
        invariant
            lo <= hi <= cs@.len() == n,
            trim_back(cs@.subrange(lo as int, n as int)) == trim_back(
                cs@.subrange(lo as int, hi as int),
            ),
        decreases hi,
    {
        proof {
            let cur = cs@.subrange(lo as int, hi as int);
            assert(cur.drop_last() =~= cs@.subrange(lo as int, hi as int - 1));
        }
        hi = hi - 1;
    }
    proof {
        assert(trimmed(vstd::utf8::decode_utf8(t@)) == cs@.subrange(lo as int, hi as int));
    }
    match parse_i32_range(&cs, lo, hi) {
        Some(v) => v,
        None => 0,
    }
}

} // verus!
