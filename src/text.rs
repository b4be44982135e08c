//! Decoding the text written into the slot: UTF-8 scalars, whitespace
//! trimming and signed 32-bit integer syntax.
use vstd::prelude::*;
use vstd::utf8::*;

use crate::error::ErrorKind;

verus! {

/// The Unicode scalar values that valid UTF-8 `bytes` encode.
pub open spec fn scalars(bytes: Seq<u8>) -> Seq<u32> {
    decode_utf8(bytes).map_values(|c: char| c as u32)
}

/// Decodes the first scalar of `bytes[i..]`: its value and its width in bytes,
/// or `None` where no well-formed scalar starts there.
fn first_scalar(bytes: &[u8], i: usize) -> (r: Option<(u32, usize)>)
    requires
        i < bytes@.len(),
    ensures
        ({
            let rest = bytes@.subrange(i as int, bytes@.len() as int);
            &&& r is None <==> !valid_first_scalar(rest)
            &&& r matches Some((c, w)) ==> c == decode_first_scalar(rest) && w
                == length_of_first_scalar(rest) && c <= 0x10ffff && !(0xd800 <= c <= 0xdfff)
        }),
{
    let avail = bytes.len() - i;
    let b0 = bytes[i];
    if b0 <= 0x7f {
        let c: u32 = (b0 & 0x7f) as u32;
        assert(c <= 0x7f) by (bit_vector)
            requires
                c == (b0 & 0x7f) as u32,
        ;
        return Some((c, 1));
    }
    if b0 >= 0xc0 && b0 <= 0xdf {
        if avail < 2 || bytes[i + 1] < 0x80 || bytes[i + 1] > 0xbf {
            return None;
        }
        let b1 = bytes[i + 1];
        let c: u32 = (((b0 & 0x1f) as u32) << 6) | ((b1 & 0x3f) as u32);
        assert(c <= 0x7ff) by (bit_vector)
            requires
                c == (((b0 & 0x1f) as u32) << 6) | ((b1 & 0x3f) as u32),
        ;
        if c < 0x80 {
            return None;
        }
        return Some((c, 2));
    }
    if b0 >= 0xe0 && b0 <= 0xef {
        if avail < 3 || bytes[i + 1] < 0x80 || bytes[i + 1] > 0xbf || bytes[i + 2] < 0x80
            || bytes[i + 2] > 0xbf {
            return None;
        }
        let b1 = bytes[i + 1];
        let b2 = bytes[i + 2];
        let c: u32 = (((b0 & 0x0f) as u32) << 12) | (((b1 & 0x3f) as u32) << 6) | ((b2
            & 0x3f) as u32);
        assert(c <= 0xffff) by (bit_vector)
            requires
                c == (((b0 & 0x0f) as u32) << 12) | (((b1 & 0x3f) as u32) << 6) | ((b2 & 0x3f)
                    as u32),
        ;
        if c < 0x800 || (0xd800 <= c && c <= 0xdfff) {
            return None;
        }
        return Some((c, 3));
    }
    if b0 >= 0xf0 && b0 <= 0xf7 {
        if avail < 4 || bytes[i + 1] < 0x80 || bytes[i + 1] > 0xbf || bytes[i + 2] < 0x80
            || bytes[i + 2] > 0xbf || bytes[i + 3] < 0x80 || bytes[i + 3] > 0xbf {
            return None;
        }
        let b1 = bytes[i + 1];
        let b2 = bytes[i + 2];
        let b3 = bytes[i + 3];
        let c: u32 = (((b0 & 0x07) as u32) << 18) | (((b1 & 0x3f) as u32) << 12) | (((b2
            & 0x3f) as u32) << 6) | ((b3 & 0x3f) as u32);
        if c < 0x10000 || c > 0x10ffff || (0xd800 <= c && c <= 0xdfff) {
            return None;
        }
        return Some((c, 4));
    }
    None
}

/// Decodes `bytes` as UTF-8 into scalar values; `None` where they are not
/// valid UTF-8.
pub fn decode_scalars(bytes: &[u8]) -> (r: Option<Vec<u32>>)
    ensures
        r is None <==> !valid_utf8(bytes@),
        r matches Some(v) ==> v@ == scalars(bytes@),
{
    let n = bytes.len();
    let mut i: usize = 0;
    let mut out: Vec<u32> = Vec::new();
    assert(bytes@.subrange(0, n as int) == bytes@);
    while i < n
        invariant
            i <= n == bytes@.len(),
            valid_utf8(bytes@) == valid_utf8(bytes@.subrange(i as int, n as int)),
            valid_utf8(bytes@) ==> scalars(bytes@) == out@ + scalars(
                bytes@.subrange(i as int, n as int),
            ),
        decreases n - i,
    {
        let ghost rest = bytes@.subrange(i as int, n as int);
        match first_scalar(bytes, i) {
            None => {
                return None;
            },
            Some((c, w)) => {
                let ghost next = bytes@.subrange(i + w, n as int);
                assert(pop_first_scalar(rest) == next);
                assert(valid_utf8(rest) == valid_utf8(next));
                proof {
                    if valid_utf8(rest) {
                        assert(decode_utf8(rest) == seq![c as char] + decode_utf8(next));
                        assert((c as char) as u32 == c);
                        assert(scalars(rest) == seq![c] + scalars(next));
                        assert(out@.push(c) + scalars(next) == out@ + scalars(rest));
                    }
                }
                out.push(c);
                i = i + w;
            },
        }
    }
    assert(bytes@.subrange(n as int, n as int) == Seq::<u8>::empty());
    assert(out@ + scalars(Seq::<u8>::empty()) == out@);
    Some(out)
}

/// Unicode `White_Space`, the characters that `str::trim` removes.
pub open spec fn is_white_space(c: u32) -> bool {
    ||| 0x09 <= c <= 0x0d
    ||| c == 0x20
    ||| c == 0x85
    ||| c == 0xa0
    ||| c == 0x1680
    ||| 0x2000 <= c <= 0x200a
    ||| c == 0x2028
    ||| c == 0x2029
    ||| c == 0x202f
    ||| c == 0x205f
    ||| c == 0x3000
}

/// `s` without its leading white space.
pub open spec fn trim_start(s: Seq<u32>) -> Seq<u32>
    decreases s.len(),
{
    if s.len() > 0 && is_white_space(s[0]) {
        trim_start(s.drop_first())
    } else {
        s
    }
}

/// `s` without its trailing white space.
pub open spec fn trim_end(s: Seq<u32>) -> Seq<u32>
    decreases s.len(),
{
    if s.len() > 0 && is_white_space(s.last()) {
        trim_end(s.drop_last())
    } else {
        s
    }
}

/// `s` without white space at either end.
pub open spec fn trim(s: Seq<u32>) -> Seq<u32> {
    trim_end(trim_start(s))
}

/// An ASCII decimal digit.
pub open spec fn is_digit(c: u32) -> bool {
    0x30 <= c <= 0x39
}

/// Every element of `s` is a decimal digit.
pub open spec fn all_digits(s: Seq<u32>) -> bool {
    forall|k: int| 0 <= k < s.len() ==> is_digit(#[trigger] s[k])
}

/// The value of a run of decimal digits, most significant first.
pub open spec fn digits_value(s: Seq<u32>) -> nat
    decreases s.len(),
{
    if s.len() == 0 {
        0
    } else {
        digits_value(s.drop_last()) * 10 + (s.last() - 0x30) as nat
    }
}

/// The integer that `s` writes: an optional `+` or `-`, then one or more
/// decimal digits and nothing else.
pub open spec fn integer_value(s: Seq<u32>) -> Option<int> {
    let negative = s.len() > 0 && s[0] == 0x2d;
    let digits = if s.len() > 0 && (s[0] == 0x2b || s[0] == 0x2d) {
        s.drop_first()
    } else {
        s
    };
    if digits.len() == 0 || !all_digits(digits) {
        None
    } else if negative {
        Some(-digits_value(digits))
    } else {
        Some(digits_value(digits) as int)
    }
}

/// The `i32` that `s` writes, as `str::parse::<i32>` reads it: `None` where
/// the syntax is wrong or the value does not fit.
pub open spec fn i32_value(s: Seq<u32>) -> Option<i32> {
    match integer_value(s) {
        Some(v) => if i32::MIN <= v <= i32::MAX {
            Some(v as i32)
        } else {
            None
        },
        None => None,
    }
}

/// A longer run of digits is worth at least as much as its prefix.
proof fn lemma_prefix_value_le(s: Seq<u32>, j: int)
    requires
        0 <= j <= s.len(),
        all_digits(s),
    ensures
        digits_value(s.subrange(0, j)) <= digits_value(s),
    decreases s.len(),
{
    if j < s.len() {
        assert(s.drop_last().subrange(0, j) == s.subrange(0, j));
        lemma_prefix_value_le(s.drop_last(), j);
    } else {
        assert(s.subrange(0, j) == s);
    }
}

/// The bounds `lo..hi` of `s` that remain once white space is trimmed from
/// both ends.
fn trimmed_bounds(s: &Vec<u32>) -> (r: (usize, usize))
    ensures
        r.0 <= r.1 <= s@.len(),
        s@.subrange(r.0 as int, r.1 as int) == trim(s@),
{
    let n = s.len();
    let mut lo: usize = 0;
    assert(s@.subrange(0, n as int) == s@);
    while lo < n && is_white_space_exec(s[lo])
        invariant
            lo <= n == s@.len(),
            trim_start(s@) == trim_start(s@.subrange(lo as int, n as int)),
        decreases n - lo,
    {
        assert(s@.subrange(lo as int, n as int).drop_first() == s@.subrange(lo + 1, n as int));
        lo = lo + 1;
    }
    let mut hi: usize = n;
    while hi > lo && is_white_space_exec(s[hi - 1])
        invariant
            lo <= hi <= n == s@.len(),
            trim(s@) == trim_end(s@.subrange(lo as int, hi as int)),
        decreases hi,
    {
        assert(s@.subrange(lo as int, hi as int).drop_last() == s@.subrange(
            lo as int,
            hi - 1,
        ));
        hi = hi - 1;
    }
    (lo, hi)
}

fn is_white_space_exec(c: u32) -> (r: bool)
    ensures
        r == is_white_space(c),
{
    (0x09 <= c && c <= 0x0d) || c == 0x20 || c == 0x85 || c == 0xa0 || c == 0x1680 || (0x2000
        <= c && c <= 0x200a) || c == 0x2028 || c == 0x2029 || c == 0x202f || c == 0x205f || c
        == 0x3000
}

/// Reads `s[lo..hi]` as an `i32` in the syntax of `str::parse::<i32>`.
fn parse_i32_in(s: &Vec<u32>, lo: usize, hi: usize) -> (r: Option<i32>)
    requires
        lo <= hi <= s@.len(),
    ensures
        r == i32_value(s@.subrange(lo as int, hi as int)),
{
    let ghost t = s@.subrange(lo as int, hi as int);
    let mut j: usize = lo;
    let mut negative = false;
    if j < hi && (s[j] == 0x2b || s[j] == 0x2d) {
        negative = s[j] == 0x2d;
        j = j + 1;
    }
    let start = j;
    assert(t.len() > 0 ==> t[0] == s@[lo as int]);
    let ghost digits = s@.subrange(start as int, hi as int);
    assert(t.len() > 0 && (t[0] == 0x2b || t[0] == 0x2d) ==> t.drop_first() == digits);
    assert(!(t.len() > 0 && (t[0] == 0x2b || t[0] == 0x2d)) ==> t == digits);
    if j == hi {
        return None;
    }
    let limit: u64 = if negative {
        0x8000_0000
    } else {
        0x7fff_ffff
    };
    let mut acc: u64 = 0;
    assert(s@.subrange(start as int, start as int) == Seq::<u32>::empty());
    while j < hi
        invariant
            lo <= start < hi <= s@.len(),
            start <= j <= hi,
            digits == s@.subrange(start as int, hi as int),
            forall|k: int| start <= k < j ==> is_digit(s@[k]),
            acc == digits_value(s@.subrange(start as int, j as int)),
            acc <= limit,
            limit == if negative { 0x8000_0000u64 } else { 0x7fff_ffffu64 },
            t == s@.subrange(lo as int, hi as int),
            negative == (t.len() > 0 && t[0] == 0x2d),
            t.len() > 0 && (t[0] == 0x2b || t[0] == 0x2d) ==> t.drop_first() == digits,
            !(t.len() > 0 && (t[0] == 0x2b || t[0] == 0x2d)) ==> t == digits,
        decreases hi - j,
    {
        let c = s[j];
        if c < 0x30 || c > 0x39 {
            assert(digits[j - start] == c);
            assert(!all_digits(digits));
            return None;
        }
        assert(s@.subrange(start as int, j + 1).drop_last() == s@.subrange(start as int, j as int));
        acc = acc * 10 + (c - 0x30) as u64;
        j = j + 1;
        if acc > limit {
            proof {
                if all_digits(digits) {
                    assert(digits.subrange(0, j - start) == s@.subrange(start as int, j as int));
                    lemma_prefix_value_le(digits, j - start);
                }
            }
            return None;
        }
    }
    assert(digits == s@.subrange(start as int, j as int));
    if negative {
        Some((-(acc as i64)) as i32)
    } else {
        Some(acc as i32)
    }
}


/// What writing `bytes` into the slot means: the identifier they spell, or
/// why they spell none.
pub open spec fn pid_of(bytes: Seq<u8>) -> Result<i32, ErrorKind> {
    if !valid_utf8(bytes) {
        Err(ErrorKind::InvalidEncoding)
    } else {
        match i32_value(trim(scalars(bytes))) {
            Some(p) => Ok(p),
            None => Err(ErrorKind::InvalidFormat),
        }
    }
}

/// Reads a process identifier from `bytes`: UTF-8 text holding a decimal
/// `i32`, optionally signed, with white space around it.
pub fn parse_pid(bytes: &[u8]) -> (r: Result<i32, ErrorKind>)
    ensures
        r == pid_of(bytes@),
{
    match decode_scalars(bytes) {
        None => Err(ErrorKind::InvalidEncoding),
        Some(chars) => {
            let (lo, hi) = trimmed_bounds(&chars);
            match parse_i32_in(&chars, lo, hi) {
                Some(p) => Ok(p),
                None => Err(ErrorKind::InvalidFormat),
            }
        },
    }
}

} // verus!
