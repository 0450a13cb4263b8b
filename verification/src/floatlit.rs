//! The grammar of float literals, as the standard library's float parsing
//! documents it: an optional sign, then `inf`, `infinity` or `nan` in any
//! letter case, or a decimal number with an optional exponent. A `BREAK`
//! value is kept when it fits this grammar and falls back to the default
//! spacing when it does not.

use vstd::prelude::*;
use vstd::string::StrSliceExecFns;

use crate::numbers::all_digits;
use crate::numbers::is_digit_char;
use crate::text::find_char;
use crate::text::find_char_in;
use crate::text::lemma_find_char;

verus! {

/// `c` with an ASCII upper-case letter folded to lower case, as a code point.
pub open spec fn lower_code(c: char) -> u32 {
    let u = c as u32;
    if 0x41 <= u && u <= 0x5a {
        (u + 0x20) as u32
    } else {
        u
    }
}

/// `a` and `b` are equal up to ASCII letter case.
pub open spec fn eq_ignore_case(a: Seq<char>, b: Seq<char>) -> bool {
    a.len() == b.len() && forall|i: int| 0 <= i < a.len() ==> lower_code(a[i]) == lower_code(b[i])
}

fn eq_ignore_case_str(a: &str, b: &str) -> (r: bool)
    ensures
        r == eq_ignore_case(a@, b@),
{
    let an = a.unicode_len();
    let bn = b.unicode_len();
    if an != bn {
        return false;
    }
    let mut i: usize = 0;
    while i < an
        invariant
            0 <= i <= an == a@.len(),
            an == bn == b@.len(),
            forall|j: int| 0 <= j < i ==> lower_code(a@[j]) == lower_code(b@[j]),
        decreases an - i,
    {
        let ca = a.get_char(i) as u32;
        let cb = b.get_char(i) as u32;
        let la = if 0x41 <= ca && ca <= 0x5a {
            ca + 0x20
        } else {
            ca
        };
        let lb = if 0x41 <= cb && cb <= 0x5a {
            cb + 0x20
        } else {
            cb
        };
        if la != lb {
            return false;
        }
        i = i + 1;
    }
    true
}

/// `s` without a leading `+` or `-`, or all of `s` when it has none.
pub open spec fn strip_sign(s: Seq<char>) -> Seq<char> {
    if s.len() > 0 && (s[0] == '+' || s[0] == '-') {
        s.skip(1)
    } else {
        s
    }
}

/// The index of the first `e` or `E` in `s`, if any.
pub open spec fn find_exp_marker(s: Seq<char>) -> Option<int> {
    match (find_char(s, 'e'), find_char(s, 'E')) {
        (Some(i), Some(j)) => if i <= j {
            Some(i)
        } else {
            Some(j)
        },
        (Some(i), None) => Some(i),
        (None, Some(j)) => Some(j),
        (None, None) => None,
    }
}

/// A mantissa: digits, or digits around one dot with a digit on at least one
/// side.
pub open spec fn is_mantissa(m: Seq<char>) -> bool {
    match find_char(m, '.') {
        None => m.len() > 0 && all_digits(m),
        Some(i) => all_digits(m.take(i)) && all_digits(m.skip(i + 1)) && (i > 0 || m.len() > i
            + 1),
    }
}

/// An exponent body: an optional sign, then one or more digits.
pub open spec fn is_exponent(u: Seq<char>) -> bool {
    let v = strip_sign(u);
    v.len() > 0 && all_digits(v)
}

/// An unsigned float literal: `inf`, `infinity` or `nan` up to letter case,
/// or a mantissa with an optional exponent after `e` or `E`.
pub open spec fn is_unsigned_float(t: Seq<char>) -> bool {
    eq_ignore_case(t, "inf"@) || eq_ignore_case(t, "infinity"@) || eq_ignore_case(t, "nan"@)
        || match find_exp_marker(t) {
        None => is_mantissa(t),
        Some(i) => is_mantissa(t.take(i)) && is_exponent(t.skip(i + 1)),
    }
}

/// `s` is a float literal as the standard library's float parsing accepts it.
pub open spec fn is_float_literal(s: Seq<char>) -> bool {
    is_unsigned_float(strip_sign(s))
}

fn strip_sign_str(s: &str) -> (r: &str)
    ensures
        r@ == strip_sign(s@),
{
    let n = s.unicode_len();
    if n > 0 {
        let c = s.get_char(0);
        if c == '+' || c == '-' {
            let r = s.substring_char(1, n);
            proof {
                assert(s@.subrange(1, n as int) =~= s@.skip(1));
            }
            return r;
        }
    }
    s
}

fn all_digits_str(s: &str) -> (r: bool)
    ensures
        r == (all_digits(s@) && s@.len() > 0),
{
    let n = s.unicode_len();
    if n == 0 {
        return false;
    }
    let mut i: usize = 0;
    while i < n
        invariant
            0 <= i <= n == s@.len(),
            forall|j: int| 0 <= j < i ==> crate::numbers::is_digit(s@[j]),
        decreases n - i,
    {
        if !is_digit_char(s.get_char(i)) {
            return false;
        }
        i = i + 1;
    }
    true
}

fn is_mantissa_str(m: &str) -> (r: bool)
    ensures
        r == is_mantissa(m@),
{
    let n = m.unicode_len();
    match find_char_in(m, '.') {
        None => all_digits_str(m),
        Some(i) => {
            proof {
                lemma_find_char(m@, '.');
            }
            let a = m.substring_char(0, i);
            let b = m.substring_char(i + 1, n);
            proof {
                assert(m@.subrange(0, i as int) =~= m@.take(i as int));
                assert(m@.subrange(i + 1, n as int) =~= m@.skip(i + 1));
            }
            let a_ok = if a.unicode_len() == 0 {
                true
            } else {
                all_digits_str(a)
            };
            let b_ok = if b.unicode_len() == 0 {
                true
            } else {
                all_digits_str(b)
            };
            a_ok && b_ok && (i > 0 || n > i + 1)
        },
    }
}

fn is_exponent_str(u: &str) -> (r: bool)
    ensures
        r == is_exponent(u@),
{
    let v = strip_sign_str(u);
    all_digits_str(v)
}

fn find_exp_marker_str(s: &str) -> (r: Option<usize>)
    ensures
        match r {
            Some(i) => find_exp_marker(s@) == Some(i as int) && i < s@.len(),
            None => find_exp_marker(s@) is None,
        },
{
    proof {
        lemma_find_char(s@, 'e');
        lemma_find_char(s@, 'E');
    }
    let le = find_char_in(s, 'e');
    let ue = find_char_in(s, 'E');
    match (le, ue) {
        (Some(i), Some(j)) => if i <= j {
            Some(i)
        } else {
            Some(j)
        },
        (Some(i), None) => Some(i),
        (None, Some(j)) => Some(j),
        (None, None) => None,
    }
}

/// Decide whether `s` is a float literal the standard library would parse.
pub fn is_float_literal_str(s: &str) -> (r: bool)
    ensures
        r == is_float_literal(s@),
{
    let t = strip_sign_str(s);
    if eq_ignore_case_str(t, "inf") || eq_ignore_case_str(t, "infinity") || eq_ignore_case_str(
        t,
        "nan",
    ) {
        return true;
    }
    let n = t.unicode_len();
    match find_exp_marker_str(t) {
        None => is_mantissa_str(t),
        Some(i) => {
            let m = t.substring_char(0, i);
            let u = t.substring_char(i + 1, n);
            proof {
                assert(t@.subrange(0, i as int) =~= t@.take(i as int));
                assert(t@.subrange(i + 1, n as int) =~= t@.skip(i + 1));
            }
            is_mantissa_str(m) && is_exponent_str(u)
        },
    }
}

} // verus!
