//! Decimal parsing for numeric directive values, with the grammar
//! `str::parse` gives unsigned integers: an optional leading `+`, then one or
//! more ASCII digits, and the value must fit the target type.

use vstd::prelude::*;
use vstd::string::StrSliceExecFns;

verus! {

pub open spec fn is_digit(c: char) -> bool {
    0x30 <= c as u32 && c as u32 <= 0x39
}

pub fn is_digit_char(c: char) -> (r: bool)
    ensures
        r == is_digit(c),
{
    let u = c as u32;
    0x30 <= u && u <= 0x39
}

pub open spec fn digit_val(c: char) -> nat
    recommends
        is_digit(c),
{
    (c as u32 - 0x30) as nat
}

pub open spec fn all_digits(s: Seq<char>) -> bool {
    forall|i: int| 0 <= i < s.len() ==> is_digit(s[i])
}

/// The value of a sequence of decimal digits, most significant first.
pub open spec fn digits_val(s: Seq<char>) -> nat
    decreases s.len(),
{
    if s.len() == 0 {
        0
    } else {
        digits_val(s.take(s.len() - 1)) * 10 + digit_val(s[s.len() - 1])
    }
}

proof fn lemma_digits_val_push(u: Seq<char>, x: char)
    ensures
        digits_val(u.push(x)) == digits_val(u) * 10 + digit_val(x),
{
    let w = u.push(x);
    assert(w.take(w.len() - 1) =~= u);
    assert(w[w.len() - 1] == x);
}

/// A digit sequence is worth at least any of its prefixes.
proof fn lemma_digits_val_prefix(s: Seq<char>, i: int)
    requires
        0 <= i <= s.len(),
    ensures
        digits_val(s.take(i)) <= digits_val(s),
    decreases s.len(),
{
    if i == s.len() {
        assert(s.take(i) =~= s);
    } else {
        let t = s.take(s.len() - 1);
        lemma_digits_val_prefix(t, i);
        assert(t.take(i) =~= s.take(i));
        assert(digits_val(t) * 10 >= digits_val(t));
    }
}

/// The digits of `s` after an optional leading `+`; the whole of `s` when
/// there is none.
pub open spec fn unsigned_body(s: Seq<char>) -> Seq<char> {
    if s.len() > 0 && s[0] == '+' {
        s.skip(1)
    } else {
        s
    }
}

/// The value `str::parse` reads from `s` for an unsigned integer type, before
/// any range check: an optional leading `+`, then one or more ASCII digits.
pub open spec fn spec_parse_nat(s: Seq<char>) -> Option<nat> {
    let t = unsigned_body(s);
    if t.len() > 0 && all_digits(t) {
        Some(digits_val(t))
    } else {
        None
    }
}

/// `str::parse::<u8>`.
pub open spec fn spec_parse_u8(s: Seq<char>) -> Option<u8> {
    match spec_parse_nat(s) {
        Some(v) => if v <= u8::MAX {
            Some(v as u8)
        } else {
            None
        },
        None => None,
    }
}

/// `str::parse::<usize>`.
pub open spec fn spec_parse_usize(s: Seq<char>) -> Option<usize> {
    match spec_parse_nat(s) {
        Some(v) => if v <= usize::MAX {
            Some(v as usize)
        } else {
            None
        },
        None => None,
    }
}

/// Parse `s` as `str::parse::<u8>` does.
pub fn parse_u8(s: &str) -> (r: Option<u8>)
    ensures
        r == spec_parse_u8(s@),
{
    let n = s.unicode_len();
    let start: usize = if n > 0 && s.get_char(0) == '+' {
        1
    } else {
        0
    };
    let ghost t = unsigned_body(s@);
    proof {
        assert(t.len() == n - start);
        assert(forall|j: int| 0 <= j < t.len() ==> t[j] == s@[j + start]);
    }
    if start == n {
        return None;
    }
    let mut acc: u32 = 0;
    let mut i: usize = start;
    proof {
        assert(t.take(0) =~= Seq::<char>::empty());
    }
    while i < n
        invariant
            start <= i <= n == s@.len(),
            t == unsigned_body(s@),
            t.len() == n - start,
            forall|j: int| 0 <= j < t.len() ==> t[j] == s@[j + start],
            all_digits(t.take(i - start)),
            acc as nat == digits_val(t.take(i - start)),
            acc <= 255,
        decreases n - i,
    {
        let c = s.get_char(i);
        if !is_digit_char(c) {
            proof {
                assert(t[i - start] == c);
                assert(!all_digits(t));
            }
            return None;
        }
        let d = c as u32 - 0x30;
        proof {
            let k = i - start;
            assert(t.take(k + 1) =~= t.take(k).push(t[k]));
            lemma_digits_val_push(t.take(k), t[k]);
        }
        acc = acc * 10 + d;
        i = i + 1;
        if acc > 255 {
            proof {
                if all_digits(t) {
                    lemma_digits_val_prefix(t, i - start);
                }
            }
            return None;
        }
    }
    proof {
        assert(t.take(n - start) =~= t);
    }
    Some(acc as u8)
}

/// Parse `s` as `str::parse::<usize>` does.
pub fn parse_usize(s: &str) -> (r: Option<usize>)
    ensures
        r == spec_parse_usize(s@),
{
    let n = s.unicode_len();
    let start: usize = if n > 0 && s.get_char(0) == '+' {
        1
    } else {
        0
    };
    let ghost t = unsigned_body(s@);
    proof {
        assert(t.len() == n - start);
        assert(forall|j: int| 0 <= j < t.len() ==> t[j] == s@[j + start]);
    }
    if start == n {
        return None;
    }
    let bound: u128 = usize::MAX as u128;
    let mut acc: u128 = 0;
    let mut i: usize = start;
    proof {
        assert(t.take(0) =~= Seq::<char>::empty());
    }
    while i < n
        invariant
            start <= i <= n == s@.len(),
            t == unsigned_body(s@),
            t.len() == n - start,
            forall|j: int| 0 <= j < t.len() ==> t[j] == s@[j + start],
            all_digits(t.take(i - start)),
            acc as nat == digits_val(t.take(i - start)),
            acc <= bound == usize::MAX as u128,
        decreases n - i,
    {
        let c = s.get_char(i);
        if !is_digit_char(c) {
            proof {
                assert(t[i - start] == c);
                assert(!all_digits(t));
            }
            return None;
        }
        let d = (c as u32 - 0x30) as u128;
        proof {
            let k = i - start;
            assert(t.take(k + 1) =~= t.take(k).push(t[k]));
            lemma_digits_val_push(t.take(k), t[k]);
        }
        acc = acc * 10 + d;
        i = i + 1;
        if acc > bound {
            proof {
                if all_digits(t) {
                    lemma_digits_val_prefix(t, i - start);
                }
            }
            return None;
        }
    }
    proof {
        assert(t.take(n - start) =~= t);
    }
    Some(acc as usize)
}

} // verus!
