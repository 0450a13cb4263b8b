//! Character and string utilities: white-space trimming, prefix tests, and
//! splitting a line at its first colon, all specified over `Seq<char>` views.

use vstd::prelude::*;
use vstd::string::StrSliceExecFns;
use vstd::string::StringExecFns;

verus! {

/// Unicode white space, exactly the characters `char::is_whitespace` accepts.
pub open spec fn is_space(c: char) -> bool {
    let u = c as u32;
    u == 0x20 || (0x09 <= u && u <= 0x0d) || u == 0x85 || u == 0xa0 || u == 0x1680 || (0x2000
        <= u && u <= 0x200a) || u == 0x2028 || u == 0x2029 || u == 0x202f || u == 0x205f || u
        == 0x3000
}

pub fn is_space_char(c: char) -> (r: bool)
    ensures
        r == is_space(c),
{
    let u = c as u32;
    u == 0x20 || (0x09 <= u && u <= 0x0d) || u == 0x85 || u == 0xa0 || u == 0x1680 || (0x2000
        <= u && u <= 0x200a) || u == 0x2028 || u == 0x2029 || u == 0x202f || u == 0x205f || u
        == 0x3000
}

/// The characters of `s` with index in `from..to` are all white space.
pub open spec fn all_space_range(s: Seq<char>, from: int, to: int) -> bool {
    forall|i: int| from <= i < to ==> is_space(s[i])
}

/// `s` with leading and trailing white space removed, as `str::trim` removes it.
pub open spec fn trim_spec(s: Seq<char>) -> Seq<char>
    decreases s.len(),
{
    if s.len() == 0 {
        s
    } else if is_space(s[0]) {
        trim_spec(s.skip(1))
    } else if is_space(s[s.len() - 1]) {
        trim_spec(s.take(s.len() - 1))
    } else {
        s
    }
}

proof fn lemma_trim_all_space(s: Seq<char>)
    requires
        all_space_range(s, 0, s.len() as int),
    ensures
        trim_spec(s) == Seq::<char>::empty(),
    decreases s.len(),
{
    if s.len() == 0 {
        assert(s =~= Seq::<char>::empty());
    } else {
        assert(is_space(s[0]));
        lemma_trim_all_space(s.skip(1));
    }
}

proof fn lemma_trim_subrange(s: Seq<char>, lo: int, hi: int)
    requires
        0 <= lo < hi <= s.len(),
        all_space_range(s, 0, lo),
        all_space_range(s, hi, s.len() as int),
        !is_space(s[lo]),
        !is_space(s[hi - 1]),
    ensures
        trim_spec(s) == s.subrange(lo, hi),
    decreases s.len(),
{
    if lo > 0 {
        assert(is_space(s[0]));
        let t = s.skip(1);
        lemma_trim_subrange(t, lo - 1, hi - 1);
        assert(t.subrange(lo - 1, hi - 1) =~= s.subrange(lo, hi));
    } else if hi < s.len() {
        assert(is_space(s[s.len() - 1]));
        let t = s.take(s.len() - 1);
        lemma_trim_subrange(t, lo, hi);
        assert(t.subrange(lo, hi) =~= s.subrange(lo, hi));
    } else {
        assert(trim_spec(s) == s);
        assert(s.subrange(0, s.len() as int) =~= s);
    }
}

/// `str::trim`: remove leading and trailing white space.
pub fn trim(s: &str) -> (r: &str)
    ensures
        r@ == trim_spec(s@),
{
    let n = s.unicode_len();
    let mut lo: usize = 0;
    while lo < n && is_space_char(s.get_char(lo))
        invariant
            0 <= lo <= n == s@.len(),
            all_space_range(s@, 0, lo as int),
        decreases n - lo,
    {
        lo = lo + 1;
    }
    if lo == n {
        proof {
            lemma_trim_all_space(s@);
        }
        let r = s.substring_char(n, n);
        proof {
            assert(s@.subrange(n as int, n as int) =~= Seq::<char>::empty());
        }
        r
    } else {
        let mut hi: usize = n;
        while is_space_char(s.get_char(hi - 1))
            invariant
                lo < hi <= n == s@.len(),
                all_space_range(s@, hi as int, n as int),
                !is_space(s@[lo as int]),
            decreases hi,
        {
            hi = hi - 1;
        }
        proof {
            lemma_trim_subrange(s@, lo as int, hi as int);
        }
        s.substring_char(lo, hi)
    }
}

/// The index of the first occurrence of `c` in `s`, if any.
pub open spec fn find_char(s: Seq<char>, c: char) -> Option<int>
    decreases s.len(),
{
    if s.len() == 0 {
        None
    } else if s[0] == c {
        Some(0int)
    } else {
        match find_char(s.skip(1), c) {
            Some(i) => Some(i + 1),
            None => None,
        }
    }
}

pub proof fn lemma_find_char(s: Seq<char>, c: char)
    ensures
        match find_char(s, c) {
            Some(i) => 0 <= i < s.len() && s[i] == c && forall|j: int| 0 <= j < i ==> s[j] != c,
            None => forall|j: int| 0 <= j < s.len() ==> s[j] != c,
        },
    decreases s.len(),
{
    if s.len() == 0 {
    } else if s[0] == c {
    } else {
        let t = s.skip(1);
        lemma_find_char(t, c);
        assert(forall|j: int| 1 <= j < s.len() ==> s[j] == t[j - 1]);
        match find_char(t, c) {
            Some(i) => {
                assert(s[i + 1] == t[i]);
                assert(forall|j: int| 0 <= j < i + 1 ==> s[j] != c) by {
                    assert(forall|j: int| 1 <= j < i + 1 ==> s[j] == t[j - 1] && t[j - 1] != c);
                }
            },
            None => {
                assert(forall|j: int| 0 <= j < s.len() ==> s[j] != c) by {
                    assert(forall|j: int| 1 <= j < s.len() ==> s[j] == t[j - 1] && t[j - 1] != c);
                }
            },
        }
    }
}

/// The index of the first `c` in `s`.
pub fn find_char_in(s: &str, c: char) -> (r: Option<usize>)
    ensures
        match r {
            Some(i) => find_char(s@, c) == Some(i as int),
            None => find_char(s@, c) is None,
        },
{
    let n = s.unicode_len();
    let mut i: usize = 0;
    while i < n
        invariant
            0 <= i <= n == s@.len(),
            forall|j: int| 0 <= j < i ==> s@[j] != c,
        decreases n - i,
    {
        if s.get_char(i) == c {
            proof {
                lemma_find_char(s@, c);
            }
            return Some(i);
        }
        i = i + 1;
    }
    proof {
        lemma_find_char(s@, c);
    }
    None
}

/// `s` split at its first colon, neither part trimmed; `None` when `s` has no
/// colon.
pub open spec fn split_at_colon(s: Seq<char>) -> Option<(Seq<char>, Seq<char>)> {
    match find_char(s, ':') {
        Some(i) => Some((s.take(i), s.skip(i + 1))),
        None => None,
    }
}

/// `str::split_once(':')`: the parts before and after the first colon.
pub fn split_once_colon(s: &str) -> (r: Option<(&str, &str)>)
    ensures
        match r {
            Some((a, b)) => split_at_colon(s@) == Some((a@, b@)),
            None => split_at_colon(s@) is None,
        },
{
    match find_char_in(s, ':') {
        Some(i) => {
            proof {
                lemma_find_char(s@, ':');
            }
            let n = s.unicode_len();
            let a = s.substring_char(0, i);
            let b = s.substring_char(i + 1, n);
            proof {
                assert(s@.subrange(0, i as int) =~= s@.take(i as int));
                assert(s@.subrange(i + 1, n as int) =~= s@.skip(i + 1));
            }
            Some((a, b))
        },
        None => None,
    }
}

/// The trimmed key and value of a line split at its first colon.
pub open spec fn key_value(line: Seq<char>) -> Option<(Seq<char>, Seq<char>)> {
    match split_at_colon(line) {
        Some((k, v)) => Some((trim_spec(k), trim_spec(v))),
        None => None,
    }
}

/// Split a line at its first colon and trim both parts.
pub fn key_value_of(line: &str) -> (r: Option<(&str, &str)>)
    ensures
        match r {
            Some((k, v)) => key_value(line@) == Some((k@, v@)),
            None => key_value(line@) is None,
        },
{
    match split_once_colon(line) {
        Some((a, b)) => Some((trim(a), trim(b))),
        None => None,
    }
}

/// `p` is a prefix of `s`.
pub open spec fn has_prefix(s: Seq<char>, p: Seq<char>) -> bool {
    p.len() <= s.len() && s.take(p.len() as int) == p
}

/// `str::starts_with`: `p` is a prefix of `s`.
pub fn str_has_prefix(s: &str, p: &str) -> (r: bool)
    ensures
        r == has_prefix(s@, p@),
{
    let sn = s.unicode_len();
    let pn = p.unicode_len();
    if pn > sn {
        return false;
    }
    let mut i: usize = 0;
    while i < pn
        invariant
            0 <= i <= pn == p@.len(),
            pn <= sn == s@.len(),
            forall|j: int| 0 <= j < i ==> s@[j] == p@[j],
        decreases pn - i,
    {
        if s.get_char(i) != p.get_char(i) {
            proof {
                assert(s@.take(pn as int)[i as int] != p@[i as int]);
            }
            return false;
        }
        i = i + 1;
    }
    proof {
        assert(s@.take(pn as int) =~= p@);
    }
    true
}

/// The views of `a` and `b` are the same sequence of characters.
pub fn str_eq(a: &str, b: &str) -> (r: bool)
    ensures
        r == (a@ == b@),
{
    let an = a.unicode_len();
    let bn = b.unicode_len();
    if an != bn {
        return false;
    }
    let mut i: usize = 0;
    while i < an
        invariant
            0 <= i <= an == a@.len(),
            an == bn == b@.len(),
            forall|j: int| 0 <= j < i ==> a@[j] == b@[j],
        decreases an - i,
    {
        if a.get_char(i) != b.get_char(i) {
            return false;
        }
        i = i + 1;
    }
    proof {
        assert(a@ =~= b@);
    }
    true
}

/// A sequence of `n` dashes.
pub open spec fn dashes(n: nat) -> Seq<char> {
    Seq::new(n, |i: int| '-')
}

/// `"-".repeat(n)`: a string of `n` dashes.
pub fn repeat_dashes(n: usize) -> (r: String)
    ensures
        r@ == dashes(n as nat),
{
    let mut r = String::new();
    let mut i: usize = 0;
    proof {
        reveal_strlit("-");
        assert(r@ =~= dashes(0));
    }
    while i < n
        invariant
            0 <= i <= n,
            r@ == dashes(i as nat),
            "-"@ =~= seq!['-'],
        decreases n - i,
    {
        r.append("-");
        i = i + 1;
        proof {
            assert(r@ =~= dashes(i as nat));
        }
    }
    r
}

/// `s` with every semicolon replaced by a colon: in an `INFO` value a
/// semicolon stands for a literal colon that must not act as the key/value
/// separator.
pub open spec fn restore_colons_spec(s: Seq<char>) -> Seq<char> {
    s.map_values(|c: char| if c == ';' { ':' } else { c })
}

pub fn restore_colons(s: &str) -> (r: String)
    ensures
        r@ == restore_colons_spec(s@),
{
    let n = s.unicode_len();
    let mut r = String::new();
    let mut i: usize = 0;
    proof {
        reveal_strlit(":");
        assert(r@ =~= restore_colons_spec(s@.take(0)));
    }
    while i < n
        invariant
            0 <= i <= n == s@.len(),
            r@ == restore_colons_spec(s@.take(i as int)),
            ":"@ =~= seq![':'],
        decreases n - i,
    {
        if s.get_char(i) == ';' {
            r.append(":");
        } else {
            let piece = s.substring_char(i, i + 1);
            r.append(piece);
            proof {
                assert(s@.subrange(i as int, i + 1) =~= seq![s@[i as int]]);
            }
        }
        i = i + 1;
        proof {
            assert(r@ =~= restore_colons_spec(s@.take(i as int)));
        }
    }
    proof {
        assert(s@.take(n as int) =~= s@);
    }
    r
}

/// `start`, a spaced dash, then `end`.
pub open spec fn joined_range(start: Seq<char>, end: Seq<char>) -> Seq<char> {
    start + " - "@ + end
}

/// Format a date range as `"<start> - <end>"`.
pub fn join_date_range(start: &str, end: &str) -> (r: String)
    ensures
        r@ == joined_range(start@, end@),
{
    let mut r = start.to_owned();
    r.append(" - ");
    r.append(end);
    r
}

} // verus!
