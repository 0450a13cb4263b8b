//! The line reader: split the raw input text at newlines into an ordered
//! sequence of lines, none holding a newline and the last possibly empty.

use vstd::prelude::*;
use vstd::string::StrSliceExecFns;

verus! {

/// The views of a sequence of lines.
pub open spec fn line_views(lines: Seq<String>) -> Seq<Seq<char>> {
    lines.map_values(|l: String| l@)
}

/// `s` split at every newline, as `str::split('\n')` splits it: one part
/// more than there are newlines, in order, each without its newline.
pub open spec fn split_lines_spec(s: Seq<char>) -> Seq<Seq<char>>
    decreases s.len(),
{
    if s.len() == 0 {
        seq![Seq::<char>::empty()]
    } else if s[0] == '\n' {
        seq![Seq::<char>::empty()] + split_lines_spec(s.skip(1))
    } else {
        let rest = split_lines_spec(s.skip(1));
        seq![seq![s[0]] + rest[0]] + rest.skip(1)
    }
}

proof fn lemma_split_lines_nonempty(s: Seq<char>)
    ensures
        split_lines_spec(s).len() >= 1,
    decreases s.len(),
{
    if s.len() == 0 {
    } else {
        lemma_split_lines_nonempty(s.skip(1));
    }
}

/// Text without a newline is a single line.
proof fn lemma_split_no_newline(s: Seq<char>)
    requires
        forall|j: int| 0 <= j < s.len() ==> s[j] != '\n',
    ensures
        split_lines_spec(s) == seq![s],
    decreases s.len(),
{
    if s.len() == 0 {
        assert(s =~= Seq::<char>::empty());
        assert(split_lines_spec(s) =~~= seq![s]);
    } else {
        let t = s.skip(1);
        assert(forall|j: int| 0 <= j < t.len() ==> t[j] == s[j + 1] && s[j + 1] != '\n');
        lemma_split_no_newline(t);
        let rest = split_lines_spec(t);
        assert(rest == seq![t]);
        assert(seq![s[0]] + t =~= s);
        assert(rest.skip(1) =~= Seq::<Seq<char>>::empty());
        assert(split_lines_spec(s) =~~= seq![s]);
    }
}

/// Splitting at the first newline: the text before it is the first line, and
/// the rest splits on its own.
proof fn lemma_split_at_newline(s: Seq<char>, i: int)
    requires
        0 <= i < s.len(),
        s[i] == '\n',
        forall|j: int| 0 <= j < i ==> s[j] != '\n',
    ensures
        split_lines_spec(s) == seq![s.take(i)] + split_lines_spec(s.skip(i + 1)),
    decreases i,
{
    if i == 0 {
        assert(s.take(0) =~= Seq::<char>::empty());
        assert(split_lines_spec(s) =~~= seq![s.take(0)] + split_lines_spec(s.skip(1)));
    } else {
        let t = s.skip(1);
        assert(forall|j: int| 0 <= j < t.len() ==> t[j] == s[j + 1]);
        assert(t[i - 1] == '\n');
        lemma_split_at_newline(t, i - 1);
        let rest = split_lines_spec(t);
        assert(rest == seq![t.take(i - 1)] + split_lines_spec(t.skip(i)));
        lemma_split_lines_nonempty(t.skip(i));
        assert(rest[0] == t.take(i - 1));
        assert(seq![s[0]] + t.take(i - 1) =~= s.take(i));
        assert(t.skip(i) =~= s.skip(i + 1));
        assert(rest.skip(1) =~= split_lines_spec(s.skip(i + 1)));
        assert(split_lines_spec(s) =~~= seq![s.take(i)] + split_lines_spec(s.skip(i + 1)));
    }
}

/// Split the input at newlines, in order.
pub fn split_lines(s: &str) -> (r: Vec<String>)
    ensures
        line_views(r@) == split_lines_spec(s@),
{
    let n = s.unicode_len();
    let mut r: Vec<String> = Vec::new();
    let mut start: usize = 0;
    let mut i: usize = 0;
    proof {
        assert(s@.skip(0) =~= s@);
        assert(line_views(r@) =~~= Seq::<Seq<char>>::empty());
    }
    while i < n
        invariant
            0 <= start <= i <= n == s@.len(),
            forall|j: int| start <= j < i ==> s@[j] != '\n',
            split_lines_spec(s@) == line_views(r@) + split_lines_spec(s@.skip(start as int)),
        decreases n - i,
    {
        if s.get_char(i) == '\n' {
            let piece = s.substring_char(start, i);
            let ghost old_r = r@;
            r.push(piece.to_owned());
            proof {
                let tail = s@.skip(start as int);
                assert(tail[i - start] == '\n');
                assert(forall|j: int| 0 <= j < i - start ==> tail[j] == s@[j + start] && s@[j
                    + start] != '\n');
                lemma_split_at_newline(tail, i - start);
                assert(tail.take(i - start) =~= s@.subrange(start as int, i as int));
                assert(tail.skip(i - start + 1) =~= s@.skip(i + 1));
                assert(line_views(r@) =~= line_views(old_r) + seq![piece@]);
                assert(line_views(r@) + split_lines_spec(s@.skip(i + 1)) =~~= line_views(old_r)
                    + split_lines_spec(s@.skip(start as int)));
            }
            start = i + 1;
        }
        i = i + 1;
    }
    let piece = s.substring_char(start, n);
    let ghost old_r = r@;
    r.push(piece.to_owned());
    proof {
        let tail = s@.skip(start as int);
        assert(forall|j: int| 0 <= j < tail.len() ==> tail[j] == s@[j + start] && s@[j + start]
            != '\n');
        lemma_split_no_newline(tail);
        assert(tail =~= s@.subrange(start as int, n as int));
        assert(line_views(r@) =~= line_views(old_r) + seq![piece@]);
        assert(line_views(r@) =~~= line_views(old_r) + split_lines_spec(s@.skip(start as int)));
    }
    r
}

} // verus!
