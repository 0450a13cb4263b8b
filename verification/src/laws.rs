//! Laws of the compiler, proved from the specifications that the public
//! functions are verified against.

use vstd::prelude::*;

use crate::builder::block_of_directive;
use crate::builder::build_spec;
use crate::builder::spec_compile;
use crate::config::apply_config_line;
use crate::config::scan_config_spec;
use crate::model::BlockV;
use crate::model::CompileErrorV;
use crate::model::ConfigV;
use crate::model::DEFAULT_TITLE_SIZE;
use crate::numbers::spec_parse_u8;
use crate::text::has_prefix;
use crate::text::key_value;

verus! {

/// Idempotence: the compiled document model is a function of the input text
/// alone, so compiling the same input twice yields an identical model.
pub proof fn lemma_compile_deterministic(s1: Seq<char>, s2: Seq<char>)
    requires
        s1 == s2,
    ensures
        spec_compile(s1) == spec_compile(s2),
{
}

/// The blocks of one line considered alone, without lookahead.
pub open spec fn line_blocks(line: Seq<char>, c: ConfigV) -> Result<Seq<BlockV>, CompileErrorV> {
    if !has_prefix(line, "#+"@) {
        Ok(Seq::<BlockV>::empty())
    } else {
        match key_value(line) {
            None => Err(CompileErrorV::MalformedDirective),
            Some((key, val)) => match block_of_directive(key, val, c) {
                Err(e) => Err(e),
                Ok(Some(b)) => Ok(seq![b]),
                Ok(None) => Ok(Seq::<BlockV>::empty()),
            },
        }
    }
}

/// Blocks built line by line in source order: each line contributes its own
/// blocks, in the order the lines stand in the source.
pub open spec fn build_in_order(lines: Seq<Seq<char>>, c: ConfigV) -> Result<
    Seq<BlockV>,
    CompileErrorV,
>
    decreases lines.len(),
{
    if lines.len() == 0 {
        Ok(Seq::<BlockV>::empty())
    } else {
        match line_blocks(lines[0], c) {
            Err(e) => Err(e),
            Ok(first) => match build_in_order(lines.skip(1), c) {
                Err(e) => Err(e),
                Ok(rest) => Ok(first + rest),
            },
        }
    }
}

/// `line` is a directive with the given key.
pub open spec fn is_directive_with_key(line: Seq<char>, key: Seq<char>) -> bool {
    has_prefix(line, "#+"@) && match key_value(line) {
        Some((k, _)) => k == key,
        None => false,
    }
}

/// Order preservation: for input without `START` and `END` directives no
/// lookahead takes place, and the built blocks are those of each line in
/// source order.
pub proof fn lemma_order_preserved(lines: Seq<Seq<char>>, c: ConfigV)
    requires
        forall|i: int| 0 <= i < lines.len() ==> !is_directive_with_key(lines[i], "#+START"@),
        forall|i: int| 0 <= i < lines.len() ==> !is_directive_with_key(lines[i], "#+END"@),
    ensures
        build_spec(lines, c) == build_in_order(lines, c),
    decreases lines.len(),
{
    if lines.len() == 0 {
    } else {
        let t = lines.skip(1);
        assert(forall|i: int| 0 <= i < t.len() ==> t[i] == lines[i + 1]);
        lemma_order_preserved(t, c);
        assert(!is_directive_with_key(lines[0], "#+START"@));
        match build_in_order(t, c) {
            Err(_) => {},
            Ok(rest) => {
                if has_prefix(lines[0], "#+"@) {
                    match key_value(lines[0]) {
                        None => {},
                        Some((key, val)) => {
                            assert(key != "#+START"@);
                            match block_of_directive(key, val, c) {
                                Err(_) => {},
                                Ok(Some(b)) => {},
                                Ok(None) => {
                                    assert(Seq::<BlockV>::empty() + rest =~= rest);
                                },
                            }
                        },
                    }
                }
            },
        }
    }
}

/// The title size a line sets, when it is a well-formed `TITLESIZE`
/// directive.
pub open spec fn title_size_of_line(line: Seq<char>) -> Option<u8> {
    match key_value(line) {
        Some((k, v)) => if k == "#+TITLESIZE"@ {
            spec_parse_u8(v)
        } else {
            None
        },
        None => None,
    }
}

/// The value of the topmost line that sets the title size.
pub open spec fn first_title_size(lines: Seq<Seq<char>>) -> Option<u8>
    decreases lines.len(),
{
    if lines.len() == 0 {
        None
    } else {
        match title_size_of_line(lines[0]) {
            Some(v) => Some(v),
            None => first_title_size(lines.skip(1)),
        }
    }
}

/// Duplicate-configuration precedence: when the scan succeeds, the resolved
/// title size is the value of the topmost `TITLESIZE` directive in the
/// source, however many lines lie between duplicates, and the default when
/// there is none.
pub proof fn lemma_topmost_title_size_wins(lines: Seq<Seq<char>>, c: ConfigV)
    requires
        scan_config_spec(lines) == Ok::<ConfigV, CompileErrorV>(c),
    ensures
        c.title_size == match first_title_size(lines) {
            Some(v) => v,
            None => DEFAULT_TITLE_SIZE,
        },
    decreases lines.len(),
{
    if lines.len() == 0 {
    } else {
        match scan_config_spec(lines.skip(1)) {
            Err(_) => {
                assert(false);
            },
            Ok(c1) => {
                lemma_topmost_title_size_wins(lines.skip(1), c1);
                assert(apply_config_line(lines[0], c1) == Ok::<ConfigV, CompileErrorV>(c));
                match title_size_of_line(lines[0]) {
                    Some(v) => {
                        assert(c.title_size == v);
                    },
                    None => {
                        assert(c.title_size == c1.title_size);
                    },
                }
            },
        }
    }
}

/// A key of a configuration directive.
pub open spec fn is_config_key(key: Seq<char>) -> bool {
    key == "#+TITLESIZE"@ || key == "#+SUBTITLESIZE"@ || key == "#+ITEMSIZE"@ || key
        == "#+SECTIONSIZE"@ || key == "#+DEFAULTSIZE"@ || key == "#+MARGINS"@ || key
        == "#+FONTPATH"@ || key == "#+FONTNAME"@
}

/// A key of a content directive.
pub open spec fn is_content_key(key: Seq<char>) -> bool {
    key == "#+AUTHOR"@ || key == "#+INFO"@ || key == "#+SUBTITLE"@ || key == "#+POINT"@ || key
        == "#+EXPERIENCE"@ || key == "#+SPECIALIZATION"@ || key == "#+START"@ || key == "#+END"@
        || key == "#+STARTSECTION"@ || key == "#+ENDSECTION"@ || key == "#+BREAK"@ || key
        == "#+"@
}

/// Unknown-directive tolerance: a directive line whose key is in neither
/// vocabulary alters no configuration and yields no block, and neither pass
/// fails on it.
pub proof fn lemma_unknown_directive_tolerated(
    line: Seq<char>,
    key: Seq<char>,
    val: Seq<char>,
    c: ConfigV,
)
    requires
        key_value(line) == Some((key, val)),
        !is_config_key(key),
        !is_content_key(key),
    ensures
        apply_config_line(line, c) == Ok::<ConfigV, CompileErrorV>(c),
        line_blocks(line, c) == Ok::<Seq<BlockV>, CompileErrorV>(Seq::<BlockV>::empty()),
{
}

} // verus!
