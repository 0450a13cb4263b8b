//! The block builder: one top-to-bottom pass over the lines, mapping each
//! recognized directive to a styled block, with a one-line lookahead that
//! merges a `START` directive with an immediately following `#+END:` line
//! into a single date-range block.

use vstd::prelude::*;
use vstd::string::StrSliceExecFns;

use crate::config::scan_config;
use crate::config::scan_config_spec;
use crate::floatlit::is_float_literal;
use crate::floatlit::is_float_literal_str;
use crate::lines::line_views;
use crate::lines::split_lines;
use crate::lines::split_lines_spec;
use crate::model::Block;
use crate::model::BlockV;
use crate::model::BreakSize;
use crate::model::BreakSizeV;
use crate::model::CompileError;
use crate::model::CompileErrorV;
use crate::model::ConfigV;
use crate::model::Configuration;
use crate::model::DocumentModel;
use crate::model::DocumentModelV;
use crate::numbers::parse_usize;
use crate::numbers::spec_parse_usize;
use crate::text::dashes;
use crate::text::has_prefix;
use crate::text::join_date_range;
use crate::text::joined_range;
use crate::text::key_value;
use crate::text::key_value_of;
use crate::text::repeat_dashes;
use crate::text::restore_colons;
use crate::text::restore_colons_spec;
use crate::text::str_eq;
use crate::text::str_has_prefix;
use crate::text::trim;
use crate::text::trim_spec;

verus! {

/// The block a directive other than `START` yields: one block for each key of
/// the fixed vocabulary, none for an unrecognized key, and a fatal error for
/// a divider whose dash count does not parse.
pub open spec fn block_of_directive(key: Seq<char>, val: Seq<char>, c: ConfigV) -> Result<
    Option<BlockV>,
    CompileErrorV,
> {
    if key == "#+AUTHOR"@ {
        Ok(Some(BlockV::TitleText { text: val, size: c.title_size }))
    } else if key == "#+INFO"@ {
        Ok(Some(BlockV::InfoText { text: restore_colons_spec(val), size: c.default_size }))
    } else if key == "#+SUBTITLE"@ {
        Ok(Some(BlockV::SubtitleText { text: val, size: c.subtitle_size }))
    } else if key == "#+POINT"@ {
        Ok(Some(BlockV::BulletPoint { text: val }))
    } else if key == "#+EXPERIENCE"@ {
        Ok(Some(BlockV::ExperienceHeader { text: val, size: c.item_size }))
    } else if key == "#+SPECIALIZATION"@ {
        Ok(Some(BlockV::SpecializationText { text: val }))
    } else if key == "#+END"@ {
        Ok(Some(BlockV::DateRange { text: val }))
    } else if key == "#+STARTSECTION"@ {
        Ok(Some(BlockV::SectionHeader { text: val, size: c.section_size }))
    } else if key == "#+ENDSECTION"@ {
        match spec_parse_usize(val) {
            Some(k) => Ok(
                Some(BlockV::SectionDivider { text: dashes(k as nat), size: c.title_size }),
            ),
            None => Err(CompileErrorV::InvalidNumericValue { directive: "ENDSECTION"@ }),
        }
    } else if key == "#+BREAK"@ || key == "#+"@ {
        Ok(
            Some(
                BlockV::LineBreak {
                    spacing: if is_float_literal(val) {
                        BreakSizeV::Literal { text: val }
                    } else {
                        BreakSizeV::Fallback
                    },
                },
            ),
        )
    } else {
        Ok(None)
    }
}

/// The end date a merged `#+END:` line contributes: its value, the remainder
/// after the first colon, trimmed.
pub open spec fn merged_end_value(line: Seq<char>) -> Seq<char>
    recommends
        has_prefix(line, "#+END:"@),
{
    trim_spec(line.skip(6))
}

/// The blocks built from `lines` against the resolved configuration `c`,
/// top to bottom. A line without the `#+` sentinel yields nothing; a sentinel
/// line without a colon is fatal; a `START` directive consumes an immediately
/// following `#+END:` line into one date-range block, and otherwise — also as
/// the last line — ends its range with `Present`.
pub open spec fn build_spec(lines: Seq<Seq<char>>, c: ConfigV) -> Result<
    Seq<BlockV>,
    CompileErrorV,
>
    decreases lines.len(),
{
    if lines.len() == 0 {
        Ok(Seq::<BlockV>::empty())
    } else {
        let line = lines[0];
        if !has_prefix(line, "#+"@) {
            build_spec(lines.skip(1), c)
        } else {
            match key_value(line) {
                None => Err(CompileErrorV::MalformedDirective),
                Some((key, val)) => {
                    if key == "#+START"@ {
                        if lines.len() > 1 && has_prefix(lines[1], "#+END:"@) {
                            let text = joined_range(val, merged_end_value(lines[1]));
                            match build_spec(lines.skip(2), c) {
                                Ok(rest) => Ok(seq![BlockV::DateRange { text }] + rest),
                                Err(e) => Err(e),
                            }
                        } else {
                            let text = joined_range(val, "Present"@);
                            match build_spec(lines.skip(1), c) {
                                Ok(rest) => Ok(seq![BlockV::DateRange { text }] + rest),
                                Err(e) => Err(e),
                            }
                        }
                    } else {
                        match block_of_directive(key, val, c) {
                            Err(e) => Err(e),
                            Ok(opt) => match build_spec(lines.skip(1), c) {
                                Err(e) => Err(e),
                                Ok(rest) => Ok(
                                    match opt {
                                        Some(b) => seq![b] + rest,
                                        None => rest,
                                    },
                                ),
                            },
                        }
                    }
                },
            }
        }
    }
}

/// The views of a sequence of blocks.
pub open spec fn block_views(blocks: Seq<Block>) -> Seq<BlockV> {
    blocks.map_values(|b: Block| b@)
}

/// `tail` with `acc` in front of its blocks; an error stands.
pub open spec fn prepend_blocks(acc: Seq<BlockV>, tail: Result<Seq<BlockV>, CompileErrorV>) -> Result<
    Seq<BlockV>,
    CompileErrorV,
> {
    match tail {
        Ok(rest) => Ok(acc + rest),
        Err(e) => Err(e),
    }
}

fn block_of_directive_exec(key: &str, val: &str, config: &Configuration) -> (r: Result<
    Option<Block>,
    CompileError,
>)
    ensures
        match r {
            Ok(Some(b)) => block_of_directive(key@, val@, config@) == Ok::<
                Option<BlockV>,
                CompileErrorV,
            >(Some(b@)),
            Ok(None) => block_of_directive(key@, val@, config@) == Ok::<
                Option<BlockV>,
                CompileErrorV,
            >(None),
            Err(e) => block_of_directive(key@, val@, config@) == Err::<
                Option<BlockV>,
                CompileErrorV,
            >(e@),
        },
{
    if str_eq(key, "#+AUTHOR") {
        Ok(Some(Block::TitleText { text: val.to_owned(), size: config.title_size }))
    } else if str_eq(key, "#+INFO") {
        Ok(Some(Block::InfoText { text: restore_colons(val), size: config.default_size }))
    } else if str_eq(key, "#+SUBTITLE") {
        Ok(Some(Block::SubtitleText { text: val.to_owned(), size: config.subtitle_size }))
    } else if str_eq(key, "#+POINT") {
        Ok(Some(Block::BulletPoint { text: val.to_owned() }))
    } else if str_eq(key, "#+EXPERIENCE") {
        Ok(Some(Block::ExperienceHeader { text: val.to_owned(), size: config.item_size }))
    } else if str_eq(key, "#+SPECIALIZATION") {
        Ok(Some(Block::SpecializationText { text: val.to_owned() }))
    } else if str_eq(key, "#+END") {
        Ok(Some(Block::DateRange { text: val.to_owned() }))
    } else if str_eq(key, "#+STARTSECTION") {
        Ok(Some(Block::SectionHeader { text: val.to_owned(), size: config.section_size }))
    } else if str_eq(key, "#+ENDSECTION") {
        match parse_usize(val) {
            Some(k) => Ok(
                Some(Block::SectionDivider { text: repeat_dashes(k), size: config.title_size }),
            ),
            None => Err(CompileError::InvalidNumericValue { directive: "ENDSECTION".to_owned() }),
        }
    } else if str_eq(key, "#+BREAK") || str_eq(key, "#+") {
        let spacing = if is_float_literal_str(val) {
            BreakSize::Literal { text: val.to_owned() }
        } else {
            BreakSize::Fallback
        };
        Ok(Some(Block::LineBreak { spacing }))
    } else {
        Ok(None)
    }
}

fn merged_end_value_exec(line: &str) -> (r: &str)
    requires
        has_prefix(line@, "#+END:"@),
    ensures
        r@ == merged_end_value(line@),
{
    proof {
        reveal_strlit("#+END:");
    }
    let n = line.unicode_len();
    let after = line.substring_char(6, n);
    proof {
        assert(line@.subrange(6, n as int) =~= line@.skip(6));
    }
    trim(after)
}

/// Build the document's blocks from its lines, top to bottom, against the
/// resolved configuration.
pub fn build_blocks(lines: &Vec<String>, config: &Configuration) -> (r: Result<
    Vec<Block>,
    CompileError,
>)
    ensures
        match r {
            Ok(bs) => build_spec(line_views(lines@), config@) == Ok::<Seq<BlockV>, CompileErrorV>(
                block_views(bs@),
            ),
            Err(e) => build_spec(line_views(lines@), config@) == Err::<
                Seq<BlockV>,
                CompileErrorV,
            >(e@),
        },
{
    let ghost vs = line_views(lines@);
    let ghost cv = config@;
    let n = lines.len();
    let mut out: Vec<Block> = Vec::new();
    let mut i: usize = 0;
    proof {
        assert(vs.skip(0) =~= vs);
        assert(block_views(out@) =~= Seq::<BlockV>::empty());
    }
    while i < n
        invariant
            0 <= i <= n == lines@.len(),
            vs == line_views(lines@),
            cv == config@,
            vs.len() == n,
            build_spec(vs, cv) == prepend_blocks(block_views(out@), build_spec(vs.skip(i as int), cv)),
        decreases n - i,
    {
        proof {
            assert(vs.skip(i as int)[0] == lines@[i as int]@);
            assert(vs.skip(i as int).skip(1) =~= vs.skip(i + 1));
        }
        let ghost tail = vs.skip(i as int);
        let ghost acc0 = block_views(out@);
        let line: &String = &lines[i];
        if !str_has_prefix(line.as_str(), "#+") {
            i = i + 1;
        } else {
            match key_value_of(line.as_str()) {
                None => {
                    return Err(CompileError::MalformedDirective);
                },
                Some((key, val)) => {
                    if str_eq(key, "#+START") {
                        let merged: bool = if i + 1 < n {
                            str_has_prefix(lines[i + 1].as_str(), "#+END:")
                        } else {
                            false
                        };
                        proof {
                            if i + 1 < n {
                                assert(tail[1] == lines@[i + 1]@);
                            }
                        }
                        if merged {
                            let end = merged_end_value_exec(lines[i + 1].as_str());
                            let text = join_date_range(val, end);
                            out.push(Block::DateRange { text });
                            proof {
                                assert(tail.skip(2) =~= vs.skip(i + 2));
                                assert(block_views(out@) =~= acc0 + seq![
                                    BlockV::DateRange {
                                        text: joined_range(val@, merged_end_value(tail[1])),
                                    },
                                ]);
                                lemma_prepend_shift(
                                    acc0,
                                    seq![
                                        BlockV::DateRange {
                                            text: joined_range(val@, merged_end_value(tail[1])),
                                        },
                                    ],
                                    build_spec(vs.skip(i + 2), cv),
                                );
                            }
                            i = i + 2;
                        } else {
                            let text = join_date_range(val, "Present");
                            out.push(Block::DateRange { text });
                            proof {
                                let b = BlockV::DateRange {
                                    text: joined_range(val@, "Present"@),
                                };
                                assert(block_views(out@) =~= acc0 + seq![b]);
                                if i + 1 < n {
                                    lemma_prepend_shift(acc0, seq![b], build_spec(vs.skip(i + 1), cv));
                                } else {
                                    assert(vs.skip(i + 1) =~= Seq::<Seq<char>>::empty());
                                    assert(build_spec(tail, cv) == Ok::<Seq<BlockV>, CompileErrorV>(
                                        seq![b],
                                    ));
                                    assert(seq![b] + Seq::<BlockV>::empty() =~= seq![b]);
                                    lemma_prepend_shift(acc0, seq![b], build_spec(vs.skip(i + 1), cv));
                                }
                            }
                            i = i + 1;
                        }
                    } else {
                        match block_of_directive_exec(key, val, config) {
                            Err(e) => {
                                return Err(e);
                            },
                            Ok(opt) => {
                                match opt {
                                    Some(b) => {
                                        let ghost bv = b@;
                                        out.push(b);
                                        proof {
                                            assert(block_views(out@) =~= acc0 + seq![bv]);
                                            lemma_prepend_shift(
                                                acc0,
                                                seq![bv],
                                                build_spec(vs.skip(i + 1), cv),
                                            );
                                        }
                                    },
                                    None => {
                                        proof {
                                            assert(acc0 + Seq::<BlockV>::empty() =~= acc0);
                                            lemma_prepend_shift(
                                                acc0,
                                                Seq::<BlockV>::empty(),
                                                build_spec(vs.skip(i + 1), cv),
                                            );
                                        }
                                    },
                                }
                                i = i + 1;
                            },
                        }
                    }
                },
            }
        }
    }
    proof {
        assert(vs.skip(n as int) =~= Seq::<Seq<char>>::empty());
        assert(block_views(out@) + Seq::<BlockV>::empty() =~= block_views(out@));
    }
    Ok(out)
}

/// Prepending a block sequence distributes over prepending another.
proof fn lemma_prepend_shift(
    acc: Seq<BlockV>,
    mid: Seq<BlockV>,
    tail: Result<Seq<BlockV>, CompileErrorV>,
)
    ensures
        prepend_blocks(acc, prepend_blocks(mid, tail)) == prepend_blocks(acc + mid, tail),
{
    match tail {
        Ok(rest) => {
            assert(acc + (mid + rest) =~= (acc + mid) + rest);
        },
        Err(_) => {},
    }
}

/// The document model compiled from the raw input text: the lines are read,
/// the configuration is resolved over all of them, and the blocks are built
/// in source order against it. Any fatal parse error yields no document.
pub open spec fn spec_compile(src: Seq<char>) -> Result<DocumentModelV, CompileErrorV> {
    let lines = split_lines_spec(src);
    match scan_config_spec(lines) {
        Err(e) => Err(e),
        Ok(c) => match build_spec(lines, c) {
            Err(e) => Err(e),
            Ok(bs) => Ok(DocumentModelV { config: c, blocks: bs }),
        },
    }
}

/// Compile a ResuMarkup source text into its document model.
pub fn compile(source: &str) -> (r: Result<DocumentModel, CompileError>)
    ensures
        match r {
            Ok(m) => spec_compile(source@) == Ok::<DocumentModelV, CompileErrorV>(m@),
            Err(e) => spec_compile(source@) == Err::<DocumentModelV, CompileErrorV>(e@),
        },
{
    let lines = split_lines(source);
    let config = match scan_config(&lines) {
        Ok(c) => c,
        Err(e) => {
            return Err(e);
        },
    };
    let blocks = match build_blocks(&lines, &config) {
        Ok(bs) => bs,
        Err(e) => {
            return Err(e);
        },
    };
    Ok(DocumentModel { config, blocks })
}

} // verus!
