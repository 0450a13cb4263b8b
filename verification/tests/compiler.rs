use resumarkup::Block;
use resumarkup::BreakSize;
use resumarkup::CompileError;
use resumarkup::Configuration;
use resumarkup::compile;

#[test]
fn empty_input_compiles_to_defaults() {
    let m = compile("").unwrap();
    assert_eq!(m.config, Configuration::default());
    assert!(m.blocks.is_empty());
}

#[test]
fn non_directive_lines_are_ignored() {
    let m = compile("hello world\n\nplain: text with colon\n").unwrap();
    assert_eq!(m.config, Configuration::default());
    assert!(m.blocks.is_empty());
}

#[test]
fn compile_is_idempotent() {
    let src = "#+TITLESIZE: 30\n#+AUTHOR: Ada\n#+START: 2020\n#+END: 2022\n#+BREAK: 2.5";
    let first = compile(src).unwrap();
    let second = compile(src).unwrap();
    assert_eq!(first, second);
}

#[test]
fn blocks_keep_source_order() {
    let src = "#+AUTHOR: Ada\nnoise\n#+POINT: one\n#+SUBTITLE: Engineer\n#+POINT: two";
    let m = compile(src).unwrap();
    assert_eq!(
        m.blocks,
        vec![
            Block::TitleText { text: "Ada".to_string(), size: 28 },
            Block::BulletPoint { text: "one".to_string() },
            Block::SubtitleText { text: "Engineer".to_string(), size: 18 },
            Block::BulletPoint { text: "two".to_string() },
        ]
    );
}

#[test]
fn topmost_duplicate_config_wins() {
    let src = "#+TITLESIZE: 31\nfiller\nmore filler\n#+AUTHOR: Ada\n#+TITLESIZE: 44";
    let m = compile(src).unwrap();
    assert_eq!(m.config.title_size, 31);
    assert_eq!(m.blocks, vec![Block::TitleText { text: "Ada".to_string(), size: 31 }]);
}

#[test]
fn date_range_merges_following_end() {
    let m = compile("#+START: 2020\n#+END: 2022").unwrap();
    assert_eq!(m.blocks, vec![Block::DateRange { text: "2020 - 2022".to_string() }]);
}

#[test]
fn date_range_merge_keeps_the_whole_end_value() {
    let m = compile("#+START: 2020\n#+END: 2022: note").unwrap();
    assert_eq!(m.blocks, vec![Block::DateRange { text: "2020 - 2022: note".to_string() }]);
}

#[test]
fn date_range_falls_back_to_present() {
    let m = compile("#+START: 2020\n#+POINT: did X").unwrap();
    assert_eq!(
        m.blocks,
        vec![
            Block::DateRange { text: "2020 - Present".to_string() },
            Block::BulletPoint { text: "did X".to_string() },
        ]
    );
}

#[test]
fn date_range_on_last_line_ends_with_present() {
    let m = compile("#+START: 2020").unwrap();
    assert_eq!(m.blocks, vec![Block::DateRange { text: "2020 - Present".to_string() }]);
}

#[test]
fn standalone_end_is_its_own_block() {
    let m = compile("#+POINT: p\n#+END: 2005: note").unwrap();
    assert_eq!(
        m.blocks,
        vec![
            Block::BulletPoint { text: "p".to_string() },
            Block::DateRange { text: "2005: note".to_string() },
        ]
    );
}

#[test]
fn break_with_bad_value_falls_back() {
    let m = compile("#+BREAK: not-a-number").unwrap();
    assert_eq!(m.blocks, vec![Block::LineBreak { spacing: BreakSize::Fallback }]);
}

#[test]
fn break_with_float_value_keeps_it() {
    let m = compile("#+BREAK: 2.5").unwrap();
    match &m.blocks[..] {
        [Block::LineBreak { spacing: BreakSize::Literal { text } }] => {
            assert_eq!(text.parse::<f64>().unwrap(), 2.5);
        },
        other => panic!("unexpected blocks: {other:?}"),
    }
}

#[test]
fn bare_sentinel_is_a_break() {
    let m = compile("#+: 1.5").unwrap();
    assert_eq!(
        m.blocks,
        vec![Block::LineBreak { spacing: BreakSize::Literal { text: "1.5".to_string() } }]
    );
}

#[test]
fn bad_divider_count_is_fatal() {
    let r = compile("#+AUTHOR: Ada\n#+ENDSECTION: abc");
    assert_eq!(
        r,
        Err(CompileError::InvalidNumericValue { directive: "ENDSECTION".to_string() })
    );
}

#[test]
fn divider_is_a_dash_line_at_title_size() {
    let m = compile("#+TITLESIZE: 40\n#+ENDSECTION: 5").unwrap();
    assert_eq!(m.blocks, vec![Block::SectionDivider { text: "-----".to_string(), size: 40 }]);
}

#[test]
fn unknown_directive_is_tolerated() {
    let m = compile("#+FOOBAR: xyz").unwrap();
    assert_eq!(m.config, Configuration::default());
    assert!(m.blocks.is_empty());
}

#[test]
fn sentinel_without_colon_is_fatal() {
    assert_eq!(compile("#+AUTHOR"), Err(CompileError::MalformedDirective));
    assert_eq!(compile("#+"), Err(CompileError::MalformedDirective));
}

#[test]
fn bad_numeric_config_is_fatal() {
    let r = compile("#+AUTHOR: Ada\n#+MARGINS: wide");
    assert_eq!(r, Err(CompileError::InvalidNumericValue { directive: "MARGINS".to_string() }));
}

#[test]
fn reverse_scan_reports_the_bottom_bad_config_first() {
    let r = compile("#+TITLESIZE: x\n#+MARGINS: y");
    assert_eq!(r, Err(CompileError::InvalidNumericValue { directive: "MARGINS".to_string() }));
}

#[test]
fn all_config_directives_resolve() {
    let src = "#+TITLESIZE: 10\n#+SUBTITLESIZE: 11\n#+ITEMSIZE: 12\n#+SECTIONSIZE: 13\n\
               #+DEFAULTSIZE: 14\n#+MARGINS: 15\n#+FONTPATH: /tmp/fonts\n#+FONTNAME: Mono";
    let m = compile(src).unwrap();
    assert_eq!(m.config.title_size, 10);
    assert_eq!(m.config.subtitle_size, 11);
    assert_eq!(m.config.item_size, 12);
    assert_eq!(m.config.section_size, 13);
    assert_eq!(m.config.default_size, 14);
    assert_eq!(m.config.margins, 15);
    assert_eq!(m.config.font_path, "/tmp/fonts");
    assert_eq!(m.config.font_name, "Mono");
    assert!(m.blocks.is_empty());
}

#[test]
fn config_line_with_leading_space_counts_for_config_only() {
    let m = compile(" #+TITLESIZE: 33\n#+AUTHOR: Ada").unwrap();
    assert_eq!(m.config.title_size, 33);
    assert_eq!(m.blocks, vec![Block::TitleText { text: "Ada".to_string(), size: 33 }]);
}

#[test]
fn info_restores_colons_from_semicolons() {
    let m = compile("#+INFO: phone; 555-0100").unwrap();
    assert_eq!(m.blocks, vec![Block::InfoText { text: "phone: 555-0100".to_string(), size: 15 }]);
}

#[test]
fn sized_blocks_use_the_resolved_configuration() {
    let src = "#+SUBTITLESIZE: 21\n#+ITEMSIZE: 22\n#+SECTIONSIZE: 23\n#+DEFAULTSIZE: 24\n\
               #+SUBTITLE: s\n#+EXPERIENCE: e\n#+STARTSECTION: S\n#+INFO: i\n#+SPECIALIZATION: sp";
    let m = compile(src).unwrap();
    assert_eq!(
        m.blocks,
        vec![
            Block::SubtitleText { text: "s".to_string(), size: 21 },
            Block::ExperienceHeader { text: "e".to_string(), size: 22 },
            Block::SectionHeader { text: "S".to_string(), size: 23 },
            Block::InfoText { text: "i".to_string(), size: 24 },
            Block::SpecializationText { text: "sp".to_string() },
        ]
    );
}

#[test]
fn directive_keys_are_case_sensitive() {
    let m = compile("#+author: Ada\n#+START: 2020\n#+end: 2022").unwrap();
    assert_eq!(m.blocks, vec![Block::DateRange { text: "2020 - Present".to_string() }]);
}

#[test]
fn info_value_keeps_colons_after_the_first() {
    let m = compile("#+INFO: mail: a@b.c").unwrap();
    assert_eq!(m.blocks, vec![Block::InfoText { text: "mail: a@b.c".to_string(), size: 15 }]);
}

#[test]
fn end_with_space_before_colon_is_not_merged() {
    let m = compile("#+START: 2020\n#+END : 2022").unwrap();
    assert_eq!(
        m.blocks,
        vec![
            Block::DateRange { text: "2020 - Present".to_string() },
            Block::DateRange { text: "2022".to_string() },
        ]
    );
}

#[test]
fn trailing_newline_adds_no_block() {
    let m = compile("#+AUTHOR: Ada\n").unwrap();
    assert_eq!(m.blocks, vec![Block::TitleText { text: "Ada".to_string(), size: 28 }]);
}

#[test]
fn carriage_returns_are_trimmed_from_values() {
    let m = compile("#+AUTHOR: Ada\r\n#+POINT: x\r").unwrap();
    assert_eq!(
        m.blocks,
        vec![
            Block::TitleText { text: "Ada".to_string(), size: 28 },
            Block::BulletPoint { text: "x".to_string() },
        ]
    );
}

#[test]
fn consecutive_ranges_merge_pairwise() {
    let m = compile("#+START: a\n#+END: b\n#+START: c\n#+START: d\n#+END: e").unwrap();
    assert_eq!(
        m.blocks,
        vec![
            Block::DateRange { text: "a - b".to_string() },
            Block::DateRange { text: "c - Present".to_string() },
            Block::DateRange { text: "d - e".to_string() },
        ]
    );
}

#[test]
fn start_merge_consumes_the_end_line_entirely() {
    let m = compile("#+START: 2020\n#+END: 2022\n#+POINT: after").unwrap();
    assert_eq!(
        m.blocks,
        vec![
            Block::DateRange { text: "2020 - 2022".to_string() },
            Block::BulletPoint { text: "after".to_string() },
        ]
    );
}
