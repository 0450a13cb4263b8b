use resumarkup::Block;
use resumarkup::BreakSize;
use resumarkup::Configuration;
use resumarkup::compile;
use resumarkup::numbers::parse_u8;
use resumarkup::numbers::parse_usize;

#[test]
fn default_configuration_values() {
    let c = Configuration::default();
    assert_eq!(c.title_size, 28);
    assert_eq!(c.subtitle_size, 18);
    assert_eq!(c.item_size, 16);
    assert_eq!(c.section_size, 18);
    assert_eq!(c.default_size, 15);
    assert_eq!(c.margins, 20);
    assert_eq!(c.font_path, "/usr/share/fonts/vollkorn");
    assert_eq!(c.font_name, "Vollkorn");
}

#[test]
fn parse_u8_accepts_what_std_accepts() {
    for s in ["0", "7", "007", "+5", "255", "256", "1000", "", "+", "abc", "-1", " 5", "5 "] {
        assert_eq!(parse_u8(s), s.parse::<u8>().ok(), "input {s:?}");
    }
}

#[test]
fn parse_usize_accepts_what_std_accepts() {
    for s in [
        "0",
        "5",
        "+42",
        "18446744073709551615",
        "18446744073709551616",
        "99999999999999999999999999",
        "",
        "+",
        "12a",
        "-3",
    ] {
        assert_eq!(parse_usize(s), s.parse::<usize>().ok(), "input {s:?}");
    }
}

fn break_of(value: &str) -> Block {
    let src = format!("#+BREAK: {value}");
    let m = compile(&src).unwrap();
    assert_eq!(m.blocks.len(), 1);
    m.blocks.into_iter().next().unwrap()
}

#[test]
fn break_literals_match_std_float_parsing() {
    for s in [
        "1", "2.5", "-2.5e-3", "1.", ".5", "1e5", "1E5", "+3", "inf", "iNfInItY", "NaN", "nan",
        "-inf", ".", "1e", "e5", "+", "1.2.3", "0x1", "two", "1_000", "infx", "2.e5", ".5e-2",
        "5e+3", "+.5", "-.", "1e2.5", "e", "nanx", "1 2",
    ] {
        let expect_literal = s.parse::<f64>().is_ok();
        match break_of(s) {
            Block::LineBreak { spacing: BreakSize::Literal { text } } => {
                assert!(expect_literal, "kept a literal std rejects: {s:?}");
                assert_eq!(text, s);
            },
            Block::LineBreak { spacing: BreakSize::Fallback } => {
                assert!(!expect_literal, "dropped a literal std accepts: {s:?}");
            },
            other => panic!("not a line break: {other:?}"),
        }
    }
}

#[test]
fn empty_break_value_falls_back() {
    assert_eq!(break_of(""), Block::LineBreak { spacing: BreakSize::Fallback });
}

#[test]
fn divider_count_accepts_plus_sign() {
    let m = compile("#+ENDSECTION: +3").unwrap();
    assert_eq!(m.blocks, vec![Block::SectionDivider { text: "---".to_string(), size: 28 }]);
}

#[test]
fn title_text_uses_title_size() {
    let m = compile("#+AUTHOR: Grace Hopper").unwrap();
    assert_eq!(m.blocks, vec![Block::TitleText { text: "Grace Hopper".to_string(), size: 28 }]);
}

#[test]
fn values_and_keys_are_trimmed() {
    let m = compile("#+AUTHOR:    Ada Lovelace   ").unwrap();
    assert_eq!(m.blocks, vec![Block::TitleText { text: "Ada Lovelace".to_string(), size: 28 }]);
}
