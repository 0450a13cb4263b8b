//! The configuration scanner: a full pass over every line, prior to block
//! building, that resolves the document-wide style settings. The scan walks
//! the document from its last line to its first, and a later-applied
//! assignment overwrites an earlier one, so the topmost occurrence of a
//! duplicated configuration directive is the one whose value survives.

use vstd::prelude::*;

use crate::model::CompileError;
use crate::model::CompileErrorV;
use crate::model::ConfigV;
use crate::model::Configuration;
use crate::lines::line_views;
use crate::model::default_config;
use crate::numbers::parse_u8;
use crate::numbers::spec_parse_u8;
use crate::text::key_value;
use crate::text::key_value_of;
use crate::text::str_eq;

verus! {

/// One line applied to an in-progress configuration. A line without a colon,
/// or with an unrecognized key, leaves the configuration unchanged; a
/// recognized key overwrites its field; a numeric field whose value does not
/// parse is fatal.
pub open spec fn apply_config_line(line: Seq<char>, c: ConfigV) -> Result<
    ConfigV,
    CompileErrorV,
> {
    match key_value(line) {
        None => Ok(c),
        Some((key, val)) => {
            if key == "#+TITLESIZE"@ {
                match spec_parse_u8(val) {
                    Some(v) => Ok(ConfigV { title_size: v, ..c }),
                    None => Err(
                        CompileErrorV::InvalidNumericValue { directive: "TITLESIZE"@ },
                    ),
                }
            } else if key == "#+SUBTITLESIZE"@ {
                match spec_parse_u8(val) {
                    Some(v) => Ok(ConfigV { subtitle_size: v, ..c }),
                    None => Err(
                        CompileErrorV::InvalidNumericValue { directive: "SUBTITLESIZE"@ },
                    ),
                }
            } else if key == "#+ITEMSIZE"@ {
                match spec_parse_u8(val) {
                    Some(v) => Ok(ConfigV { item_size: v, ..c }),
                    None => Err(CompileErrorV::InvalidNumericValue { directive: "ITEMSIZE"@ }),
                }
            } else if key == "#+SECTIONSIZE"@ {
                match spec_parse_u8(val) {
                    Some(v) => Ok(ConfigV { section_size: v, ..c }),
                    None => Err(
                        CompileErrorV::InvalidNumericValue { directive: "SECTIONSIZE"@ },
                    ),
                }
            } else if key == "#+DEFAULTSIZE"@ {
                match spec_parse_u8(val) {
                    Some(v) => Ok(ConfigV { default_size: v, ..c }),
                    None => Err(
                        CompileErrorV::InvalidNumericValue { directive: "DEFAULTSIZE"@ },
                    ),
                }
            } else if key == "#+MARGINS"@ {
                match spec_parse_u8(val) {
                    Some(v) => Ok(ConfigV { margins: v, ..c }),
                    None => Err(CompileErrorV::InvalidNumericValue { directive: "MARGINS"@ }),
                }
            } else if key == "#+FONTPATH"@ {
                Ok(ConfigV { font_path: val, ..c })
            } else if key == "#+FONTNAME"@ {
                Ok(ConfigV { font_name: val, ..c })
            } else {
                Ok(c)
            }
        },
    }
}

/// The configuration read from `lines`: the scan starts at the last line with
/// every field at its default, so the first line of the file is applied last
/// and wins on duplicated keys.
pub open spec fn scan_config_spec(lines: Seq<Seq<char>>) -> Result<ConfigV, CompileErrorV>
    decreases lines.len(),
{
    if lines.len() == 0 {
        Ok(default_config())
    } else {
        match scan_config_spec(lines.skip(1)) {
            Err(e) => Err(e),
            Ok(c) => apply_config_line(lines[0], c),
        }
    }
}

/// An error met while scanning a suffix of the lines is the error of the
/// whole scan.
proof fn lemma_scan_err_propagates(lines: Seq<Seq<char>>, i: int)
    requires
        0 <= i <= lines.len(),
        scan_config_spec(lines.skip(i)) is Err,
    ensures
        scan_config_spec(lines) == scan_config_spec(lines.skip(i)),
    decreases i,
{
    if i > 0 {
        assert(lines.skip(i - 1).skip(1) =~= lines.skip(i));
        assert(lines.skip(i - 1).len() > 0);
        assert(scan_config_spec(lines.skip(i - 1)) == scan_config_spec(lines.skip(i)));
        lemma_scan_err_propagates(lines, i - 1);
    } else {
        assert(lines.skip(0) =~= lines);
    }
}

fn apply_config_line_exec(line: &str, c: &mut Configuration) -> (r: Result<(), CompileError>)
    ensures
        match r {
            Ok(_) => apply_config_line(line@, old(c)@) == Ok::<ConfigV, CompileErrorV>(
                final(c)@,
            ),
            Err(e) => apply_config_line(line@, old(c)@) == Err::<ConfigV, CompileErrorV>(e@),
        },
{
    match key_value_of(line) {
        None => Ok(()),
        Some((key, val)) => {
            if str_eq(key, "#+TITLESIZE") {
                match parse_u8(val) {
                    Some(v) => {
                        c.title_size = v;
                        Ok(())
                    },
                    None => Err(
                        CompileError::InvalidNumericValue { directive: "TITLESIZE".to_owned() },
                    ),
                }
            } else if str_eq(key, "#+SUBTITLESIZE") {
                match parse_u8(val) {
                    Some(v) => {
                        c.subtitle_size = v;
                        Ok(())
                    },
                    None => Err(
                        CompileError::InvalidNumericValue {
                            directive: "SUBTITLESIZE".to_owned(),
                        },
                    ),
                }
            } else if str_eq(key, "#+ITEMSIZE") {
                match parse_u8(val) {
                    Some(v) => {
                        c.item_size = v;
                        Ok(())
                    },
                    None => Err(
                        CompileError::InvalidNumericValue { directive: "ITEMSIZE".to_owned() },
                    ),
                }
            } else if str_eq(key, "#+SECTIONSIZE") {
                match parse_u8(val) {
                    Some(v) => {
                        c.section_size = v;
                        Ok(())
                    },
                    None => Err(
                        CompileError::InvalidNumericValue {
                            directive: "SECTIONSIZE".to_owned(),
                        },
                    ),
                }
            } else if str_eq(key, "#+DEFAULTSIZE") {
                match parse_u8(val) {
                    Some(v) => {
                        c.default_size = v;
                        Ok(())
                    },
                    None => Err(
                        CompileError::InvalidNumericValue {
                            directive: "DEFAULTSIZE".to_owned(),
                        },
                    ),
                }
            } else if str_eq(key, "#+MARGINS") {
                match parse_u8(val) {
                    Some(v) => {
                        c.margins = v;
                        Ok(())
                    },
                    None => Err(
                        CompileError::InvalidNumericValue { directive: "MARGINS".to_owned() },
                    ),
                }
            } else if str_eq(key, "#+FONTPATH") {
                c.font_path = val.to_owned();
                Ok(())
            } else if str_eq(key, "#+FONTNAME") {
                c.font_name = val.to_owned();
                Ok(())
            } else {
                Ok(())
            }
        },
    }
}

/// Scan every line for configuration directives, from the last line of the
/// document to the first, so that the topmost occurrence of a duplicated key
/// wins. A numeric configuration value that does not parse aborts the scan.
pub fn scan_config(lines: &Vec<String>) -> (r: Result<Configuration, CompileError>)
    ensures
        match r {
            Ok(c) => scan_config_spec(line_views(lines@)) == Ok::<ConfigV, CompileErrorV>(c@),
            Err(e) => scan_config_spec(line_views(lines@)) == Err::<ConfigV, CompileErrorV>(
                e@,
            ),
        },
{
    let ghost vs = line_views(lines@);
    let mut c = Configuration::default();
    let n = lines.len();
    let mut i: usize = n;
    proof {
        assert(vs.skip(n as int) =~= Seq::<Seq<char>>::empty());
    }
    while i > 0
        invariant
            0 <= i <= n == lines@.len(),
            vs == line_views(lines@),
            vs.len() == n,
            scan_config_spec(vs.skip(i as int)) == Ok::<ConfigV, CompileErrorV>(c@),
        decreases i,
    {
        i = i - 1;
        proof {
            assert(vs.skip(i as int).skip(1) =~= vs.skip(i + 1));
            assert(vs.skip(i as int)[0] == lines@[i as int]@);
        }
        let line: &String = &lines[i];
        match apply_config_line_exec(line.as_str(), &mut c) {
            Ok(_) => {},
            Err(e) => {
                proof {
                    lemma_scan_err_propagates(vs, i as int);
                }
                return Err(e);
            },
        }
    }
    proof {
        assert(vs.skip(0) =~= vs);
    }
    Ok(c)
}

} // verus!
