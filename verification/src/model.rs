//! The document model: the resolved style configuration, the typed content
//! blocks, and the error kinds of a failed compilation, each with a
//! mathematical view over `Seq<char>`.

use vstd::prelude::*;

verus! {

pub const DEFAULT_TITLE_SIZE: u8 = 28;

pub const DEFAULT_SUBTITLE_SIZE: u8 = 18;

pub const DEFAULT_ITEM_SIZE: u8 = 16;

pub const DEFAULT_SECTION_SIZE: u8 = 18;

pub const DEFAULT_TEXT_SIZE: u8 = 15;

pub const DEFAULT_MARGINS: u8 = 20;

pub open spec fn default_font_path() -> Seq<char> {
    "/usr/share/fonts/vollkorn"@
}

pub open spec fn default_font_name() -> Seq<char> {
    "Vollkorn"@
}

/// Document-wide style settings, fully resolved before any block is built and
/// immutable afterwards.
#[derive(Debug, PartialEq, Eq)]
pub struct Configuration {
    pub title_size: u8,
    pub subtitle_size: u8,
    pub item_size: u8,
    pub section_size: u8,
    pub default_size: u8,
    pub margins: u8,
    pub font_path: String,
    pub font_name: String,
}

/// The mathematical view of a `Configuration`.
pub struct ConfigV {
    pub title_size: u8,
    pub subtitle_size: u8,
    pub item_size: u8,
    pub section_size: u8,
    pub default_size: u8,
    pub margins: u8,
    pub font_path: Seq<char>,
    pub font_name: Seq<char>,
}

impl View for Configuration {
    type V = ConfigV;

    open spec fn view(&self) -> ConfigV {
        ConfigV {
            title_size: self.title_size,
            subtitle_size: self.subtitle_size,
            item_size: self.item_size,
            section_size: self.section_size,
            default_size: self.default_size,
            margins: self.margins,
            font_path: self.font_path@,
            font_name: self.font_name@,
        }
    }
}

/// The configuration holding every hard-coded default.
pub open spec fn default_config() -> ConfigV {
    ConfigV {
        title_size: DEFAULT_TITLE_SIZE,
        subtitle_size: DEFAULT_SUBTITLE_SIZE,
        item_size: DEFAULT_ITEM_SIZE,
        section_size: DEFAULT_SECTION_SIZE,
        default_size: DEFAULT_TEXT_SIZE,
        margins: DEFAULT_MARGINS,
        font_path: default_font_path(),
        font_name: default_font_name(),
    }
}

impl Default for Configuration {
    /// Every field at its hard-coded default.
    fn default() -> (r: Configuration)
        ensures
            r@ == default_config(),
    {
        Configuration {
            title_size: DEFAULT_TITLE_SIZE,
            subtitle_size: DEFAULT_SUBTITLE_SIZE,
            item_size: DEFAULT_ITEM_SIZE,
            section_size: DEFAULT_SECTION_SIZE,
            default_size: DEFAULT_TEXT_SIZE,
            margins: DEFAULT_MARGINS,
            font_path: "/usr/share/fonts/vollkorn".to_owned(),
            font_name: "Vollkorn".to_owned(),
        }
    }
}

/// The spacing of a line break. Floating point stays out of the compiler:
/// the block carries the validated literal, and a renderer reads the float
/// out of it.
#[derive(Debug, PartialEq, Eq)]
pub enum BreakSize {
    /// The default spacing of 1.0, used when the value is not a float
    /// literal.
    Fallback,
    /// A well-formed float literal giving the spacing.
    Literal { text: String },
}

/// The mathematical view of a `BreakSize`.
pub enum BreakSizeV {
    Fallback,
    Literal { text: Seq<char> },
}

impl View for BreakSize {
    type V = BreakSizeV;

    open spec fn view(&self) -> BreakSizeV {
        match self {
            BreakSize::Fallback => BreakSizeV::Fallback,
            BreakSize::Literal { text } => BreakSizeV::Literal { text: text@ },
        }
    }
}

/// One typed, styled unit of output content. The styling a renderer owes each
/// variant is fixed: where it varies with the configuration the block carries
/// the resolved size.
#[derive(Debug, PartialEq, Eq)]
pub enum Block {
    /// Applicant name: bold, centered, at the title size.
    TitleText { text: String, size: u8 },
    /// Contact line: centered, at the default text size. A semicolon in the
    /// raw value stands for a literal colon and is restored here, so a value
    /// can carry colons without them acting as key/value separators.
    InfoText { text: String, size: u8 },
    /// Subtitle under the name: italic, centered, at the subtitle size.
    SubtitleText { text: String, size: u8 },
    /// A line rendered with a leading dash marker.
    BulletPoint { text: String },
    /// Header of an experience entry: left aligned, at the item size.
    ExperienceHeader { text: String, size: u8 },
    /// Specialization under an experience entry: italic, indented two spacers.
    SpecializationText { text: String },
    /// A date range, or a standalone end date: indented one spacer.
    DateRange { text: String },
    /// Section header: bold, left aligned, at the section size.
    SectionHeader { text: String, size: u8 },
    /// A dashed divider line: bold, centered, at the title size.
    SectionDivider { text: String, size: u8 },
    /// Vertical spacing of the given size.
    LineBreak { spacing: BreakSize },
}

/// The mathematical view of a `Block`.
pub enum BlockV {
    TitleText { text: Seq<char>, size: u8 },
    InfoText { text: Seq<char>, size: u8 },
    SubtitleText { text: Seq<char>, size: u8 },
    BulletPoint { text: Seq<char> },
    ExperienceHeader { text: Seq<char>, size: u8 },
    SpecializationText { text: Seq<char> },
    DateRange { text: Seq<char> },
    SectionHeader { text: Seq<char>, size: u8 },
    SectionDivider { text: Seq<char>, size: u8 },
    LineBreak { spacing: BreakSizeV },
}

impl View for Block {
    type V = BlockV;

    open spec fn view(&self) -> BlockV {
        match self {
            Block::TitleText { text, size } => BlockV::TitleText { text: text@, size: *size },
            Block::InfoText { text, size } => BlockV::InfoText { text: text@, size: *size },
            Block::SubtitleText { text, size } => BlockV::SubtitleText {
                text: text@,
                size: *size,
            },
            Block::BulletPoint { text } => BlockV::BulletPoint { text: text@ },
            Block::ExperienceHeader { text, size } => BlockV::ExperienceHeader {
                text: text@,
                size: *size,
            },
            Block::SpecializationText { text } => BlockV::SpecializationText { text: text@ },
            Block::DateRange { text } => BlockV::DateRange { text: text@ },
            Block::SectionHeader { text, size } => BlockV::SectionHeader {
                text: text@,
                size: *size,
            },
            Block::SectionDivider { text, size } => BlockV::SectionDivider {
                text: text@,
                size: *size,
            },
            Block::LineBreak { spacing } => BlockV::LineBreak { spacing: spacing@ },
        }
    }
}

/// A fatal compilation error: compilation is all-or-nothing, and no partial
/// document model is exposed.
#[derive(Debug, PartialEq, Eq)]
pub enum CompileError {
    /// A line begins with the directive sentinel but holds no colon.
    MalformedDirective,
    /// A numeric directive whose value does not parse as its expected type;
    /// carries the directive key without its sentinel.
    InvalidNumericValue { directive: String },
}

/// The mathematical view of a `CompileError`.
pub enum CompileErrorV {
    MalformedDirective,
    InvalidNumericValue { directive: Seq<char> },
}

impl View for CompileError {
    type V = CompileErrorV;

    open spec fn view(&self) -> CompileErrorV {
        match self {
            CompileError::MalformedDirective => CompileErrorV::MalformedDirective,
            CompileError::InvalidNumericValue { directive } => CompileErrorV::InvalidNumericValue {
                directive: directive@,
            },
        }
    }
}

/// The compiler's sole output: the resolved configuration and the ordered
/// sequence of content blocks.
#[derive(Debug, PartialEq, Eq)]
pub struct DocumentModel {
    pub config: Configuration,
    pub blocks: Vec<Block>,
}

/// The mathematical view of a `DocumentModel`.
pub struct DocumentModelV {
    pub config: ConfigV,
    pub blocks: Seq<BlockV>,
}

impl View for DocumentModel {
    type V = DocumentModelV;

    open spec fn view(&self) -> DocumentModelV {
        DocumentModelV { config: self.config@, blocks: self.blocks@.map_values(|b: Block| b@) }
    }
}

} // verus!
