//! The formatting options.

use vstd::prelude::*;

verus! {

/// The number of columns a line may take up when nothing else is configured.
pub const DEFAULT_COLUMN_WIDTH: usize = 120;

/// The number of columns one indent stands for when nothing else is configured.
pub const DEFAULT_INDENT_WIDTH: usize = 4;

/// The byte sequence that ends a line.
#[derive(Clone, Copy, Debug, PartialEq, Eq, Structural)]
pub enum LineEndings {
    /// A single line feed.
    Unix,
    /// A carriage return followed by a line feed.
    Windows,
}

/// The character an indent is made of.
#[derive(Clone, Copy, Debug, PartialEq, Eq, Structural)]
pub enum IndentType {
    /// One tab per indent level.
    Tabs,
    /// `indent_width` spaces per indent level.
    Spaces,
}

/// The policy by which the quotes of a string literal are chosen.
#[derive(Clone, Copy, Debug, PartialEq, Eq, Structural)]
pub enum QuoteStyle {
    /// Double quotes, unless the content holds double quotes and no single quote.
    AutoPreferDouble,
    /// Single quotes, unless the content holds single quotes and no double quote.
    AutoPreferSingle,
    /// Always double quotes.
    ForceDouble,
    /// Always single quotes.
    ForceSingle,
}

/// The options of one formatting pass. A value never changes during a pass.
#[derive(Clone, Copy, Debug, PartialEq, Eq, Structural)]
pub struct Config {
    /// The target maximum number of columns of a line.
    pub column_width: usize,
    /// The line ending to emit.
    pub line_endings: LineEndings,
    /// Whether indents are tabs or spaces.
    pub indent_type: IndentType,
    /// The number of columns one indent counts as when a line is measured,
    /// and the number of spaces of one indent when indenting with spaces.
    pub indent_width: usize,
    /// The quote policy for string literals.
    pub quote_style: QuoteStyle,
}

/// The configuration that holds when nothing is configured.
pub open spec fn default_config() -> Config {
    Config {
        column_width: DEFAULT_COLUMN_WIDTH,
        line_endings: LineEndings::Unix,
        indent_type: IndentType::Tabs,
        indent_width: DEFAULT_INDENT_WIDTH,
        quote_style: QuoteStyle::AutoPreferDouble,
    }
}

/// The configuration that an editor-style section describes: its three
/// settings over the defaults of all the others.
pub open spec fn editor_config(
    line_endings: LineEndings,
    indent_type: IndentType,
    indent_width: usize,
) -> Config {
    Config { line_endings, indent_type, indent_width, ..default_config() }
}

impl Config {
    /// The default configuration.
    pub fn new() -> (config: Config)
        ensures
            config == default_config(),
    {
        Config {
            column_width: DEFAULT_COLUMN_WIDTH,
            line_endings: LineEndings::Unix,
            indent_type: IndentType::Tabs,
            indent_width: DEFAULT_INDENT_WIDTH,
            quote_style: QuoteStyle::AutoPreferDouble,
        }
    }

    /// This configuration with another column width.
    pub fn with_column_width(self, column_width: usize) -> (config: Config)
        ensures
            config == (Config { column_width, ..self }),
    {
        Config { column_width, ..self }
    }

    /// This configuration with other line endings.
    pub fn with_line_endings(self, line_endings: LineEndings) -> (config: Config)
        ensures
            config == (Config { line_endings, ..self }),
    {
        Config { line_endings, ..self }
    }

    /// This configuration with another indent type.
    pub fn with_indent_type(self, indent_type: IndentType) -> (config: Config)
        ensures
            config == (Config { indent_type, ..self }),
    {
        Config { indent_type, ..self }
    }

    /// This configuration with another indent width.
    pub fn with_indent_width(self, indent_width: usize) -> (config: Config)
        ensures
            config == (Config { indent_width, ..self }),
    {
        Config { indent_width, ..self }
    }

    /// This configuration with another quote style.
    pub fn with_quote_style(self, quote_style: QuoteStyle) -> (config: Config)
        ensures
            config == (Config { quote_style, ..self }),
    {
        Config { quote_style, ..self }
    }

    /// The configuration of an editor-style section, whose settings are the
    /// line ending, the indent style and the indent size.
    pub fn from_editor_settings(
        line_endings: LineEndings,
        indent_type: IndentType,
        indent_width: usize,
    ) -> (config: Config)
        ensures
            config == editor_config(line_endings, indent_type, indent_width),
    {
        Config::new().with_line_endings(line_endings).with_indent_type(indent_type).with_indent_width(
            indent_width,
        )
    }
}

impl Default for Config {
    fn default() -> (config: Config)
        ensures
            config == default_config(),
    {
        Config::new()
    }
}

impl Default for LineEndings {
    fn default() -> (value: LineEndings)
        ensures
            value == LineEndings::Unix,
    {
        LineEndings::Unix
    }
}

impl Default for IndentType {
    fn default() -> (value: IndentType)
        ensures
            value == IndentType::Tabs,
    {
        IndentType::Tabs
    }
}

impl Default for QuoteStyle {
    fn default() -> (value: QuoteStyle)
        ensures
            value == QuoteStyle::AutoPreferDouble,
    {
        QuoteStyle::AutoPreferDouble
    }
}

} // verus!
