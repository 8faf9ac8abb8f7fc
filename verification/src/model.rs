//! What a hover is about: places in source files, definitions, and the entries of a tooltip.

use vstd::prelude::*;

verus! {

/// A range of text. Rows and columns count from zero, and columns count bytes.
#[derive(Debug, Clone, Copy, PartialEq, Eq, Structural)]
pub struct Range {
    pub row_start: u32,
    pub row_end: u32,
    pub col_start: u32,
    pub col_end: u32,
}

/// A range of text in a file.
#[derive(Debug, Clone, Copy, PartialEq, Eq, Structural)]
pub struct Span {
    /// A number for the file: spans in the same file, and no others, have the same number.
    pub file: u64,
    pub range: Range,
}

/// What is defined.
#[derive(Debug, Clone, Copy, PartialEq, Eq, Structural)]
pub enum DefKind {
    Enum,
    TupleVariant,
    StructVariant,
    Tuple,
    Struct,
    Union,
    Trait,
    Function,
    ForeignFunction,
    Method,
    Macro,
    Mod,
    Type,
    Local,
    Static,
    ForeignStatic,
    Const,
    Field,
    ExternType,
}

/// A definition.
#[derive(Debug, PartialEq, Eq)]
pub struct Def {
    pub kind: DefKind,
    pub span: Span,
    pub name: String,
    pub qualname: String,
    pub value: String,
    pub docs: String,
}

/// Source code and the language that it is in.
#[derive(Debug, PartialEq, Eq)]
pub struct LanguageString {
    pub language: String,
    pub value: String,
}

/// An entry of a tooltip: Markdown, or source code.
#[derive(Debug, PartialEq, Eq)]
pub enum MarkedString {
    String(String),
    LanguageString(LanguageString),
}

/// What an entry of a tooltip says.
pub enum Marked {
    Markdown(Seq<char>),
    Code { language: Seq<char>, value: Seq<char> },
}

impl View for MarkedString {
    type V = Marked;

    open spec fn view(&self) -> Marked {
        match self {
            MarkedString::String(markdown) => Marked::Markdown(markdown@),
            MarkedString::LanguageString(code) => Marked::Code {
                language: code.language@,
                value: code.value@,
            },
        }
    }
}

impl MarkedString {
    /// An entry of Markdown.
    pub fn from_markdown(markdown: String) -> (r: MarkedString)
        ensures
            r@ == Marked::Markdown(markdown@),
    {
        MarkedString::String(markdown)
    }

    /// An entry of source code.
    pub fn from_language_code(language: String, code_block: String) -> (r: MarkedString)
        ensures
            r@ == (Marked::Code { language: language@, value: code_block@ }),
    {
        MarkedString::LanguageString(LanguageString { language, value: code_block })
    }
}

/// An entry of Rust code.
pub open spec fn rust_code(code: Seq<char>) -> Marked {
    Marked::Code { language: "rust"@, value: code }
}

/// What the entries of a tooltip say.
pub open spec fn entries(tooltip: Seq<MarkedString>) -> Seq<Marked> {
    tooltip.map_values(|entry: MarkedString| entry@)
}

} // verus!
