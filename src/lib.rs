//! Extracts documentation blocks from annotated Lua source and renders them
//! as Markdown.
use vstd::prelude::*;
use crate::parser::{docs_view, parse_spec};
use crate::render::render_block;
use crate::text::strings_view;
use crate::types::DocModel;

pub mod classify;
pub mod dump;
pub mod laws;
pub mod parser;
pub mod render;
pub mod scanner;
pub mod tags;
pub mod text;
pub mod types;

pub use render::MarkdownFormatter;
pub use types::{
    Description, DescriptionType, DocBlock, FormulaType, InputFileType, OutputFileType, Parameter,
};

verus! {

/// Reads the documents out of a source file given as its lines.
pub trait FileParser {
    fn parse(&self, lines: &Vec<String>) -> Vec<DocBlock>;
}

/// Turns one document into text of some output format.
pub trait OutputFileFormatter {
    /// The text that a document becomes.
    spec fn rendered(&self, content: DocModel) -> Seq<char>;

    fn format(&self, content: &DocBlock) -> (r: String)
        ensures
            r@ == self.rendered(content@),
    ;
}

/// The parser for Lua source annotated with `-- @tag` comments.
pub struct LuaFileParser {}

/// The parser for C source, which finds no documents.
pub struct CFileParser;

/// The parser for files of an unknown language, which finds no documents.
pub struct NoneFileParser;

impl FileParser for LuaFileParser {
    fn parse(&self, lines: &Vec<String>) -> (r: Vec<DocBlock>)
        ensures
            docs_view(r@) == parse_spec(strings_view(lines@)),
    {
        self.parse_lines(lines)
    }
}

impl FileParser for CFileParser {
    fn parse(&self, lines: &Vec<String>) -> (r: Vec<DocBlock>)
        ensures
            r@.len() == 0,
    {
        Vec::new()
    }
}

impl FileParser for NoneFileParser {
    fn parse(&self, lines: &Vec<String>) -> (r: Vec<DocBlock>)
        ensures
            r@.len() == 0,
    {
        Vec::new()
    }
}

impl OutputFileFormatter for MarkdownFormatter {
    open spec fn rendered(&self, content: DocModel) -> Seq<char> {
        render_block(content)
    }

    fn format(&self, content: &DocBlock) -> (r: String) {
        self.format_block(content)
    }
}

} // verus!
