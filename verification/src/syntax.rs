//! Locating the first class declaration of a C# document with tree-sitter.

use tree_sitter::{Language, Parser, Query, QueryCursor, StreamingIterator};
use vstd::prelude::*;

verus! {

/// What a tree-sitter query over a C# document found.
pub enum SyntaxScan {
    /// The C# grammar was refused by the parser, with the parser's message.
    LanguageRejected(String),
    /// The parser produced no tree for the document.
    DocumentRejected,
    /// The query did not compile, with tree-sitter's message.
    QueryRejected(String),
    /// The query captured nothing.
    NoCapture,
    /// The zero-based row at which the first capture starts.
    FirstCaptureRow(usize),
}

/// The mathematical value of a [`SyntaxScan`].
pub enum SyntaxScanModel {
    LanguageRejected(Seq<char>),
    DocumentRejected,
    QueryRejected(Seq<char>),
    NoCapture,
    FirstCaptureRow(usize),
}

impl View for SyntaxScan {
    type V = SyntaxScanModel;

    open spec fn view(&self) -> SyntaxScanModel {
        match self {
            SyntaxScan::LanguageRejected(m) => SyntaxScanModel::LanguageRejected(m@),
            SyntaxScan::DocumentRejected => SyntaxScanModel::DocumentRejected,
            SyntaxScan::QueryRejected(m) => SyntaxScanModel::QueryRejected(m@),
            SyntaxScan::NoCapture => SyntaxScanModel::NoCapture,
            SyntaxScan::FirstCaptureRow(r) => SyntaxScanModel::FirstCaptureRow(*r),
        }
    }
}

/// What the tree-sitter C# grammar and query engine report for the query
/// `query` over the document `text`.
pub uninterp spec fn csharp_first_capture(text: Seq<char>, query: Seq<char>) -> SyntaxScanModel;

/// Parses `text` with `tree_sitter_c_sharp`'s grammar (`Parser::set_language`,
/// `Parser::parse`), compiles `query` (`Query::new`) and runs it
/// (`QueryCursor::captures`), reporting the row of the first capture.
/// Claimed: the outcome is the name `csharp_first_capture` of the two texts.
#[verifier::external_body]
pub(crate) fn scan_first_capture(text: &str, query: &str) -> (r: SyntaxScan)
    ensures
        r@ == csharp_first_capture(text@, query@),
{
    let language: Language = tree_sitter_c_sharp::LANGUAGE.into();
    let mut parser = Parser::new();
    if let Err(e) = parser.set_language(&language) {
        return SyntaxScan::LanguageRejected(e.to_string());
    }
    let Some(tree) = parser.parse(text, None) else { return SyntaxScan::DocumentRejected };
    let compiled = match Query::new(&language, query) {
        Ok(compiled) => compiled,
        Err(e) => return SyntaxScan::QueryRejected(e.to_string()),
    };
    let mut cursor = QueryCursor::new();
    let mut captures = cursor.captures(&compiled, tree.root_node(), text.as_bytes());
    let Some((m, i)) = captures.next() else { return SyntaxScan::NoCapture };
    SyntaxScan::FirstCaptureRow(m.captures()[*i].node.start_position().row)
}

} // verus!
