//! The calls into the parser and the source map.
//!
//! Each function here is trusted: Verus believes its contract. Each makes one
//! call into an outside crate and converts what goes in and what comes out.
use vstd::prelude::*;

use swc_common::comments::SingleThreadedComments;
use swc_common::sync::Lrc;
use swc_common::{BytePos, FileName, SourceMap, SourceMapper};
use swc_ecma_ast::{EsVersion, Program};
use swc_ecma_parser::{parse_file_as_module, Syntax, TsSyntax};

verus! {

/// The TypeScript parser settings that the analysis chooses.
#[derive(Clone, Copy)]
pub struct ParserOptions {
    pub tsx: bool,
    pub decorators: bool,
    pub no_early_errors: bool,
}

/// What parsing a module gives: its syntax tree as JSON (absent when it could
/// not be serialized), the fatal error that stopped the parse (its `Debug`
/// text), and the errors that the parser recovered from.
pub struct ParseOutcome {
    pub module_json: Option<String>,
    pub fatal: Option<String>,
    pub recovered: Vec<String>,
}

pub struct ParseOutcomeView {
    pub module_json: Option<Seq<char>>,
    pub fatal: Option<Seq<char>>,
    pub recovered: Seq<Seq<char>>,
}

pub open spec fn opt_string_view(o: Option<String>) -> Option<Seq<char>> {
    match o {
        Some(s) => Some(s@),
        None => None,
    }
}

pub open spec fn strings_view(v: Seq<String>) -> Seq<Seq<char>> {
    v.map_values(|s: String| s@)
}

impl View for ParseOutcome {
    type V = ParseOutcomeView;

    open spec fn view(&self) -> ParseOutcomeView {
        ParseOutcomeView {
            module_json: opt_string_view(self.module_json),
            fatal: opt_string_view(self.fatal),
            recovered: strings_view(self.recovered@),
        }
    }
}

/// What `swc_ecma_parser::parse_file_as_module` makes of a source file, with
/// the module serialized by `serde_json::to_string`.
pub uninterp spec fn parsed_module(file_name: Seq<char>, code: Seq<char>, options: ParserOptions) -> ParseOutcomeView;

/// The leading comments that the lexer records while parsing the file: for
/// each byte position, the texts of the comments that lead it.
pub uninterp spec fn leading_comment_map(file_name: Seq<char>, code: Seq<char>, options: ParserOptions) -> Map<u32, Seq<Seq<char>>>;

/// The line (from 1) and display column (from 0) that
/// `SourceMap::lookup_char_pos` gives for a byte position of the file.
pub uninterp spec fn source_position(file_name: Seq<char>, code: Seq<char>, pos: u32) -> (usize, usize);

/// The text starts with a byte order mark.
pub open spec fn has_bom(code: Seq<char>) -> bool {
    code.len() > 0 && code[0] == '\u{feff}'
}

/// The text that a source map holds for a file: without one leading byte
/// order mark.
pub open spec fn source_text(code: Seq<char>) -> Seq<char> {
    if has_bom(code) {
        code.drop_first()
    } else {
        code
    }
}

/// A byte position in the source map of a file of its own: the file starts
/// at position 1, and a position must fall on a character boundary of the
/// text the map holds (its end is one too).
pub open spec fn valid_position(code: Seq<char>, pos: u32) -> bool {
    &&& 1 <= pos
    &&& vstd::utf8::is_char_boundary(vstd::utf8::encode_utf8(source_text(code)), pos - 1)
}

/// The text between two byte positions of the file (its first byte at
/// position 1).
pub open spec fn text_between(code: Seq<char>, lo: u32, hi: u32) -> Seq<char> {
    vstd::utf8::decode_utf8(vstd::utf8::encode_utf8(source_text(code)).subrange(lo - 1, hi - 1))
}

/// The text without a leading byte order mark.
///
/// Trusted: calls `str::strip_prefix`, which std documents as removing the
/// prefix when the string starts with it and failing otherwise.
#[verifier::external_body]
pub(crate) fn strip_bom(code: &str) -> (r: &str)
    ensures
        r@ == source_text(code@),
{
    code.strip_prefix('\u{feff}').unwrap_or(code)
}

/// Parses a TypeScript module (ES2022) and serializes its syntax tree.
///
/// Trusted: calls `swc_ecma_parser::parse_file_as_module` on a fresh source
/// map holding the file, and `serde_json::to_string` on the module; the
/// contract only names the outcome, which depends on the arguments alone.
#[verifier::external_body]
pub(crate) fn parse_module_source(file_name: &str, code: &str, options: ParserOptions) -> (r: ParseOutcome)
    ensures
        r@ == parsed_module(file_name@, code@, options),
{
    let cm: Lrc<SourceMap> = Default::default();
    let fm = cm.new_source_file(Lrc::new(FileName::Custom(file_name.to_string())), code.to_string());
    let syntax = Syntax::Typescript(TsSyntax { tsx: options.tsx, decorators: options.decorators, no_early_errors: options.no_early_errors, ..Default::default() });
    let mut errs = Vec::new();
    match parse_file_as_module(&fm, syntax, EsVersion::Es2022, None, &mut errs) {
        Ok(m) => ParseOutcome { module_json: serde_json::to_string(&m).ok(), fatal: None, recovered: errs.iter().map(|e| format!("{e:?}")).collect() },
        Err(e) => ParseOutcome { module_json: None, fatal: Some(format!("{e:?}")), recovered: Vec::new() },
    }
}

/// The leading comments of a module, as (position, texts) pairs.
///
/// Trusted: parses the file as `parse_module_source` does, with a
/// `SingleThreadedComments` collecting the comments, and lists the map of
/// leading comments (`borrow_all`). The map is walked in no fixed order, so
/// the contract states the pairs only as a listing of the map: each position
/// once, with its texts.
#[verifier::external_body]
pub(crate) fn leading_comments(file_name: &str, code: &str, options: ParserOptions) -> (r: Vec<(u32, Vec<String>)>)
    ensures
        forall|i: int, j: int| 0 <= i < j < r.len() ==> r[i].0 != r[j].0,
        forall|i: int| 0 <= i < r.len() ==> {
            &&& #[trigger] leading_comment_map(file_name@, code@, options).contains_key(r[i].0)
            &&& leading_comment_map(file_name@, code@, options)[r[i].0] == strings_view(r[i].1@)
        },
        forall|p: u32| #[trigger] leading_comment_map(file_name@, code@, options).contains_key(p)
            ==> exists|i: int| 0 <= i < r.len() && r[i].0 == p,
{
    let cm: Lrc<SourceMap> = Default::default();
    let fm = cm.new_source_file(Lrc::new(FileName::Custom(file_name.to_string())), code.to_string());
    let syntax = Syntax::Typescript(TsSyntax { tsx: options.tsx, decorators: options.decorators, no_early_errors: options.no_early_errors, ..Default::default() });
    let comments = SingleThreadedComments::default();
    let _ = parse_file_as_module(&fm, syntax, EsVersion::Es2022, Some(&comments), &mut Vec::new());
    let (leading, _) = comments.borrow_all();
    leading.iter().map(|(p, cs)| (p.0, cs.iter().map(|c| c.text.to_string()).collect())).collect()
}

/// The line and display column of a byte position.
///
/// Trusted: calls `SourceMap::lookup_char_pos` on a fresh source map holding
/// the file. It panics on a position outside the file, and a position inside
/// a character can fail an assertion of the source map; `requires` leaves
/// both out.
#[verifier::external_body]
pub(crate) fn lookup_position(file_name: &str, code: &str, pos: u32) -> (r: (usize, usize))
    requires
        valid_position(code@, pos),
    ensures
        r == source_position(file_name@, code@, pos),
{
    let cm: Lrc<SourceMap> = Default::default();
    cm.new_source_file(Lrc::new(FileName::Custom(file_name.to_string())), code.to_string());
    let loc = cm.lookup_char_pos(BytePos(pos));
    (loc.line, loc.col_display)
}

/// The source text of a span.
///
/// Trusted: calls `SourceMapper::span_to_snippet` on a fresh source map
/// holding the file, which numbers the file's bytes from 1 after dropping a
/// byte order mark. The call slices the text between the two positions; a
/// span that ends before it starts is an error, which becomes `None`. It
/// panics when a position falls inside a character, as it slices the text
/// there, which `requires` leaves out.
#[verifier::external_body]
pub(crate) fn lookup_snippet(file_name: &str, code: &str, lo: u32, hi: u32) -> (r: Option<String>)
    requires
        valid_position(code@, lo),
        valid_position(code@, hi),
    ensures
        lo <= hi ==> opt_string_view(r) == Some(text_between(code@, lo, hi)),
        lo > hi ==> r is None,
{
    let cm: Lrc<SourceMap> = Default::default();
    cm.new_source_file(Lrc::new(FileName::Custom(file_name.to_string())), code.to_string());
    cm.span_to_snippet(swc_common::Span { lo: BytePos(lo), hi: BytePos(hi) }).ok()
}

#[verifier::external_type_specification]
#[verifier::external_body]
pub struct ExProgram(Program);

} // verus!
