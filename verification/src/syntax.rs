//! What the host language's parser says of a piece of source text.
//!
//! The grammar of blocks, expressions and patterns is the parser's, not this
//! crate's. Each question put to it has a name here, and the functions below
//! are believed, not proved, to answer as the parser does.

use vstd::prelude::*;

verus! {

/// Whether `text` is, as a whole, one block: statements in curly brackets.
pub uninterp spec fn block_syntax(text: Seq<char>) -> bool;

/// Whether `text` is, as a whole, one expression.
pub uninterp spec fn expression_syntax(text: Seq<char>) -> bool;

/// Whether `text` is, as a whole, one pattern without `|` at its top level.
pub uninterp spec fn pattern_syntax(text: Seq<char>) -> bool;

/// Calls `syn::parse_str` for `syn::Block`. The result is taken to depend on
/// the text alone: `true` when the text lexes and the parser accepts all of
/// it as a block.
#[verifier::external_body]
pub(crate) fn parses_as_block(text: &str) -> (ok: bool)
    ensures
        ok == block_syntax(text@),
{
    syn::parse_str::<syn::Block>(text).is_ok()
}

/// Calls `syn::parse_str` for `syn::Expr`. The result is taken to depend on
/// the text alone: `true` when the text lexes and the parser accepts all of
/// it as an expression.
#[verifier::external_body]
pub(crate) fn parses_as_expression(text: &str) -> (ok: bool)
    ensures
        ok == expression_syntax(text@),
{
    syn::parse_str::<syn::Expr>(text).is_ok()
}

/// Calls `syn::Pat::parse_single` through `syn::parse::Parser::parse_str`.
/// The result is taken to depend on the text alone: `true` when the text
/// lexes and the parser accepts all of it as a pattern.
#[verifier::external_body]
pub(crate) fn parses_as_pattern(text: &str) -> (ok: bool)
    ensures
        ok == pattern_syntax(text@),
{
    syn::parse::Parser::parse_str(syn::Pat::parse_single, text).is_ok()
}

} // verus!
