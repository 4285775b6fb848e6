//! What a specification borrows from Rust: its names, types and expressions
//! are Rust's own, and Rust's own parser says whether a piece of text is one.

use vstd::prelude::*;
use crate::macros::tokens::{spell, spelling, Token};

verus! {

/// Whether a text is one Rust identifier that is no keyword.
pub uninterp spec fn reads_as_ident(text: Seq<char>) -> bool;

/// Whether a text is, from its first token to its last, one Rust type.
pub uninterp spec fn reads_as_type(text: Seq<char>) -> bool;

/// Whether a text is, from its first token to its last, one Rust expression.
pub uninterp spec fn reads_as_expr(text: Seq<char>) -> bool;

/// `syn::parse_str` at `syn::Ident`: the text is read as tokens and must be
/// one identifier that is not a keyword, with nothing behind it. Trusted:
/// that the outcome depends on the text alone.
#[verifier::external_body]
fn ident_parses(text: &str) -> (accepted: bool)
    ensures
        accepted == reads_as_ident(text@),
{
    syn::parse_str::<syn::Ident>(text).is_ok()
}

/// `syn::parse_str` at `syn::Type`: the text is read as tokens and must be
/// one type, with nothing behind it. Trusted: that the outcome depends on the
/// text alone.
#[verifier::external_body]
fn type_parses(text: &str) -> (accepted: bool)
    ensures
        accepted == reads_as_type(text@),
{
    syn::parse_str::<syn::Type>(text).is_ok()
}

/// `syn::parse_str` at `syn::Expr`: the text is read as tokens and must be
/// one expression, with nothing behind it. Trusted: that the outcome depends
/// on the text alone.
#[verifier::external_body]
fn expr_parses(text: &str) -> (accepted: bool)
    ensures
        accepted == reads_as_expr(text@),
{
    syn::parse_str::<syn::Expr>(text).is_ok()
}

/// Whether a word can serve as a name.
pub fn is_name(word: &String) -> (accepted: bool)
    ensures
        accepted == reads_as_ident(word@),
{
    ident_parses(word.as_str())
}

/// Whether the tokens spell one type.
pub fn is_type(tokens: &Vec<Token>) -> (accepted: bool)
    ensures
        accepted == reads_as_type(spelling(tokens.deep_view(), 0)),
{
    let text = spell(tokens);
    type_parses(text.as_str())
}

/// Whether the tokens spell one expression.
pub fn is_expr(tokens: &Vec<Token>) -> (accepted: bool)
    ensures
        accepted == reads_as_expr(spelling(tokens.deep_view(), 0)),
{
    let text = spell(tokens);
    expr_parses(text.as_str())
}

} // verus!
