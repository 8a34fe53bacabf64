//! The Rust grammar, as `syn` parses it and `proc_macro2` prints it.
//!
//! Everything here is stated over text: a fragment of source goes in, and the
//! printed tokens of what was parsed come out. The contracts of this module
//! are believed, not proved.

use quote::ToTokens;
use std::str::FromStr;
use syn::parse::Parser;
use vstd::prelude::*;

verus! {

/// The tokens of `source`, printed one after another, or nothing where
/// `source` is not a sequence of Rust tokens.
pub uninterp spec fn token_text(source: Seq<char>) -> Option<Seq<char>>;

/// The longest item at the start of `text` as printed tokens, and the printed
/// tokens that follow it; nothing where `text` does not start with an item.
pub uninterp spec fn item_split(text: Seq<char>) -> Option<(Seq<char>, Seq<char>)>;

/// As `item_split`, for a statement.
pub uninterp spec fn stmt_split(text: Seq<char>) -> Option<(Seq<char>, Seq<char>)>;

/// As `item_split`, for an expression.
pub uninterp spec fn expr_split(text: Seq<char>) -> Option<(Seq<char>, Seq<char>)>;

/// `proc_macro2::TokenStream::from_str`, then the stream's `Display`: the
/// result is `token_text` of the source.
#[verifier::external_body]
pub(crate) fn lex(source: &str) -> (text: Option<String>)
    ensures
        text.deep_view() == token_text(source@),
{
    match proc_macro2::TokenStream::from_str(source) {
        Ok(tokens) => Some(tokens.to_string()),
        Err(_) => None,
    }
}

/// `syn`'s parser for `Item`, run at the start of `text` with the rest of the
/// tokens taken as they are: the result is `item_split` of the text.
#[verifier::external_body]
pub(crate) fn try_parse_item(text: &str) -> (split: Option<(String, String)>)
    ensures
        split.deep_view() == item_split(text@),
{
    let head = |input: syn::parse::ParseStream| -> syn::Result<(syn::Item, proc_macro2::TokenStream)> {
        Ok((input.parse()?, input.parse()?))
    };
    let (node, rest) = head.parse_str(text).ok()?;
    Some((node.to_token_stream().to_string(), rest.to_string()))
}

/// `syn`'s parser for `Stmt`, run as `try_parse_item` runs that for `Item`:
/// the result is `stmt_split` of the text.
#[verifier::external_body]
pub(crate) fn try_parse_stmt(text: &str) -> (split: Option<(String, String)>)
    ensures
        split.deep_view() == stmt_split(text@),
{
    let head = |input: syn::parse::ParseStream| -> syn::Result<(syn::Stmt, proc_macro2::TokenStream)> {
        Ok((input.parse()?, input.parse()?))
    };
    let (node, rest) = head.parse_str(text).ok()?;
    Some((node.to_token_stream().to_string(), rest.to_string()))
}

/// `syn`'s parser for `Expr`, run as `try_parse_item` runs that for `Item`:
/// the result is `expr_split` of the text.
#[verifier::external_body]
pub(crate) fn try_parse_expr(text: &str) -> (split: Option<(String, String)>)
    ensures
        split.deep_view() == expr_split(text@),
{
    let head = |input: syn::parse::ParseStream| -> syn::Result<(syn::Expr, proc_macro2::TokenStream)> {
        Ok((input.parse()?, input.parse()?))
    };
    let (node, rest) = head.parse_str(text).ok()?;
    Some((node.to_token_stream().to_string(), rest.to_string()))
}

} // verus!
