//! What only a parser of Rust knows of a text: whether it is an identifier, and which string a
//! string literal denotes. Both are asked of `syn`.

use crate::text::str_view;
use vstd::prelude::*;

verus! {

/// Whether `text` holds exactly one Rust identifier, as `syn` reads identifiers: a keyword is
/// none.
pub uninterp spec fn is_ident(text: Seq<char>) -> bool;

/// The string that `text` denotes if it holds exactly one Rust string literal, as `syn` reads
/// string literals: with the escapes resolved, and without the quotes.
pub uninterp spec fn str_literal(text: Seq<char>) -> Option<Seq<char>>;

/// Asks `syn::parse_str::<syn::Ident>` whether `text` holds exactly one identifier.
///
/// The contract only names the answer: it is the same for the same text.
#[verifier::external_body]
pub(crate) fn parse_ident(text: &str) -> (ok: bool)
    ensures
        ok == is_ident(text@),
{
    syn::parse_str::<syn::Ident>(text).is_ok()
}

/// Asks `syn::parse_str::<syn::LitStr>` for the string literal that `text` holds, and
/// `syn::LitStr::value` for the string it denotes.
///
/// The contract only names the answer: it is the same for the same text. The text has to start
/// with `"` or `r`: `syn` panics on a literal of a kind that it does not know, and a literal
/// that starts so is a string literal, which it knows.
#[verifier::external_body]
pub(crate) fn parse_str_literal(text: &str) -> (value: Option<String>)
    requires
        text@.len() > 0,
        text@[0] == '"' || text@[0] == 'r',
    ensures
        str_view(value) == str_literal(text@),
{
    match syn::parse_str::<syn::LitStr>(text) {
        Ok(lit) => Some(lit.value()),
        Err(_) => None,
    }
}

} // verus!
