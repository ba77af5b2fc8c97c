//! The type and attribute grammars of Rust, as `syn` reads them.
use vstd::prelude::*;
use crate::token::{LitKind, LitKindView};

verus! {

/// What `syn` answers when it reads `text` as a Rust type: `None` when it
/// accepts the text, else the message of its error.
pub uninterp spec fn syn_type_verdict(text: Seq<char>) -> Option<Seq<char>>;

/// What `syn` answers when it reads `text` as the content of an attribute (a
/// `syn::Meta`): `None` when it accepts the text, else the message of its error.
pub uninterp spec fn syn_meta_verdict(text: Seq<char>) -> Option<Seq<char>>;

/// What `syn` answers when it reads `text` as a visibility (`pub`, `pub(crate)`,
/// `pub(in path)`, or nothing): `None` when it accepts the text, else the
/// message of its error.
pub uninterp spec fn syn_vis_verdict(text: Seq<char>) -> Option<Seq<char>>;

/// What `syn` reads from the source text `raw` of a literal: the base-10
/// digits of an integer literal, the value of a string literal, or `Other` for
/// any other literal and for text that is no literal.
pub uninterp spec fn syn_literal_reading(raw: Seq<char>) -> LitKindView;

/// Reads the source text of a literal with `syn::parse_str::<syn::Lit>`. The
/// contract claims only that the reading depends on the text alone.
#[verifier::external_body]
pub(crate) fn read_literal(raw: &String) -> (r: LitKind)
    ensures
        r@ == syn_literal_reading(raw@),
{
    match syn::parse_str::<syn::Lit>(raw) {
        Ok(syn::Lit::Int(i)) => LitKind::Int(i.base10_digits().to_string()),
        Ok(syn::Lit::Str(s)) => LitKind::Str(s.value()),
        _ => LitKind::Other,
    }
}

/// Reads `text` as a type with `syn::parse_str::<syn::Type>`. The contract
/// claims only that the answer depends on the text alone: `None` when `syn`
/// accepts it, else `syn`'s error message.
#[verifier::external_body]
pub(crate) fn check_type_text(text: &String) -> (r: Option<String>)
    ensures
        r is None <==> syn_type_verdict(text@) is None,
        r matches Some(m) ==> syn_type_verdict(text@) == Some(m@),
{
    match syn::parse_str::<syn::Type>(text) {
        Ok(_) => None,
        Err(e) => Some(e.to_string()),
    }
}

/// Reads `text` as attribute content with `syn::parse_str::<syn::Meta>`. The
/// contract claims only that the answer depends on the text alone: `None` when
/// `syn` accepts it, else `syn`'s error message.
#[verifier::external_body]
pub(crate) fn check_meta_text(text: &String) -> (r: Option<String>)
    ensures
        r is None <==> syn_meta_verdict(text@) is None,
        r matches Some(m) ==> syn_meta_verdict(text@) == Some(m@),
{
    match syn::parse_str::<syn::Meta>(text) {
        Ok(_) => None,
        Err(e) => Some(e.to_string()),
    }
}

/// Reads `text` as a visibility with `syn::parse_str::<syn::Visibility>`. The
/// contract claims only that the answer depends on the text alone: `None` when
/// `syn` accepts it, else `syn`'s error message.
#[verifier::external_body]
pub(crate) fn check_vis_text(text: &String) -> (r: Option<String>)
    ensures
        r is None <==> syn_vis_verdict(text@) is None,
        r matches Some(m) ==> syn_vis_verdict(text@) == Some(m@),
{
    match syn::parse_str::<syn::Visibility>(text) {
        Ok(_) => None,
        Err(e) => Some(e.to_string()),
    }
}

} // verus!
