//! What the Rust grammar says of the two values a directive can carry: an identifier and a
//! visibility.
//!
//! Both are read by `syn`. Nothing in this module is proved: each function states what the
//! call hands back, as a name for the result, and the rest of the crate is verified against
//! those names.

use vstd::prelude::*;

use crate::kinds::{Visibility, VisibilityView};

verus! {

/// The identifier that `text` is, as `syn` reads it: its spelling without the surrounding
/// white space; nothing where `text` is not exactly one identifier.
pub uninterp spec fn identifier_of(text: Seq<char>) -> Option<Seq<char>>;

/// The visibility that `text` is, as `syn` reads it; nothing where `text` is not exactly one
/// visibility. The empty text is the inherited visibility.
pub uninterp spec fn visibility_of(text: Seq<char>) -> Option<VisibilityView>;

/// Reads `text` as one identifier.
///
/// Calls `syn::parse_str::<syn::Ident>` and, where it succeeds, `Ident::to_string` on what
/// it returns. The contract claims only that the outcome is determined by `text`: it is
/// [`identifier_of`] of the text. `syn` turns the text into tokens and accepts it when the
/// tokens are a single identifier that is no keyword; on any other text it returns an
/// error, which becomes `None` here.
#[verifier::external_body]
pub(crate) fn parse_identifier(text: &str) -> (parsed: Option<String>)
    ensures
        parsed.deep_view() == identifier_of(text@),
{
    match syn::parse_str::<syn::Ident>(text) {
        Ok(ident) => Some(ident.to_string()),
        Err(_) => None,
    }
}

/// Reads `text` as one visibility.
///
/// Calls `syn::parse_str::<syn::Visibility>` and moves the fields of what it returns into
/// a [`Visibility`]: `pub` becomes `Public`, no tokens at all `Inherited`, and `pub(..)`
/// becomes `Restricted` with whether `in` was written, whether the path starts with `::`,
/// and the spelling of each segment of the path. The contract claims only that the outcome
/// is determined by `text`: it is [`visibility_of`] of the text. On text that is not one
/// visibility `syn` returns an error, which becomes `None` here.
#[verifier::external_body]
pub(crate) fn parse_visibility(text: &str) -> (parsed: Option<Visibility>)
    ensures
        parsed.deep_view() == visibility_of(text@),
{
    match syn::parse_str::<syn::Visibility>(text) {
        Ok(syn::Visibility::Public(_)) => Some(Visibility::Public),
        Ok(syn::Visibility::Restricted(restricted)) => Some(
            Visibility::Restricted {
                scoped: restricted.in_token.is_some(),
                absolute: restricted.path.leading_colon.is_some(),
                segments: restricted.path.segments.iter().map(|s| s.ident.to_string()).collect(),
            },
        ),
        Ok(syn::Visibility::Inherited) => Some(Visibility::Inherited),
        Err(_) => None,
    }
}

} // verus!
