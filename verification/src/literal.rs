//! Rust string literals, read by the `litrs` crate.

use vstd::prelude::*;

verus! {

/// The text that the Rust string literal with the source text `source`
/// stands for, with its escapes resolved; `None` where `source` is no string
/// literal. This is what `litrs::StringLit::parse` and `value` compute from
/// the source text; nothing more is known of it here.
pub uninterp spec fn string_literal_value(source: Seq<char>) -> Option<Seq<char>>;

/// Reads a Rust string literal from its source text, such as `"A"` or
/// `r#"A"#`, quotes included.
///
/// Calls `litrs::StringLit::parse` on the text and, where that accepts it,
/// `litrs::StringLit::value` on the result. The contract claims only that the
/// answer depends on the source text alone.
#[verifier::external_body]
pub(crate) fn literal_value(source: &str) -> (r: Option<String>)
    ensures
        match r {
            Some(value) => string_literal_value(source@) == Some(value@),
            None => string_literal_value(source@) is None,
        },
{
    match litrs::StringLit::parse(source) {
        Ok(literal) => Some(literal.value().to_string()),
        Err(_) => None,
    }
}

} // verus!
