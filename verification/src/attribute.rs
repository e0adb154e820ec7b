//! Attributes of fields and variants.

use vstd::prelude::*;

verus! {

/// An argument of an attribute written as a list, such as `"A"` in
/// `#[title("A")]`.
#[derive(Debug, PartialEq, Eq)]
pub enum Argument {
    /// A string literal, by its source text, quotes included.
    StringLiteral(String),
    /// A literal of another kind.
    OtherLiteral,
    /// Anything that is no literal.
    Nested,
}

/// An attribute of a field or a variant, as far as a title can be found in
/// it.
#[derive(Debug, PartialEq, Eq)]
pub enum Attribute {
    /// A list: a path and arguments in brackets, such as `#[title("A")]`.
    List {
        /// The path before the brackets, as written.
        path: String,
        /// The arguments, in order.
        arguments: Vec<Argument>,
    },
    /// Anything else.
    Other,
}

/// The mathematical content of an `Argument`.
pub enum ArgumentView {
    StringLiteral(Seq<char>),
    OtherLiteral,
    Nested,
}

/// The mathematical content of an `Attribute`.
pub enum AttributeView {
    List { path: Seq<char>, arguments: Seq<ArgumentView> },
    Other,
}

impl View for Argument {
    type V = ArgumentView;

    open spec fn view(&self) -> ArgumentView {
        match self {
            Argument::StringLiteral(source) => ArgumentView::StringLiteral(source@),
            Argument::OtherLiteral => ArgumentView::OtherLiteral,
            Argument::Nested => ArgumentView::Nested,
        }
    }
}

impl View for Attribute {
    type V = AttributeView;

    open spec fn view(&self) -> AttributeView {
        match self {
            Attribute::List { path, arguments } => AttributeView::List {
                path: path@,
                arguments: Seq::new(arguments@.len(), |i: int| arguments@[i]@),
            },
            Attribute::Other => AttributeView::Other,
        }
    }
}

/// The contents of a list of attributes, one by one.
pub open spec fn shapes_of(attrs: Seq<Attribute>) -> Seq<AttributeView> {
    Seq::new(attrs.len(), |i: int| attrs[i]@)
}

} // verus!
