//! The values that forms produce.

use vstd::prelude::*;
use crate::scalar::{BigString, IntKind, Password};

verus! {

/// A value rebuilt from a form. Which variant comes out of a form is decided by
/// the schema that the form was made from.
#[derive(Debug, PartialEq, Eq)]
pub enum Value {
    /// A `String`.
    Text(String),
    /// A `Password`.
    Password(Password),
    /// A `BigString`.
    BigString(BigString),
    U8(u8),
    U16(u16),
    U32(u32),
    U64(u64),
    I8(i8),
    I16(i16),
    I32(i32),
    I64(i64),
    /// A `bool`.
    Bool(bool),
    /// An optional value: absent, or present with the wrapped value.
    Optional(Option<Box<Value>>),
    /// A struct: the values of its fields, in declared order.
    Struct(Vec<Value>),
    /// A unit variant of an enum, by its position among the variants.
    Unit(usize),
    /// A variant with one unnamed value, by its position, and that value.
    Single(usize, Box<Value>),
    /// A variant with named fields, by its position, and the fields' values in
    /// declared order.
    Named(usize, Vec<Value>),
}

/// The mathematical content of a `Value`.
pub enum ValueView {
    Text(Seq<char>),
    Password(Seq<char>),
    BigString(Seq<char>),
    Int(IntKind, int),
    Bool(bool),
    Optional(Option<Box<ValueView>>),
    Struct(Seq<ValueView>),
    Unit(nat),
    Single(nat, Box<ValueView>),
    Named(nat, Seq<ValueView>),
}

/// The contents of a list of values, one by one.
pub open spec fn views_of(values: Seq<Value>) -> Seq<ValueView>
    decreases values,
{
    Seq::new(
        values.len(),
        |i: int|
            if 0 <= i < values.len() {
                values[i].content()
            } else {
                ValueView::Bool(false)
            },
    )
}

impl Value {
    /// The mathematical content of the value; `@` gives the same.
    pub open spec fn content(&self) -> ValueView
        decreases self,
    {
        match self {
            Value::Text(s) => ValueView::Text(s@),
            Value::Password(p) => ValueView::Password(p@),
            Value::BigString(b) => ValueView::BigString(b@),
            Value::U8(n) => ValueView::Int(IntKind::U8, *n as int),
            Value::U16(n) => ValueView::Int(IntKind::U16, *n as int),
            Value::U32(n) => ValueView::Int(IntKind::U32, *n as int),
            Value::U64(n) => ValueView::Int(IntKind::U64, *n as int),
            Value::I8(n) => ValueView::Int(IntKind::I8, *n as int),
            Value::I16(n) => ValueView::Int(IntKind::I16, *n as int),
            Value::I32(n) => ValueView::Int(IntKind::I32, *n as int),
            Value::I64(n) => ValueView::Int(IntKind::I64, *n as int),
            Value::Bool(b) => ValueView::Bool(*b),
            Value::Optional(None) => ValueView::Optional(None),
            Value::Optional(Some(inner)) => ValueView::Optional(Some(Box::new(inner.content()))),
            Value::Struct(fields) => ValueView::Struct(views_of(fields@)),
            Value::Unit(index) => ValueView::Unit(*index as nat),
            Value::Single(index, inner) => ValueView::Single(*index as nat, Box::new(inner.content())),
            Value::Named(index, fields) => ValueView::Named(*index as nat, views_of(fields@)),
        }
    }
}

impl View for Value {
    type V = ValueView;

    open spec fn view(&self) -> ValueView {
        self.content()
    }
}

} // verus!
