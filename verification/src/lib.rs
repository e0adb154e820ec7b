//! Forms generated from data-type schemas.
//!
//! A schema (`Form`) describes a type that a form can be made for: a scalar,
//! a `bool`, an optional value, a struct with titled fields, or an enum with
//! titled variants. `compile::derive1` gives the schema of a declared type.
//! `Form::new_form` creates the widgets of such a type on a `Page` and returns
//! the `FormState` that holds them. The state hands out the widgets to place
//! (`elements`), follows what the user does (`on_event`), and rebuilds a
//! typed `Value` from what the widgets hold, or reports that an entry is
//! invalid (`parse`).
//!
//! What a form means is stated over the content of the page in the module
//! `form`; what holds of every form is proved in the module `laws`.

pub mod attribute;
pub mod bool_form;
pub mod compile;
pub mod enum_form;
pub mod form;
pub mod frame;
pub mod fresh;
pub mod from_str_form;
pub mod laws;
pub mod layout;
pub mod literal;
pub mod option_form;
pub mod page;
pub mod scalar;
pub mod schema;
pub mod state;
pub mod struct_form;
pub mod style;
pub mod value;

pub use form::{FormElements, FormState, FromStrFormState};
pub use scalar::{BigString, Password};
pub use schema::Form;
pub use style::{
    ATTR_LABEL, CSS_CLASS_BIG_INPUT, CSS_CLASS_ERROR, CSS_CLASS_HIDDEN, CSS_CLASS_LABEL,
    CSS_CLASS_OPTION_ENABLE, CSS_CLASS_SMALL_INPUT, CSS_CLASS_SUBFORM,
};
