//! Schemas: the shape of a type that a form can be made for, and the form
//! that is made for it.

use vstd::prelude::*;
use crate::bool_form::checkbox;
use crate::form::{
    containers, fields_elements, BoolFormState, EnumFormState, FieldView, FormState, FormView,
    FromStrFormState, OptionFormState, StructFormState, VariantBodyView, VariantView,
};
use crate::fresh::{extends, lemma_built};
use crate::from_str_form::{error_slot, text_entry};
use crate::page::{replaced, with_hidden, El, ElementView, Page};
use crate::scalar::{text_of_int, ScalarKind};
use crate::style::{
    ATTR_LABEL, CSS_CLASS_LABEL, CSS_CLASS_OPTION_ENABLE, CSS_CLASS_SMALL_INPUT, CSS_CLASS_SUBFORM,
};

verus! {

/// A data type that can be included in a form.
#[derive(Debug, PartialEq, Eq)]
pub enum Form {
    /// A type that is read from the text of one widget.
    Scalar(ScalarKind),
    /// A `bool`.
    Bool,
    /// An optional value of the wrapped type.
    Optional(Box<Form>),
    /// A struct with named fields, in declared order.
    Struct(Vec<FieldSchema>),
    /// An enum with its variants, in declared order.
    Enum(Vec<VariantSchema>),
}

/// A field of a struct, or of an enum variant with named fields.
#[derive(Debug, PartialEq, Eq)]
pub struct FieldSchema {
    /// The title shown before the field's widgets.
    pub title: String,
    /// The field's type.
    pub form: Form,
}

/// What an enum variant holds.
#[derive(Debug, PartialEq, Eq)]
pub enum VariantKind {
    /// Nothing.
    Unit,
    /// One unnamed value of the given type.
    SingleValue(Box<Form>),
    /// Named fields, in declared order.
    NamedFields(Vec<FieldSchema>),
}

/// A variant of an enum.
#[derive(Debug, PartialEq, Eq)]
pub struct VariantSchema {
    /// The title shown in the variant selector.
    pub title: String,
    /// What the variant holds.
    pub kind: VariantKind,
}

/// The handle of the widget that is created next on `page`.
pub open spec fn next_el(page: Seq<ElementView>) -> El {
    El { index: page.len() as usize }
}

/// The input type of the text entry for a scalar type.
pub fn input_type_of(kind: ScalarKind) -> (r: &'static str)
    ensures
        r@ == input_type(kind),
{
    match kind {
        ScalarKind::Password => "password",
        _ => "text",
    }
}

/// The input type of the text entry for a scalar type.
pub open spec fn input_type(kind: ScalarKind) -> Seq<char> {
    match kind {
        ScalarKind::Password => "password"@,
        _ => "text"@,
    }
}

/// The label of a field, as it is created.
pub open spec fn label_span(title: Seq<char>) -> ElementView {
    ElementView::blank("span"@).add_class(CSS_CLASS_LABEL@).set_text(title)
}

/// The enable checkbox of an optional form, as it is created.
pub open spec fn enable_checkbox(field: Seq<char>) -> ElementView {
    ElementView::blank("input"@).add_class(CSS_CLASS_OPTION_ENABLE@).set_attr(
        ATTR_LABEL@,
        field + " - Enabled"@,
    ).set_attr("type"@, "checkbox"@).listen("click"@)
}

/// The variant selector of an enum form, as it is created, before the choices
/// are placed in it.
pub open spec fn selector(field: Seq<char>) -> ElementView {
    ElementView::blank("select"@).add_class(CSS_CLASS_SMALL_INPUT@).set_attr(ATTR_LABEL@, field)
}

/// The choice for the variant at position `index`, as it is created: it shows
/// the variant's title, its value is the position in decimal, and the first
/// one is chosen.
pub open spec fn choice(title: Seq<char>, index: nat) -> ElementView {
    let plain = ElementView::blank("option"@).set_text(title).set_attr("value"@, text_of_int(index as int));
    if index == 0 {
        plain.set_attr("selected"@, "selected"@)
    } else {
        plain
    }
}

/// The container of a variant, as it is created, with the variant's widgets in
/// it.
pub open spec fn variant_container(inner: Seq<El>) -> ElementView {
    ElementView::blank("div"@).add_class(CSS_CLASS_SUBFORM@).extend_children(inner)
}

/// The widgets of a subform, as its parent holds them: the error slot, if
/// there is one, then the subform's widgets.
pub open spec fn all_elements(form: FormView) -> Seq<El> {
    let inner = form.elements();
    match inner.error {
        Some(e) => seq![e] + inner.elements,
        None => inner.elements,
    }
}

/// The optional form made around a subform that is on the page already, and
/// the page after: the subform's widgets are hidden, and the enable checkbox
/// is created at the end of the page.
pub open spec fn option_built(subform: FormView, page: Seq<ElementView>, field: Seq<char>) -> (
    FormView,
    Seq<ElementView>,
) {
    let additional = all_elements(subform);
    let hidden = with_hidden(page, additional, true, additional.len());
    (
        FormView::Optional { elements: seq![next_el(hidden)] + additional, subform: Box::new(subform) },
        hidden.push(enable_checkbox(field)),
    )
}

/// The forms of the first `n` fields and the page after they were made, in
/// order: for each field the form of its type, labelled with the field's
/// title, then the label.
pub open spec fn fields_built(fields: Seq<FieldSchema>, page: Seq<ElementView>, n: nat) -> (
    Seq<FieldView>,
    Seq<ElementView>,
)
    decreases fields, n,
{
    if n == 0 || n > fields.len() {
        (Seq::empty(), page)
    } else {
        let (before, page0) = fields_built(fields, page, (n - 1) as nat);
        let (form, page1) = fields[n - 1].form.built(page0, fields[n - 1].title@);
        (
            before.push(FieldView { label: next_el(page1), form }),
            page1.push(label_span(fields[n - 1].title@)),
        )
    }
}

impl VariantKind {
    /// The variant's own form, labelled with the variant's title, the page
    /// after it was made, and the widgets that go into the variant's
    /// container.
    pub open spec fn built(&self, page: Seq<ElementView>, title: Seq<char>) -> (
        VariantBodyView,
        Seq<ElementView>,
        Seq<El>,
    )
        decreases self,
    {
        match self {
            VariantKind::Unit => (VariantBodyView::Unit, page, Seq::empty()),
            VariantKind::SingleValue(form) => {
                let (inner, page1) = form.built(page, title);
                (VariantBodyView::Single(Box::new(inner)), page1, all_elements(inner))
            },
            VariantKind::NamedFields(fields) => {
                let (inner, page1) = fields_built(fields@, page, fields@.len());
                (VariantBodyView::Named(inner), page1, fields_elements(inner, inner.len()))
            },
        }
    }
}

/// The first `n` variants and the page after they were made, in order: for
/// each variant a choice, placed in the selector; the variant's own form;
/// and a container that holds the form's widgets.
pub open spec fn variants_built(variants: Seq<VariantSchema>, page: Seq<ElementView>, select: El, n: nat) -> (
    Seq<VariantView>,
    Seq<ElementView>,
)
    decreases variants, n,
{
    if n == 0 || n > variants.len() {
        (Seq::empty(), page)
    } else {
        let (before, page0) = variants_built(variants, page, select, (n - 1) as nat);
        let title = variants[n - 1].title@;
        let page1 = page0.push(choice(title, (n - 1) as nat));
        let page2 = replaced(
            page1,
            select.index as int,
            page1[select.index as int].push_child(next_el(page0)),
        );
        let (body, page3, inner) = variants[n - 1].kind.built(page2, title);
        (
            before.push(VariantView { container: next_el(page3), body }),
            page3.push(variant_container(inner)),
        )
    }
}

/// The enum form of the given variants and the page after it was made: the
/// selector, the variants, the handler for a change of the selector, and all
/// containers but the first hidden. The first variant is the active one.
pub open spec fn enum_built(variants: Seq<VariantSchema>, page: Seq<ElementView>, field: Seq<char>) -> (
    FormView,
    Seq<ElementView>,
)
    decreases variants, variants.len() + 1,
{
    let select = next_el(page);
    let (made, page1) = variants_built(variants, page.push(selector(field)), select, variants.len());
    let page2 = replaced(page1, select.index as int, page1[select.index as int].listen("change"@));
    let rest = containers(made).subrange(1, made.len() as int);
    (
        FormView::Enum { select, variants: made, current: 0 },
        if made.len() >= 1 {
            with_hidden(page2, rest, true, rest.len())
        } else {
            page2
        },
    )
}

impl Form {
    /// The form that `new_form` makes for this type on `page`, labelled
    /// `field`, and the page after. Every widget is created at the end of the
    /// page, in the order in which the parts of the type are declared.
    pub open spec fn built(&self, page: Seq<ElementView>, field: Seq<char>) -> (FormView, Seq<ElementView>)
        decreases self,
    {
        match self {
            Form::Scalar(kind) => (
                FormView::FromStr {
                    kind: *kind,
                    el: El { index: (page.len() + 1) as usize },
                    error_el: next_el(page),
                },
                page.push(error_slot()).push(text_entry(field, input_type(*kind))),
            ),
            Form::Bool => (FormView::Bool { input: next_el(page) }, page.push(checkbox(field))),
            Form::Optional(inner) => {
                let (subform, page1) = inner.built(page, field);
                option_built(subform, page1, field)
            },
            Form::Struct(fields) => {
                let (made, page1) = fields_built(fields@, page, fields@.len());
                (FormView::Struct { fields: made }, page1)
            },
            Form::Enum(variants) => enum_built(variants@, page, field),
        }
    }
}

impl Form {
    /// Generates a form for a new value (no existing value): creates the
    /// widgets of the type at the end of the page and returns the state that
    /// holds them. Nothing is entered, no box is ticked, and the first
    /// variant of every enum is the active one.
    ///
    /// * `field` - is the field name, for accessibility using `aria-label`.
    pub fn new_form(&self, page: &mut Page, field: &str) -> (r: FormState)
        ensures
            (r@, final(page)@) == self.built(old(page)@, field@),
            r@.bounded(final(page)@.len()),
            r@.laid_out(old(page)@.len(), final(page)@.len()),
            extends(old(page)@, final(page)@),
        decreases self,
    {
        let form = match self {
            Form::Scalar(kind) => {
                FormState::FromStr(FromStrFormState::new(page, field, input_type_of(*kind), *kind))
            },
            Form::Bool => {
                FormState::Bool(BoolFormState::new(page, field))
            },
            Form::Optional(inner) => {
                let subform = inner.new_form(page, field);
                FormState::Optional(OptionFormState::new(page, field, subform))
            },
            Form::Struct(fields) => {
                FormState::Struct(StructFormState::new(page, fields))
            },
            Form::Enum(variants) => {
                FormState::Enum(EnumFormState::new(page, field, variants))
            },
        };
        proof {
            page.lemma_len();
            lemma_built(*self, old(page)@, field@);
        }
        form
    }
}

} // verus!
