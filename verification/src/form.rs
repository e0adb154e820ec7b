//! The state of a form, and what it means.
//!
//! A form state holds handles to the widgets it has on a page. Its meaning is
//! given over the page's content: which value the widgets stand for
//! (`parsed`), what asking for that value does to the error slots
//! (`validated`), and what an event does to the state and the page
//! (`after_event`).

use vstd::prelude::*;
use crate::page::{replaced, with_hidden, El, ElementView};
use crate::scalar::{int_of_text, scalar_of_text, IntKind, ScalarKind};
use crate::style::CSS_CLASS_HIDDEN;
use crate::value::ValueView;

verus! {

/// The widgets of a form or subform, for the caller to place on the page.
#[derive(Debug, PartialEq, Eq)]
pub struct FormElements {
    /// The error display element, with `CSS_CLASS_ERROR`. This may be placed
    /// before the label in a struct context.
    pub error: Option<El>,
    /// The input, and any additional controls.
    pub elements: Vec<El>,
}

/// The mathematical content of `FormElements`.
pub struct FormElementsView {
    pub error: Option<El>,
    pub elements: Seq<El>,
}

impl View for FormElements {
    type V = FormElementsView;

    open spec fn view(&self) -> FormElementsView {
        FormElementsView { error: self.error, elements: self.elements@ }
    }
}

/// The state of a form for a type that is read from the text of one widget.
#[derive(Debug, PartialEq, Eq)]
pub struct FromStrFormState {
    /// The type that the text is read as.
    pub kind: ScalarKind,
    /// The text entry.
    pub el: El,
    /// The error slot.
    pub error_el: El,
}

/// The state of a form for a `bool`.
#[derive(Debug, PartialEq, Eq)]
pub struct BoolFormState {
    /// The checkbox.
    pub input: El,
}

/// The state of a form for an optional value.
#[derive(Debug, PartialEq, Eq)]
pub struct OptionFormState {
    /// The enable checkbox, then the widgets of the subform.
    pub elements: Vec<El>,
    /// The form of the wrapped type.
    pub subform: Box<FormState>,
}

/// One field of a struct form.
#[derive(Debug, PartialEq, Eq)]
pub struct FieldFormState {
    /// The label that carries the field's title.
    pub label: El,
    /// The form of the field's type.
    pub form: FormState,
}

/// The state of a form for a struct, or for the fields of an enum variant.
#[derive(Debug, PartialEq, Eq)]
pub struct StructFormState {
    /// The fields, in declared order.
    pub fields: Vec<FieldFormState>,
}

/// What an enum variant holds.
#[derive(Debug, PartialEq, Eq)]
pub enum VariantFormState {
    /// Nothing.
    Unit,
    /// One unnamed value: the form of its type.
    Single(Box<FormState>),
    /// Named fields: a form for each.
    Named(StructFormState),
}

/// One variant of an enum form.
#[derive(Debug, PartialEq, Eq)]
pub struct VariantForm {
    /// The container that holds the variant's widgets.
    pub container: El,
    /// The variant's own form.
    pub body: VariantFormState,
}

/// The state of a form for an enum.
#[derive(Debug, PartialEq, Eq)]
pub struct EnumFormState {
    /// The variant selector.
    pub select: El,
    /// The variants, in declared order.
    pub variants: Vec<VariantForm>,
    /// The position of the active variant. Only the selector's change handler
    /// writes it.
    pub current_variant: usize,
}

/// An object representing a form (the state of the form).
#[derive(Debug, PartialEq, Eq)]
pub enum FormState {
    FromStr(FromStrFormState),
    Bool(BoolFormState),
    Optional(OptionFormState),
    Struct(StructFormState),
    Enum(EnumFormState),
}

/// The mathematical content of a `FormState`.
pub enum FormView {
    FromStr { kind: ScalarKind, el: El, error_el: El },
    Bool { input: El },
    Optional { elements: Seq<El>, subform: Box<FormView> },
    Struct { fields: Seq<FieldView> },
    Enum { select: El, variants: Seq<VariantView>, current: nat },
}

/// The mathematical content of a `FieldFormState`.
pub struct FieldView {
    pub label: El,
    pub form: FormView,
}

/// The mathematical content of a `VariantFormState`.
pub enum VariantBodyView {
    Unit,
    Single(Box<FormView>),
    Named(Seq<FieldView>),
}

/// The mathematical content of a `VariantForm`.
pub struct VariantView {
    pub container: El,
    pub body: VariantBodyView,
}

/// The contents of a list of fields, one by one.
pub open spec fn fields_content(fields: Seq<FieldFormState>) -> Seq<FieldView>
    decreases fields,
{
    Seq::new(
        fields.len(),
        |i: int|
            if 0 <= i < fields.len() {
                FieldView { label: fields[i].label, form: fields[i].form.content() }
            } else {
                FieldView { label: El { index: 0 }, form: FormView::Bool { input: El { index: 0 } } }
            },
    )
}

/// The contents of a list of variants, one by one.
pub open spec fn variants_content(variants: Seq<VariantForm>) -> Seq<VariantView>
    decreases variants,
{
    Seq::new(
        variants.len(),
        |i: int|
            if 0 <= i < variants.len() {
                VariantView { container: variants[i].container, body: variants[i].body.content() }
            } else {
                VariantView { container: El { index: 0 }, body: VariantBodyView::Unit }
            },
    )
}

impl VariantFormState {
    /// The mathematical content of the state; `@` gives the same.
    pub open spec fn content(&self) -> VariantBodyView
        decreases self,
    {
        match self {
            VariantFormState::Unit => VariantBodyView::Unit,
            VariantFormState::Single(form) => VariantBodyView::Single(Box::new(form.content())),
            VariantFormState::Named(form) => VariantBodyView::Named(fields_content(form.fields@)),
        }
    }
}

impl FormState {
    /// The mathematical content of the state; `@` gives the same.
    pub open spec fn content(&self) -> FormView
        decreases self,
    {
        match self {
            FormState::FromStr(s) => FormView::FromStr { kind: s.kind, el: s.el, error_el: s.error_el },
            FormState::Bool(s) => FormView::Bool { input: s.input },
            FormState::Optional(s) => FormView::Optional {
                elements: s.elements@,
                subform: Box::new(s.subform.content()),
            },
            FormState::Struct(s) => FormView::Struct { fields: fields_content(s.fields@) },
            FormState::Enum(s) => FormView::Enum {
                select: s.select,
                variants: variants_content(s.variants@),
                current: s.current_variant as nat,
            },
        }
    }
}

impl View for VariantFormState {
    type V = VariantBodyView;

    open spec fn view(&self) -> VariantBodyView {
        self.content()
    }
}

impl View for FormState {
    type V = FormView;

    open spec fn view(&self) -> FormView {
        self.content()
    }
}

impl View for FromStrFormState {
    type V = FormView;

    open spec fn view(&self) -> FormView {
        FormView::FromStr { kind: self.kind, el: self.el, error_el: self.error_el }
    }
}

impl View for BoolFormState {
    type V = FormView;

    open spec fn view(&self) -> FormView {
        FormView::Bool { input: self.input }
    }
}

impl View for OptionFormState {
    type V = FormView;

    open spec fn view(&self) -> FormView {
        FormView::Optional { elements: self.elements@, subform: Box::new(self.subform.content()) }
    }
}

impl View for StructFormState {
    type V = FormView;

    open spec fn view(&self) -> FormView {
        FormView::Struct { fields: fields_content(self.fields@) }
    }
}

impl View for EnumFormState {
    type V = FormView;

    open spec fn view(&self) -> FormView {
        FormView::Enum {
            select: self.select,
            variants: variants_content(self.variants@),
            current: self.current_variant as nat,
        }
    }
}

/// The text that a text entry's error slot shows after its text was read: the
/// error's description, or nothing where the text is a value of the type.
pub open spec fn error_text(kind: ScalarKind, text: Seq<char>) -> Seq<char> {
    match scalar_of_text(kind, text) {
        Ok(_) => Seq::empty(),
        Err(e) => e.message_spec(),
    }
}

/// The text that a text entry's error slot shows after the user changed the
/// text: as `error_text`, but an empty entry is no error yet.
pub open spec fn change_text(kind: ScalarKind, text: Seq<char>) -> Seq<char> {
    if text.len() >= 1 {
        error_text(kind, text)
    } else {
        Seq::empty()
    }
}

/// `page` with the text of the element `el` replaced.
pub open spec fn with_text(page: Seq<ElementView>, el: El, text: Seq<char>) -> Seq<ElementView> {
    replaced(page, el.index as int, page[el.index as int].set_text(text))
}

/// The variant that the selector's value chooses among `n` variants: the
/// position that the value denotes in decimal, if it is one of them.
pub open spec fn chosen(value: Seq<char>, n: nat) -> Option<nat> {
    match int_of_text(value, IntKind::U64.min_spec(), IntKind::U64.max_spec()) {
        Ok(index) => if index < n {
            Some(index as nat)
        } else {
            None
        },
        Err(_) => None,
    }
}

/// `page` with the first `n` of the containers shown or hidden, in order, so
/// that of these only the one at position `index` is shown.
pub open spec fn only_shown(page: Seq<ElementView>, containers: Seq<El>, index: nat, n: nat) -> Seq<
    ElementView,
>
    decreases n,
{
    if n == 0 || n > containers.len() {
        page
    } else {
        let before = only_shown(page, containers, index, (n - 1) as nat);
        let at = containers[n - 1].index as int;
        replaced(before, at, before[at].modify_class(CSS_CLASS_HIDDEN@, n - 1 != index))
    }
}

/// The first `n` fields and the page after each of them, in order, has seen
/// the event. The other fields are as before.
pub open spec fn fields_after_event(
    fields: Seq<FieldView>,
    page: Seq<ElementView>,
    target: El,
    event: Seq<char>,
    n: nat,
) -> (Seq<FieldView>, Seq<ElementView>)
    decreases fields, n,
{
    if n == 0 || n > fields.len() {
        (fields, page)
    } else {
        let (before, page0) = fields_after_event(fields, page, target, event, (n - 1) as nat);
        let (form, page1) = fields[n - 1].form.after_event(page0, target, event);
        (before.update(n - 1, FieldView { label: fields[n - 1].label, form }), page1)
    }
}

/// The first `n` variants and the page after each of them, in order, has
/// seen the event. The other variants are as before.
pub open spec fn variants_after_event(
    variants: Seq<VariantView>,
    page: Seq<ElementView>,
    target: El,
    event: Seq<char>,
    n: nat,
) -> (Seq<VariantView>, Seq<ElementView>)
    decreases variants, n,
{
    if n == 0 || n > variants.len() {
        (variants, page)
    } else {
        let (before, page0) = variants_after_event(variants, page, target, event, (n - 1) as nat);
        let (body, page1) = variants[n - 1].body.after_event(page0, target, event);
        (before.update(n - 1, VariantView { container: variants[n - 1].container, body }), page1)
    }
}

/// The values of the first `n` fields, if each of them has one.
pub open spec fn fields_parsed(fields: Seq<FieldView>, page: Seq<ElementView>, n: nat) -> Option<
    Seq<ValueView>,
>
    decreases fields, n,
{
    if n == 0 || n > fields.len() {
        Some(Seq::empty())
    } else {
        match (fields_parsed(fields, page, (n - 1) as nat), fields[n - 1].form.parsed(page)) {
            (Some(before), Some(value)) => Some(before.push(value)),
            _ => None,
        }
    }
}

/// The page after the first `n` fields were asked for their values, in order.
pub open spec fn fields_validated(fields: Seq<FieldView>, page: Seq<ElementView>, n: nat) -> Seq<
    ElementView,
>
    decreases fields, n,
{
    if n == 0 || n > fields.len() {
        page
    } else {
        fields[n - 1].form.validated(fields_validated(fields, page, (n - 1) as nat))
    }
}

/// The widgets of one field: the error slot of its form, if it has one, then
/// the label, then the form's own widgets.
pub open spec fn field_elements(field: FieldView) -> Seq<El>
    decreases field,
{
    let inner = field.form.elements();
    let error = match inner.error {
        Some(e) => seq![e],
        None => Seq::empty(),
    };
    error + seq![field.label] + inner.elements
}

/// The widgets of the first `n` fields, in order.
pub open spec fn fields_elements(fields: Seq<FieldView>, n: nat) -> Seq<El>
    decreases fields, n,
{
    if n == 0 || n > fields.len() {
        Seq::empty()
    } else {
        fields_elements(fields, (n - 1) as nat) + field_elements(fields[n - 1])
    }
}

/// The containers of the variants, in order.
pub open spec fn containers(variants: Seq<VariantView>) -> Seq<El> {
    Seq::new(variants.len(), |i: int| variants[i].container)
}

/// Whether the handles of all fields are widgets of a page of `n` widgets.
pub open spec fn fields_bounded(fields: Seq<FieldView>, n: nat) -> bool
    decreases fields,
{
    forall|i: int|
        0 <= i < fields.len() ==> (#[trigger] fields[i]).label.index < n && fields[i].form.bounded(n)
}

/// Whether the handles of all variants are widgets of a page of `n` widgets.
pub open spec fn variants_bounded(variants: Seq<VariantView>, n: nat) -> bool
    decreases variants,
{
    forall|i: int|
        0 <= i < variants.len() ==> (#[trigger] variants[i]).container.index < n
            && variants[i].body.bounded(n)
}

impl VariantBodyView {
    /// Whether every handle is a widget of a page of `n` widgets.
    pub open spec fn bounded(self, n: nat) -> bool
        decreases self,
    {
        match self {
            VariantBodyView::Unit => true,
            VariantBodyView::Single(form) => form.bounded(n),
            VariantBodyView::Named(fields) => fields_bounded(fields, n),
        }
    }

    /// The value of the variant at position `index`, read from its own
    /// widgets.
    pub open spec fn parsed(self, index: nat, page: Seq<ElementView>) -> Option<ValueView>
        decreases self,
    {
        match self {
            VariantBodyView::Unit => Some(ValueView::Unit(index)),
            VariantBodyView::Single(form) => match form.parsed(page) {
                Some(value) => Some(ValueView::Single(index, Box::new(value))),
                None => None,
            },
            VariantBodyView::Named(fields) => match fields_parsed(fields, page, fields.len()) {
                Some(values) => Some(ValueView::Named(index, values)),
                None => None,
            },
        }
    }

    /// The variant and the page after the variant's forms have seen the event.
    pub open spec fn after_event(self, page: Seq<ElementView>, target: El, event: Seq<char>) -> (
        VariantBodyView,
        Seq<ElementView>,
    )
        decreases self,
    {
        match self {
            VariantBodyView::Unit => (self, page),
            VariantBodyView::Single(form) => {
                let (inner, page1) = form.after_event(page, target, event);
                (VariantBodyView::Single(Box::new(inner)), page1)
            },
            VariantBodyView::Named(fields) => {
                let (inner, page1) = fields_after_event(fields, page, target, event, fields.len());
                (VariantBodyView::Named(inner), page1)
            },
        }
    }

    /// The page after the variant was asked for its value.
    pub open spec fn validated(self, page: Seq<ElementView>) -> Seq<ElementView>
        decreases self,
    {
        match self {
            VariantBodyView::Unit => page,
            VariantBodyView::Single(form) => form.validated(page),
            VariantBodyView::Named(fields) => fields_validated(fields, page, fields.len()),
        }
    }
}

impl FormView {
    /// Whether every handle of the form is a widget of a page of `n` widgets,
    /// and an optional form has its enable checkbox.
    pub open spec fn bounded(self, n: nat) -> bool
        decreases self,
    {
        match self {
            FormView::FromStr { kind, el, error_el } => el.index < n && error_el.index < n,
            FormView::Bool { input } => input.index < n,
            FormView::Optional { elements, subform } => {
                &&& elements.len() >= 1
                &&& forall|i: int| 0 <= i < elements.len() ==> (#[trigger] elements[i]).index < n
                &&& subform.bounded(n)
            },
            FormView::Struct { fields } => fields_bounded(fields, n),
            FormView::Enum { select, variants, current } => {
                &&& select.index < n
                &&& variants_bounded(variants, n)
            },
        }
    }

    /// The widgets that the caller places on the page.
    ///
    /// - A text entry has its error slot and the entry.
    /// - A checkbox has itself.
    /// - An optional form has its enable checkbox, then what the subform has.
    /// - A struct form has, for each field in declared order, the field's error
    ///   slot if there is one, its label, and its widgets.
    /// - An enum form has the selector, then the containers of all variants,
    ///   hidden or not, in declared order.
    pub open spec fn elements(self) -> FormElementsView
        decreases self,
    {
        match self {
            FormView::FromStr { kind, el, error_el } => FormElementsView {
                error: Some(error_el),
                elements: seq![el],
            },
            FormView::Bool { input } => FormElementsView { error: None, elements: seq![input] },
            FormView::Optional { elements, subform } => FormElementsView { error: None, elements },
            FormView::Struct { fields } => FormElementsView {
                error: None,
                elements: fields_elements(fields, fields.len()),
            },
            FormView::Enum { select, variants, current } => FormElementsView {
                error: None,
                elements: seq![select] + containers(variants),
            },
        }
    }

    /// The value that the widgets stand for, or `None` where what the user
    /// entered is no value of the form's type.
    ///
    /// - A text entry stands for what its text parses to.
    /// - A checkbox stands for whether it is ticked.
    /// - An optional form stands for an absent value while its enable checkbox
    ///   is clear, whatever the subform holds; else for what the subform
    ///   stands for.
    /// - A struct form stands for the values of all its fields, if each has one.
    /// - An enum form stands for the value of its active variant; no other
    ///   variant is looked at.
    pub open spec fn parsed(self, page: Seq<ElementView>) -> Option<ValueView>
        decreases self,
    {
        match self {
            FormView::FromStr { kind, el, error_el } => match scalar_of_text(
                kind,
                page[el.index as int].value,
            ) {
                Ok(value) => Some(value),
                Err(_) => None,
            },
            FormView::Bool { input } => Some(ValueView::Bool(page[input.index as int].checked)),
            FormView::Optional { elements, subform } => {
                if page[elements[0].index as int].checked {
                    match subform.parsed(page) {
                        Some(value) => Some(ValueView::Optional(Some(Box::new(value)))),
                        None => None,
                    }
                } else {
                    Some(ValueView::Optional(None))
                }
            },
            FormView::Struct { fields } => match fields_parsed(fields, page, fields.len()) {
                Some(values) => Some(ValueView::Struct(values)),
                None => None,
            },
            FormView::Enum { select, variants, current } => {
                if current < variants.len() {
                    variants[current as int].body.parsed(current, page)
                } else {
                    None
                }
            },
        }
    }

    /// The page after the click handler of an optional form's enable checkbox
    /// has run: the widgets of the subform are shown if the box is ticked and
    /// hidden if it is clear. What they hold is not touched.
    pub open spec fn after_click(elements: Seq<El>, page: Seq<ElementView>) -> Seq<ElementView> {
        let rest = elements.subrange(1, elements.len() as int);
        with_hidden(page, rest, !page[elements[0].index as int].checked, rest.len())
    }

    /// The active variant and the page after the change handler of an enum
    /// form's selector has run. Where the selector's value chooses one of the
    /// variants, that one becomes the active variant, and of all containers
    /// only its own is shown. What the containers hold is not touched. Any
    /// other value is ignored.
    pub open spec fn after_select(
        select: El,
        variants: Seq<VariantView>,
        current: nat,
        page: Seq<ElementView>,
    ) -> (nat, Seq<ElementView>) {
        match chosen(page[select.index as int].value, variants.len()) {
            Some(index) => (index, only_shown(page, containers(variants), index, variants.len())),
            None => (current, page),
        }
    }

    /// The form and the page after `event` has happened on the widget
    /// `target`. The handler of `target` runs, if the form has one for the
    /// event:
    ///
    /// - a change of a text entry shows the entry's error in its error slot,
    ///   or clears it where the entry is valid or empty;
    /// - a click on an optional form's enable checkbox shows or hides the
    ///   subform's widgets (`after_click`);
    /// - a change of an enum form's selector sets the active variant
    ///   (`after_select`).
    ///
    /// Every part of the form sees the event, shown or hidden, active or not.
    pub open spec fn after_event(self, page: Seq<ElementView>, target: El, event: Seq<char>) -> (
        FormView,
        Seq<ElementView>,
    )
        decreases self,
    {
        match self {
            FormView::FromStr { kind, el, error_el } => {
                if target == el && event == "change"@ {
                    (self, with_text(page, error_el, change_text(kind, page[el.index as int].value)))
                } else {
                    (self, page)
                }
            },
            FormView::Bool { input } => (self, page),
            FormView::Optional { elements, subform } => {
                let page1 = if target == elements[0] && event == "click"@ {
                    Self::after_click(elements, page)
                } else {
                    page
                };
                let (inner, page2) = subform.after_event(page1, target, event);
                (FormView::Optional { elements, subform: Box::new(inner) }, page2)
            },
            FormView::Struct { fields } => {
                let (inner, page1) = fields_after_event(fields, page, target, event, fields.len());
                (FormView::Struct { fields: inner }, page1)
            },
            FormView::Enum { select, variants, current } => {
                let (active, page1) = if target == select && event == "change"@ {
                    Self::after_select(select, variants, current, page)
                } else {
                    (current, page)
                };
                let (inner, page2) = variants_after_event(variants, page1, target, event, variants.len());
                (FormView::Enum { select, variants: inner, current: active }, page2)
            },
        }
    }

    /// The page after the form was asked for its value: every text entry that
    /// was read shows its error, or nothing, in its error slot. Nothing else
    /// changes.
    pub open spec fn validated(self, page: Seq<ElementView>) -> Seq<ElementView>
        decreases self,
    {
        match self {
            FormView::FromStr { kind, el, error_el } => with_text(
                page,
                error_el,
                error_text(kind, page[el.index as int].value),
            ),
            FormView::Bool { input } => page,
            FormView::Optional { elements, subform } => {
                if page[elements[0].index as int].checked {
                    subform.validated(page)
                } else {
                    page
                }
            },
            FormView::Struct { fields } => fields_validated(fields, page, fields.len()),
            FormView::Enum { select, variants, current } => {
                if current < variants.len() {
                    variants[current as int].body.validated(page)
                } else {
                    page
                }
            },
        }
    }
}

/// Whether the result of asking a form for its value is what `parsed` says:
/// the value itself, or the failure signal where there is none.
pub open spec fn is_parsed(result: Result<crate::value::Value, ()>, parsed: Option<ValueView>) -> bool {
    match result {
        Ok(value) => parsed == Some(value@),
        Err(_) => parsed is None,
    }
}

} // verus!
