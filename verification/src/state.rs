//! What every form state can do, whatever its kind.

use vstd::prelude::*;
use crate::form::{
    fields_bounded, fields_content, is_parsed, variants_bounded, variants_content, EnumFormState,
    FormElements, FormState, OptionFormState, StructFormState, VariantFormState,
};
use crate::page::{same_text, El, Page};
use crate::value::Value;

verus! {

impl StructFormState {
    /// Whether every handle of the fields names a widget of the page.
    pub fn fits(&self, page: &Page) -> (r: bool)
        ensures
            r == self@.bounded(page@.len()),
        decreases self,
    {
        let n = page.len();
        let ghost fields = fields_content(self.fields@);
        let mut i: usize = 0;
        while i < self.fields.len()
            invariant
                i <= self.fields@.len(),
                n == page@.len(),
                fields == fields_content(self.fields@),
                forall|k: int|
                    0 <= k < i ==> (#[trigger] fields[k]).label.index < n && fields[k].form.bounded(
                        n as nat,
                    ),
            decreases self.fields@.len() - i,
        {
            if !(self.fields[i].label.index < n && self.fields[i].form.fits(page)) {
                assert(!(fields[i as int].label.index < n && fields[i as int].form.bounded(n as nat)));
                assert(!fields_bounded(fields, n as nat));
                return false;
            }
            i = i + 1;
        }
        assert(fields_bounded(fields, n as nat));
        true
    }
}

impl VariantFormState {
    /// Whether every handle of the variant names a widget of the page.
    pub fn fits(&self, page: &Page) -> (r: bool)
        ensures
            r == self@.bounded(page@.len()),
        decreases self,
    {
        match self {
            VariantFormState::Unit => true,
            VariantFormState::Single(form) => form.fits(page),
            VariantFormState::Named(form) => form.fits(page),
        }
    }
}

impl OptionFormState {
    /// Whether the form has its enable checkbox and every handle names a
    /// widget of the page.
    pub fn fits(&self, page: &Page) -> (r: bool)
        ensures
            r == self@.bounded(page@.len()),
        decreases self,
    {
        let n = page.len();
        if self.elements.len() < 1 {
            return false;
        }
        let mut i: usize = 0;
        while i < self.elements.len()
            invariant
                i <= self.elements@.len(),
                n == page@.len(),
                forall|k: int| 0 <= k < i ==> (#[trigger] self.elements@[k]).index < n,
            decreases self.elements@.len() - i,
        {
            if self.elements[i].index >= n {
                assert(!(self.elements@[i as int].index < n));
                return false;
            }
            i = i + 1;
        }
        self.subform.fits(page)
    }
}

impl EnumFormState {
    /// Whether every handle of the form names a widget of the page.
    pub fn fits(&self, page: &Page) -> (r: bool)
        ensures
            r == self@.bounded(page@.len()),
        decreases self,
    {
        let n = page.len();
        if self.select.index >= n {
            return false;
        }
        let ghost variants = variants_content(self.variants@);
        let mut i: usize = 0;
        while i < self.variants.len()
            invariant
                i <= self.variants@.len(),
                n == page@.len(),
                variants == variants_content(self.variants@),
                forall|k: int|
                    0 <= k < i ==> (#[trigger] variants[k]).container.index < n && variants[k].body.bounded(
                        n as nat,
                    ),
            decreases self.variants@.len() - i,
        {
            if !(self.variants[i].container.index < n && self.variants[i].body.fits(page)) {
                assert(!(variants[i as int].container.index < n && variants[i as int].body.bounded(
                    n as nat,
                )));
                assert(!variants_bounded(variants, n as nat));
                return false;
            }
            i = i + 1;
        }
        assert(variants_bounded(variants, n as nat));
        true
    }
}

impl FormState {
    /// Whether every handle of the form names a widget of the page, so that
    /// the form can be used with this page. A form can always be used with
    /// the page it was made on, however the page has grown since.
    pub fn fits(&self, page: &Page) -> (r: bool)
        ensures
            r == self@.bounded(page@.len()),
        decreases self,
    {
        match self {
            FormState::FromStr(state) => state.el.index < page.len() && state.error_el.index < page.len(),
            FormState::Bool(state) => state.input.index < page.len(),
            FormState::Optional(state) => state.fits(page),
            FormState::Struct(state) => state.fits(page),
            FormState::Enum(state) => state.fits(page),
        }
    }

    /// Get the elements for this form or subform.
    pub fn elements(&self) -> (r: FormElements)
        ensures
            r@ == self@.elements(),
        decreases self,
    {
        match self {
            FormState::FromStr(state) => state.elements(),
            FormState::Bool(state) => state.elements(),
            FormState::Optional(state) => state.elements(),
            FormState::Struct(state) => state.elements(),
            FormState::Enum(state) => state.elements(),
        }
    }

    /// Parse the elements into the resulting value. The call reads what the
    /// widgets hold now, and shows or clears the error of every text entry it
    /// reads. A failure changes nothing else: the call can be made again
    /// after the user has edited the entries.
    pub fn parse(&self, page: &mut Page) -> (r: Result<Value, ()>)
        requires
            self@.bounded(old(page)@.len()),
        ensures
            is_parsed(r, self@.parsed(old(page)@)),
            final(page)@ == self@.validated(old(page)@),
        decreases self,
    {
        match self {
            FormState::FromStr(state) => state.parse(page),
            FormState::Bool(state) => state.parse(page),
            FormState::Optional(state) => state.parse(page),
            FormState::Struct(state) => state.parse(page),
            FormState::Enum(state) => state.parse(page),
        }
    }

    /// Lets the form see an event on the widget `target`: the handler that
    /// the form has bound to that widget for that event runs. This is how the
    /// form follows what the user does between two calls of `parse`.
    pub fn on_event(&mut self, page: &mut Page, target: El, event: &str)
        requires
            old(self)@.bounded(old(page)@.len()),
        ensures
            (final(self)@, final(page)@) == old(self)@.after_event(old(page)@, target, event@),
            final(self)@.bounded(final(page)@.len()),
            final(page)@.len() == old(page)@.len(),
        decreases *old(self),
    {
        match self {
            FormState::FromStr(state) => {
                if target == state.el && same_text(event, "change") {
                    state.on_change(page);
                }
            },
            FormState::Bool(state) => {},
            FormState::Optional(state) => {
                state.on_event(page, target, event);
            },
            FormState::Struct(state) => {
                state.on_event(page, target, event);
            },
            FormState::Enum(state) => {
                state.on_event(page, target, event);
            },
        }
    }
}

} // verus!
