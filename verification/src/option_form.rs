//! The form of an optional value: an enable checkbox and the form of the
//! wrapped type.

use vstd::prelude::*;
use vstd::string::*;
use crate::form::{is_parsed, FormElements, FormState, FormView, OptionFormState};
use crate::frame::{lemma_bounded_grows, lemma_elements_bounded};
use crate::fresh::lemma_option_built;
use crate::page::{same_text, with_classes, El, Page};
use crate::schema::{all_elements, option_built};
use crate::style::{ATTR_LABEL, CSS_CLASS_OPTION_ENABLE};
use crate::value::Value;

verus! {

impl OptionFormState {
    /// Makes the optional form around a subform that is on the page already:
    /// hides the subform's widgets and creates the enable checkbox, clear, at
    /// the end of the page.
    pub fn new(page: &mut Page, field: &str, subform: FormState) -> (r: OptionFormState)
        requires
            subform@.bounded(old(page)@.len()),
        ensures
            (r@, final(page)@) == option_built(subform@, old(page)@, field@),
            r@.bounded(final(page)@.len()),
            final(page)@.len() == old(page)@.len() + 1,
            forall|lo: nat| #[trigger]
                subform@.laid_out(lo, old(page)@.len()) ==> r@.laid_out(lo, final(page)@.len()),
    {
        let subform_elements = subform.elements();
        let mut additional: Vec<El> = Vec::new();
        if let Some(error) = subform_elements.error {
            additional.push(error);
        }
        let mut inner = subform_elements.elements;
        additional.append(&mut inner);
        proof {
            lemma_elements_bounded(subform@, old(page)@.len());
            assert(additional@ =~= all_elements(subform@));
            assert(additional@.subrange(0, additional@.len() as int) =~= additional@);
        }
        page.set_hidden(&additional, 0, true);
        let enable = page.el("input");
        page.classes(enable, &[CSS_CLASS_OPTION_ENABLE]);
        let mut label = field.to_owned();
        label.append(" - Enabled");
        page.attr(enable, ATTR_LABEL, label.as_str());
        page.attr(enable, "type", "checkbox");
        page.on(enable, "click");
        let mut elements: Vec<El> = Vec::new();
        elements.push(enable);
        let ghost shown = additional@;
        elements.append(&mut additional);
        let r = OptionFormState { elements, subform: Box::new(subform) };
        proof {
            reveal_with_fuel(with_classes, 2);
            assert(r.elements@ =~= seq![enable] + shown);
            assert(r@ == option_built(subform@, old(page)@, field@).0);
            assert(page@ =~= option_built(subform@, old(page)@, field@).1);
            lemma_bounded_grows(subform@, old(page)@.len(), page@.len());
            page.lemma_len();
            assert forall|lo: nat| #[trigger]
                subform@.laid_out(lo, old(page)@.len()) implies r@.laid_out(lo, page@.len()) by {
                lemma_option_built(subform@, lo, old(page)@, field@);
            }
        }
        return r;
    }

    /// Get the elements for this form: the enable checkbox, then the widgets
    /// of the subform.
    pub fn elements(&self) -> (r: FormElements)
        ensures
            r@ == self@.elements(),
    {
        return FormElements { error: None, elements: self.elements.clone() };
    }

    /// Parse the elements into an optional value. While the enable checkbox
    /// is clear the value is absent and the subform is not asked; else the
    /// value is what the subform gives, and its failure is this form's.
    pub fn parse(&self, page: &mut Page) -> (r: Result<Value, ()>)
        requires
            self@.bounded(old(page)@.len()),
        ensures
            is_parsed(r, self@.parsed(old(page)@)),
            final(page)@ == self@.validated(old(page)@),
        decreases self,
    {
        let checked = page.checked(self.elements[0]);
        if checked {
            match self.subform.parse(page) {
                Ok(v) => {
                    return Ok(Value::Optional(Some(Box::new(v))));
                },
                Err(_) => {
                    return Err(());
                },
            }
        } else {
            return Ok(Value::Optional(None));
        }
    }

    /// The handler for a click on the enable checkbox: shows the subform's
    /// widgets if the box is ticked, hides them if it is clear. What they
    /// hold is not touched.
    pub fn on_click(&self, page: &mut Page)
        requires
            self@.bounded(old(page)@.len()),
        ensures
            final(page)@ == FormView::after_click(self.elements@, old(page)@),
            final(page)@.len() == old(page)@.len(),
    {
        let checked = page.checked(self.elements[0]);
        page.set_hidden(&self.elements, 1, !checked);
    }

    /// Lets the form see an event on the widget `target`.
    pub fn on_event(&mut self, page: &mut Page, target: El, event: &str)
        requires
            old(self)@.bounded(old(page)@.len()),
        ensures
            (final(self)@, final(page)@) == old(self)@.after_event(old(page)@, target, event@),
            final(self)@.bounded(final(page)@.len()),
            final(page)@.len() == old(page)@.len(),
        decreases *old(self),
    {
        if target == self.elements[0] && same_text(event, "click") {
            self.on_click(page);
        }
        self.subform.on_event(page, target, event);
    }
}

} // verus!
