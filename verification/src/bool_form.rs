//! The form of a `bool`.

use vstd::prelude::*;
use vstd::string::*;
use crate::form::{is_parsed, BoolFormState, FormElements};
use crate::page::{with_classes, El, ElementView, Page};
use crate::style::{ATTR_LABEL, CSS_CLASS_SMALL_INPUT};
use crate::value::Value;

verus! {

/// A checkbox, as it is created for a `bool`.
pub open spec fn checkbox(label: Seq<char>) -> ElementView {
    ElementView::blank("input"@).add_class(CSS_CLASS_SMALL_INPUT@).set_attr(ATTR_LABEL@, label).set_attr(
        "type"@,
        "checkbox"@,
    )
}

impl BoolFormState {
    /// Creates the checkbox at the end of the page.
    pub fn new(page: &mut Page, field: &str) -> (r: BoolFormState)
        ensures
            final(page)@ == old(page)@.push(checkbox(field@)),
            r.input.index == old(page)@.len(),
    {
        let input = page.el("input");
        page.classes(input, &[CSS_CLASS_SMALL_INPUT]);
        page.attr(input, ATTR_LABEL, field);
        page.attr(input, "type", "checkbox");
        assert(page@ =~= old(page)@.push(checkbox(field@))) by {
            reveal_with_fuel(with_classes, 2);
        }
        return BoolFormState { input };
    }

    /// Get the elements for this form.
    pub fn elements(&self) -> (r: FormElements)
        ensures
            r@ == self@.elements(),
    {
        let mut elements: Vec<El> = Vec::new();
        elements.push(self.input);
        let r = FormElements { error: None, elements };
        assert(r@.elements =~= self@.elements().elements);
        return r;
    }

    /// Whether the box is ticked. This cannot fail.
    pub fn parse(&self, page: &Page) -> (r: Result<Value, ()>)
        requires
            self@.bounded(page@.len()),
        ensures
            r is Ok,
            is_parsed(r, self@.parsed(page@)),
    {
        return Ok(Value::Bool(page.checked(self.input)));
    }
}

} // verus!
