//! The form of a type that is read from the text of one widget.

use vstd::prelude::*;
use vstd::string::*;
use crate::form::{change_text, is_parsed, with_text, FormElements, FromStrFormState};
use crate::page::{with_classes, El, ElementView, Page};
use crate::scalar::{parse_scalar, ScalarKind};
use crate::style::{ATTR_LABEL, CSS_CLASS_ERROR, CSS_CLASS_SMALL_INPUT};
use crate::value::Value;

verus! {

/// The error slot of a text entry, as it is created.
pub open spec fn error_slot() -> ElementView {
    ElementView::blank("span"@).add_class(CSS_CLASS_ERROR@)
}

/// A text entry, as it is created: labelled for accessibility, of the given
/// input type, with a handler for changes.
pub open spec fn text_entry(label: Seq<char>, type_: Seq<char>) -> ElementView {
    ElementView::blank("input"@).add_class(CSS_CLASS_SMALL_INPUT@).set_attr(ATTR_LABEL@, label).set_attr(
        "type"@,
        type_,
    ).listen("change"@)
}

impl FromStrFormState {
    /// Creates the error slot and the text entry, in this order, at the end of
    /// the page.
    pub fn new(page: &mut Page, label: &str, type_: &str, kind: ScalarKind) -> (r: FromStrFormState)
        ensures
            final(page)@ == old(page)@.push(error_slot()).push(text_entry(label@, type_@)),
            r.kind == kind,
            r.error_el.index == old(page)@.len(),
            r.el.index == old(page)@.len() + 1,
    {
        let error_el = page.el("span");
        page.classes(error_el, &[CSS_CLASS_ERROR]);
        let el = page.el("input");
        page.classes(el, &[CSS_CLASS_SMALL_INPUT]);
        page.attr(el, ATTR_LABEL, label);
        page.attr(el, "type", type_);
        page.on(el, "change");
        assert(page@ =~= old(page)@.push(error_slot()).push(text_entry(label@, type_@))) by {
            reveal_with_fuel(with_classes, 2);
        }
        return FromStrFormState { kind, el, error_el };
    }

    /// Get the elements for this form.
    pub fn elements(&self) -> (r: FormElements)
        ensures
            r@ == self@.elements(),
    {
        let mut elements: Vec<El> = Vec::new();
        elements.push(self.el);
        let r = FormElements { error: Some(self.error_el), elements };
        assert(r@.elements =~= self@.elements().elements);
        return r;
    }

    /// Parse the text of the entry into a value of its type, and show the
    /// error, or clear it, in the error slot.
    pub fn parse(&self, page: &mut Page) -> (r: Result<Value, ()>)
        requires
            self@.bounded(old(page)@.len()),
        ensures
            is_parsed(r, self@.parsed(old(page)@)),
            final(page)@ == self@.validated(old(page)@),
    {
        let text = page.value(self.el).to_owned();
        match parse_scalar(self.kind, text.as_str()) {
            Ok(v) => {
                page.text(self.error_el, "");
                proof {
                    reveal_strlit("");
                    assert(""@ =~= Seq::<char>::empty());
                }
                return Ok(v);
            },
            Err(e) => {
                page.text(self.error_el, e.message());
                return Err(());
            },
        }
    }

    /// The handler for a change of the text: an entry that is no value of the
    /// type shows why in the error slot; a valid or empty one clears it.
    pub fn on_change(&self, page: &mut Page)
        requires
            self@.bounded(old(page)@.len()),
        ensures
            final(page)@ == with_text(
                old(page)@,
                self.error_el,
                change_text(self.kind, old(page)@[self.el.index as int].value),
            ),
    {
        let text = page.value(self.el).to_owned();
        proof {
            reveal_strlit("");
            assert(""@ =~= Seq::<char>::empty());
        }
        if !text.as_str().is_empty() {
            match parse_scalar(self.kind, text.as_str()) {
                Err(e) => {
                    page.text(self.error_el, e.message());
                    return ;
                },
                _ => {},
            }
        }
        page.text(self.error_el, "");
    }
}

} // verus!
