//! The form of an enum: a variant selector and one container for each
//! variant, of which only the active one is shown and read.

use vstd::prelude::*;
use crate::form::{
    containers, is_parsed, variants_bounded, variants_content, EnumFormState, FormElements,
    VariantFormState,
};
use crate::form::{
    only_shown, variants_after_event, FormView, StructFormState, VariantForm, VariantView,
};
use crate::frame::{lemma_body_bounded_grows, lemma_elements_bounded};
use crate::fresh::{extends, lemma_enum_built};
use crate::page::{same_text, with_classes, with_modified_classes, El, Page};
use crate::scalar::{format_int, parse_int, IntKind};
use crate::schema::{all_elements, enum_built, variants_built, VariantKind, VariantSchema};
use crate::style::{ATTR_LABEL, CSS_CLASS_HIDDEN, CSS_CLASS_SMALL_INPUT, CSS_CLASS_SUBFORM};
use crate::value::Value;

verus! {

impl VariantFormState {
    /// Makes the variant's own form at the end of the page, labelled with the
    /// variant's title, and returns it with the widgets that go into the
    /// variant's container.
    pub fn new(page: &mut Page, title: &str, kind: &VariantKind) -> (r: (VariantFormState, Vec<El>))
        ensures
            (r.0@, final(page)@, r.1@) == kind.built(old(page)@, title@),
            r.0@.bounded(final(page)@.len()),
            forall|i: int| 0 <= i < r.1@.len() ==> (#[trigger] r.1@[i]).index < final(page)@.len(),
            final(page)@.len() >= old(page)@.len(),
        decreases kind,
    {
        match kind {
            VariantKind::Unit => (VariantFormState::Unit, Vec::new()),
            VariantKind::SingleValue(form) => {
                let subform = form.new_form(page, title);
                let subform_elements = subform.elements();
                let mut inner: Vec<El> = Vec::new();
                if let Some(error) = subform_elements.error {
                    inner.push(error);
                }
                let mut rest = subform_elements.elements;
                inner.append(&mut rest);
                proof {
                    lemma_elements_bounded(subform@, page@.len());
                    assert(inner@ =~= all_elements(subform@));
                    let handed = subform@.elements();
                    assert forall|i: int| 0 <= i < inner@.len() implies (#[trigger] inner@[i]).index
                        < page@.len() by {
                        if handed.error is Some {
                            if i > 0 {
                                assert(inner@[i] == handed.elements[i - 1]);
                            }
                        } else {
                            assert(inner@[i] == handed.elements[i]);
                        }
                    }
                }
                (VariantFormState::Single(Box::new(subform)), inner)
            },
            VariantKind::NamedFields(fields) => {
                let subform = StructFormState::new(page, fields);
                let subform_elements = subform.elements();
                let inner = subform_elements.elements;
                proof {
                    lemma_elements_bounded(subform@, page@.len());
                    assert(inner@ == subform@.elements().elements);
                    assert forall|i: int| 0 <= i < inner@.len() implies (#[trigger] inner@[i]).index
                        < page@.len() by {
                        assert(inner@[i] == subform@.elements().elements[i]);
                    }
                }
                (VariantFormState::Named(subform), inner)
            },
        }
    }

    /// Parse the variant's own widgets into the variant at position `index`.
    /// A unit variant has no widgets and always succeeds.
    pub fn parse(&self, index: usize, page: &mut Page) -> (r: Result<Value, ()>)
        requires
            self@.bounded(old(page)@.len()),
        ensures
            is_parsed(r, self@.parsed(index as nat, old(page)@)),
            final(page)@ == self@.validated(old(page)@),
        decreases self,
    {
        match self {
            VariantFormState::Unit => Ok(Value::Unit(index)),
            VariantFormState::Single(form) => match form.parse(page) {
                Ok(v) => Ok(Value::Single(index, Box::new(v))),
                Err(_) => Err(()),
            },
            VariantFormState::Named(form) => match form.parse_fields(page) {
                Ok(values) => Ok(Value::Named(index, values)),
                Err(_) => Err(()),
            },
        }
    }
}

impl VariantFormState {
    /// Lets the variant's forms see an event on the widget `target`.
    pub fn on_event(&mut self, page: &mut Page, target: El, event: &str)
        requires
            old(self)@.bounded(old(page)@.len()),
        ensures
            (final(self)@, final(page)@) == old(self)@.after_event(
                old(page)@,
                target,
                event@,
            ),
            final(self)@.bounded(final(page)@.len()),
            final(page)@.len() == old(page)@.len(),
        decreases *old(self),
    {
        match self {
            VariantFormState::Unit => {},
            VariantFormState::Single(form) => {
                form.on_event(page, target, event);
            },
            VariantFormState::Named(form) => {
                form.on_event(page, target, event);
            },
        }
    }
}

impl EnumFormState {
    /// Makes the enum form at the end of the page: the selector, then for
    /// each variant its choice, its own form and its container. The first
    /// variant is the active one, and every other container is hidden.
    pub fn new(page: &mut Page, field: &str, variants: &Vec<VariantSchema>) -> (r: EnumFormState)
        ensures
            (r@, final(page)@) == enum_built(variants@, old(page)@, field@),
            r@.bounded(final(page)@.len()),
            r@.laid_out(old(page)@.len(), final(page)@.len()),
            extends(old(page)@, final(page)@),
        decreases variants,
    {
        let select = page.el("select");
        page.classes(select, &[CSS_CLASS_SMALL_INPUT]);
        page.attr(select, ATTR_LABEL, field);
        let ghost start = page@;
        proof {
            reveal_with_fuel(with_classes, 2);
            assert(start =~= old(page)@.push(crate::schema::selector(field@)));
        }
        let mut made: Vec<VariantForm> = Vec::new();
        let mut variant_elements: Vec<El> = Vec::new();
        let mut i: usize = 0;
        assert(variants_content(made@) =~= Seq::empty());
        assert(variant_elements@ =~= containers(variants_content(made@)));
        while i < variants.len()
            invariant
                i <= variants@.len(),
                select.index < start.len() <= page@.len(),
                (variants_content(made@), page@) == variants_built(variants@, start, select, i as nat),
                variants_bounded(variants_content(made@), page@.len()),
                variant_elements@ == containers(variants_content(made@)),
            decreases variants@.len() - i,
        {
            let ghost before = variants_content(made@);
            let ghost page0 = page@;
            let title = variants[i].title.as_str();
            let option = page.el("option");
            page.text(option, title);
            let value = format_int(i as i128);
            page.attr(option, "value", value.as_str());
            if i == 0 {
                page.attr(option, "selected", "selected");
            }
            page.push(select, option);
            let ghost page2 = page@;
            let (body, inner) = VariantFormState::new(page, title, &variants[i].kind);
            let container = page.el("div");
            page.classes(container, &[CSS_CLASS_SUBFORM]);
            page.extend(container, &inner);
            made.push(VariantForm { container, body });
            variant_elements.push(container);
            proof {
                reveal_with_fuel(with_classes, 2);
                let page1 = page0.push(crate::schema::choice(title@, i as nat));
                assert(page2 =~= crate::page::replaced(
                    page1,
                    select.index as int,
                    page1[select.index as int].push_child(crate::schema::next_el(page0)),
                ));
                let variant = VariantView { container, body: body@ };
                assert(variants_content(made@) =~= before.push(variant));
                assert(page@ =~= variants_built(variants@, start, select, (i + 1) as nat).1);
                assert forall|k: int| 0 <= k < before.len() implies (#[trigger] before[k]).container.index
                    < page@.len() && before[k].body.bounded(page@.len()) by {
                    lemma_body_bounded_grows(before[k].body, page0.len(), page@.len());
                }
                lemma_body_bounded_grows(body@, (page@.len() - 1) as nat, page@.len());
                assert(variant_elements@ =~= containers(variants_content(made@)));
            }
            i = i + 1;
        }
        page.on(select, "change");
        let ghost page2 = page@;
        let ghost shown = variants_content(made@);
        if variant_elements.len() >= 1 {
            proof {
                assert forall|k: int| 1 <= k < variant_elements@.len() implies (
                #[trigger] variant_elements@[k]).index < page@.len() by {
                    assert(variant_elements@[k] == shown[k].container);
                }
            }
            page.set_hidden(&variant_elements, 1, true);
        }
        let r = EnumFormState { select, variants: made, current_variant: 0 };
        proof {
            assert(r@ == enum_built(variants@, old(page)@, field@).0);
            assert(page@ == enum_built(variants@, old(page)@, field@).1);
            assert forall|k: int| 0 <= k < shown.len() implies (#[trigger] shown[k]).container.index
                < page@.len() && shown[k].body.bounded(page@.len()) by {
                lemma_body_bounded_grows(shown[k].body, page2.len(), page@.len());
            }
            page.lemma_len();
            lemma_enum_built(variants@, old(page)@, field@);
        }
        return r;
    }

    /// Get the elements for this form: the selector, then the containers of
    /// all variants, hidden or not.
    pub fn elements(&self) -> (r: FormElements)
        ensures
            r@ == self@.elements(),
    {
        let mut out: Vec<El> = Vec::new();
        out.push(self.select);
        let mut i: usize = 0;
        while i < self.variants.len()
            invariant
                i <= self.variants@.len(),
                out@ == seq![self.select] + containers(variants_content(self.variants@)).subrange(0, i as int),
            decreases self.variants@.len() - i,
        {
            let ghost before = out@;
            out.push(self.variants[i].container);
            assert(out@ =~= seq![self.select] + containers(variants_content(self.variants@)).subrange(
                0,
                i + 1,
            ));
            i = i + 1;
        }
        assert(containers(variants_content(self.variants@)).subrange(0, i as int) =~= containers(
            variants_content(self.variants@),
        ));
        return FormElements { error: None, elements: out };
    }

    /// Parse the widgets of the active variant into the enum's value. No
    /// other variant is asked: what their widgets hold cannot fail this call.
    pub fn parse(&self, page: &mut Page) -> (r: Result<Value, ()>)
        requires
            self@.bounded(old(page)@.len()),
        ensures
            is_parsed(r, self@.parsed(old(page)@)),
            final(page)@ == self@.validated(old(page)@),
        decreases self,
    {
        if self.current_variant < self.variants.len() {
            assert(variants_bounded(variants_content(self.variants@), old(page)@.len()));
            assert(variants_content(self.variants@)[self.current_variant as int].body.bounded(
                old(page)@.len(),
            ));
            return self.variants[self.current_variant].body.parse(self.current_variant, page);
        } else {
            return Err(());
        }
    }

    /// The handler for a change of the selector. Where the selector's value
    /// is the position of a variant, that variant becomes the active one and
    /// of all containers only its own is shown. What the containers hold is
    /// not touched, so that switching back brings it up again. Any other
    /// value is ignored.
    pub fn on_change(&mut self, page: &mut Page)
        requires
            old(self)@.bounded(old(page)@.len()),
        ensures
            (final(self).current_variant as nat, final(page)@) == FormView::after_select(
                old(self).select,
                variants_content(old(self).variants@),
                old(self).current_variant as nat,
                old(page)@,
            ),
            final(self).select == old(self).select,
            final(self).variants == old(self).variants,
            final(page)@.len() == old(page)@.len(),
    {
        let value = page.value(self.select).to_owned();
        let ghost shown = containers(variants_content(self.variants@));
        match parse_int(value.as_str(), IntKind::U64) {
            Ok(chosen) => {
                if chosen < self.variants.len() as i128 {
                    let index = chosen as usize;
                    self.current_variant = index;
                    let mut i: usize = 0;
                    while i < self.variants.len()
                        invariant
                            i <= self.variants@.len(),
                            self.variants == old(self).variants,
                            self.select == old(self).select,
                            self.current_variant == index,
                            shown == containers(variants_content(self.variants@)),
                            variants_bounded(variants_content(self.variants@), old(page)@.len()),
                            page@.len() == old(page)@.len(),
                            page@ == only_shown(old(page)@, shown, index as nat, i as nat),
                        decreases self.variants@.len() - i,
                    {
                        assert(variants_content(self.variants@)[i as int].container.index < page@.len());
                        page.modify_classes(self.variants[i].container, &[(CSS_CLASS_HIDDEN, i != index)]);
                        proof {
                            reveal_with_fuel(with_modified_classes, 2);
                        }
                        i = i + 1;
                    }
                }
            },
            Err(_) => {},
        }
    }

    /// Lets the form see an event on the widget `target`.
    pub fn on_event(&mut self, page: &mut Page, target: El, event: &str)
        requires
            old(self)@.bounded(old(page)@.len()),
        ensures
            (final(self)@, final(page)@) == old(self)@.after_event(old(page)@, target, event@),
            final(self)@.bounded(final(page)@.len()),
            final(page)@.len() == old(page)@.len(),
        decreases *old(self),
    {
        if target == self.select && same_text(event, "change") {
            self.on_change(page);
        }
        let ghost variants = variants_content(self.variants@);
        let ghost page1 = page@;
        let ghost active = self.current_variant;
        let mut i: usize = 0;
        while i < self.variants.len()
            invariant
                i <= self.variants@.len(),
                self.variants@.len() == old(self).variants@.len(),
                self.select == old(self).select,
                self.current_variant == active,
                variants == variants_content(old(self).variants@),
                forall|j: int| i <= j < self.variants@.len() ==> self.variants@[j] == old(self).variants@[j],
                (variants_content(self.variants@), page@) == variants_after_event(
                    variants,
                    page1,
                    target,
                    event@,
                    i as nat,
                ),
                variants_bounded(variants_content(self.variants@), page@.len()),
                page@.len() == old(page)@.len(),
            decreases self.variants@.len() - i,
        {
            let ghost before = variants_content(self.variants@);
            assert(before[i as int].body.bounded(page@.len()));
            self.variants[i].body.on_event(page, target, event);
            proof {
                let variant = VariantView {
                    container: before[i as int].container,
                    body: self.variants@[i as int].body@,
                };
                assert(variants_content(self.variants@) =~= before.update(i as int, variant));
            }
            i = i + 1;
        }
    }
}

} // verus!
