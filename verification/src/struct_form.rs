//! The form of a struct: one form for each field, in declared order.

use vstd::prelude::*;
use crate::form::{
    field_elements, fields_bounded, fields_content, fields_elements, fields_parsed, fields_validated,
    is_parsed, FieldView, FormElements, StructFormState,
};
use crate::form::{fields_after_event, FieldFormState};
use crate::frame::{
    lemma_bounded_grows, lemma_fields_bounded_grow, lemma_fields_validated_entries,
    lemma_parsed_entries,
};
use crate::fresh::{extends, lemma_fields_built};
use crate::page::{with_classes, El, Page};
use crate::schema::{fields_built, FieldSchema};
use crate::style::CSS_CLASS_LABEL;
use crate::value::{views_of, Value};

verus! {

impl StructFormState {
    /// Makes the forms of the fields at the end of the page, in declared
    /// order: for each field the form of its type, labelled with the field's
    /// title, then the label that shows the title.
    pub fn new(page: &mut Page, fields: &Vec<FieldSchema>) -> (r: StructFormState)
        ensures
            (fields_content(r.fields@), final(page)@) == fields_built(fields@, old(page)@, fields@.len()),
            r@.bounded(final(page)@.len()),
            r@.laid_out(old(page)@.len(), final(page)@.len()),
            extends(old(page)@, final(page)@),
        decreases fields,
    {
        let mut made: Vec<FieldFormState> = Vec::new();
        let mut i: usize = 0;
        assert(fields_content(made@) =~= Seq::empty());
        while i < fields.len()
            invariant
                i <= fields@.len(),
                (fields_content(made@), page@) == fields_built(fields@, old(page)@, i as nat),
                fields_bounded(fields_content(made@), page@.len()),
                page@.len() >= old(page)@.len(),
            decreases fields@.len() - i,
        {
            let ghost before = fields_content(made@);
            let ghost page0 = page@;
            let form = fields[i].form.new_form(page, fields[i].title.as_str());
            let label = page.el("span");
            page.classes(label, &[CSS_CLASS_LABEL]);
            page.text(label, fields[i].title.as_str());
            made.push(FieldFormState { label, form });
            proof {
                reveal_with_fuel(with_classes, 2);
                let field = FieldView { label, form: form@ };
                assert(fields_content(made@) =~= before.push(field));
                assert(page@ =~= fields_built(fields@, old(page)@, (i + 1) as nat).1);
                lemma_fields_bounded_grow(before, page0.len(), page@.len());
                lemma_bounded_grows(form@, (page@.len() - 1) as nat, page@.len());
            }
            i = i + 1;
        }
        proof {
            page.lemma_len();
            lemma_fields_built(fields@, old(page)@, fields@.len());
        }
        return StructFormState { fields: made };
    }

    /// Get the elements for this form: for each field its error slot, if it
    /// has one, then its label, then its widgets.
    pub fn elements(&self) -> (r: FormElements)
        ensures
            r@ == self@.elements(),
        decreases self,
    {
        let mut elements: Vec<El> = Vec::new();
        let ghost fields = fields_content(self.fields@);
        let mut i: usize = 0;
        while i < self.fields.len()
            invariant
                i <= self.fields@.len(),
                fields == fields_content(self.fields@),
                elements@ == fields_elements(fields, i as nat),
            decreases self.fields@.len() - i,
        {
            let ghost before = elements@;
            let subelements = self.fields[i].form.elements();
            if let Some(error) = subelements.error {
                elements.push(error);
            }
            elements.push(self.fields[i].label);
            let mut inner = subelements.elements;
            elements.append(&mut inner);
            assert(elements@ =~= before + field_elements(fields[i as int]));
            i = i + 1;
        }
        return FormElements { error: None, elements };
    }

    /// Asks every field for its value, whether or not an earlier one failed,
    /// so that every invalid entry shows its error. Returns the values in
    /// declared order, or the failure signal if any field failed.
    pub fn parse_fields(&self, page: &mut Page) -> (r: Result<Vec<Value>, ()>)
        requires
            self@.bounded(old(page)@.len()),
        ensures
            match r {
                Ok(values) => fields_parsed(
                    fields_content(self.fields@),
                    old(page)@,
                    self.fields@.len() as nat,
                ) == Some(views_of(values@)),
                Err(_) => fields_parsed(fields_content(self.fields@), old(page)@, self.fields@.len() as nat)
                    is None,
            },
            final(page)@ == fields_validated(
                fields_content(self.fields@),
                old(page)@,
                self.fields@.len() as nat,
            ),
        decreases self, 0nat,
    {
        let ghost fields = fields_content(self.fields@);
        let mut errored = false;
        let mut values: Vec<Value> = Vec::new();
        let mut i: usize = 0;
        assert(views_of(values@) =~= Seq::empty());
        while i < self.fields.len()
            invariant
                i <= self.fields@.len(),
                fields == fields_content(self.fields@),
                fields_bounded(fields, old(page)@.len()),
                page@ == fields_validated(fields, old(page)@, i as nat),
                errored <==> fields_parsed(fields, old(page)@, i as nat) is None,
                !errored ==> fields_parsed(fields, old(page)@, i as nat) == Some(views_of(values@)),
            decreases self.fields@.len() - i,
        {
            proof {
                lemma_fields_validated_entries(fields, old(page)@, i as nat);
                lemma_parsed_entries(fields[i as int].form, old(page)@, page@);
            }
            let ghost before = views_of(values@);
            match self.fields[i].form.parse(page) {
                Ok(v) => {
                    if !errored {
                        values.push(v);
                        assert(views_of(values@) =~= before.push(v@));
                    }
                },
                Err(_) => {
                    errored = true;
                },
            }
            i = i + 1;
        }
        if errored {
            return Err(());
        }
        return Ok(values);
    }

    /// Parse the elements into the struct's value: the values of its fields.
    pub fn parse(&self, page: &mut Page) -> (r: Result<Value, ()>)
        requires
            self@.bounded(old(page)@.len()),
        ensures
            is_parsed(r, self@.parsed(old(page)@)),
            final(page)@ == self@.validated(old(page)@),
        decreases self, 1nat,
    {
        match self.parse_fields(page) {
            Ok(values) => Ok(Value::Struct(values)),
            Err(_) => Err(()),
        }
    }

    /// Lets every field see an event on the widget `target`, in order.
    pub fn on_event(&mut self, page: &mut Page, target: El, event: &str)
        requires
            old(self)@.bounded(old(page)@.len()),
        ensures
            (final(self)@, final(page)@) == old(self)@.after_event(old(page)@, target, event@),
            final(self)@.bounded(final(page)@.len()),
            final(page)@.len() == old(page)@.len(),
        decreases *old(self),
    {
        let ghost fields = fields_content(self.fields@);
        let mut i: usize = 0;
        while i < self.fields.len()
            invariant
                i <= self.fields@.len(),
                self.fields@.len() == old(self).fields@.len(),
                fields == fields_content(old(self).fields@),
                forall|j: int| i <= j < self.fields@.len() ==> self.fields@[j] == old(self).fields@[j],
                (fields_content(self.fields@), page@) == fields_after_event(
                    fields,
                    old(page)@,
                    target,
                    event@,
                    i as nat,
                ),
                fields_bounded(fields_content(self.fields@), page@.len()),
                page@.len() == old(page)@.len(),
            decreases self.fields@.len() - i,
        {
            let ghost before = fields_content(self.fields@);
            assert(before[i as int].form.bounded(page@.len()));
            self.fields[i].form.on_event(page, target, event);
            proof {
                let field = FieldView { label: before[i as int].label, form: self.fields@[i as int].form@ };
                assert(fields_content(self.fields@) =~= before.update(i as int, field));
            }
            i = i + 1;
        }
    }
}

} // verus!
