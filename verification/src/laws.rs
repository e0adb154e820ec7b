//! What holds of every form.
//!
//! - Round trip: a form whose widgets hold a value gives that value
//!   (`law_round_trip`).
//! - A form can be asked again with the same outcome (`law_parse_again`).
//! - One invalid field of a struct form fails the form and shows its error
//!   in its own error slot alone (`law_one_invalid_field`).
//! - An optional form that is disabled gives an absent value whatever its
//!   subform holds (`law_optional`).
//! - An enum form never fails for what an inactive variant holds
//!   (`law_inactive_variants`).
//! - Switching to another variant and back loses nothing
//!   (`law_switch_and_back`).
//!
//! That no event ever changes an entry is `frame::law_events_keep_entries`.
//! What holds of a form that was just made is in the module `fresh`.

use vstd::prelude::*;
use crate::form::{
    containers, error_text, fields_parsed, fields_validated, only_shown, FieldView, FormView,
    VariantBodyView, VariantView,
};
use crate::frame::{
    lemma_bounded_grows, lemma_fields_validated_entries, lemma_parsed_entries, lemma_validated_entries,
};
use crate::layout::{
    field_start, fields_laid_out, lemma_body_order, lemma_body_parsed_within, lemma_fields_order,
    lemma_fields_validated_outside, lemma_fields_within, lemma_validated_outside,
    lemma_variants_after_event_outside, lemma_variants_order, same_entries_within, same_outside,
    variant_start, variants_laid_out,
};
use crate::page::{lemma_without_class, replaced, El, ElementView};
use crate::scalar::{
    lemma_int_round_trip, lemma_scalar_round_trip, scalar_of_text, text_of_int, text_of_scalar,
};
use crate::style::CSS_CLASS_HIDDEN;
use crate::value::ValueView;

verus! {

/// Whether the first `n` fields show the first `n` of `values`, one each.
pub open spec fn fields_show(
    fields: Seq<FieldView>,
    page: Seq<ElementView>,
    values: Seq<ValueView>,
    n: nat,
) -> bool
    decreases fields, n,
{
    if n == 0 || n > fields.len() || n > values.len() {
        n == 0
    } else {
        fields_show(fields, page, values, (n - 1) as nat) && fields[n - 1].form.shows(page, values[n - 1])
    }
}

impl VariantBodyView {
    /// Whether the widgets of the variant at position `index` hold `value`.
    pub open spec fn shows(self, index: nat, page: Seq<ElementView>, value: ValueView) -> bool
        decreases self,
    {
        match self {
            VariantBodyView::Unit => value == ValueView::Unit(index),
            VariantBodyView::Single(form) => value matches ValueView::Single(i, inner) && i == index
                && form.shows(page, *inner),
            VariantBodyView::Named(fields) => value matches ValueView::Named(i, values) && i == index
                && values.len() == fields.len() && fields_show(fields, page, values, fields.len()),
        }
    }
}

impl FormView {
    /// Whether the widgets of the form hold `value`, written as the form
    /// expects it: a scalar as its text in the text entry, a `bool` as the
    /// tick of the checkbox, an absent value as a clear enable checkbox, a
    /// present one as a ticked enable checkbox and the value in the subform,
    /// a struct field by field, and an enum value as the active variant and
    /// what the variant holds in the variant's own widgets.
    pub open spec fn shows(self, page: Seq<ElementView>, value: ValueView) -> bool
        decreases self,
    {
        match self {
            FormView::FromStr { kind, el, error_el } => kind.holds(value) && page[el.index as int].value
                == text_of_scalar(value),
            FormView::Bool { input } => value == ValueView::Bool(page[input.index as int].checked),
            FormView::Optional { elements, subform } => match value {
                ValueView::Optional(None) => !page[elements[0].index as int].checked,
                ValueView::Optional(Some(inner)) => page[elements[0].index as int].checked
                    && subform.shows(page, *inner),
                _ => false,
            },
            FormView::Struct { fields } => value matches ValueView::Struct(values) && values.len()
                == fields.len() && fields_show(fields, page, values, fields.len()),
            FormView::Enum { select, variants, current } => current < variants.len()
                && variants[current as int].body.shows(current, page, value),
        }
    }
}

/// Fields that show values have these values.
pub proof fn lemma_fields_round_trip(
    fields: Seq<FieldView>,
    page: Seq<ElementView>,
    values: Seq<ValueView>,
    n: nat,
)
    requires
        n <= fields.len(),
        n <= values.len(),
        fields_show(fields, page, values, n),
    ensures
        fields_parsed(fields, page, n) == Some(values.subrange(0, n as int)),
    decreases fields, n,
{
    if n > 0 {
        lemma_fields_round_trip(fields, page, values, (n - 1) as nat);
        law_round_trip(fields[n - 1].form, page, values[n - 1]);
        assert(values.subrange(0, n - 1).push(values[n - 1]) =~= values.subrange(0, n as int));
    } else {
        assert(values.subrange(0, 0) =~= Seq::<ValueView>::empty());
    }
}

/// A variant that shows a value has this value.
pub proof fn lemma_body_round_trip(
    body: VariantBodyView,
    index: nat,
    page: Seq<ElementView>,
    value: ValueView,
)
    requires
        body.shows(index, page, value),
    ensures
        body.parsed(index, page) == Some(value),
    decreases body,
{
    match body {
        VariantBodyView::Unit => {},
        VariantBodyView::Single(form) => {
            law_round_trip(*form, page, *value->Single_1);
        },
        VariantBodyView::Named(fields) => {
            let values = value->Named_1;
            lemma_fields_round_trip(fields, page, values, fields.len());
            assert(values.subrange(0, fields.len() as int) =~= values);
        },
    }
}

/// Round trip. Where the widgets of a form hold a value of the form's type,
/// written as the form expects it, asking the form gives exactly that value:
/// for every kind of form, however deep, and whatever else the page holds.
pub proof fn law_round_trip(form: FormView, page: Seq<ElementView>, value: ValueView)
    requires
        form.shows(page, value),
    ensures
        form.parsed(page) == Some(value),
    decreases form,
{
    match form {
        FormView::FromStr { kind, el, error_el } => {
            lemma_scalar_round_trip(kind, value);
        },
        FormView::Bool { input } => {},
        FormView::Optional { elements, subform } => {
            match value {
                ValueView::Optional(Some(inner)) => {
                    law_round_trip(*subform, page, *inner);
                },
                _ => {},
            }
        },
        FormView::Struct { fields } => {
            let values = value->Struct_0;
            lemma_fields_round_trip(fields, page, values, fields.len());
            assert(values.subrange(0, fields.len() as int) =~= values);
        },
        FormView::Enum { select, variants, current } => {
            lemma_body_round_trip(variants[current as int].body, current, page, value);
        },
    }
}

/// A form can be asked again. Asking a form for its value changes no entry,
/// so asking again gives the same outcome: a failure corrupts nothing, and a
/// value is never remembered from one call to the next.
pub proof fn law_parse_again(form: FormView, page: Seq<ElementView>)
    requires
        form.bounded(page.len()),
    ensures
        form.parsed(form.validated(page)) == form.parsed(page),
{
    lemma_validated_entries(form, page);
    lemma_parsed_entries(form, page, form.validated(page));
}

/// An optional form whose enable checkbox is clear gives an absent value and
/// touches no widget, whatever its hidden subform holds, valid or not. One
/// whose checkbox is ticked fails exactly when its subform fails.
pub proof fn law_optional(elements: Seq<El>, subform: FormView, page: Seq<ElementView>)
    ensures
        ({
            let form = FormView::Optional { elements, subform: Box::new(subform) };
            let checked = page[elements[0].index as int].checked;
            &&& !checked ==> form.parsed(page) == Some(ValueView::Optional(None)) && form.validated(page)
                == page
            &&& checked ==> (form.parsed(page) is None <==> subform.parsed(page) is None)
        }),
{
}

/// An enum form never fails for what a variant other than the active one
/// holds. Its value is that of the active variant, and two pages that hold
/// the same entries in the widgets of the active variant give the same
/// outcome, whatever they hold elsewhere.
pub proof fn law_inactive_variants(
    select: El,
    variants: Seq<VariantView>,
    current: nat,
    lo: nat,
    hi: nat,
    p: Seq<ElementView>,
    q: Seq<ElementView>,
)
    requires
        (FormView::Enum { select, variants, current }).laid_out(lo, hi),
        current < variants.len(),
        same_entries_within(
            p,
            q,
            variant_start(variants, lo + 1, current as int) + 1,
            variants[current as int].container.index as nat,
        ),
    ensures
        ({
            let form = FormView::Enum { select, variants, current };
            &&& form.parsed(p) == variants[current as int].body.parsed(current, p)
            &&& form.parsed(p) == form.parsed(q)
        }),
{
    lemma_variants_order(variants, lo + 1, hi, variants.len());
    lemma_body_parsed_within(
        variants[current as int].body,
        current,
        variant_start(variants, lo + 1, current as int) + 1,
        variants[current as int].container.index as nat,
        p,
        q,
    );
}

/// A field that fails makes the fields fail.
pub proof fn lemma_fields_fail(fields: Seq<FieldView>, page: Seq<ElementView>, bad: int, n: nat)
    requires
        0 <= bad < n <= fields.len(),
        fields[bad].form.parsed(page) is None,
    ensures
        fields_parsed(fields, page, n) is None,
    decreases n,
{
    if bad < n - 1 {
        lemma_fields_fail(fields, page, bad, (n - 1) as nat);
    }
}

/// Fields begin one after the other.
pub proof fn lemma_field_starts(fields: Seq<FieldView>, lo: nat, hi: nat, n: nat, a: int, b: int)
    requires
        fields_laid_out(fields, lo, hi, n),
        n <= fields.len(),
        0 <= a <= b < n,
    ensures
        field_start(fields, lo, a) <= field_start(fields, lo, b),
    decreases b - a,
{
    if a < b {
        lemma_fields_order(fields, lo, hi, n);
        lemma_field_starts(fields, lo, hi, n, a + 1, b);
        assert(field_start(fields, lo, a) <= fields[a].label.index);
    }
}

/// Asking the fields from position `m` on leaves every widget before them as
/// the fields before `m` left it.
pub proof fn lemma_fields_validated_before(
    fields: Seq<FieldView>,
    lo: nat,
    hi: nat,
    page: Seq<ElementView>,
    m: nat,
    n: nat,
    at: int,
)
    requires
        fields_laid_out(fields, lo, hi, n),
        m <= n <= fields.len(),
        hi <= page.len(),
        m < n ==> 0 <= at < field_start(fields, lo, m as int),
        0 <= at < page.len(),
    ensures
        fields_validated(fields, page, n).len() == page.len(),
        fields_validated(fields, page, n)[at] == fields_validated(fields, page, m)[at],
    decreases n,
{
    lemma_fields_validated_outside(fields, lo, hi, page, n);
    if m < n {
        let start = field_start(fields, lo, n - 1);
        let label = fields[n - 1].label.index as nat;
        lemma_fields_order(fields, lo, hi, n);
        lemma_field_starts(fields, lo, hi, n, m as int, n - 1);
        lemma_fields_validated_before(fields, lo, start, page, m, (n - 1) as nat, at);
        let before = fields_validated(fields, page, (n - 1) as nat);
        lemma_validated_outside(fields[n - 1].form, start, label, before);
    }
}

/// One invalid field. Where exactly one field of a struct form holds an
/// entry that is no value of its type, the form fails; and after it was
/// asked, of the error slots of its text entries that of the invalid field
/// shows an error and every other is empty.
pub proof fn law_one_invalid_field(
    fields: Seq<FieldView>,
    lo: nat,
    hi: nat,
    page: Seq<ElementView>,
    bad: int,
)
    requires
        fields_laid_out(fields, lo, hi, fields.len()),
        hi <= page.len(),
        0 <= bad < fields.len(),
        fields[bad].form.parsed(page) is None,
        forall|i: int| 0 <= i < fields.len() && i != bad ==> (#[trigger] fields[i]).form.parsed(page) is Some,
    ensures
        ({
            let form = FormView::Struct { fields };
            let after = form.validated(page);
            &&& form.parsed(page) is None
            &&& forall|i: int|
                0 <= i < fields.len() && (#[trigger] fields[i]).form is FromStr ==> (
                after[fields[i].form->error_el.index as int].text.len() > 0 <==> i == bad)
        }),
{
    let form = FormView::Struct { fields };
    let after = form.validated(page);
    let n = fields.len();
    lemma_fields_fail(fields, page, bad, n);
    lemma_fields_order(fields, lo, hi, n);
    lemma_fields_within(fields, lo, hi, n);
    assert forall|i: int| 0 <= i < n && (#[trigger] fields[i]).form is FromStr implies (
    after[fields[i].form->error_el.index as int].text.len() > 0 <==> i == bad) by {
        let field = fields[i].form;
        let slot = field->error_el.index as int;
        let start = field_start(fields, lo, i);
        let label = fields[i].label.index as nat;
        let before = fields_validated(fields, page, i as nat);
        let asked = fields_validated(fields, page, (i + 1) as nat);
        assert(asked == field.validated(before));
        assert forall|k: int| 0 <= k < n implies (#[trigger] fields[k]).label.index < page.len()
            && fields[k].form.bounded(page.len()) by {
            lemma_bounded_grows(fields[k].form, hi, page.len());
        }
        lemma_fields_validated_entries(fields, page, i as nat);
        assert(before[field->el.index as int].value == page[field->el.index as int].value);
        assert(asked[slot].text == error_text(field->kind, page[field->el.index as int].value));
        lemma_fields_validated_before(fields, lo, hi, page, (i + 1) as nat, n, slot);
        match scalar_of_text(field->kind, page[field->el.index as int].value) {
            Ok(_) => {},
            Err(e) => {
                e.lemma_message_not_empty();
            },
        }
    }
}

/// The page after the user chose `value` in the selector `select`.
pub open spec fn with_value(page: Seq<ElementView>, el: El, value: Seq<char>) -> Seq<ElementView> {
    replaced(page, el.index as int, page[el.index as int].set_value(value))
}

/// Each variant takes at least two widgets of the page: its choice and its
/// container.
pub proof fn lemma_variants_count(variants: Seq<VariantView>, lo: nat, hi: nat, n: nat)
    requires
        variants_laid_out(variants, lo, hi, n),
        n <= variants.len(),
    ensures
        lo + 2 * n <= hi,
    decreases n,
{
    if n > 0 {
        let start = variant_start(variants, lo, n - 1);
        lemma_variants_count(variants, lo, start, (n - 1) as nat);
        lemma_body_order(variants[n - 1].body, start + 1, variants[n - 1].container.index as nat);
    }
}

/// Showing one container of the first `n` and hiding the others changes the
/// classes of these containers and nothing else; after it, of these
/// containers exactly the one at position `index` is not hidden.
pub proof fn lemma_only_shown(
    page: Seq<ElementView>,
    variants: Seq<VariantView>,
    lo: nat,
    hi: nat,
    index: nat,
    n: nat,
)
    requires
        variants_laid_out(variants, lo, hi, n),
        n <= variants.len(),
        hi <= page.len(),
    ensures
        only_shown(page, containers(variants), index, n).len() == page.len(),
        forall|i: int|
            0 <= i < page.len() ==> (#[trigger] only_shown(page, containers(variants), index, n)[i])
                == (ElementView {
                classes: only_shown(page, containers(variants), index, n)[i].classes,
                ..page[i]
            }),
        forall|i: int|
            0 <= i < page.len() && !(lo <= i < hi) ==> #[trigger] only_shown(
                page,
                containers(variants),
                index,
                n,
            )[i] == page[i],
        forall|k: int|
            0 <= k < n ==> only_shown(page, containers(variants), index, n)[(
            #[trigger] variants[k]).container.index as int].hidden() == (k != index),
    decreases n,
{
    if n > 0 {
        let start = variant_start(variants, lo, n - 1);
        let at = variants[n - 1].container.index as int;
        lemma_variants_order(variants, lo, hi, n);
        lemma_variants_order(variants, lo, start, (n - 1) as nat);
        lemma_only_shown(page, variants, lo, start, index, (n - 1) as nat);
        let before = only_shown(page, containers(variants), index, (n - 1) as nat);
        let after = only_shown(page, containers(variants), index, n);
        assert(containers(variants)[n - 1] == variants[n - 1].container);
        assert(after == replaced(before, at, before[at].modify_class(CSS_CLASS_HIDDEN@, n - 1 != index)));
        lemma_without_class(before[at].classes, CSS_CLASS_HIDDEN@);
        assert forall|k: int| 0 <= k < n implies after[(#[trigger] variants[k]).container.index as int].hidden()
            == (k != index) by {
            if k < n - 1 {
                assert(variant_start(variants, lo, k) < variants[k].container.index < start);
                assert(after[variants[k].container.index as int] == before[variants[k].container.index as int]);
            } else {
                let classes = before[at].classes;
                assert(after[at] == before[at].modify_class(CSS_CLASS_HIDDEN@, n - 1 != index));
                if n - 1 != index {
                    if !classes.contains(CSS_CLASS_HIDDEN@) {
                        assert(classes.push(CSS_CLASS_HIDDEN@)[classes.len() as int] == CSS_CLASS_HIDDEN@);
                    }
                }
            }
        }
    }
}

/// Switching away and back. Choosing another variant of an enum form and
/// then the first one again leaves the form as it was: the first variant is
/// the active one, of all containers only its own is shown, every entry of
/// every variant is still what the user entered, and asking the form gives
/// what it gave before.
pub proof fn law_switch_and_back(
    select: El,
    variants: Seq<VariantView>,
    first: nat,
    other: nat,
    lo: nat,
    hi: nat,
    page: Seq<ElementView>,
)
    requires
        (FormView::Enum { select, variants, current: first }).laid_out(lo, hi),
        hi <= page.len() <= usize::MAX,
        first < variants.len(),
        other < variants.len(),
    ensures
        ({
            let form = FormView::Enum { select, variants, current: first };
            let (away, page1) = form.after_event(
                with_value(page, select, text_of_int(other as int)),
                select,
                "change"@,
            );
            let (back, page2) = away.after_event(
                with_value(page1, select, text_of_int(first as int)),
                select,
                "change"@,
            );
            &&& away == FormView::Enum { select, variants, current: other }
            &&& back == form
            &&& same_entries_within(page, page2, lo + 1, hi)
            &&& same_outside(page, page2, lo, hi)
            &&& back.parsed(page2) == form.parsed(page)
            &&& forall|k: int|
                0 <= k < variants.len() ==> page2[(#[trigger] variants[k]).container.index as int].hidden()
                    == (k != first)
        }),
{
    let form = FormView::Enum { select, variants, current: first };
    let n = variants.len();
    lemma_variants_count(variants, lo + 1, hi, n);
    lemma_variants_order(variants, lo + 1, hi, n);
    lemma_int_round_trip(other as int, 0, 0xffff_ffff_ffff_ffff);
    lemma_int_round_trip(first as int, 0, 0xffff_ffff_ffff_ffff);
    let page_a = with_value(page, select, text_of_int(other as int));
    let page_b = only_shown(page_a, containers(variants), other, n);
    lemma_only_shown(page_a, variants, lo + 1, hi, other, n);
    lemma_variants_after_event_outside(variants, lo + 1, hi, page_b, select, "change"@, n);
    let (away, page1) = form.after_event(page_a, select, "change"@);
    assert(away == FormView::Enum { select, variants, current: other });
    assert(page1 == page_b);
    let page_c = with_value(page1, select, text_of_int(first as int));
    let page_d = only_shown(page_c, containers(variants), first, n);
    lemma_only_shown(page_c, variants, lo + 1, hi, first, n);
    lemma_variants_after_event_outside(variants, lo + 1, hi, page_d, select, "change"@, n);
    let (back, page2) = away.after_event(page_c, select, "change"@);
    assert(back == form);
    assert(page2 == page_d);
    assert(same_entries_within(page, page2, lo + 1, hi)) by {
        assert forall|i: int| lo + 1 <= i < hi implies #[trigger] page[i].value == page2[i].value && page[i].checked
            == page2[i].checked by {
            assert(page_a[i] == page[i]);
            assert(page_b[i].value == page_a[i].value);
            assert(page_c[i] == page_b[i]);
            assert(page_d[i].value == page_c[i].value);
        }
    }
    assert(same_outside(page, page2, lo, hi)) by {
        assert forall|i: int| 0 <= i < page.len() && !(lo <= i < hi) implies #[trigger] page[i] == page2[i] by {
            assert(page_a[i] == page[i]);
            assert(page_b[i] == page_a[i]);
            assert(page_c[i] == page_b[i]);
            assert(page_d[i] == page_c[i]);
        }
    }
    lemma_body_parsed_within(
        variants[first as int].body,
        first,
        variant_start(variants, lo + 1, first as int) + 1,
        variants[first as int].container.index as nat,
        page,
        page2,
    );
}

} // verus!
