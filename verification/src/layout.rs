//! Where the widgets of a form lie on its page.
//!
//! `new_form` creates the widgets of a form one after the other at the end of
//! the page. So a form owns a stretch of the page, its parts own stretches
//! within it that do not overlap, and no two handles of a form name the same
//! widget. `laid_out` states this; what follows from it is that one part of a
//! form cannot disturb another.

use vstd::prelude::*;
use crate::form::{
    field_elements, fields_after_event, fields_bounded, fields_elements, fields_parsed,
    fields_validated, variants_after_event, variants_bounded, FieldView, FormView, VariantBodyView,
    VariantView,
};
use crate::page::{El, ElementView};
use crate::frame::lemma_bounded_grows;
use crate::schema::all_elements;

verus! {

/// The position on the page at which the field at position `i` begins: the
/// beginning of the stretch for the first field, else right after the label
/// of the field before.
pub open spec fn field_start(fields: Seq<FieldView>, lo: nat, i: int) -> nat {
    if i <= 0 {
        lo
    } else {
        (fields[i - 1].label.index + 1) as nat
    }
}

/// Whether the first `n` fields lie in the stretch from `lo` to `hi`, one
/// after the other and the label of each right after its form.
pub open spec fn fields_laid_out(fields: Seq<FieldView>, lo: nat, hi: nat, n: nat) -> bool
    decreases fields, n,
{
    if n == 0 || n > fields.len() {
        hi == lo
    } else {
        let start = field_start(fields, lo, n - 1);
        let label = fields[n - 1].label.index as nat;
        &&& hi == label + 1
        &&& fields[n - 1].form.laid_out(start, label)
        &&& fields_laid_out(fields, lo, start, (n - 1) as nat)
    }
}

/// The position on the page at which the variant at position `i` begins: right
/// after the selector for the first variant, else right after the container
/// of the variant before.
pub open spec fn variant_start(variants: Seq<VariantView>, lo: nat, i: int) -> nat {
    if i <= 0 {
        lo
    } else {
        (variants[i - 1].container.index + 1) as nat
    }
}

/// Whether the first `n` variants lie in the stretch from `lo` to `hi`, one
/// after the other: for each its choice, its form, and its container.
pub open spec fn variants_laid_out(variants: Seq<VariantView>, lo: nat, hi: nat, n: nat) -> bool
    decreases variants, n,
{
    if n == 0 || n > variants.len() {
        hi == lo
    } else {
        let start = variant_start(variants, lo, n - 1);
        let container = variants[n - 1].container.index as nat;
        &&& hi == container + 1
        &&& variants[n - 1].body.laid_out(start + 1, container)
        &&& variants_laid_out(variants, lo, start, (n - 1) as nat)
    }
}

impl VariantBodyView {
    /// Whether the variant's forms lie in the stretch from `lo` to `hi`.
    pub open spec fn laid_out(self, lo: nat, hi: nat) -> bool
        decreases self,
    {
        match self {
            VariantBodyView::Unit => hi == lo,
            VariantBodyView::Single(form) => form.laid_out(lo, hi),
            VariantBodyView::Named(fields) => fields_laid_out(fields, lo, hi, fields.len()),
        }
    }
}

impl FormView {
    /// Whether the widgets of the form are those of the stretch of the page
    /// from `lo` up to, not including, `hi`, in the order in which `new_form`
    /// creates them.
    pub open spec fn laid_out(self, lo: nat, hi: nat) -> bool
        decreases self,
    {
        match self {
            FormView::FromStr { kind, el, error_el } => {
                &&& error_el.index == lo
                &&& el.index == lo + 1
                &&& hi == lo + 2
            },
            FormView::Bool { input } => input.index == lo && hi == lo + 1,
            FormView::Optional { elements, subform } => {
                &&& hi >= lo + 1
                &&& subform.laid_out(lo, (hi - 1) as nat)
                &&& elements == seq![El { index: (hi - 1) as usize }] + all_elements(*subform)
                &&& elements[0].index == hi - 1
            },
            FormView::Struct { fields } => fields_laid_out(fields, lo, hi, fields.len()),
            FormView::Enum { select, variants, current } => {
                &&& select.index == lo
                &&& variants_laid_out(variants, lo + 1, hi, variants.len())
            },
        }
    }
}

/// The stretch of fields does not end before it begins, and the fields begin
/// one after the other.
pub proof fn lemma_fields_order(fields: Seq<FieldView>, lo: nat, hi: nat, n: nat)
    requires
        fields_laid_out(fields, lo, hi, n),
        n <= fields.len(),
    ensures
        lo <= hi,
        forall|i: int|
            0 <= i < n ==> {
                &&& lo <= #[trigger] field_start(fields, lo, i) <= fields[i].label.index < hi
                &&& fields[i].form.laid_out(field_start(fields, lo, i), fields[i].label.index as nat)
            },
    decreases fields, n,
{
    if n > 0 {
        let start = field_start(fields, lo, n - 1);
        lemma_fields_order(fields, lo, start, (n - 1) as nat);
        lemma_order(fields[n - 1].form, start, fields[n - 1].label.index as nat);
    }
}

/// The stretch of variants does not end before it begins, and the variants
/// begin one after the other.
pub proof fn lemma_variants_order(variants: Seq<VariantView>, lo: nat, hi: nat, n: nat)
    requires
        variants_laid_out(variants, lo, hi, n),
        n <= variants.len(),
    ensures
        lo <= hi,
        forall|i: int|
            0 <= i < n ==> {
                &&& lo <= #[trigger] variant_start(variants, lo, i) < variants[i].container.index < hi
                &&& variants[i].body.laid_out(
                    variant_start(variants, lo, i) + 1,
                    variants[i].container.index as nat,
                )
            },
    decreases variants, n,
{
    if n > 0 {
        let start = variant_start(variants, lo, n - 1);
        lemma_variants_order(variants, lo, start, (n - 1) as nat);
        lemma_body_order(variants[n - 1].body, start + 1, variants[n - 1].container.index as nat);
    }
}

/// The stretch of a variant does not end before it begins.
pub proof fn lemma_body_order(body: VariantBodyView, lo: nat, hi: nat)
    requires
        body.laid_out(lo, hi),
    ensures
        lo <= hi,
    decreases body,
{
    match body {
        VariantBodyView::Unit => {},
        VariantBodyView::Single(form) => {
            lemma_order(*form, lo, hi);
        },
        VariantBodyView::Named(fields) => {
            lemma_fields_order(fields, lo, hi, fields.len());
        },
    }
}

/// The stretch of a form does not end before it begins.
pub proof fn lemma_order(form: FormView, lo: nat, hi: nat)
    requires
        form.laid_out(lo, hi),
    ensures
        lo <= hi,
    decreases form,
{
    match form {
        FormView::FromStr { kind, el, error_el } => {},
        FormView::Bool { input } => {},
        FormView::Optional { elements, subform } => {},
        FormView::Struct { fields } => {
            lemma_fields_order(fields, lo, hi, fields.len());
        },
        FormView::Enum { select, variants, current } => {
            lemma_variants_order(variants, lo + 1, hi, variants.len());
        },
    }
}

/// Whether every handle of `els` names a widget of the stretch from `lo` to
/// `hi`.
pub open spec fn all_within(els: Seq<El>, lo: nat, hi: nat) -> bool {
    forall|i: int| 0 <= i < els.len() ==> lo <= (#[trigger] els[i]).index < hi
}

/// The widgets that fields hand out lie in the fields' stretch, and the
/// handles of the fields name widgets of it.
pub proof fn lemma_fields_within(fields: Seq<FieldView>, lo: nat, hi: nat, n: nat)
    requires
        fields_laid_out(fields, lo, hi, n),
        n <= fields.len(),
    ensures
        all_within(fields_elements(fields, n), lo, hi),
        forall|i: int| 0 <= i < n ==> (#[trigger] fields[i]).label.index < hi && fields[i].form.bounded(hi),
    decreases fields, n,
{
    if n > 0 {
        let start = field_start(fields, lo, n - 1);
        let field = fields[n - 1];
        let label = field.label.index as nat;
        lemma_fields_within(fields, lo, start, (n - 1) as nat);
        lemma_fields_order(fields, lo, start, (n - 1) as nat);
        lemma_within(field.form, start, label);
        lemma_order(field.form, start, label);
        lemma_bounded_grows(field.form, label, hi);
        assert forall|i: int| 0 <= i < n implies (#[trigger] fields[i]).label.index < hi
            && fields[i].form.bounded(hi) by {
            if i < n - 1 {
                lemma_bounded_grows(fields[i].form, start, hi);
            }
        }
        let before = fields_elements(fields, (n - 1) as nat);
        let inner = field.form.elements();
        let own = field_elements(field);
        let all = fields_elements(fields, n);
        assert forall|i: int| 0 <= i < own.len() implies lo <= (#[trigger] own[i]).index < hi by {
            let shift: int = if inner.error is Some { 1 } else { 0 };
            if i > shift {
                assert(own[i] == inner.elements[i - shift - 1]);
            } else if i < shift {
                assert(own[i] == all_elements(field.form)[0]);
            }
        }
        assert forall|i: int| 0 <= i < all.len() implies lo <= (#[trigger] all[i]).index < hi by {
            if i >= before.len() {
                assert(all[i] == own[i - before.len()]);
            } else {
                assert(all[i] == before[i]);
            }
        }
    }
}

/// The handles of variants name widgets of the variants' stretch.
pub proof fn lemma_variants_within(variants: Seq<VariantView>, lo: nat, hi: nat, n: nat)
    requires
        variants_laid_out(variants, lo, hi, n),
        n <= variants.len(),
    ensures
        forall|i: int|
            0 <= i < n ==> lo <= (#[trigger] variants[i]).container.index < hi && variants[i].body.bounded(
                hi,
            ),
    decreases variants, n,
{
    if n > 0 {
        let start = variant_start(variants, lo, n - 1);
        let variant = variants[n - 1];
        let container = variant.container.index as nat;
        lemma_variants_within(variants, lo, start, (n - 1) as nat);
        lemma_variants_order(variants, lo, start, (n - 1) as nat);
        lemma_body_within(variant.body, start + 1, container);
        lemma_body_order(variant.body, start + 1, container);
        crate::frame::lemma_body_bounded_grows(variant.body, container, hi);
        assert forall|i: int| 0 <= i < n implies lo <= (#[trigger] variants[i]).container.index < hi
            && variants[i].body.bounded(hi) by {
            if i < n - 1 {
                crate::frame::lemma_body_bounded_grows(variants[i].body, start, hi);
            }
        }
    }
}

/// The handles of a variant name widgets of the variant's stretch.
pub proof fn lemma_body_within(body: VariantBodyView, lo: nat, hi: nat)
    requires
        body.laid_out(lo, hi),
    ensures
        body.bounded(hi),
    decreases body,
{
    match body {
        VariantBodyView::Unit => {},
        VariantBodyView::Single(form) => {
            lemma_within(*form, lo, hi);
        },
        VariantBodyView::Named(fields) => {
            lemma_fields_within(fields, lo, hi, fields.len());
            assert(fields_bounded(fields, hi));
        },
    }
}

/// The widgets that a form hands out lie in the form's stretch, and the
/// handles of the form name widgets of it.
pub proof fn lemma_within(form: FormView, lo: nat, hi: nat)
    requires
        form.laid_out(lo, hi),
    ensures
        form.bounded(hi),
        all_within(all_elements(form), lo, hi),
        all_within(form.elements().elements, lo, hi),
    decreases form,
{
    let handed = form.elements();
    let all = all_elements(form);
    match form {
        FormView::FromStr { kind, el, error_el } => {
            assert(handed.elements =~= seq![el]);
            assert(all =~= seq![error_el, el]);
        },
        FormView::Bool { input } => {
            assert(all =~= seq![input]);
        },
        FormView::Optional { elements, subform } => {
            lemma_within(*subform, lo, (hi - 1) as nat);
            lemma_bounded_grows(*subform, (hi - 1) as nat, hi);
            let inner = all_elements(*subform);
            assert forall|i: int| 0 <= i < elements.len() implies lo <= (#[trigger] elements[i]).index
                < hi by {
                if i > 0 {
                    assert(elements[i] == inner[i - 1]);
                }
            }
            assert(all =~= elements);
        },
        FormView::Struct { fields } => {
            lemma_fields_within(fields, lo, hi, fields.len());
            assert(fields_bounded(fields, hi));
            assert(all =~= fields_elements(fields, fields.len()));
        },
        FormView::Enum { select, variants, current } => {
            lemma_variants_within(variants, lo + 1, hi, variants.len());
            lemma_variants_order(variants, lo + 1, hi, variants.len());
            assert(variants_bounded(variants, hi));
            assert forall|i: int| 0 <= i < all.len() implies lo <= (#[trigger] all[i]).index < hi by {
                if i > 0 {
                    assert(all[i] == variants[i - 1].container);
                }
            }
        },
    }
}

/// Whether two pages have the same widgets outside the stretch from `lo` to
/// `hi`.
pub open spec fn same_outside(p: Seq<ElementView>, q: Seq<ElementView>, lo: nat, hi: nat) -> bool {
    &&& p.len() == q.len()
    &&& forall|i: int|
        #![trigger p[i]]
        #![trigger q[i]]
        0 <= i < p.len() && !(lo <= i < hi) ==> p[i] == q[i]
}

/// Whether two pages hold the same entries in the stretch from `lo` to `hi`:
/// what the user entered or chose, and which boxes are ticked.
pub open spec fn same_entries_within(p: Seq<ElementView>, q: Seq<ElementView>, lo: nat, hi: nat) -> bool {
    forall|i: int|
        #![trigger p[i]]
        #![trigger q[i]]
        lo <= i < hi ==> p[i].value == q[i].value && p[i].checked == q[i].checked
}

/// Asking a form for its value changes nothing outside the form's stretch.
pub proof fn lemma_validated_outside(form: FormView, lo: nat, hi: nat, page: Seq<ElementView>)
    requires
        form.laid_out(lo, hi),
        hi <= page.len(),
    ensures
        same_outside(page, form.validated(page), lo, hi),
    decreases form,
{
    match form {
        FormView::FromStr { kind, el, error_el } => {},
        FormView::Bool { input } => {},
        FormView::Optional { elements, subform } => {
            lemma_validated_outside(*subform, lo, (hi - 1) as nat, page);
        },
        FormView::Struct { fields } => {
            lemma_fields_validated_outside(fields, lo, hi, page, fields.len());
        },
        FormView::Enum { select, variants, current } => {
            if current < variants.len() {
                lemma_variants_order(variants, lo + 1, hi, variants.len());
                let start = variant_start(variants, lo + 1, current as int);
                lemma_body_validated_outside(
                    variants[current as int].body,
                    start + 1,
                    variants[current as int].container.index as nat,
                    page,
                );
            }
        },
    }
}

/// Asking a variant for its value changes nothing outside its stretch.
pub proof fn lemma_body_validated_outside(body: VariantBodyView, lo: nat, hi: nat, page: Seq<ElementView>)
    requires
        body.laid_out(lo, hi),
        hi <= page.len(),
    ensures
        same_outside(page, body.validated(page), lo, hi),
    decreases body,
{
    match body {
        VariantBodyView::Unit => {},
        VariantBodyView::Single(form) => {
            lemma_validated_outside(*form, lo, hi, page);
        },
        VariantBodyView::Named(fields) => {
            lemma_fields_validated_outside(fields, lo, hi, page, fields.len());
        },
    }
}

/// Asking fields for their values changes nothing outside their stretch.
pub proof fn lemma_fields_validated_outside(
    fields: Seq<FieldView>,
    lo: nat,
    hi: nat,
    page: Seq<ElementView>,
    n: nat,
)
    requires
        fields_laid_out(fields, lo, hi, n),
        n <= fields.len(),
        hi <= page.len(),
    ensures
        same_outside(page, fields_validated(fields, page, n), lo, hi),
    decreases fields, n,
{
    if n > 0 {
        let start = field_start(fields, lo, n - 1);
        let label = fields[n - 1].label.index as nat;
        lemma_order(fields[n - 1].form, start, label);
        lemma_fields_order(fields, lo, start, (n - 1) as nat);
        lemma_fields_validated_outside(fields, lo, start, page, (n - 1) as nat);
        let before = fields_validated(fields, page, (n - 1) as nat);
        lemma_validated_outside(fields[n - 1].form, start, label, before);
    }
}

/// An event on a widget outside the stretch of a form changes neither the
/// form nor the page.
pub proof fn lemma_after_event_outside(
    form: FormView,
    lo: nat,
    hi: nat,
    page: Seq<ElementView>,
    target: El,
    event: Seq<char>,
)
    requires
        form.laid_out(lo, hi),
        !(lo <= target.index < hi),
    ensures
        form.after_event(page, target, event) == (form, page),
    decreases form,
{
    match form {
        FormView::FromStr { kind, el, error_el } => {},
        FormView::Bool { input } => {},
        FormView::Optional { elements, subform } => {
            lemma_after_event_outside(*subform, lo, (hi - 1) as nat, page, target, event);
        },
        FormView::Struct { fields } => {
            lemma_fields_after_event_outside(fields, lo, hi, page, target, event, fields.len());
        },
        FormView::Enum { select, variants, current } => {
            lemma_variants_order(variants, lo + 1, hi, variants.len());
            lemma_variants_after_event_outside(variants, lo + 1, hi, page, target, event, variants.len());
        },
    }
}

/// As `lemma_after_event_outside`, for a variant.
pub proof fn lemma_body_after_event_outside(
    body: VariantBodyView,
    lo: nat,
    hi: nat,
    page: Seq<ElementView>,
    target: El,
    event: Seq<char>,
)
    requires
        body.laid_out(lo, hi),
        !(lo <= target.index < hi),
    ensures
        body.after_event(page, target, event) == (body, page),
    decreases body,
{
    match body {
        VariantBodyView::Unit => {},
        VariantBodyView::Single(form) => {
            lemma_after_event_outside(*form, lo, hi, page, target, event);
        },
        VariantBodyView::Named(fields) => {
            lemma_fields_after_event_outside(fields, lo, hi, page, target, event, fields.len());
        },
    }
}

/// As `lemma_after_event_outside`, for fields.
pub proof fn lemma_fields_after_event_outside(
    fields: Seq<FieldView>,
    lo: nat,
    hi: nat,
    page: Seq<ElementView>,
    target: El,
    event: Seq<char>,
    n: nat,
)
    requires
        fields_laid_out(fields, lo, hi, n),
        n <= fields.len(),
        !(lo <= target.index < hi),
    ensures
        fields_after_event(fields, page, target, event, n) == (fields, page),
    decreases fields, n,
{
    if n > 0 {
        let start = field_start(fields, lo, n - 1);
        let label = fields[n - 1].label.index as nat;
        lemma_order(fields[n - 1].form, start, label);
        lemma_fields_order(fields, lo, start, (n - 1) as nat);
        lemma_fields_after_event_outside(fields, lo, start, page, target, event, (n - 1) as nat);
        lemma_after_event_outside(fields[n - 1].form, start, label, page, target, event);
        assert(fields.update(n - 1, fields[n - 1]) =~= fields);
    }
}

/// As `lemma_after_event_outside`, for variants.
pub proof fn lemma_variants_after_event_outside(
    variants: Seq<VariantView>,
    lo: nat,
    hi: nat,
    page: Seq<ElementView>,
    target: El,
    event: Seq<char>,
    n: nat,
)
    requires
        variants_laid_out(variants, lo, hi, n),
        n <= variants.len(),
        !(lo <= target.index < hi),
    ensures
        variants_after_event(variants, page, target, event, n) == (variants, page),
    decreases variants, n,
{
    if n > 0 {
        let start = variant_start(variants, lo, n - 1);
        let container = variants[n - 1].container.index as nat;
        lemma_body_order(variants[n - 1].body, start + 1, container);
        lemma_variants_order(variants, lo, start, (n - 1) as nat);
        lemma_variants_after_event_outside(variants, lo, start, page, target, event, (n - 1) as nat);
        lemma_body_after_event_outside(variants[n - 1].body, start + 1, container, page, target, event);
        assert(variants.update(n - 1, variants[n - 1]) =~= variants);
    }
}

/// The value of a form depends on the entries in its own stretch alone.
pub proof fn lemma_parsed_within(form: FormView, lo: nat, hi: nat, p: Seq<ElementView>, q: Seq<ElementView>)
    requires
        form.laid_out(lo, hi),
        same_entries_within(p, q, lo, hi),
    ensures
        form.parsed(p) == form.parsed(q),
    decreases form,
{
    match form {
        FormView::FromStr { kind, el, error_el } => {},
        FormView::Bool { input } => {},
        FormView::Optional { elements, subform } => {
            lemma_parsed_within(*subform, lo, (hi - 1) as nat, p, q);
        },
        FormView::Struct { fields } => {
            lemma_fields_parsed_within(fields, lo, hi, p, q, fields.len());
        },
        FormView::Enum { select, variants, current } => {
            if current < variants.len() {
                lemma_variants_order(variants, lo + 1, hi, variants.len());
                let start = variant_start(variants, lo + 1, current as int);
                lemma_body_parsed_within(
                    variants[current as int].body,
                    current,
                    start + 1,
                    variants[current as int].container.index as nat,
                    p,
                    q,
                );
            }
        },
    }
}

/// The value of a variant depends on the entries in its own stretch alone.
pub proof fn lemma_body_parsed_within(
    body: VariantBodyView,
    index: nat,
    lo: nat,
    hi: nat,
    p: Seq<ElementView>,
    q: Seq<ElementView>,
)
    requires
        body.laid_out(lo, hi),
        same_entries_within(p, q, lo, hi),
    ensures
        body.parsed(index, p) == body.parsed(index, q),
    decreases body,
{
    match body {
        VariantBodyView::Unit => {},
        VariantBodyView::Single(form) => {
            lemma_parsed_within(*form, lo, hi, p, q);
        },
        VariantBodyView::Named(fields) => {
            lemma_fields_parsed_within(fields, lo, hi, p, q, fields.len());
        },
    }
}

/// The values of fields depend on the entries in their own stretch alone.
pub proof fn lemma_fields_parsed_within(
    fields: Seq<FieldView>,
    lo: nat,
    hi: nat,
    p: Seq<ElementView>,
    q: Seq<ElementView>,
    n: nat,
)
    requires
        fields_laid_out(fields, lo, hi, n),
        n <= fields.len(),
        same_entries_within(p, q, lo, hi),
    ensures
        fields_parsed(fields, p, n) == fields_parsed(fields, q, n),
    decreases fields, n,
{
    if n > 0 {
        let start = field_start(fields, lo, n - 1);
        let label = fields[n - 1].label.index as nat;
        lemma_order(fields[n - 1].form, start, label);
        lemma_fields_order(fields, lo, start, (n - 1) as nat);
        lemma_fields_parsed_within(fields, lo, start, p, q, (n - 1) as nat);
        lemma_parsed_within(fields[n - 1].form, start, label, p, q);
    }
}

} // verus!
