//! What asking a form for its value reads, and what it and events leave
//! alone.

use vstd::prelude::*;
use crate::form::{
    containers, field_elements, fields_after_event, fields_bounded, fields_elements, fields_parsed,
    fields_validated, only_shown, variants_after_event, variants_bounded, FieldView, FormView,
    VariantBodyView, VariantView,
};
use crate::page::{with_hidden, El, ElementView};

verus! {

/// A form whose handles are widgets of a page has them on every longer page.
pub proof fn lemma_bounded_grows(form: FormView, n: nat, m: nat)
    requires
        form.bounded(n),
        n <= m,
    ensures
        form.bounded(m),
    decreases form,
{
    match form {
        FormView::FromStr { kind, el, error_el } => {},
        FormView::Bool { input } => {},
        FormView::Optional { elements, subform } => {
            lemma_bounded_grows(*subform, n, m);
        },
        FormView::Struct { fields } => {
            lemma_fields_bounded_grow(fields, n, m);
        },
        FormView::Enum { select, variants, current } => {
            assert(variants_bounded(variants, n));
            assert forall|i: int| 0 <= i < variants.len() implies (#[trigger] variants[i]).container.index
                < m && variants[i].body.bounded(m) by {
                lemma_body_bounded_grows(variants[i].body, n, m);
            }
            assert(variants_bounded(variants, m));
        },
    }
}

/// As `lemma_bounded_grows`, for a variant.
pub proof fn lemma_body_bounded_grows(body: VariantBodyView, n: nat, m: nat)
    requires
        body.bounded(n),
        n <= m,
    ensures
        body.bounded(m),
    decreases body,
{
    match body {
        VariantBodyView::Unit => {},
        VariantBodyView::Single(form) => {
            lemma_bounded_grows(*form, n, m);
        },
        VariantBodyView::Named(fields) => {
            lemma_fields_bounded_grow(fields, n, m);
        },
    }
}

/// As `lemma_bounded_grows`, for fields.
pub proof fn lemma_fields_bounded_grow(fields: Seq<FieldView>, n: nat, m: nat)
    requires
        fields_bounded(fields, n),
        n <= m,
    ensures
        fields_bounded(fields, m),
    decreases fields,
{
    assert forall|i: int| 0 <= i < fields.len() implies (#[trigger] fields[i]).label.index < m
        && fields[i].form.bounded(m) by {
        lemma_bounded_grows(fields[i].form, n, m);
    }
}

/// The widgets that a form hands out are widgets of the page.
pub proof fn lemma_elements_bounded(form: FormView, n: nat)
    requires
        form.bounded(n),
    ensures
        form.elements().error matches Some(e) ==> e.index < n,
        forall|i: int|
            0 <= i < form.elements().elements.len() ==> (#[trigger] form.elements().elements[i]).index < n,
    decreases form,
{
    let all = form.elements().elements;
    match form {
        FormView::FromStr { kind, el, error_el } => {
            assert(all =~= seq![el]);
        },
        FormView::Bool { input } => {
            assert(all =~= seq![input]);
        },
        FormView::Optional { elements, subform } => {
            assert(all =~= elements);
        },
        FormView::Struct { fields } => {
            lemma_fields_elements_bounded(fields, n, fields.len());
            assert(all == fields_elements(fields, fields.len()));
        },
        FormView::Enum { select, variants, current } => {
            assert(variants_bounded(variants, n));
            assert forall|i: int| 0 <= i < all.len() implies (#[trigger] all[i]).index < n by {
                if i > 0 {
                    assert(all[i] == variants[i - 1].container);
                }
            }
        },
    }
}

/// The widgets that fields hand out are widgets of the page.
pub proof fn lemma_fields_elements_bounded(fields: Seq<FieldView>, n: nat, k: nat)
    requires
        fields_bounded(fields, n),
        k <= fields.len(),
    ensures
        forall|i: int|
            0 <= i < fields_elements(fields, k).len() ==> (#[trigger] fields_elements(fields, k)[i]).index
                < n,
    decreases fields, k,
{
    if k > 0 {
        lemma_fields_elements_bounded(fields, n, (k - 1) as nat);
        lemma_elements_bounded(fields[k - 1].form, n);
        let before = fields_elements(fields, (k - 1) as nat);
        let field = fields[k - 1];
        let own = field_elements(field);
        let inner = field.form.elements();
        let all = fields_elements(fields, k);
        assert forall|i: int| 0 <= i < own.len() implies (#[trigger] own[i]).index < n by {
            let shift: int = if inner.error is Some { 1 } else { 0 };
            if i > shift {
                assert(own[i] == inner.elements[i - shift - 1]);
            }
        }
        assert forall|i: int| 0 <= i < all.len() implies (#[trigger] all[i]).index < n by {
            if i >= before.len() {
                assert(all[i] == own[i - before.len()]);
            }
        }
    }
}

/// Whether two pages have the same widgets with the same entries: what the
/// user entered or chose, and which boxes are ticked.
pub open spec fn same_entries(p: Seq<ElementView>, q: Seq<ElementView>) -> bool {
    &&& p.len() == q.len()
    &&& forall|i: int|
        #![trigger p[i]]
        #![trigger q[i]]
        0 <= i < p.len() ==> p[i].value == q[i].value && p[i].checked == q[i].checked
}

/// Asking a form for its value changes no entry.
pub proof fn lemma_validated_entries(form: FormView, page: Seq<ElementView>)
    requires
        form.bounded(page.len()),
    ensures
        same_entries(page, form.validated(page)),
    decreases form,
{
    match form {
        FormView::FromStr { kind, el, error_el } => {},
        FormView::Bool { input } => {},
        FormView::Optional { elements, subform } => {
            lemma_validated_entries(*subform, page);
        },
        FormView::Struct { fields } => {
            lemma_fields_validated_entries(fields, page, fields.len());
        },
        FormView::Enum { select, variants, current } => {
            if current < variants.len() {
                assert(variants_bounded(variants, page.len()));
                assert(variants[current as int].body.bounded(page.len()));
                lemma_body_validated_entries(variants[current as int].body, page);
            }
        },
    }
}

/// Asking a variant for its value changes no entry.
pub proof fn lemma_body_validated_entries(body: VariantBodyView, page: Seq<ElementView>)
    requires
        body.bounded(page.len()),
    ensures
        same_entries(page, body.validated(page)),
    decreases body,
{
    match body {
        VariantBodyView::Unit => {},
        VariantBodyView::Single(form) => {
            lemma_validated_entries(*form, page);
        },
        VariantBodyView::Named(fields) => {
            lemma_fields_validated_entries(fields, page, fields.len());
        },
    }
}

/// Asking fields for their values changes no entry.
pub proof fn lemma_fields_validated_entries(fields: Seq<FieldView>, page: Seq<ElementView>, n: nat)
    requires
        fields_bounded(fields, page.len()),
        n <= fields.len(),
    ensures
        same_entries(page, fields_validated(fields, page, n)),
    decreases fields, n,
{
    if n > 0 {
        lemma_fields_validated_entries(fields, page, (n - 1) as nat);
        let before = fields_validated(fields, page, (n - 1) as nat);
        lemma_validated_entries(fields[n - 1].form, before);
    }
}

/// The value of a form depends on the entries alone.
pub proof fn lemma_parsed_entries(form: FormView, p: Seq<ElementView>, q: Seq<ElementView>)
    requires
        form.bounded(p.len()),
        same_entries(p, q),
    ensures
        form.parsed(p) == form.parsed(q),
    decreases form,
{
    match form {
        FormView::FromStr { kind, el, error_el } => {},
        FormView::Bool { input } => {},
        FormView::Optional { elements, subform } => {
            lemma_parsed_entries(*subform, p, q);
        },
        FormView::Struct { fields } => {
            lemma_fields_parsed_entries(fields, p, q, fields.len());
        },
        FormView::Enum { select, variants, current } => {
            if current < variants.len() {
                assert(variants_bounded(variants, p.len()));
                assert(variants[current as int].body.bounded(p.len()));
                lemma_body_parsed_entries(variants[current as int].body, current, p, q);
            }
        },
    }
}

/// The value of a variant depends on the entries alone.
pub proof fn lemma_body_parsed_entries(
    body: VariantBodyView,
    index: nat,
    p: Seq<ElementView>,
    q: Seq<ElementView>,
)
    requires
        body.bounded(p.len()),
        same_entries(p, q),
    ensures
        body.parsed(index, p) == body.parsed(index, q),
    decreases body,
{
    match body {
        VariantBodyView::Unit => {},
        VariantBodyView::Single(form) => {
            lemma_parsed_entries(*form, p, q);
        },
        VariantBodyView::Named(fields) => {
            lemma_fields_parsed_entries(fields, p, q, fields.len());
        },
    }
}

/// The values of fields depend on the entries alone.
pub proof fn lemma_fields_parsed_entries(
    fields: Seq<FieldView>,
    p: Seq<ElementView>,
    q: Seq<ElementView>,
    n: nat,
)
    requires
        fields_bounded(fields, p.len()),
        same_entries(p, q),
        n <= fields.len(),
    ensures
        fields_parsed(fields, p, n) == fields_parsed(fields, q, n),
    decreases fields, n,
{
    if n > 0 {
        lemma_fields_parsed_entries(fields, p, q, (n - 1) as nat);
        lemma_parsed_entries(fields[n - 1].form, p, q);
    }
}

/// Marking widgets as hidden or shown changes no entry.
pub proof fn lemma_with_hidden_entries(page: Seq<ElementView>, els: Seq<El>, hidden: bool, n: nat)
    ensures
        same_entries(page, with_hidden(page, els, hidden, n)),
    decreases n,
{
    if n > 0 && n <= els.len() {
        lemma_with_hidden_entries(page, els, hidden, (n - 1) as nat);
    }
}

/// Showing one container and hiding the others changes no entry.
pub proof fn lemma_only_shown_entries(page: Seq<ElementView>, shown: Seq<El>, index: nat, n: nat)
    ensures
        same_entries(page, only_shown(page, shown, index, n)),
    decreases n,
{
    if n > 0 && n <= shown.len() {
        lemma_only_shown_entries(page, shown, index, (n - 1) as nat);
    }
}

/// Entries persist. No event changes what the user entered or chose, or
/// which boxes are ticked, in any widget, shown or hidden: handlers show,
/// hide and report, and never clear. Nor does an event change which widgets
/// the form hands out.
pub proof fn law_events_keep_entries(
    form: FormView,
    page: Seq<ElementView>,
    target: El,
    event: Seq<char>,
)
    ensures
        same_entries(page, form.after_event(page, target, event).1),
        form.after_event(page, target, event).0.elements() == form.elements(),
    decreases form,
{
    match form {
        FormView::FromStr { kind, el, error_el } => {},
        FormView::Bool { input } => {},
        FormView::Optional { elements, subform } => {
            let rest = elements.subrange(1, elements.len() as int);
            lemma_with_hidden_entries(page, rest, !page[elements[0].index as int].checked, rest.len());
            let page1 = if target == elements[0] && event == "click"@ {
                FormView::after_click(elements, page)
            } else {
                page
            };
            law_events_keep_entries(*subform, page1, target, event);
        },
        FormView::Struct { fields } => {
            lemma_fields_events_keep_entries(fields, page, target, event, fields.len());
            let after = fields_after_event(fields, page, target, event, fields.len()).0;
            lemma_fields_elements_same(fields, after, fields.len());
        },
        FormView::Enum { select, variants, current } => {
            lemma_only_shown_entries(page, containers(variants), 0, variants.len());
            let (active, page1) = if target == select && event == "change"@ {
                FormView::after_select(select, variants, current, page)
            } else {
                (current, page)
            };
            if target == select && event == "change"@ {
                match crate::form::chosen(page[select.index as int].value, variants.len()) {
                    Some(index) => {
                        lemma_only_shown_entries(page, containers(variants), index, variants.len());
                    },
                    None => {},
                }
            }
            lemma_variants_events_keep_entries(variants, page1, target, event, variants.len());
            let after = variants_after_event(variants, page1, target, event, variants.len()).0;
            assert(containers(after) =~= containers(variants));
        },
    }
}

/// The widgets that fields hand out depend on the labels and on the widgets
/// that the forms of the fields hand out.
pub proof fn lemma_fields_elements_same(a: Seq<FieldView>, b: Seq<FieldView>, n: nat)
    requires
        n <= a.len(),
        n <= b.len(),
        forall|i: int|
            0 <= i < n ==> (#[trigger] a[i]).label == b[i].label && a[i].form.elements() == b[i].form.elements(),
    ensures
        fields_elements(a, n) == fields_elements(b, n),
    decreases n,
{
    if n > 0 {
        lemma_fields_elements_same(a, b, (n - 1) as nat);
        assert(a[n - 1].label == b[n - 1].label);
        assert(field_elements(a[n - 1]) == field_elements(b[n - 1]));
    }
}

/// As `law_events_keep_entries`, for a variant.
pub proof fn lemma_body_events_keep_entries(
    body: VariantBodyView,
    page: Seq<ElementView>,
    target: El,
    event: Seq<char>,
)
    ensures
        same_entries(page, body.after_event(page, target, event).1),
    decreases body,
{
    match body {
        VariantBodyView::Unit => {},
        VariantBodyView::Single(form) => {
            law_events_keep_entries(*form, page, target, event);
        },
        VariantBodyView::Named(fields) => {
            lemma_fields_events_keep_entries(fields, page, target, event, fields.len());
        },
    }
}

/// As `law_events_keep_entries`, for fields.
pub proof fn lemma_fields_events_keep_entries(
    fields: Seq<FieldView>,
    page: Seq<ElementView>,
    target: El,
    event: Seq<char>,
    n: nat,
)
    requires
        n <= fields.len(),
    ensures
        same_entries(page, fields_after_event(fields, page, target, event, n).1),
        fields_after_event(fields, page, target, event, n).0.len() == fields.len(),
        forall|i: int|
            0 <= i < fields.len() ==> (#[trigger] fields_after_event(fields, page, target, event, n).0[i]).label
                == fields[i].label && fields_after_event(
                fields,
                page,
                target,
                event,
                n,
            ).0[i].form.elements() == fields[i].form.elements(),
    decreases fields, n,
{
    if n > 0 {
        lemma_fields_events_keep_entries(fields, page, target, event, (n - 1) as nat);
        let (before, page0) = fields_after_event(fields, page, target, event, (n - 1) as nat);
        law_events_keep_entries(fields[n - 1].form, page0, target, event);
    }
}

/// As `law_events_keep_entries`, for variants.
pub proof fn lemma_variants_events_keep_entries(
    variants: Seq<VariantView>,
    page: Seq<ElementView>,
    target: El,
    event: Seq<char>,
    n: nat,
)
    requires
        n <= variants.len(),
    ensures
        same_entries(page, variants_after_event(variants, page, target, event, n).1),
        variants_after_event(variants, page, target, event, n).0.len() == variants.len(),
        forall|i: int|
            0 <= i < variants.len() ==> (#[trigger] variants_after_event(
                variants,
                page,
                target,
                event,
                n,
            ).0[i]).container == variants[i].container,
    decreases variants, n,
{
    if n > 0 {
        lemma_variants_events_keep_entries(variants, page, target, event, (n - 1) as nat);
        let (before, page0) = variants_after_event(variants, page, target, event, (n - 1) as nat);
        lemma_body_events_keep_entries(variants[n - 1].body, page0, target, event);
    }
}

} // verus!
