//! What holds of a form that was just made.

use vstd::prelude::*;
use vstd::string::*;
use crate::form::{containers, FieldView, FormView, VariantView};
use crate::layout::{
    all_within, field_start, fields_laid_out, lemma_fields_order, lemma_fields_within, lemma_order,
    lemma_variants_order, lemma_variants_within, lemma_within, variant_start, variants_laid_out,
};
use crate::page::{replaced, with_hidden, El, ElementView};
use crate::style::{
    CSS_CLASS_ERROR, CSS_CLASS_HIDDEN, CSS_CLASS_LABEL, CSS_CLASS_OPTION_ENABLE, CSS_CLASS_SMALL_INPUT,
    CSS_CLASS_SUBFORM,
};
use crate::schema::{
    all_elements, enum_built, fields_built, option_built, variants_built, FieldSchema, Form,
    VariantKind, VariantSchema,
};

verus! {

/// Whether `q` is `p` with new widgets at its end, none of which holds an
/// entry: every widget of `p` is as it was, nothing is entered in a new one,
/// and no new box is ticked.
pub open spec fn extends(p: Seq<ElementView>, q: Seq<ElementView>) -> bool {
    &&& p.len() <= q.len()
    &&& forall|i: int| 0 <= i < p.len() ==> #[trigger] q[i] == p[i]
    &&& forall|i: int| p.len() <= i < q.len() ==> (#[trigger] q[i]).value.len() == 0 && !q[i].checked
}

/// How far the first `n` fields reach depends on these fields alone.
pub proof fn lemma_fields_laid_out_prefix(a: Seq<FieldView>, b: Seq<FieldView>, lo: nat, hi: nat, n: nat)
    requires
        n <= a.len(),
        n <= b.len(),
        forall|i: int| 0 <= i < n ==> a[i] == b[i],
    ensures
        fields_laid_out(a, lo, hi, n) == fields_laid_out(b, lo, hi, n),
    decreases n,
{
    if n > 0 {
        lemma_fields_laid_out_prefix(a, b, lo, field_start(a, lo, n - 1), (n - 1) as nat);
    }
}

/// How far the first `n` variants reach depends on these variants alone.
pub proof fn lemma_variants_laid_out_prefix(
    a: Seq<VariantView>,
    b: Seq<VariantView>,
    lo: nat,
    hi: nat,
    n: nat,
)
    requires
        n <= a.len(),
        n <= b.len(),
        forall|i: int| 0 <= i < n ==> a[i] == b[i],
    ensures
        variants_laid_out(a, lo, hi, n) == variants_laid_out(b, lo, hi, n),
    decreases n,
{
    if n > 0 {
        lemma_variants_laid_out_prefix(a, b, lo, variant_start(a, lo, n - 1), (n - 1) as nat);
    }
}

/// Marking widgets of the stretch from `lo` on as hidden or shown leaves the
/// page before `lo` as it was, and changes no entry.
pub proof fn lemma_with_hidden_extends(
    page: Seq<ElementView>,
    els: Seq<El>,
    hidden: bool,
    n: nat,
    lo: nat,
)
    requires
        n <= els.len(),
        all_within(els, lo, page.len()),
    ensures
        with_hidden(page, els, hidden, n).len() == page.len(),
        forall|i: int| 0 <= i < lo ==> #[trigger] with_hidden(page, els, hidden, n)[i] == page[i],
        forall|i: int|
            0 <= i < page.len() ==> (#[trigger] with_hidden(page, els, hidden, n)[i]).value
                == page[i].value && with_hidden(page, els, hidden, n)[i].checked == page[i].checked,
    decreases n,
{
    if n > 0 {
        lemma_with_hidden_extends(page, els, hidden, (n - 1) as nat, lo);
    }
}

/// The fields made by `new_form` lie at the end of the page, one after the
/// other, and nothing is entered in them.
pub proof fn lemma_fields_built(fields: Seq<FieldSchema>, page: Seq<ElementView>, n: nat)
    requires
        n <= fields.len(),
        fields_built(fields, page, n).1.len() <= usize::MAX,
    ensures
        fields_built(fields, page, n).0.len() == n,
        extends(page, fields_built(fields, page, n).1),
        fields_laid_out(
            fields_built(fields, page, n).0,
            page.len(),
            fields_built(fields, page, n).1.len(),
            n,
        ),
    decreases fields, n,
{
    if n > 0 {
        let (before, page0) = fields_built(fields, page, (n - 1) as nat);
        let (form, page1) = fields[n - 1].form.built(page0, fields[n - 1].title@);
        let (made, page2) = fields_built(fields, page, n);
        lemma_built_grows(fields[n - 1].form, page0, fields[n - 1].title@);
        lemma_fields_built(fields, page, (n - 1) as nat);
        lemma_built(fields[n - 1].form, page0, fields[n - 1].title@);
        lemma_fields_laid_out_prefix(made, before, page.len(), page0.len(), (n - 1) as nat);
        if n > 1 {
            lemma_fields_order(before, page.len(), page0.len(), (n - 1) as nat);
        }
        assert(field_start(made, page.len(), n - 1) == page0.len());
    }
}

/// Making a form never shortens the page.
pub proof fn lemma_built_grows(schema: Form, page: Seq<ElementView>, field: Seq<char>)
    ensures
        schema.built(page, field).1.len() >= page.len(),
    decreases schema,
{
    match schema {
        Form::Scalar(kind) => {},
        Form::Bool => {},
        Form::Optional(inner) => {
            lemma_built_grows(*inner, page, field);
            let (subform, page1) = inner.built(page, field);
            let additional = all_elements(subform);
            lemma_with_hidden_len(page1, additional, true, additional.len());
            assert(schema.built(page, field) == option_built(subform, page1, field));
        },
        Form::Struct(fields) => {
            lemma_fields_built_grow(fields@, page, fields@.len());
        },
        Form::Enum(variants) => {
            lemma_enum_built_grows(variants@, page, field);
        },
    }
}

/// Making an enum form never shortens the page.
pub proof fn lemma_enum_built_grows(variants: Seq<VariantSchema>, page: Seq<ElementView>, field: Seq<char>)
    ensures
        enum_built(variants, page, field).1.len() >= page.len(),
    decreases variants, variants.len() + 1,
{
    let select = crate::schema::next_el(page);
    let start = page.push(crate::schema::selector(field));
    lemma_variants_built_grow(variants, start, select, variants.len());
    let (made, page1) = variants_built(variants, start, select, variants.len());
    let page2 = replaced(page1, select.index as int, page1[select.index as int].listen("change"@));
    let rest = containers(made).subrange(1, made.len() as int);
    lemma_with_hidden_len(page2, rest, true, rest.len());
}

/// Marking widgets as hidden or shown keeps the number of widgets.
pub proof fn lemma_with_hidden_len(page: Seq<ElementView>, els: Seq<El>, hidden: bool, n: nat)
    ensures
        with_hidden(page, els, hidden, n).len() == page.len(),
    decreases n,
{
    if n > 0 && n <= els.len() {
        lemma_with_hidden_len(page, els, hidden, (n - 1) as nat);
    }
}

/// Making fields never shortens the page.
pub proof fn lemma_fields_built_grow(fields: Seq<FieldSchema>, page: Seq<ElementView>, n: nat)
    ensures
        fields_built(fields, page, n).1.len() >= page.len(),
    decreases fields, n,
{
    if n > 0 && n <= fields.len() {
        lemma_fields_built_grow(fields, page, (n - 1) as nat);
        let (before, page0) = fields_built(fields, page, (n - 1) as nat);
        lemma_built_grows(fields[n - 1].form, page0, fields[n - 1].title@);
    }
}

/// Making a variant never shortens the page.
pub proof fn lemma_kind_built_grows(kind: VariantKind, page: Seq<ElementView>, title: Seq<char>)
    ensures
        kind.built(page, title).1.len() >= page.len(),
    decreases kind,
{
    match kind {
        VariantKind::Unit => {},
        VariantKind::SingleValue(form) => {
            lemma_built_grows(*form, page, title);
        },
        VariantKind::NamedFields(fields) => {
            lemma_fields_built_grow(fields@, page, fields@.len());
        },
    }
}

/// Making variants never shortens the page.
pub proof fn lemma_variants_built_grow(
    variants: Seq<VariantSchema>,
    page: Seq<ElementView>,
    select: El,
    n: nat,
)
    ensures
        variants_built(variants, page, select, n).1.len() >= page.len(),
    decreases variants, n,
{
    if n > 0 && n <= variants.len() {
        lemma_variants_built_grow(variants, page, select, (n - 1) as nat);
        let (before, page0) = variants_built(variants, page, select, (n - 1) as nat);
        let title = variants[n - 1].title@;
        let page1 = page0.push(crate::schema::choice(title, (n - 1) as nat));
        let page2 = replaced(
            page1,
            select.index as int,
            page1[select.index as int].push_child(crate::schema::next_el(page0)),
        );
        lemma_kind_built_grows(variants[n - 1].kind, page2, title);
    }
}

/// The variant made by `new_form` lies at the end of the page, and nothing
/// is entered in it.
pub proof fn lemma_kind_built(kind: VariantKind, page: Seq<ElementView>, title: Seq<char>)
    requires
        kind.built(page, title).1.len() <= usize::MAX,
    ensures
        extends(page, kind.built(page, title).1),
        kind.built(page, title).0.laid_out(page.len(), kind.built(page, title).1.len()),
        all_within(kind.built(page, title).2, page.len(), kind.built(page, title).1.len()),
    decreases kind,
{
    match kind {
        VariantKind::Unit => {},
        VariantKind::SingleValue(form) => {
            lemma_built(*form, page, title);
            let (inner, page1) = form.built(page, title);
            lemma_within(inner, page.len(), page1.len());
        },
        VariantKind::NamedFields(fields) => {
            lemma_fields_built(fields@, page, fields@.len());
            let (inner, page1) = fields_built(fields@, page, fields@.len());
            lemma_fields_within(inner, page.len(), page1.len(), inner.len());
        },
    }
}

/// The variants made by `new_form` lie at the end of the page, one after the
/// other, and nothing is entered in them. The page before them is as it was,
/// but for the selector, which keeps its entry.
pub proof fn lemma_variants_built(variants: Seq<VariantSchema>, page: Seq<ElementView>, select: El, n: nat)
    requires
        n <= variants.len(),
        select.index < page.len(),
        variants_built(variants, page, select, n).1.len() <= usize::MAX,
    ensures
        variants_built(variants, page, select, n).0.len() == n,
        page.len() <= variants_built(variants, page, select, n).1.len(),
        forall|i: int|
            0 <= i < page.len() && i != select.index ==> #[trigger] variants_built(
                variants,
                page,
                select,
                n,
            ).1[i] == page[i],
        variants_built(variants, page, select, n).1[select.index as int].value
            == page[select.index as int].value,
        variants_built(variants, page, select, n).1[select.index as int].checked
            == page[select.index as int].checked,
        forall|i: int|
            page.len() <= i < variants_built(variants, page, select, n).1.len() ==> (
            #[trigger] variants_built(variants, page, select, n).1[i]).value.len() == 0
                && !variants_built(variants, page, select, n).1[i].checked,
        variants_laid_out(
            variants_built(variants, page, select, n).0,
            page.len(),
            variants_built(variants, page, select, n).1.len(),
            n,
        ),
    decreases variants, n,
{
    if n > 0 {
        let (before, page0) = variants_built(variants, page, select, (n - 1) as nat);
        let title = variants[n - 1].title@;
        let page1 = page0.push(crate::schema::choice(title, (n - 1) as nat));
        let page2 = replaced(
            page1,
            select.index as int,
            page1[select.index as int].push_child(crate::schema::next_el(page0)),
        );
        let (body, page3, inner) = variants[n - 1].kind.built(page2, title);
        let (made, page4) = variants_built(variants, page, select, n);
        lemma_kind_built_grows(variants[n - 1].kind, page2, title);
        lemma_variants_built(variants, page, select, (n - 1) as nat);
        lemma_kind_built(variants[n - 1].kind, page2, title);
        lemma_variants_laid_out_prefix(made, before, page.len(), page0.len(), (n - 1) as nat);
        if n > 1 {
            lemma_variants_order(before, page.len(), page0.len(), (n - 1) as nat);
        }
        assert(variant_start(made, page.len(), n - 1) == page0.len());
        assert(page4 == page3.push(crate::schema::variant_container(inner)));
        assert forall|i: int| page.len() <= i < page4.len() implies (#[trigger] page4[i]).value.len() == 0
            && !page4[i].checked by {
            if i < page0.len() {
                assert(page3[i] == page2[i]);
            } else if i < page2.len() {
                assert(page3[i] == page2[i]);
            }
        }
    }
}

/// The optional form made by `new_form` around a subform that lies at the end
/// of the page lies there too, and nothing is entered in it.
pub proof fn lemma_option_built(subform: FormView, lo: nat, page: Seq<ElementView>, field: Seq<char>)
    requires
        subform.laid_out(lo, page.len()),
        page.len() < usize::MAX,
    ensures
        option_built(subform, page, field).1.len() == page.len() + 1,
        forall|i: int| 0 <= i < lo ==> #[trigger] option_built(subform, page, field).1[i] == page[i],
        forall|i: int|
            0 <= i < page.len() ==> (#[trigger] option_built(subform, page, field).1[i]).value
                == page[i].value && option_built(subform, page, field).1[i].checked == page[i].checked,
        option_built(subform, page, field).1[page.len() as int].value.len() == 0,
        !option_built(subform, page, field).1[page.len() as int].checked,
        option_built(subform, page, field).0.laid_out(lo, page.len() + 1),
{
    let additional = all_elements(subform);
    lemma_order(subform, lo, page.len());
    lemma_within(subform, lo, page.len());
    lemma_with_hidden_extends(page, additional, true, additional.len(), lo);
}

/// The enum form made by `new_form` lies at the end of the page, and nothing
/// is entered in it.
pub proof fn lemma_enum_built(variants: Seq<VariantSchema>, page: Seq<ElementView>, field: Seq<char>)
    requires
        enum_built(variants, page, field).1.len() <= usize::MAX,
    ensures
        extends(page, enum_built(variants, page, field).1),
        enum_built(variants, page, field).0.laid_out(page.len(), enum_built(variants, page, field).1.len()),
    decreases variants, variants.len() + 1,
{
    let select = crate::schema::next_el(page);
    let start = page.push(crate::schema::selector(field));
    let (made, page1) = variants_built(variants, start, select, variants.len());
    let page2 = replaced(page1, select.index as int, page1[select.index as int].listen("change"@));
    let rest = containers(made).subrange(1, made.len() as int);
    let (form, page3) = enum_built(variants, page, field);
    lemma_variants_built_grow(variants, start, select, variants.len());
    lemma_with_hidden_len(page2, rest, true, rest.len());
    lemma_variants_built(variants, start, select, variants.len());
    if made.len() >= 1 {
        lemma_variants_within(made, start.len(), page1.len(), made.len());
        assert(all_within(rest, start.len(), page2.len())) by {
            assert forall|i: int| 0 <= i < rest.len() implies start.len() <= (#[trigger] rest[i]).index
                < page2.len() by {
                assert(rest[i] == made[i + 1].container);
            }
        }
        lemma_with_hidden_extends(page2, rest, true, rest.len(), start.len());
    }
    assert forall|i: int| 0 <= i < page.len() implies #[trigger] page3[i] == page[i] by {
        assert(page1[i] == start[i]);
        assert(page2[i] == page1[i]);
    }
    assert forall|i: int| page.len() <= i < page3.len() implies (#[trigger] page3[i]).value.len() == 0
        && !page3[i].checked by {
        assert(page2[i].value == page1[i].value);
        assert(page2[i].checked == page1[i].checked);
    }
}

/// The form made by `new_form` lies at the end of the page: its widgets are
/// those from the old end of the page to the new one. The page before it is
/// as it was, nothing is entered in the new widgets, and no new box is
/// ticked.
pub proof fn lemma_built(schema: Form, page: Seq<ElementView>, field: Seq<char>)
    requires
        schema.built(page, field).1.len() <= usize::MAX,
    ensures
        extends(page, schema.built(page, field).1),
        schema.built(page, field).0.laid_out(page.len(), schema.built(page, field).1.len()),
    decreases schema,
{
    match schema {
        Form::Scalar(kind) => {},
        Form::Bool => {},
        Form::Optional(inner) => {
            let (subform, page1) = inner.built(page, field);
            let additional = all_elements(subform);
            lemma_with_hidden_len(page1, additional, true, additional.len());
            assert(schema.built(page, field) == option_built(subform, page1, field));
            lemma_built(*inner, page, field);
            lemma_option_built(subform, page.len(), page1, field);
        },
        Form::Struct(fields) => {
            lemma_fields_built(fields@, page, fields@.len());
        },
        Form::Enum(variants) => {
            lemma_enum_built(variants@, page, field);
        },
    }
}

/// Widgets that were marked as hidden are hidden.
pub proof fn lemma_with_hidden_marks(page: Seq<ElementView>, els: Seq<El>, n: nat)
    requires
        n <= els.len(),
        forall|k: int| 0 <= k < n ==> (#[trigger] els[k]).index < page.len(),
    ensures
        forall|k: int| 0 <= k < n ==> with_hidden(page, els, true, n)[(#[trigger] els[k]).index as int].hidden(),
        forall|i: int|
            0 <= i < page.len() && page[i].hidden() ==> (#[trigger] with_hidden(page, els, true, n)[i]).hidden(),
    decreases n,
{
    lemma_with_hidden_len(page, els, true, n);
    if n > 0 {
        lemma_with_hidden_marks(page, els, (n - 1) as nat);
        lemma_with_hidden_len(page, els, true, (n - 1) as nat);
        let before = with_hidden(page, els, true, (n - 1) as nat);
        let after = with_hidden(page, els, true, n);
        let at = els[n - 1].index as int;
        let classes = before[at].classes;
        if !classes.contains(CSS_CLASS_HIDDEN@) {
            assert(classes.push(CSS_CLASS_HIDDEN@)[classes.len() as int] == CSS_CLASS_HIDDEN@);
        }
        assert(after[at].hidden());
        assert forall|k: int| 0 <= k < n implies after[(#[trigger] els[k]).index as int].hidden() by {
            if k < n - 1 && els[k].index != at {
                assert(after[els[k].index as int] == before[els[k].index as int]);
            }
        }
    }
}

/// A new optional form is disabled: its enable checkbox is clear and shown,
/// and every widget of its subform is hidden.
pub proof fn law_new_optional(subform: FormView, lo: nat, page: Seq<ElementView>, field: Seq<char>)
    requires
        subform.laid_out(lo, page.len()),
        page.len() < usize::MAX,
    ensures
        ({
            let (form, after) = option_built(subform, page, field);
            let handed = form.elements().elements;
            &&& handed.len() >= 1
            &&& !after[handed[0].index as int].checked
            &&& !after[handed[0].index as int].hidden()
            &&& forall|k: int| 1 <= k < handed.len() ==> after[(#[trigger] handed[k]).index as int].hidden()
        }),
{
    let additional = all_elements(subform);
    let (form, after) = option_built(subform, page, field);
    let handed = form.elements().elements;
    let marked = with_hidden(page, additional, true, additional.len());
    lemma_within(subform, lo, page.len());
    lemma_with_hidden_len(page, additional, true, additional.len());
    lemma_with_hidden_marks(page, additional, additional.len());
    lemma_class_names();
    assert(after[handed[0].index as int] == crate::schema::enable_checkbox(field));
    assert forall|k: int| 1 <= k < handed.len() implies after[(#[trigger] handed[k]).index as int].hidden() by {
        assert(handed[k] == additional[k - 1]);
        assert(after[additional[k - 1].index as int] == marked[additional[k - 1].index as int]);
    }
}

/// The classes that forms give to their widgets are different names, and
/// none of them is the hidden mark.
pub proof fn lemma_class_names()
    ensures
        CSS_CLASS_HIDDEN@ != CSS_CLASS_SUBFORM@,
        CSS_CLASS_HIDDEN@ != CSS_CLASS_OPTION_ENABLE@,
        CSS_CLASS_HIDDEN@ != CSS_CLASS_SMALL_INPUT@,
        CSS_CLASS_HIDDEN@ != CSS_CLASS_ERROR@,
        CSS_CLASS_HIDDEN@ != CSS_CLASS_LABEL@,
{
    reveal_strlit("disable_hide");
    reveal_strlit("subform");
    reveal_strlit("form_input_option");
    reveal_strlit("form_input_small");
    reveal_strlit("form_error");
    reveal_strlit("form_label");
    assert(CSS_CLASS_HIDDEN@[0] == 'd');
    assert(CSS_CLASS_SUBFORM@[0] == 's');
    assert(CSS_CLASS_OPTION_ENABLE@[0] == 'f');
    assert(CSS_CLASS_SMALL_INPUT@[0] == 'f');
    assert(CSS_CLASS_ERROR@[0] == 'f');
    assert(CSS_CLASS_LABEL@[0] == 'f');
}

/// The containers of new variants carry the subform class and nothing else.
pub proof fn lemma_variants_built_containers(
    variants: Seq<VariantSchema>,
    page: Seq<ElementView>,
    select: El,
    n: nat,
)
    requires
        n <= variants.len(),
        select.index < page.len(),
        variants_built(variants, page, select, n).1.len() <= usize::MAX,
    ensures
        forall|k: int|
            0 <= k < n ==> variants_built(variants, page, select, n).1[(#[trigger] variants_built(
                variants,
                page,
                select,
                n,
            ).0[k]).container.index as int].classes == seq![CSS_CLASS_SUBFORM@],
    decreases variants, n,
{
    if n > 0 {
        let (before, page0) = variants_built(variants, page, select, (n - 1) as nat);
        let title = variants[n - 1].title@;
        let page1 = page0.push(crate::schema::choice(title, (n - 1) as nat));
        let page2 = replaced(
            page1,
            select.index as int,
            page1[select.index as int].push_child(crate::schema::next_el(page0)),
        );
        let (body, page3, inner) = variants[n - 1].kind.built(page2, title);
        let (made, page4) = variants_built(variants, page, select, n);
        lemma_kind_built_grows(variants[n - 1].kind, page2, title);
        lemma_variants_built(variants, page, select, (n - 1) as nat);
        lemma_variants_built_containers(variants, page, select, (n - 1) as nat);
        lemma_kind_built(variants[n - 1].kind, page2, title);
        lemma_variants_within(before, page.len(), page0.len(), (n - 1) as nat);
        assert(page4 == page3.push(crate::schema::variant_container(inner)));
        assert(crate::schema::variant_container(inner).classes =~= seq![CSS_CLASS_SUBFORM@]);
        assert forall|k: int| 0 <= k < n implies page4[(#[trigger] made[k]).container.index as int].classes
            == seq![CSS_CLASS_SUBFORM@] by {
            if k < n - 1 {
                let at = before[k].container.index as int;
                assert(made[k] == before[k]);
                assert(page.len() <= at < page0.len());
                assert(page2[at] == page0[at]);
                assert(page3[at] == page2[at]);
            }
        }
    }
}

/// A new enum form shows its first variant. The first variant is the active
/// one; of the containers only the first is shown and every other is hidden.
pub proof fn law_new_enum(variants: Seq<VariantSchema>, page: Seq<ElementView>, field: Seq<char>)
    requires
        enum_built(variants, page, field).1.len() <= usize::MAX,
    ensures
        ({
            let (form, after) = enum_built(variants, page, field);
            &&& form matches FormView::Enum { select, variants: made, current }
            &&& current == 0
            &&& made.len() == variants.len()
            &&& forall|k: int|
                0 <= k < made.len() ==> after[(#[trigger] made[k]).container.index as int].hidden() == (k
                    != 0)
        }),
{
    let select = crate::schema::next_el(page);
    let start = page.push(crate::schema::selector(field));
    let (made, page1) = variants_built(variants, start, select, variants.len());
    let page2 = replaced(page1, select.index as int, page1[select.index as int].listen("change"@));
    let rest = containers(made).subrange(1, made.len() as int);
    let (form, after) = enum_built(variants, page, field);
    lemma_variants_built_grow(variants, start, select, variants.len());
    lemma_with_hidden_len(page2, rest, true, rest.len());
    lemma_variants_built(variants, start, select, variants.len());
    lemma_variants_built_containers(variants, start, select, variants.len());
    lemma_class_names();
    if made.len() >= 1 {
        lemma_variants_within(made, start.len(), page1.len(), made.len());
        lemma_variants_order(made, start.len(), page1.len(), made.len());
        let first = made[0].container.index as int;
        assert(all_within(rest, (first + 1) as nat, page2.len())) by {
            assert forall|i: int| 0 <= i < rest.len() implies first + 1 <= (#[trigger] rest[i]).index
                < page2.len() by {
                assert(rest[i] == made[i + 1].container);
                lemma_container_order(made, start.len(), page1.len(), made.len(), 0, i + 1);
            }
        }
        lemma_with_hidden_extends(page2, rest, true, rest.len(), (first + 1) as nat);
        lemma_with_hidden_marks(page2, rest, rest.len());
        assert forall|k: int| 0 <= k < made.len() implies after[(#[trigger] made[k]).container.index as int].hidden()
            == (k != 0) by {
            if k == 0 {
                assert(after[first] == page2[first]);
                assert(page2[first].classes == page1[first].classes);
                assert(seq![CSS_CLASS_SUBFORM@][0] == CSS_CLASS_SUBFORM@);
                assert(!seq![CSS_CLASS_SUBFORM@].contains(CSS_CLASS_HIDDEN@));
            } else {
                assert(rest[k - 1] == made[k].container);
            }
        }
    }
}

/// Containers lie one after the other.
pub proof fn lemma_container_order(variants: Seq<VariantView>, lo: nat, hi: nat, n: nat, a: int, b: int)
    requires
        variants_laid_out(variants, lo, hi, n),
        n <= variants.len(),
        0 <= a < b < n,
    ensures
        variants[a].container.index < variants[b].container.index,
    decreases b - a,
{
    lemma_variants_order(variants, lo, hi, n);
    assert(variant_start(variants, lo, b) < variants[b].container.index);
    if a + 1 < b {
        lemma_container_order(variants, lo, hi, n, a, b - 1);
        assert(variant_start(variants, lo, b - 1) < variants[b - 1].container.index);
    }
}

} // verus!
