use rooting_forms::form::{BoolFormState, FormElements, FormState, FromStrFormState, OptionFormState};
use rooting_forms::page::{El, Page};
use rooting_forms::scalar::{format_scalar, BigString, IntKind, Password, ScalarKind};
use rooting_forms::schema::{input_type_of, FieldSchema, Form, VariantKind, VariantSchema};
use rooting_forms::value::Value;
use rooting_forms::{
    ATTR_LABEL, CSS_CLASS_ERROR, CSS_CLASS_HIDDEN, CSS_CLASS_OPTION_ENABLE, CSS_CLASS_SMALL_INPUT,
};

fn integer() -> Form {
    Form::Scalar(ScalarKind::Int(IntKind::I32))
}

fn field(title: &str, form: Form) -> FieldSchema {
    FieldSchema { title: title.to_string(), form }
}

fn variant(title: &str, kind: VariantKind) -> VariantSchema {
    VariantSchema { title: title.to_string(), kind }
}

/// `enum { A, B(integer), C { nix: integer } }`
fn beta() -> Form {
    Form::Enum(vec![
        variant("A", VariantKind::Unit),
        variant("B", VariantKind::SingleValue(Box::new(integer()))),
        variant("C", VariantKind::NamedFields(vec![field("Something", integer())])),
    ])
}

fn pair(key: &str, value: &str) -> (String, String) {
    (key.to_string(), value.to_string())
}

/// The text entries of a form, in the order in which they were created.
fn entries(page: &Page) -> Vec<El> {
    (0..page.len())
        .map(|index| El { index })
        .filter(|el| page.get(*el).tag == "input" && page.get(*el).events == vec!["change"])
        .collect()
}

/// The error slots of a form, in the order in which they were created.
fn slots(page: &Page) -> Vec<El> {
    (0..page.len())
        .map(|index| El { index })
        .filter(|el| page.get(*el).classes.first().map(|c| c.as_str()) == Some(CSS_CLASS_ERROR))
        .collect()
}

fn select(page: &mut Page, state: &mut FormState, index: usize) {
    let selector = state.elements().elements[0];
    page.set_value(selector, &index.to_string());
    state.on_event(page, selector, "change");
}

#[test]
fn struct_with_one_integer_end_to_end() {
    let form = Form::Struct(vec![field("A", integer())]);
    let mut page = Page::new();
    let state = form.new_form(&mut page, "alpha");
    let inputs = entries(&page);
    assert_eq!(inputs.len(), 1);
    let slot = slots(&page)[0];

    page.set_value(inputs[0], "5");
    assert_eq!(state.parse(&mut page), Ok(Value::Struct(vec![Value::I32(5)])));
    assert_eq!(page.get(slot).text, "");

    page.set_value(inputs[0], "x");
    assert_eq!(state.parse(&mut page), Err(()));
    assert_eq!(page.get(slot).text, "invalid digit found in string");

    page.set_value(inputs[0], "6");
    assert_eq!(state.parse(&mut page), Ok(Value::Struct(vec![Value::I32(6)])));
    assert_eq!(page.get(slot).text, "");
}

#[test]
fn enum_with_three_variants_end_to_end() {
    let mut page = Page::new();
    let mut state = beta().new_form(&mut page, "beta");
    let shown = state.elements();
    let selector = shown.elements[0];
    assert_eq!(page.get(selector).children.len(), 3);
    let first = page.get(selector).children[0];
    assert!(page.get(first).attrs.contains(&pair("selected", "selected")));
    assert_eq!(state.parse(&mut page), Ok(Value::Unit(0)));

    let inputs = entries(&page);
    assert_eq!(inputs.len(), 2);
    select(&mut page, &mut state, 1);
    page.set_value(inputs[0], "7");
    assert_eq!(state.parse(&mut page), Ok(Value::Single(1, Box::new(Value::I32(7)))));

    select(&mut page, &mut state, 2);
    page.set_value(inputs[1], "9");
    assert_eq!(state.parse(&mut page), Ok(Value::Named(2, vec![Value::I32(9)])));
}

#[test]
fn text_entry_is_created_with_its_error_slot() {
    let mut page = Page::new();
    let state = FromStrFormState::new(&mut page, "Name", "text", ScalarKind::Text);
    assert_eq!(state.kind, ScalarKind::Text);
    assert_eq!(state.error_el, El { index: 0 });
    assert_eq!(state.el, El { index: 1 });
    assert_eq!(page.len(), 2);
    assert_eq!(page.get(state.error_el).tag, "span");
    assert_eq!(page.get(state.error_el).classes, vec![CSS_CLASS_ERROR]);
    assert_eq!(page.get(state.el).tag, "input");
    assert_eq!(page.get(state.el).classes, vec![CSS_CLASS_SMALL_INPUT]);
    assert_eq!(page.get(state.el).attrs, vec![pair(ATTR_LABEL, "Name"), pair("type", "text")]);
    assert_eq!(page.get(state.el).events, vec!["change"]);
    assert_eq!(
        state.elements(),
        FormElements { error: Some(state.error_el), elements: vec![state.el] }
    );
}

#[test]
fn input_types_of_scalars() {
    assert_eq!(input_type_of(ScalarKind::Text), "text");
    assert_eq!(input_type_of(ScalarKind::Password), "password");
    assert_eq!(input_type_of(ScalarKind::BigString), "text");
    assert_eq!(input_type_of(ScalarKind::Int(IntKind::U8)), "text");
    let mut page = Page::new();
    let state = Form::Scalar(ScalarKind::Password).new_form(&mut page, "Secret");
    let input = state.elements().elements[0];
    assert_eq!(page.get(input).attrs, vec![pair(ATTR_LABEL, "Secret"), pair("type", "password")]);
}

#[test]
fn text_entry_parse_shows_and_clears_the_error() {
    let mut page = Page::new();
    let state = FromStrFormState::new(&mut page, "n", "text", ScalarKind::Int(IntKind::U8));
    assert_eq!(state.parse(&mut page), Err(()));
    assert_eq!(page.get(state.error_el).text, "cannot parse integer from empty string");
    page.set_value(state.el, "300");
    assert_eq!(state.parse(&mut page), Err(()));
    assert_eq!(page.get(state.error_el).text, "number too large to fit in target type");
    page.set_value(state.el, "30");
    assert_eq!(state.parse(&mut page), Ok(Value::U8(30)));
    assert_eq!(page.get(state.error_el).text, "");
    assert_eq!(page.value(state.el), "30");
}

#[test]
fn text_entry_accepts_empty_text_where_the_type_does() {
    for (kind, expected) in [
        (ScalarKind::Text, Value::Text(String::new())),
        (ScalarKind::Password, Value::Password(Password::from_str("").unwrap())),
        (ScalarKind::BigString, Value::BigString(BigString::from_str("").unwrap())),
    ] {
        let mut page = Page::new();
        let state = FromStrFormState::new(&mut page, "t", "text", kind);
        assert_eq!(state.parse(&mut page), Ok(expected));
        assert_eq!(page.get(state.error_el).text, "");
    }
}

#[test]
fn text_entry_change_handler() {
    let mut page = Page::new();
    let state = FromStrFormState::new(&mut page, "n", "text", ScalarKind::Int(IntKind::I8));
    page.set_value(state.el, "abc");
    state.on_change(&mut page);
    assert_eq!(page.get(state.error_el).text, "invalid digit found in string");
    page.set_value(state.el, "");
    state.on_change(&mut page);
    assert_eq!(page.get(state.error_el).text, "");
    page.set_value(state.el, "-129");
    state.on_change(&mut page);
    assert_eq!(page.get(state.error_el).text, "number too small to fit in target type");
    page.set_value(state.el, "-128");
    state.on_change(&mut page);
    assert_eq!(page.get(state.error_el).text, "");
    assert_eq!(page.value(state.el), "-128");
}

#[test]
fn checkbox_form() {
    let mut page = Page::new();
    let state = BoolFormState::new(&mut page, "Agree");
    assert_eq!(page.len(), 1);
    assert_eq!(page.get(state.input).tag, "input");
    assert_eq!(page.get(state.input).classes, vec![CSS_CLASS_SMALL_INPUT]);
    assert_eq!(page.get(state.input).attrs, vec![pair(ATTR_LABEL, "Agree"), pair("type", "checkbox")]);
    assert!(page.get(state.input).events.is_empty());
    assert_eq!(state.elements(), FormElements { error: None, elements: vec![state.input] });
    assert_eq!(state.parse(&page), Ok(Value::Bool(false)));
    page.set_checked(state.input, true);
    assert_eq!(state.parse(&page), Ok(Value::Bool(true)));
}

#[test]
fn optional_form_is_created_hidden() {
    let mut page = Page::new();
    let state = Form::Optional(Box::new(integer())).new_form(&mut page, "Age");
    let shown = state.elements();
    assert_eq!(shown.error, None);
    assert_eq!(shown.elements.len(), 3);
    let (enable, slot, input) = (shown.elements[0], shown.elements[1], shown.elements[2]);
    assert_eq!((slot, input, enable), (El { index: 0 }, El { index: 1 }, El { index: 2 }));
    assert_eq!(page.get(enable).classes, vec![CSS_CLASS_OPTION_ENABLE]);
    assert_eq!(
        page.get(enable).attrs,
        vec![pair(ATTR_LABEL, "Age - Enabled"), pair("type", "checkbox")]
    );
    assert_eq!(page.get(enable).events, vec!["click"]);
    assert!(!page.checked(enable));
    assert!(!page.hidden(enable));
    assert!(page.hidden(slot));
    assert!(page.hidden(input));
    assert_eq!(page.get(input).classes, vec![CSS_CLASS_SMALL_INPUT, CSS_CLASS_HIDDEN]);
}

#[test]
fn optional_form_click_mirrors_the_checkbox() {
    let mut page = Page::new();
    let mut state = Form::Optional(Box::new(integer())).new_form(&mut page, "Age");
    let shown = state.elements();
    let (enable, slot, input) = (shown.elements[0], shown.elements[1], shown.elements[2]);
    page.set_value(input, "41");
    page.set_checked(enable, true);
    state.on_event(&mut page, enable, "click");
    assert!(!page.hidden(slot));
    assert!(!page.hidden(input));
    assert_eq!(page.value(input), "41");
    page.set_checked(enable, false);
    state.on_event(&mut page, enable, "click");
    assert!(page.hidden(slot));
    assert!(page.hidden(input));
    assert_eq!(page.value(input), "41");
    assert!(!page.hidden(enable));
}

#[test]
fn optional_form_unchecked_ignores_the_subform() {
    let mut page = Page::new();
    let state = Form::Optional(Box::new(integer())).new_form(&mut page, "Age");
    let shown = state.elements();
    let (enable, slot, input) = (shown.elements[0], shown.elements[1], shown.elements[2]);
    page.set_value(input, "not a number");
    assert_eq!(state.parse(&mut page), Ok(Value::Optional(None)));
    assert_eq!(page.get(slot).text, "");

    page.set_checked(enable, true);
    assert_eq!(state.parse(&mut page), Err(()));
    assert_eq!(page.get(slot).text, "invalid digit found in string");

    page.set_value(input, "41");
    assert_eq!(state.parse(&mut page), Ok(Value::Optional(Some(Box::new(Value::I32(41))))));
    assert_eq!(page.get(slot).text, "");

    page.set_checked(enable, false);
    page.set_value(input, "again not a number");
    assert_eq!(state.parse(&mut page), Ok(Value::Optional(None)));
    assert_eq!(page.get(slot).text, "");
}

#[test]
fn optional_form_around_a_subform_on_the_page() {
    let mut page = Page::new();
    let subform = FormState::Bool(BoolFormState::new(&mut page, "Flag"));
    let state = OptionFormState::new(&mut page, "Flag", subform);
    assert_eq!(state.elements, vec![El { index: 1 }, El { index: 0 }]);
    assert!(page.hidden(El { index: 0 }));
    assert_eq!(state.parse(&mut page), Ok(Value::Optional(None)));
    page.set_checked(El { index: 1 }, true);
    page.set_checked(El { index: 0 }, true);
    assert_eq!(state.parse(&mut page), Ok(Value::Optional(Some(Box::new(Value::Bool(true))))));
}

#[test]
fn struct_elements_follow_the_declared_order() {
    let form = Form::Struct(vec![
        field("Name", Form::Scalar(ScalarKind::Text)),
        field("Agree", Form::Bool),
        field("Age", integer()),
    ]);
    let mut page = Page::new();
    let state = form.new_form(&mut page, "person");
    let shown = state.elements();
    assert_eq!(shown.error, None);
    let seen: Vec<(String, String)> = shown
        .elements
        .iter()
        .map(|el| {
            let element = page.get(*el);
            let what = if element.tag == "span" && element.classes == vec![CSS_CLASS_ERROR] {
                "error".to_string()
            } else if element.tag == "span" {
                format!("label {}", element.text)
            } else {
                format!("input {}", element.attrs[1].1)
            };
            (what, element.attrs.first().map(|a| a.1.clone()).unwrap_or_default())
        })
        .collect();
    assert_eq!(
        seen,
        vec![
            ("error".to_string(), String::new()),
            ("label Name".to_string(), String::new()),
            ("input text".to_string(), "Name".to_string()),
            ("label Agree".to_string(), String::new()),
            ("input checkbox".to_string(), "Agree".to_string()),
            ("error".to_string(), String::new()),
            ("label Age".to_string(), String::new()),
            ("input text".to_string(), "Age".to_string()),
        ]
    );
    assert_eq!(state.elements(), shown);
}

#[test]
fn struct_parse_asks_every_field() {
    let form = Form::Struct(vec![
        field("A", integer()),
        field("B", Form::Scalar(ScalarKind::Int(IntKind::U8))),
        field("C", integer()),
    ]);
    let mut page = Page::new();
    let state = form.new_form(&mut page, "s");
    let inputs = entries(&page);
    let errors = slots(&page);
    page.set_value(inputs[0], "x");
    page.set_value(inputs[1], "256");
    page.set_value(inputs[2], "3");
    assert_eq!(state.parse(&mut page), Err(()));
    assert_eq!(page.get(errors[0]).text, "invalid digit found in string");
    assert_eq!(page.get(errors[1]).text, "number too large to fit in target type");
    assert_eq!(page.get(errors[2]).text, "");
}

#[test]
fn struct_with_exactly_one_invalid_field() {
    let form = Form::Struct(vec![
        field("A", integer()),
        field("B", integer()),
        field("C", Form::Bool),
        field("D", integer()),
    ]);
    for bad in 0..3 {
        let mut page = Page::new();
        let state = form.new_form(&mut page, "s");
        let inputs = entries(&page);
        let errors = slots(&page);
        for (i, input) in inputs.iter().enumerate() {
            page.set_value(*input, if i == bad { "1.5" } else { "15" });
        }
        assert_eq!(state.parse(&mut page), Err(()));
        for (i, slot) in errors.iter().enumerate() {
            assert_eq!(page.get(*slot).text.is_empty(), i != bad, "field {} with {} invalid", i, bad);
        }
    }
}

#[test]
fn struct_without_fields() {
    let mut page = Page::new();
    let state = Form::Struct(vec![]).new_form(&mut page, "s");
    assert_eq!(page.len(), 0);
    assert_eq!(state.elements(), FormElements { error: None, elements: vec![] });
    assert_eq!(state.parse(&mut page), Ok(Value::Struct(vec![])));
}

#[test]
fn enum_without_variants_never_parses() {
    let mut page = Page::new();
    let mut state = Form::Enum(vec![]).new_form(&mut page, "never");
    assert_eq!(page.len(), 1);
    assert_eq!(state.parse(&mut page), Err(()));
    select(&mut page, &mut state, 0);
    assert_eq!(state.parse(&mut page), Err(()));
}

#[test]
fn enum_change_shows_only_the_chosen_container() {
    let mut page = Page::new();
    let mut state = beta().new_form(&mut page, "beta");
    let shown = state.elements();
    let containers = shown.elements[1..].to_vec();
    let hidden = |page: &Page| -> Vec<bool> { containers.iter().map(|c| page.hidden(*c)).collect() };
    assert_eq!(hidden(&page), vec![false, true, true]);
    select(&mut page, &mut state, 2);
    assert_eq!(hidden(&page), vec![true, true, false]);
    select(&mut page, &mut state, 1);
    assert_eq!(hidden(&page), vec![true, false, true]);
    select(&mut page, &mut state, 0);
    assert_eq!(hidden(&page), vec![false, true, true]);
    assert_eq!(state.elements(), shown);
}

#[test]
fn enum_change_ignores_values_that_choose_no_variant() {
    let mut page = Page::new();
    let mut state = beta().new_form(&mut page, "beta");
    let selector = state.elements().elements[0];
    select(&mut page, &mut state, 1);
    let before = page.clone();
    for value in ["3", "x", "", "-1", "99999999999999999999999999"] {
        page.set_value(selector, value);
        state.on_event(&mut page, selector, "change");
        match &state {
            FormState::Enum(inner) => assert_eq!(inner.current_variant, 1),
            other => panic!("not an enum form: {:?}", other),
        }
        page.set_value(selector, "1");
        assert_eq!(page, before);
    }
}

#[test]
fn enum_keeps_the_active_variant_until_the_change_event() {
    let mut page = Page::new();
    let mut state = beta().new_form(&mut page, "beta");
    let selector = state.elements().elements[0];
    page.set_value(selector, "1");
    assert_eq!(state.parse(&mut page), Ok(Value::Unit(0)));
    state.on_event(&mut page, selector, "click");
    assert_eq!(state.parse(&mut page), Ok(Value::Unit(0)));
    state.on_event(&mut page, selector, "change");
    assert_eq!(state.parse(&mut page), Err(()));
}

#[test]
fn enum_switching_away_and_back_keeps_the_entries() {
    let mut page = Page::new();
    let mut state = beta().new_form(&mut page, "beta");
    let inputs = entries(&page);
    select(&mut page, &mut state, 1);
    page.set_value(inputs[0], "7");
    let expected = Ok(Value::Single(1, Box::new(Value::I32(7))));
    assert_eq!(state.parse(&mut page), expected);
    select(&mut page, &mut state, 2);
    assert_eq!(page.value(inputs[0]), "7");
    assert_eq!(state.parse(&mut page), Err(()));
    select(&mut page, &mut state, 1);
    assert_eq!(page.value(inputs[0]), "7");
    assert_eq!(state.parse(&mut page), expected);
}

#[test]
fn enum_parse_ignores_inactive_variants() {
    let mut page = Page::new();
    let mut state = beta().new_form(&mut page, "beta");
    let inputs = entries(&page);
    let errors = slots(&page);
    page.set_value(inputs[0], "bad");
    page.set_value(inputs[1], "worse");
    assert_eq!(state.parse(&mut page), Ok(Value::Unit(0)));
    assert_eq!(page.get(errors[0]).text, "");
    assert_eq!(page.get(errors[1]).text, "");
    select(&mut page, &mut state, 2);
    page.set_value(inputs[1], "9");
    assert_eq!(state.parse(&mut page), Ok(Value::Named(2, vec![Value::I32(9)])));
    assert_eq!(page.get(errors[0]).text, "");
    select(&mut page, &mut state, 1);
    assert_eq!(state.parse(&mut page), Err(()));
    assert_eq!(page.get(errors[0]).text, "invalid digit found in string");
    assert_eq!(page.get(errors[1]).text, "");
}

#[test]
fn events_reach_nested_text_entries() {
    let form = Form::Struct(vec![
        field("Plain", integer()),
        field("Maybe", Form::Optional(Box::new(integer()))),
        field("Choice", beta()),
    ]);
    let mut page = Page::new();
    let mut state = form.new_form(&mut page, "outer");
    let inputs = entries(&page);
    let errors = slots(&page);
    assert_eq!(inputs.len(), 4);
    for (i, input) in inputs.iter().enumerate() {
        page.set_value(*input, "?");
        state.on_event(&mut page, *input, "change");
        for (j, slot) in errors.iter().enumerate() {
            assert_eq!(page.get(*slot).text.is_empty(), j > i, "slot {} after entry {}", j, i);
        }
    }
    let before = page.clone();
    state.on_event(&mut page, inputs[0], "click");
    state.on_event(&mut page, errors[0], "change");
    let last = El { index: page.len() - 1 };
    state.on_event(&mut page, last, "change");
    assert_eq!(page, before);
}

#[test]
fn a_form_fits_the_page_it_was_made_on() {
    let mut page = Page::new();
    let state = Form::Struct(vec![field("X", Form::Optional(Box::new(beta())))]).new_form(&mut page, "x");
    assert!(state.fits(&page));
    page.el("div");
    assert!(state.fits(&page));
    assert!(!state.fits(&Page::new()));
    let mut short = Page::new();
    for _ in 0..page.len() - 2 {
        short.el("div");
    }
    assert!(!state.fits(&short));
    short.el("div");
    assert!(state.fits(&short));
    let empty = FormState::Optional(OptionFormState {
        elements: vec![],
        subform: Box::new(FormState::Bool(BoolFormState { input: El { index: 0 } })),
    });
    assert!(!empty.fits(&page));
}

#[test]
fn failed_parse_can_be_repeated() {
    let form = Form::Struct(vec![field("A", integer()), field("B", Form::Optional(Box::new(integer())))]);
    let mut page = Page::new();
    let state = form.new_form(&mut page, "s");
    let inputs = entries(&page);
    page.set_value(inputs[0], "x");
    assert_eq!(state.parse(&mut page), Err(()));
    let after_first = page.clone();
    assert_eq!(state.parse(&mut page), Err(()));
    assert_eq!(page, after_first);
    page.set_value(inputs[0], "1");
    assert_eq!(state.parse(&mut page), Ok(Value::Struct(vec![Value::I32(1), Value::Optional(None)])));
}

#[test]
fn new_form_leaves_the_page_before_it_alone() {
    let mut page = Page::new();
    let first = beta().new_form(&mut page, "one");
    let before = page.clone();
    let second = Form::Struct(vec![field("X", Form::Optional(Box::new(beta())))]).new_form(&mut page, "two");
    for index in 0..before.len() {
        assert_eq!(page.get(El { index }), before.get(El { index }));
    }
    for index in before.len()..page.len() {
        assert_eq!(page.value(El { index }), "");
        assert!(!page.checked(El { index }));
    }
    for el in first.elements().elements {
        assert!(el.index < before.len());
    }
    for el in second.elements().elements {
        assert!(el.index >= before.len());
    }
}

/// Writes `value` into the widgets of `state`, as the user would.
fn enter(page: &mut Page, state: &mut FormState, value: &Value) {
    let shown = state.elements();
    match value {
        Value::Bool(b) => page.set_checked(shown.elements[0], *b),
        Value::Optional(inner) => {
            page.set_checked(shown.elements[0], inner.is_some());
            state.on_event(page, shown.elements[0], "click");
            if let (Some(inner), FormState::Optional(option)) = (inner, state) {
                enter(page, &mut option.subform, inner);
            }
        },
        Value::Struct(values) => {
            if let FormState::Struct(inner) = state {
                for (field, value) in inner.fields.iter_mut().zip(values) {
                    enter(page, &mut field.form, value);
                }
            }
        },
        Value::Unit(index) => select(page, state, *index),
        Value::Single(index, inner) => {
            select(page, state, *index);
            if let FormState::Enum(form) = state {
                if let rooting_forms::form::VariantFormState::Single(subform) =
                    &mut form.variants[*index].body
                {
                    enter(page, subform, inner);
                }
            }
        },
        Value::Named(index, values) => {
            select(page, state, *index);
            if let FormState::Enum(form) = state {
                if let rooting_forms::form::VariantFormState::Named(subform) =
                    &mut form.variants[*index].body
                {
                    for (field, value) in subform.fields.iter_mut().zip(values) {
                        enter(page, &mut field.form, value);
                    }
                }
            }
        },
        scalar => page.set_value(shown.elements[0], &format_scalar(scalar).unwrap()),
    }
}

#[test]
fn round_trip_of_every_kind_of_value() {
    let form = Form::Struct(vec![
        field("Text", Form::Scalar(ScalarKind::Text)),
        field("Password", Form::Scalar(ScalarKind::Password)),
        field("Big", Form::Scalar(ScalarKind::BigString)),
        field("U8", Form::Scalar(ScalarKind::Int(IntKind::U8))),
        field("I64", Form::Scalar(ScalarKind::Int(IntKind::I64))),
        field("Bool", Form::Bool),
        field("None", Form::Optional(Box::new(integer()))),
        field("Some", Form::Optional(Box::new(beta()))),
        field("Unit", beta()),
        field("Single", beta()),
        field("Named", beta()),
        field("Inner", Form::Struct(vec![field("Deep", Form::Optional(Box::new(Form::Bool)))])),
    ]);
    let value = Value::Struct(vec![
        Value::Text("hello, world".to_string()),
        Value::Password(Password::from_str("hunter2").unwrap()),
        Value::BigString(BigString::from_str("a\nb").unwrap()),
        Value::U8(255),
        Value::I64(i64::MIN),
        Value::Bool(true),
        Value::Optional(None),
        Value::Optional(Some(Box::new(Value::Named(2, vec![Value::I32(-3)])))),
        Value::Unit(0),
        Value::Single(1, Box::new(Value::I32(7))),
        Value::Named(2, vec![Value::I32(9)]),
        Value::Struct(vec![Value::Optional(Some(Box::new(Value::Bool(false))))]),
    ]);
    let mut page = Page::new();
    let mut state = form.new_form(&mut page, "all");
    enter(&mut page, &mut state, &value);
    assert_eq!(state.parse(&mut page), Ok(value));
    for slot in slots(&page) {
        assert_eq!(page.get(slot).text, "");
    }
}
