use rooting_forms::attribute::{Argument, Attribute};
use rooting_forms::compile::{
    build_fields_form, derive1, parse_title, title_from_literal, DataDecl, DeriveError, FieldDecl,
    FieldsDecl, TitleError, TypeDecl, VariantDecl,
};
use rooting_forms::form::FormState;
use rooting_forms::page::{El, Page};
use rooting_forms::scalar::{IntKind, ScalarKind};
use rooting_forms::schema::{FieldSchema, Form, VariantKind, VariantSchema};
use rooting_forms::value::Value;
use rooting_forms::{
    ATTR_LABEL, CSS_CLASS_ERROR, CSS_CLASS_HIDDEN, CSS_CLASS_LABEL, CSS_CLASS_SMALL_INPUT,
    CSS_CLASS_SUBFORM,
};

/// `#[title(..)]` with the string literal of the given source text.
fn title(source: &str) -> Attribute {
    Attribute::List {
        path: "title".to_string(),
        arguments: vec![Argument::StringLiteral(source.to_string())],
    }
}

fn i32_form() -> Form {
    Form::Scalar(ScalarKind::Int(IntKind::I32))
}

fn field(name: &str, attrs: Vec<Attribute>) -> FieldDecl {
    FieldDecl { name: name.to_string(), attrs, form: i32_form() }
}

fn classes(page: &Page, el: El) -> Vec<String> {
    page.get(el).classes.clone()
}

fn attrs(page: &Page, el: El) -> Vec<(String, String)> {
    page.get(el).attrs.clone()
}

fn pair(key: &str, value: &str) -> (String, String) {
    (key.to_string(), value.to_string())
}

/// `struct Alpha { #[title("A")] a: i32 }`
#[test]
fn simple_struct() {
    let body = TypeDecl {
        name: "Alpha".to_string(),
        data: DataDecl::Struct(FieldsDecl::Named(vec![field("a", vec![title("\"A\"")])])),
    };
    let form = derive1(body).unwrap();
    assert_eq!(form, Form::Struct(vec![FieldSchema { title: "A".to_string(), form: i32_form() }]));

    let mut page = Page::new();
    let state = form.new_form(&mut page, "field");
    let shown = state.elements();
    assert_eq!(shown.error, None);
    assert_eq!(shown.elements.len(), 3);
    let (error, label, input) = (shown.elements[0], shown.elements[1], shown.elements[2]);
    assert_eq!(page.get(error).tag, "span");
    assert_eq!(classes(&page, error), vec![CSS_CLASS_ERROR]);
    assert_eq!(page.get(label).tag, "span");
    assert_eq!(classes(&page, label), vec![CSS_CLASS_LABEL]);
    assert_eq!(page.get(label).text, "A");
    assert_eq!(page.get(input).tag, "input");
    assert_eq!(classes(&page, input), vec![CSS_CLASS_SMALL_INPUT]);
    assert_eq!(attrs(&page, input), vec![pair(ATTR_LABEL, "A"), pair("type", "text")]);
    assert_eq!(page.get(input).events, vec!["change"]);
    assert_eq!(page.len(), 3);

    page.set_value(input, "5");
    assert_eq!(state.parse(&mut page), Ok(Value::Struct(vec![Value::I32(5)])));
}

/// `enum Alpha { #[title("A")] A, #[title("B")] B(i32), #[title("C")] C { #[title("C")] c: i32 } }`
#[test]
fn simple_enum() {
    let body = TypeDecl {
        name: "Alpha".to_string(),
        data: DataDecl::Enum(vec![
            VariantDecl { name: "A".to_string(), attrs: vec![title("\"A\"")], fields: FieldsDecl::Unit },
            VariantDecl {
                name: "B".to_string(),
                attrs: vec![title("\"B\"")],
                fields: FieldsDecl::Unnamed(vec![i32_form()]),
            },
            VariantDecl {
                name: "C".to_string(),
                attrs: vec![title("\"C\"")],
                fields: FieldsDecl::Named(vec![field("c", vec![title("\"C\"")])]),
            },
        ]),
    };
    let form = derive1(body).unwrap();
    assert_eq!(
        form,
        Form::Enum(vec![
            VariantSchema { title: "A".to_string(), kind: VariantKind::Unit },
            VariantSchema { title: "B".to_string(), kind: VariantKind::SingleValue(Box::new(i32_form())) },
            VariantSchema {
                title: "C".to_string(),
                kind: VariantKind::NamedFields(vec![FieldSchema {
                    title: "C".to_string(),
                    form: i32_form()
                }]),
            },
        ])
    );

    let mut page = Page::new();
    let state = form.new_form(&mut page, "field");
    let shown = state.elements();
    assert_eq!(shown.error, None);
    assert_eq!(shown.elements.len(), 4);
    let select = shown.elements[0];
    assert_eq!(page.get(select).tag, "select");
    assert_eq!(classes(&page, select), vec![CSS_CLASS_SMALL_INPUT]);
    assert_eq!(attrs(&page, select), vec![pair(ATTR_LABEL, "field")]);
    assert_eq!(page.get(select).events, vec!["change"]);

    let options = page.get(select).children.clone();
    assert_eq!(options.len(), 3);
    for (i, name) in ["A", "B", "C"].iter().enumerate() {
        let option = page.get(options[i]);
        assert_eq!(option.tag, "option");
        assert_eq!(option.text, *name);
        if i == 0 {
            assert_eq!(option.attrs, vec![pair("value", "0"), pair("selected", "selected")]);
        } else {
            assert_eq!(option.attrs, vec![pair("value", &i.to_string())]);
        }
    }

    let containers = &shown.elements[1..];
    for (i, container) in containers.iter().enumerate() {
        assert_eq!(page.get(*container).tag, "div");
        if i == 0 {
            assert_eq!(classes(&page, *container), vec![CSS_CLASS_SUBFORM]);
        } else {
            assert_eq!(classes(&page, *container), vec![CSS_CLASS_SUBFORM, CSS_CLASS_HIDDEN]);
        }
    }
    assert!(page.get(containers[0]).children.is_empty());
    let in_b = page.get(containers[1]).children.clone();
    assert_eq!(in_b.len(), 2);
    assert_eq!(classes(&page, in_b[0]), vec![CSS_CLASS_ERROR]);
    assert_eq!(attrs(&page, in_b[1]), vec![pair(ATTR_LABEL, "B"), pair("type", "text")]);
    let in_c = page.get(containers[2]).children.clone();
    assert_eq!(in_c.len(), 3);
    assert_eq!(classes(&page, in_c[0]), vec![CSS_CLASS_ERROR]);
    assert_eq!(classes(&page, in_c[1]), vec![CSS_CLASS_LABEL]);
    assert_eq!(page.get(in_c[1]).text, "C");
    assert_eq!(attrs(&page, in_c[2]), vec![pair(ATTR_LABEL, "C"), pair("type", "text")]);

    match &state {
        FormState::Enum(inner) => assert_eq!(inner.current_variant, 0),
        other => panic!("not an enum form: {:?}", other),
    }
    assert_eq!(state.parse(&mut page), Ok(Value::Unit(0)));
}

#[test]
fn parse_title_reads_the_literal() {
    assert_eq!(parse_title(&vec![title("\"A\"")]), Ok("A".to_string()));
    assert_eq!(parse_title(&vec![title("\"Field name\"")]), Ok("Field name".to_string()));
    assert_eq!(parse_title(&vec![title("\"say \\\"hi\\\"\\n\"")]), Ok("say \"hi\"\n".to_string()));
    assert_eq!(parse_title(&vec![title("r#\"raw \"text\"\"#")]), Ok("raw \"text\"".to_string()));
    assert_eq!(parse_title(&vec![title("\"\\u{41}\\x42\"")]), Ok("AB".to_string()));
    assert_eq!(parse_title(&vec![title("\"one \\\n        line\"")]), Ok("one line".to_string()));
}

#[test]
fn parse_title_looks_at_every_attribute() {
    let other = || Attribute::List { path: "serde".to_string(), arguments: vec![Argument::Nested] };
    assert_eq!(parse_title(&vec![Attribute::Other, other(), title("\"A\"")]), Ok("A".to_string()));
    assert_eq!(parse_title(&vec![title("\"A\""), other(), Attribute::Other]), Ok("A".to_string()));
}

#[test]
fn parse_title_gives_each_error() {
    let other = || Attribute::List { path: "serde".to_string(), arguments: vec![Argument::Nested] };
    assert_eq!(parse_title(&vec![]), Err(TitleError::Missing));
    assert_eq!(parse_title(&vec![Attribute::Other, other()]), Err(TitleError::Missing));
    let near = Attribute::List {
        path: "titles".to_string(),
        arguments: vec![Argument::StringLiteral("\"A\"".to_string())],
    };
    assert_eq!(parse_title(&vec![near]), Err(TitleError::Missing));
    assert_eq!(parse_title(&vec![title("\"A\""), title("\"B\"")]), Err(TitleError::Repeated));
    assert_eq!(
        parse_title(&vec![title("\"A\""), Attribute::Other, title("\"A\"")]),
        Err(TitleError::Repeated)
    );
    let none = Attribute::List { path: "title".to_string(), arguments: vec![] };
    assert_eq!(parse_title(&vec![none]), Err(TitleError::ArgumentCount));
    let two = Attribute::List {
        path: "title".to_string(),
        arguments: vec![
            Argument::StringLiteral("\"A\"".to_string()),
            Argument::StringLiteral("\"B\"".to_string()),
        ],
    };
    assert_eq!(parse_title(&vec![two]), Err(TitleError::ArgumentCount));
    let nested = Attribute::List { path: "title".to_string(), arguments: vec![Argument::Nested] };
    assert_eq!(parse_title(&vec![nested]), Err(TitleError::NotLiteral));
    let number = Attribute::List { path: "title".to_string(), arguments: vec![Argument::OtherLiteral] };
    assert_eq!(parse_title(&vec![number]), Err(TitleError::NotString));
    assert_eq!(parse_title(&vec![title("\"\"")]), Err(TitleError::Empty));
    assert_eq!(parse_title(&vec![title("r\"\"")]), Err(TitleError::Empty));
}

#[test]
fn parse_title_rejects_what_is_no_string_literal() {
    let sources = [
        "",
        "A",
        "\"",
        "\"unterminated",
        "\"\\",
        "\"\\\"",
        "\"\\q\"",
        "\"\\x\"",
        "\"\\xZZ\"",
        "\"\\xff\"",
        "\"\\u\"",
        "\"\\u{\"",
        "\"\\u{}\"",
        "\"\\u{110000}\"",
        "\"\\u{1234567}\"",
        "\"carriage\rreturn\"",
        "\"\\\n",
        "r",
        "r#",
        "r#\"",
        "r#\"open\"",
        "r##\"short\"#",
        "b\"bytes\"",
        "c\"chars\"",
        "'c'",
        "5",
        "\u{e9}",
        "\"\u{e9}",
    ];
    for source in sources {
        assert_eq!(parse_title(&vec![title(source)]), Err(TitleError::NotString), "{:?}", source);
    }
}

#[test]
fn title_from_literal_checks_the_text() {
    assert_eq!(title_from_literal(Some("A".to_string())), Ok("A".to_string()));
    assert_eq!(title_from_literal(Some(" ".to_string())), Ok(" ".to_string()));
    assert_eq!(title_from_literal(Some(String::new())), Err(TitleError::Empty));
    assert_eq!(title_from_literal(None), Err(TitleError::NotString));
}

#[test]
fn title_error_messages() {
    assert_eq!(TitleError::Missing.message(), "Missing #[title(\"Field name\")]");
    assert_eq!(
        TitleError::ArgumentCount.message(),
        "#[title()] needs exactly one literal string argument"
    );
    assert_eq!(TitleError::NotString.message(), "#[title()] needs exactly one literal string argument");
    assert_eq!(TitleError::NotLiteral.message(), "#[title()] argument must be a string literal");
    assert_eq!(TitleError::Repeated.message(), "#[title()] must be given exactly once");
    assert_eq!(TitleError::Empty.message(), "#[title()] must not be empty");
}

#[test]
fn build_fields_form_keeps_order_and_types() {
    let fields = vec![
        FieldDecl { name: "b".to_string(), attrs: vec![title("\"Second\"")], form: Form::Bool },
        FieldDecl {
            name: "a".to_string(),
            attrs: vec![title("\"First\"")],
            form: Form::Optional(Box::new(i32_form())),
        },
    ];
    assert_eq!(
        build_fields_form(fields),
        Ok(vec![
            FieldSchema { title: "Second".to_string(), form: Form::Bool },
            FieldSchema { title: "First".to_string(), form: Form::Optional(Box::new(i32_form())) },
        ])
    );
    assert_eq!(build_fields_form(vec![]), Ok(vec![]));
}

#[test]
fn build_fields_form_reports_the_first_untitled_field() {
    let fields = vec![
        field("a", vec![title("\"A\"")]),
        field("b", vec![]),
        field("c", vec![title("\"\"")]),
    ];
    assert_eq!(
        build_fields_form(fields),
        Err(DeriveError::Field { name: "b".to_string(), error: TitleError::Missing })
    );
}

#[test]
fn derive1_rejects_unsupported_shapes() {
    let tuple = TypeDecl {
        name: "T".to_string(),
        data: DataDecl::Struct(FieldsDecl::Unnamed(vec![i32_form()])),
    };
    assert_eq!(derive1(tuple), Err(DeriveError::TupleStruct));
    let unit = TypeDecl { name: "T".to_string(), data: DataDecl::Struct(FieldsDecl::Unit) };
    assert_eq!(derive1(unit), Err(DeriveError::UnitStruct));
    let union = TypeDecl { name: "T".to_string(), data: DataDecl::Union };
    assert_eq!(derive1(union), Err(DeriveError::Union));
}

#[test]
fn derive1_accepts_empty_types() {
    let empty = TypeDecl { name: "T".to_string(), data: DataDecl::Struct(FieldsDecl::Named(vec![])) };
    assert_eq!(derive1(empty), Ok(Form::Struct(vec![])));
    let never = TypeDecl { name: "T".to_string(), data: DataDecl::Enum(vec![]) };
    assert_eq!(derive1(never), Ok(Form::Enum(vec![])));
}

#[test]
fn derive1_reports_the_first_offending_variant() {
    let variants = |second: VariantDecl| TypeDecl {
        name: "T".to_string(),
        data: DataDecl::Enum(vec![
            VariantDecl { name: "A".to_string(), attrs: vec![title("\"A\"")], fields: FieldsDecl::Unit },
            second,
            VariantDecl { name: "Z".to_string(), attrs: vec![], fields: FieldsDecl::Unit },
        ]),
    };
    let untitled = VariantDecl { name: "B".to_string(), attrs: vec![], fields: FieldsDecl::Unit };
    assert_eq!(
        derive1(variants(untitled)),
        Err(DeriveError::Variant { name: "B".to_string(), error: TitleError::Missing })
    );
    let pair = VariantDecl {
        name: "B".to_string(),
        attrs: vec![title("\"B\"")],
        fields: FieldsDecl::Unnamed(vec![i32_form(), i32_form()]),
    };
    assert_eq!(derive1(variants(pair)), Err(DeriveError::TupleVariant { name: "B".to_string() }));
    let none = VariantDecl {
        name: "B".to_string(),
        attrs: vec![title("\"B\"")],
        fields: FieldsDecl::Unnamed(vec![]),
    };
    assert_eq!(derive1(variants(none)), Err(DeriveError::TupleVariant { name: "B".to_string() }));
    let inner = VariantDecl {
        name: "B".to_string(),
        attrs: vec![title("\"B\"")],
        fields: FieldsDecl::Named(vec![field("x", vec![Attribute::Other])]),
    };
    assert_eq!(
        derive1(variants(inner)),
        Err(DeriveError::Field { name: "x".to_string(), error: TitleError::Missing })
    );
    let both = VariantDecl {
        name: "B".to_string(),
        attrs: vec![],
        fields: FieldsDecl::Unnamed(vec![]),
    };
    assert_eq!(
        derive1(variants(both)),
        Err(DeriveError::Variant { name: "B".to_string(), error: TitleError::Missing })
    );
    let fine = VariantDecl { name: "B".to_string(), attrs: vec![title("\"B\"")], fields: FieldsDecl::Unit };
    assert_eq!(
        derive1(variants(fine)),
        Err(DeriveError::Variant { name: "Z".to_string(), error: TitleError::Missing })
    );
}

#[test]
fn derive_error_messages_name_the_offender() {
    assert_eq!(DeriveError::TupleStruct.message("T"), "Tuple structs aren't supported");
    assert_eq!(DeriveError::UnitStruct.message("T"), "Unit structs aren't supported");
    assert_eq!(DeriveError::Union.message("T"), "Union types unsupported");
    assert_eq!(
        DeriveError::Field { name: "a".to_string(), error: TitleError::Missing }.message("T"),
        "Error with attributes on field a: Missing #[title(\"Field name\")]"
    );
    assert_eq!(
        DeriveError::Variant { name: "V".to_string(), error: TitleError::NotLiteral }.message("T"),
        "Error with attributes on T::V: #[title()] argument must be a string literal"
    );
    assert_eq!(
        DeriveError::TupleVariant { name: "V".to_string() }.message("T"),
        "Only single field tuple enum variants are supported currently (T::V)"
    );
}
