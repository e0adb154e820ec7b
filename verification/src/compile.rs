//! From the declaration of a type to its schema.
//!
//! A declaration is what the source of a type says: the names of its fields
//! or variants, their attributes, and the types of the fields. Compiling it
//! checks that every field and variant carries a title and that the shapes
//! are ones a form can be made for, and gives the schema (`Form`) that forms
//! are made from. A declaration that fails the checks gives an error that
//! names the offending field or variant; no form is ever made from it.

use vstd::prelude::*;
use vstd::string::*;
use crate::attribute::{shapes_of, Argument, ArgumentView, Attribute, AttributeView};
use crate::literal::{literal_value, string_literal_value};
use crate::page::same_text;
use crate::schema::{FieldSchema, Form, VariantKind, VariantSchema};

verus! {

/// A named field of a struct or of an enum variant.
#[derive(Debug, PartialEq, Eq)]
pub struct FieldDecl {
    /// The field's name.
    pub name: String,
    /// The field's attributes, in order.
    pub attrs: Vec<Attribute>,
    /// The schema of the field's type.
    pub form: Form,
}

/// The fields of a struct or of an enum variant.
#[derive(Debug, PartialEq, Eq)]
pub enum FieldsDecl {
    /// Named fields in braces, in declared order.
    Named(Vec<FieldDecl>),
    /// Unnamed fields in round brackets: the schemas of their types, in
    /// declared order.
    Unnamed(Vec<Form>),
    /// No fields.
    Unit,
}

/// A variant of an enum.
#[derive(Debug, PartialEq, Eq)]
pub struct VariantDecl {
    /// The variant's name.
    pub name: String,
    /// The variant's attributes, in order.
    pub attrs: Vec<Attribute>,
    /// The variant's fields.
    pub fields: FieldsDecl,
}

/// What a type is declared as.
#[derive(Debug, PartialEq, Eq)]
pub enum DataDecl {
    Struct(FieldsDecl),
    Enum(Vec<VariantDecl>),
    Union,
}

/// The declaration of a type.
#[derive(Debug, PartialEq, Eq)]
pub struct TypeDecl {
    /// The type's name.
    pub name: String,
    /// What the type is declared as.
    pub data: DataDecl,
}

/// Why a field or a variant has no title.
#[derive(Clone, Copy, PartialEq, Eq, Structural, Debug)]
pub enum TitleError {
    /// There is no `#[title(..)]` attribute.
    Missing,
    /// There is more than one `#[title(..)]` attribute.
    Repeated,
    /// The attribute does not have exactly one argument.
    ArgumentCount,
    /// The argument is no literal.
    NotLiteral,
    /// The argument is a literal, but no string literal.
    NotString,
    /// The title is the empty string.
    Empty,
}

impl TitleError {
    /// The description of the error.
    pub open spec fn message_spec(self) -> Seq<char> {
        match self {
            TitleError::Missing => "Missing #[title(\"Field name\")]"@,
            TitleError::Repeated => "#[title()] must be given exactly once"@,
            TitleError::ArgumentCount => "#[title()] needs exactly one literal string argument"@,
            TitleError::NotLiteral => "#[title()] argument must be a string literal"@,
            TitleError::NotString => "#[title()] needs exactly one literal string argument"@,
            TitleError::Empty => "#[title()] must not be empty"@,
        }
    }

    /// The description of the error.
    pub fn message(&self) -> (r: &'static str)
        ensures
            r@ == self.message_spec(),
    {
        match self {
            TitleError::Missing => "Missing #[title(\"Field name\")]",
            TitleError::Repeated => "#[title()] must be given exactly once",
            TitleError::ArgumentCount => "#[title()] needs exactly one literal string argument",
            TitleError::NotLiteral => "#[title()] argument must be a string literal",
            TitleError::NotString => "#[title()] needs exactly one literal string argument",
            TitleError::Empty => "#[title()] must not be empty",
        }
    }
}

/// Whether the attribute is a `#[title(..)]`.
pub open spec fn is_title(attr: AttributeView) -> bool {
    attr matches AttributeView::List { path, .. } && path == "title"@
}

/// The title that a string literal gives, from what the literal stands for
/// (`None` where the source text is no string literal): the text itself,
/// which must not be empty.
pub open spec fn title_of_literal(value: Option<Seq<char>>) -> Result<Seq<char>, TitleError> {
    match value {
        None => Err(TitleError::NotString),
        Some(title) => if title.len() == 0 {
            Err(TitleError::Empty)
        } else {
            Ok(title)
        },
    }
}

/// The title that the arguments of a `#[title(..)]` give: there must be
/// exactly one, a string literal.
pub open spec fn title_of_arguments(arguments: Seq<ArgumentView>) -> Result<Seq<char>, TitleError> {
    if arguments.len() != 1 {
        Err(TitleError::ArgumentCount)
    } else {
        match arguments[0] {
            ArgumentView::Nested => Err(TitleError::NotLiteral),
            ArgumentView::OtherLiteral => Err(TitleError::NotString),
            ArgumentView::StringLiteral(source) => title_of_literal(string_literal_value(source)),
        }
    }
}

/// The title that the attributes of a field or variant give: exactly one of
/// them must be a `#[title(..)]`, and its arguments must give a title.
pub open spec fn title_of(attrs: Seq<AttributeView>) -> Result<Seq<char>, TitleError> {
    if forall|i: int| 0 <= i < attrs.len() ==> !is_title(#[trigger] attrs[i]) {
        Err(TitleError::Missing)
    } else if exists|i: int, j: int|
        0 <= i < j < attrs.len() && is_title(#[trigger] attrs[i]) && is_title(#[trigger] attrs[j]) {
        Err(TitleError::Repeated)
    } else {
        let at = choose|i: int| 0 <= i < attrs.len() && is_title(#[trigger] attrs[i]);
        title_of_arguments(attrs[at]->arguments)
    }
}

/// The title that the attributes of a field or variant give.
pub open spec fn declared_title(attrs: Seq<Attribute>) -> Result<Seq<char>, TitleError> {
    title_of(shapes_of(attrs))
}

/// Turns what a string literal stands for into a title.
pub fn title_from_literal(value: Option<String>) -> (r: Result<String, TitleError>)
    ensures
        match r {
            Ok(title) => title_of_literal(
                match value {
                    Some(text) => Some(text@),
                    None => None,
                },
            ) == Ok::<Seq<char>, TitleError>(title@),
            Err(e) => title_of_literal(
                match value {
                    Some(text) => Some(text@),
                    None => None,
                },
            ) == Err::<Seq<char>, TitleError>(e),
        },
{
    match value {
        None => Err(TitleError::NotString),
        Some(title) => {
            if title.as_str().is_empty() {
                Err(TitleError::Empty)
            } else {
                Ok(title)
            }
        },
    }
}

/// Whether the attribute is a `#[title(..)]`.
fn attr_is_title(attr: &Attribute) -> (r: bool)
    ensures
        r == is_title(attr@),
{
    match attr {
        Attribute::List { path, arguments } => same_text(path.as_str(), "title"),
        Attribute::Other => false,
    }
}

/// Finds the title among the attributes of a field or variant.
pub fn parse_title(attrs: &Vec<Attribute>) -> (r: Result<String, TitleError>)
    ensures
        match r {
            Ok(title) => declared_title(attrs@) == Ok::<Seq<char>, TitleError>(title@),
            Err(e) => declared_title(attrs@) == Err::<Seq<char>, TitleError>(e),
        },
{
    let ghost shapes = shapes_of(attrs@);
    let mut found: Option<usize> = None;
    let mut i: usize = 0;
    while i < attrs.len()
        invariant
            i <= attrs@.len(),
            shapes == shapes_of(attrs@),
            match found {
                None => forall|k: int| 0 <= k < i ==> !is_title(#[trigger] shapes[k]),
                Some(at) => at < i && is_title(shapes[at as int]) && forall|k: int|
                    0 <= k < i && k != at ==> !is_title(#[trigger] shapes[k]),
            },
        decreases attrs@.len() - i,
    {
        if attr_is_title(&attrs[i]) {
            match found {
                Some(at) => {
                    assert(is_title(shapes[at as int]) && is_title(shapes[i as int]));
                    return Err(TitleError::Repeated);
                },
                None => {
                    found = Some(i);
                },
            }
        }
        i = i + 1;
    }
    match found {
        None => Err(TitleError::Missing),
        Some(at) => {
            assert(is_title(shapes[at as int]));
            match &attrs[at] {
                Attribute::List { path, arguments } => {
                    if arguments.len() != 1 {
                        return Err(TitleError::ArgumentCount);
                    }
                    match &arguments[0] {
                        Argument::StringLiteral(source) => title_from_literal(literal_value(source.as_str())),
                        Argument::OtherLiteral => Err(TitleError::NotString),
                        Argument::Nested => Err(TitleError::NotLiteral),
                    }
                },
                Attribute::Other => Err(TitleError::Missing),
            }
        },
    }
}

/// Why a declaration has no schema.
#[derive(Debug, PartialEq, Eq)]
pub enum DeriveError {
    /// The type is a struct with unnamed fields.
    TupleStruct,
    /// The type is a struct without fields.
    UnitStruct,
    /// The type is a union.
    Union,
    /// A field has no title.
    Field {
        /// The field's name.
        name: String,
        error: TitleError,
    },
    /// A variant has no title.
    Variant {
        /// The variant's name.
        name: String,
        error: TitleError,
    },
    /// A variant has unnamed fields, but not exactly one.
    TupleVariant {
        /// The variant's name.
        name: String,
    },
}

/// The mathematical content of a `DeriveError`.
pub enum DeriveErrorView {
    TupleStruct,
    UnitStruct,
    Union,
    Field { name: Seq<char>, error: TitleError },
    Variant { name: Seq<char>, error: TitleError },
    TupleVariant { name: Seq<char> },
}

impl View for DeriveError {
    type V = DeriveErrorView;

    open spec fn view(&self) -> DeriveErrorView {
        match self {
            DeriveError::TupleStruct => DeriveErrorView::TupleStruct,
            DeriveError::UnitStruct => DeriveErrorView::UnitStruct,
            DeriveError::Union => DeriveErrorView::Union,
            DeriveError::Field { name, error } => DeriveErrorView::Field { name: name@, error: *error },
            DeriveError::Variant { name, error } => DeriveErrorView::Variant {
                name: name@,
                error: *error,
            },
            DeriveError::TupleVariant { name } => DeriveErrorView::TupleVariant { name: name@ },
        }
    }
}

impl DeriveErrorView {
    /// The description of the error, for a type of the given name. It names
    /// the offending field or variant.
    pub open spec fn message(self, owner: Seq<char>) -> Seq<char> {
        match self {
            DeriveErrorView::TupleStruct => "Tuple structs aren't supported"@,
            DeriveErrorView::UnitStruct => "Unit structs aren't supported"@,
            DeriveErrorView::Union => "Union types unsupported"@,
            DeriveErrorView::Field { name, error } => "Error with attributes on field "@ + name + ": "@
                + error.message_spec(),
            DeriveErrorView::Variant { name, error } => "Error with attributes on "@ + owner + "::"@
                + name + ": "@ + error.message_spec(),
            DeriveErrorView::TupleVariant { name } =>
                "Only single field tuple enum variants are supported currently ("@ + owner + "::"@
                    + name + ")"@,
        }
    }
}

impl DeriveError {
    /// The description of the error, for a type of the given name. It names
    /// the offending field or variant.
    pub fn message(&self, owner: &str) -> (r: String)
        ensures
            r@ == self@.message(owner@),
    {
        match self {
            DeriveError::TupleStruct => "Tuple structs aren't supported".to_owned(),
            DeriveError::UnitStruct => "Unit structs aren't supported".to_owned(),
            DeriveError::Union => "Union types unsupported".to_owned(),
            DeriveError::Field { name, error } => {
                let mut out = "Error with attributes on field ".to_owned();
                out.append(name.as_str());
                out.append(": ");
                out.append(error.message());
                out
            },
            DeriveError::Variant { name, error } => {
                let mut out = "Error with attributes on ".to_owned();
                out.append(owner);
                out.append("::");
                out.append(name.as_str());
                out.append(": ");
                out.append(error.message());
                out
            },
            DeriveError::TupleVariant { name } => {
                let mut out = "Only single field tuple enum variants are supported currently (".to_owned();
                out.append(owner);
                out.append("::");
                out.append(name.as_str());
                out.append(")");
                out
            },
        }
    }
}

/// The position of the first among the first `n` fields that has no title.
pub open spec fn first_untitled(fields: Seq<FieldDecl>, n: nat) -> Option<int>
    decreases n,
{
    if n == 0 || n > fields.len() {
        None
    } else {
        match first_untitled(fields, (n - 1) as nat) {
            Some(at) => Some(at),
            None => if declared_title(fields[n - 1].attrs@) is Err {
                Some(n - 1)
            } else {
                None
            },
        }
    }
}

/// The error of the first field, in declared order, that has no title.
pub open spec fn fields_error(fields: Seq<FieldDecl>) -> Option<DeriveErrorView> {
    match first_untitled(fields, fields.len()) {
        Some(at) => Some(
            DeriveErrorView::Field { name: fields[at].name@, error: declared_title(fields[at].attrs@)->Err_0 },
        ),
        None => None,
    }
}

/// Whether `schemas` are the schemas of the fields: one for each, in order,
/// with the field's title and the schema of its type.
pub open spec fn fields_schema(schemas: Seq<FieldSchema>, fields: Seq<FieldDecl>) -> bool {
    &&& schemas.len() == fields.len()
    &&& forall|i: int|
        #![trigger schemas[i]]
        0 <= i < fields.len() ==> declared_title(fields[i].attrs@) == Ok::<Seq<char>, TitleError>(
            schemas[i].title@,
        ) && schemas[i].form == fields[i].form
}

/// The error of a variant: that of its title, else that of its fields.
pub open spec fn variant_error(variant: VariantDecl) -> Option<DeriveErrorView> {
    match declared_title(variant.attrs@) {
        Err(error) => Some(DeriveErrorView::Variant { name: variant.name@, error }),
        Ok(_) => match variant.fields {
            FieldsDecl::Named(fields) => fields_error(fields@),
            FieldsDecl::Unnamed(types) => if types@.len() != 1 {
                Some(DeriveErrorView::TupleVariant { name: variant.name@ })
            } else {
                None
            },
            FieldsDecl::Unit => None,
        },
    }
}

/// Whether `schema` is the schema of the variant: it has the variant's title,
/// and holds nothing, the one unnamed value, or the named fields.
pub open spec fn variant_schema(schema: VariantSchema, variant: VariantDecl) -> bool {
    &&& declared_title(variant.attrs@) == Ok::<Seq<char>, TitleError>(schema.title@)
    &&& match variant.fields {
        FieldsDecl::Named(fields) => schema.kind matches VariantKind::NamedFields(schemas)
            && fields_schema(schemas@, fields@),
        FieldsDecl::Unnamed(types) => {
            &&& types@.len() == 1
            &&& schema.kind matches VariantKind::SingleValue(form)
            &&& *form == types@[0]
        },
        FieldsDecl::Unit => schema.kind is Unit,
    }
}

/// The position of the first among the first `n` variants that is in error.
pub open spec fn first_bad_variant(variants: Seq<VariantDecl>, n: nat) -> Option<int>
    decreases n,
{
    if n == 0 || n > variants.len() {
        None
    } else {
        match first_bad_variant(variants, (n - 1) as nat) {
            Some(at) => Some(at),
            None => if variant_error(variants[n - 1]) is Some {
                Some(n - 1)
            } else {
                None
            },
        }
    }
}

/// The error of the first variant, in declared order, that is in error.
pub open spec fn variants_error(variants: Seq<VariantDecl>) -> Option<DeriveErrorView> {
    match first_bad_variant(variants, variants.len()) {
        Some(at) => variant_error(variants[at]),
        None => None,
    }
}

/// Whether `schemas` are the schemas of the variants, one for each, in order.
pub open spec fn variants_schema(schemas: Seq<VariantSchema>, variants: Seq<VariantDecl>) -> bool {
    &&& schemas.len() == variants.len()
    &&& forall|i: int|
        #![trigger schemas[i]]
        0 <= i < variants.len() ==> variant_schema(schemas[i], variants[i])
}

/// Why the declaration has no schema, or `None` where it has one. A struct
/// must have named fields, each with a title. Each variant of an enum must
/// have a title, and hold nothing, exactly one unnamed value, or named
/// fields, each with a title. The first offence in declared order is the one
/// reported.
pub open spec fn derive_error(body: TypeDecl) -> Option<DeriveErrorView> {
    match body.data {
        DataDecl::Struct(FieldsDecl::Named(fields)) => fields_error(fields@),
        DataDecl::Struct(FieldsDecl::Unnamed(_)) => Some(DeriveErrorView::TupleStruct),
        DataDecl::Struct(FieldsDecl::Unit) => Some(DeriveErrorView::UnitStruct),
        DataDecl::Enum(variants) => variants_error(variants@),
        DataDecl::Union => Some(DeriveErrorView::Union),
    }
}

/// Whether `form` is the schema of the declared type.
pub open spec fn derived(form: Form, body: TypeDecl) -> bool {
    match body.data {
        DataDecl::Struct(FieldsDecl::Named(fields)) => form matches Form::Struct(schemas)
            && fields_schema(schemas@, fields@),
        DataDecl::Enum(variants) => form matches Form::Enum(schemas) && variants_schema(
            schemas@,
            variants@,
        ),
        _ => false,
    }
}

/// An error among the first fields is the error of all.
proof fn lemma_first_untitled_stays(fields: Seq<FieldDecl>, k: nat, n: nat)
    requires
        k <= n <= fields.len(),
        first_untitled(fields, k) is Some,
    ensures
        first_untitled(fields, n) == first_untitled(fields, k),
    decreases n,
{
    if k < n {
        lemma_first_untitled_stays(fields, k, (n - 1) as nat);
    }
}

/// An error among the first variants is the error of all.
proof fn lemma_first_bad_variant_stays(variants: Seq<VariantDecl>, k: nat, n: nat)
    requires
        k <= n <= variants.len(),
        first_bad_variant(variants, k) is Some,
    ensures
        first_bad_variant(variants, n) == first_bad_variant(variants, k),
    decreases n,
{
    if k < n {
        lemma_first_bad_variant_stays(variants, k, (n - 1) as nat);
    }
}

/// Gives the schemas of named fields: for each field, in declared order, its
/// title and the schema of its type. Stops at the first field without a
/// title.
pub fn build_fields_form(fields: Vec<FieldDecl>) -> (r: Result<Vec<FieldSchema>, DeriveError>)
    ensures
        match r {
            Ok(schemas) => fields_error(fields@) is None && fields_schema(schemas@, fields@),
            Err(e) => fields_error(fields@) == Some(e@),
        },
{
    let mut form_fields: Vec<FieldSchema> = Vec::new();
    let ghost all = fields@;
    for f in iter: fields
        invariant
            iter.seq() == all,
            form_fields@.len() == iter.index(),
            first_untitled(all, iter.index() as nat) is None,
            forall|i: int|
                #![trigger form_fields@[i]]
                0 <= i < iter.index() ==> declared_title(all[i].attrs@) == Ok::<Seq<char>, TitleError>(
                    form_fields@[i].title@,
                ) && form_fields@[i].form == all[i].form,
    {
        let ghost at = iter.index();
        assert(f == all[at as int]);
        match parse_title(&f.attrs) {
            Err(error) => {
                proof {
                    lemma_first_untitled_stays(all, (at + 1) as nat, all.len());
                }
                return Err(DeriveError::Field { name: f.name, error });
            },
            Ok(f_name) => {
                form_fields.push(FieldSchema { title: f_name, form: f.form });
            },
        }
    }
    return Ok(form_fields);
}

/// Gives the schema of a variant.
fn build_variant(v: VariantDecl) -> (r: Result<VariantSchema, DeriveError>)
    ensures
        match r {
            Ok(schema) => variant_error(v) is None && variant_schema(schema, v),
            Err(e) => variant_error(v) == Some(e@),
        },
{
    let v_name = match parse_title(&v.attrs) {
        Err(error) => {
            return Err(DeriveError::Variant { name: v.name, error });
        },
        Ok(title) => title,
    };
    match v.fields {
        FieldsDecl::Named(fields) => match build_fields_form(fields) {
            Err(e) => Err(e),
            Ok(schemas) => Ok(VariantSchema { title: v_name, kind: VariantKind::NamedFields(schemas) }),
        },
        FieldsDecl::Unnamed(mut types) => {
            if types.len() != 1 {
                return Err(DeriveError::TupleVariant { name: v.name });
            }
            match types.pop() {
                Some(form) => Ok(
                    VariantSchema { title: v_name, kind: VariantKind::SingleValue(Box::new(form)) },
                ),
                None => Err(DeriveError::TupleVariant { name: v.name }),
            }
        },
        FieldsDecl::Unit => Ok(VariantSchema { title: v_name, kind: VariantKind::Unit }),
    }
}

/// Compiles the declaration of a type into its schema, or says why it has
/// none.
pub fn derive1(body: TypeDecl) -> (r: Result<Form, DeriveError>)
    ensures
        match r {
            Ok(form) => derive_error(body) is None && derived(form, body),
            Err(e) => derive_error(body) == Some(e@),
        },
{
    match body.data {
        DataDecl::Struct(s) => {
            match s {
                FieldsDecl::Named(fields) => match build_fields_form(fields) {
                    Ok(schemas) => Ok(Form::Struct(schemas)),
                    Err(e) => Err(e),
                },
                FieldsDecl::Unnamed(_) => Err(DeriveError::TupleStruct),
                FieldsDecl::Unit => Err(DeriveError::UnitStruct),
            }
        },
        DataDecl::Enum(variants) => {
            let mut build_variants: Vec<VariantSchema> = Vec::new();
            let ghost all = variants@;
            for v in iter: variants
                invariant
                    iter.seq() == all,
                    body.data matches DataDecl::Enum(declared) && declared@ == all,
                    build_variants@.len() == iter.index(),
                    first_bad_variant(all, iter.index() as nat) is None,
                    forall|i: int|
                        #![trigger build_variants@[i]]
                        0 <= i < iter.index() ==> variant_schema(build_variants@[i], all[i]),
            {
                let ghost at = iter.index();
                assert(v == all[at as int]);
                match build_variant(v) {
                    Err(e) => {
                        proof {
                            lemma_first_bad_variant_stays(all, (at + 1) as nat, all.len());
                        }
                        return Err(e);
                    },
                    Ok(schema) => {
                        build_variants.push(schema);
                    },
                }
            }
            Ok(Form::Enum(build_variants))
        },
        DataDecl::Union => Err(DeriveError::Union),
    }
}

} // verus!
