use flatipc::certify::{
    ensure_type_exists_for, ensure_valid_repr, generate_transmittable_checks_enum,
    generate_transmittable_checks_struct, generate_transmittable_checks_union, type_to_string,
    CertifyError, TransmittableChecks,
};
use flatipc::declaration::{Attribute, Data, Declaration, Field, Fields, TypeShape, Variant};
use flatipc::derive::{
    derive_ipc_inner, derive_transmittable_inner, generate_padded_version,
    generate_transmittable_checks,
};
use flatipc::signature::ast_hash;

fn path(name: &str) -> TypeShape {
    TypeShape::Path(name.to_string())
}

fn array(elem: TypeShape, len: &str) -> TypeShape {
    TypeShape::Array { elem: Box::new(elem), len: len.to_string() }
}

fn bare_fn() -> TypeShape {
    TypeShape::BareFn("fn ()".to_string())
}

fn group() -> TypeShape {
    TypeShape::Group("u8".to_string())
}

fn impl_trait() -> TypeShape {
    TypeShape::ImplTrait("impl Copy".to_string())
}

fn macro_type() -> TypeShape {
    TypeShape::Macro("ty ! ()".to_string())
}

fn paren() -> TypeShape {
    TypeShape::Paren("(u8)".to_string())
}

fn pointer() -> TypeShape {
    TypeShape::Ptr("* const u8".to_string())
}

fn reference() -> TypeShape {
    TypeShape::Reference("& u8".to_string())
}

fn slice() -> TypeShape {
    TypeShape::Slice("[u8]".to_string())
}

fn trait_object() -> TypeShape {
    TypeShape::TraitObject("dyn Copy".to_string())
}

fn verbatim() -> TypeShape {
    TypeShape::Verbatim("?".to_string())
}

fn other() -> TypeShape {
    TypeShape::Other("?".to_string())
}

fn named(name: &str, ty: TypeShape) -> Field {
    Field { name: Some(name.to_string()), ty }
}

fn unnamed(ty: TypeShape) -> Field {
    Field { name: None, ty }
}

fn attribute(path: &str, arguments: &[&str]) -> Attribute {
    Attribute {
        path: path.to_string(),
        arguments: arguments.iter().map(|argument| argument.to_string()).collect(),
    }
}

fn declaration(attrs: Vec<Attribute>, name: &str, data: Data) -> Declaration {
    Declaration { attrs, visibility: "pub".to_string(), name: name.to_string(), data }
}

fn variant(name: &str, fields: Fields) -> Variant {
    Variant { name: name.to_string(), fields, discriminant: None }
}

fn unsupported(variant: Option<usize>, field: usize, shape: &str) -> CertifyError {
    CertifyError::UnsupportedFieldType { variant, field, shape: shape.to_string() }
}

fn strings(items: &[&str]) -> Vec<String> {
    items.iter().map(|item| item.to_string()).collect()
}

fn rectangle_fields() -> Fields {
    Fields::Named(vec![
        named("tl", path("Point")),
        named("gid", array(path("u32"), "4")),
        named("pair", TypeShape::Tuple(vec![path("u8"), path("Option < bool >")])),
    ])
}

fn text_bounds_variants() -> Vec<Variant> {
    vec![
        variant("BoundingBox", Fields::Unnamed(vec![unnamed(path("Rectangle"))])),
        variant(
            "GrowableFromBr",
            Fields::Unnamed(vec![unnamed(path("Point")), unnamed(path("u16"))]),
        ),
        variant("Nothing", Fields::Unit),
        variant("Named", Fields::Named(vec![named("at", array(path("Pt"), "2"))])),
    ]
}

#[test]
fn every_shape_has_its_name() {
    let shapes = vec![
        (array(path("u8"), "4"), "Array"),
        (bare_fn(), "BareFn"),
        (group(), "Group"),
        (impl_trait(), "ImplTrait"),
        (TypeShape::Infer, "Infer"),
        (macro_type(), "Macro"),
        (TypeShape::Never, "Never"),
        (paren(), "Paren"),
        (path("u8"), "Path"),
        (pointer(), "Ptr"),
        (reference(), "Reference"),
        (slice(), "Slice"),
        (trait_object(), "TraitObject"),
        (TypeShape::Tuple(vec![]), "Tuple"),
        (verbatim(), "Verbatim"),
        (other(), "Other (Unknown)"),
    ];
    for (shape, name) in shapes {
        assert_eq!(type_to_string(&shape), name);
    }
}

#[test]
fn a_named_type_owes_one_proof() {
    assert_eq!(ensure_type_exists_for(&path("u32")), Ok(strings(&["u32"])));
    assert_eq!(
        ensure_type_exists_for(&path("Option < Rectangle >")),
        Ok(strings(&["Option < Rectangle >"]))
    );
}

#[test]
fn arrays_and_tuples_are_certified_through() {
    let ty = TypeShape::Tuple(vec![
        path("u8"),
        array(array(path("Point"), "2"), "3"),
        TypeShape::Tuple(vec![path("i16"), TypeShape::Tuple(vec![]), path("bool")]),
        path("u8"),
    ]);
    assert_eq!(
        ensure_type_exists_for(&ty),
        Ok(strings(&["u8", "Point", "i16", "bool", "u8"]))
    );
    assert_eq!(ensure_type_exists_for(&TypeShape::Tuple(vec![])), Ok(vec![]));
}

#[test]
fn unsupported_shapes_are_refused_by_name() {
    let refused = vec![
        (bare_fn(), "BareFn"),
        (group(), "Group"),
        (impl_trait(), "ImplTrait"),
        (TypeShape::Infer, "Infer"),
        (macro_type(), "Macro"),
        (TypeShape::Never, "Never"),
        (paren(), "Paren"),
        (pointer(), "Ptr"),
        (reference(), "Reference"),
        (slice(), "Slice"),
        (trait_object(), "TraitObject"),
        (verbatim(), "Verbatim"),
        (other(), "Other (Unknown)"),
    ];
    for (shape, name) in refused {
        assert_eq!(ensure_type_exists_for(&shape), Err(name.to_string()));
    }
}

#[test]
fn the_first_unsupported_shape_is_reported() {
    let ty = TypeShape::Tuple(vec![
        path("u8"),
        array(TypeShape::Tuple(vec![path("u8"), pointer(), TypeShape::Never]), "2"),
        reference(),
    ]);
    assert_eq!(ensure_type_exists_for(&ty), Err("Ptr".to_string()));
    assert_eq!(ensure_type_exists_for(&array(slice(), "1")), Err("Slice".to_string()));
}

#[test]
fn a_record_lists_what_its_fields_owe() {
    let decl = declaration(vec![], "Rectangle", Data::Struct(rectangle_fields()));
    let checks = generate_transmittable_checks_struct(&decl, &rectangle_fields());
    assert_eq!(
        checks,
        Ok(TransmittableChecks {
            guard: Some("ensure_members_are_transmittable_for_Rectangle".to_string()),
            obligations: strings(&["Point", "u32", "u8", "Option < bool >"]),
        })
    );
}

#[test]
fn a_record_without_fields_owes_nothing_but_is_guarded() {
    let decl = declaration(vec![], "Marker", Data::Struct(Fields::Unit));
    for fields in [Fields::Unit, Fields::Named(vec![]), Fields::Unnamed(vec![])] {
        assert_eq!(
            generate_transmittable_checks_struct(&decl, &fields),
            Ok(TransmittableChecks {
                guard: Some("ensure_members_are_transmittable_for_Marker".to_string()),
                obligations: vec![],
            })
        );
    }
}

#[test]
fn a_record_is_refused_at_its_first_bad_field() {
    let fields = Fields::Unnamed(vec![
        unnamed(path("u8")),
        unnamed(TypeShape::Tuple(vec![path("u8"), trait_object()])),
        unnamed(reference()),
    ]);
    let decl = declaration(vec![], "Bad", Data::Struct(Fields::Unit));
    assert_eq!(
        generate_transmittable_checks_struct(&decl, &fields),
        Err(unsupported(None, 1, "TraitObject"))
    );
}

#[test]
fn every_variant_is_certified() {
    let decl = declaration(vec![], "TextBounds", Data::Enum(text_bounds_variants()));
    assert_eq!(
        generate_transmittable_checks_enum(&decl, &text_bounds_variants()),
        Ok(TransmittableChecks {
            guard: Some("ensure_members_are_transmittable_for_TextBounds".to_string()),
            obligations: strings(&["Rectangle", "Point", "u16", "Pt"]),
        })
    );
}

#[test]
fn a_variant_type_is_refused_at_its_first_bad_variant() {
    let mut variants = text_bounds_variants();
    variants.push(variant(
        "Borrowed",
        Fields::Unnamed(vec![unnamed(path("u8")), unnamed(reference())]),
    ));
    variants.push(variant("Raw", Fields::Unnamed(vec![unnamed(pointer())])));
    let decl = declaration(vec![], "TextBounds", Data::Enum(vec![]));
    assert_eq!(
        generate_transmittable_checks_enum(&decl, &variants),
        Err(unsupported(Some(4), 1, "Reference"))
    );
}

#[test]
fn overlapping_fields_are_not_looked_at() {
    let fields = vec![named("raw", pointer()), named("word", path("u32"))];
    let decl = declaration(vec![], "Overlap", Data::Union(vec![]));
    assert_eq!(
        generate_transmittable_checks_union(&decl, &fields),
        Ok(TransmittableChecks { guard: None, obligations: vec![] })
    );
}

#[test]
fn the_layout_directive_is_looked_for_among_all_attributes() {
    let with = |attrs: Vec<Attribute>| {
        ensure_valid_repr(&declaration(attrs, "T", Data::Struct(Fields::Unit)))
    };
    assert_eq!(with(vec![]), Err(CertifyError::MissingLayoutDirective));
    assert_eq!(with(vec![attribute("repr", &["C"])]), Ok(()));
    assert_eq!(with(vec![attribute("repr", &["align", "C"])]), Ok(()));
    assert_eq!(
        with(vec![attribute("derive", &["Debug"]), attribute("repr", &["C", "packed"])]),
        Ok(())
    );
    assert_eq!(
        with(vec![attribute("repr", &["u8"]), attribute("repr", &["C"])]),
        Ok(())
    );
    assert_eq!(with(vec![attribute("repr", &[])]), Err(CertifyError::MissingLayoutDirective));
    assert_eq!(
        with(vec![attribute("repr", &["u8"]), attribute("repr", &["transparent"])]),
        Err(CertifyError::MissingLayoutDirective)
    );
    assert_eq!(with(vec![attribute("C", &["repr"])]), Err(CertifyError::MissingLayoutDirective));
    assert_eq!(with(vec![attribute("Repr", &["C"])]), Err(CertifyError::MissingLayoutDirective));
    assert_eq!(with(vec![attribute("repr", &["c"])]), Err(CertifyError::MissingLayoutDirective));
}

#[test]
fn diagnostics_have_their_text() {
    assert_eq!(
        CertifyError::MissingLayoutDirective.message(),
        "XousIpc only supports repr(C) structs"
    );
    assert_eq!(unsupported(None, 0, "Reference").message(), "This type Reference is unexpected");
    assert_eq!(
        unsupported(Some(2), 7, "Other (Unknown)").message(),
        "This type Other (Unknown) is unexpected"
    );
}

#[test]
fn checks_follow_the_kind_of_the_declaration() {
    let record = declaration(vec![], "Rectangle", Data::Struct(rectangle_fields()));
    assert_eq!(
        generate_transmittable_checks(&record).map(|checks| checks.obligations),
        Ok(strings(&["Point", "u32", "u8", "Option < bool >"]))
    );
    let tagged = declaration(vec![], "TextBounds", Data::Enum(text_bounds_variants()));
    assert_eq!(
        generate_transmittable_checks(&tagged).map(|checks| checks.obligations),
        Ok(strings(&["Rectangle", "Point", "u16", "Pt"]))
    );
    let overlapping =
        declaration(vec![], "Overlap", Data::Union(vec![named("raw", pointer())]));
    assert_eq!(
        generate_transmittable_checks(&overlapping),
        Ok(TransmittableChecks { guard: None, obligations: vec![] })
    );
}

#[test]
fn the_flat_capability_needs_the_layout_directive_first() {
    let point = |attrs: Vec<Attribute>| {
        declaration(
            attrs,
            "Point",
            Data::Struct(Fields::Named(vec![named("x", path("i16")), named("y", path("i16"))])),
        )
    };
    assert_eq!(
        derive_transmittable_inner(point(vec![])),
        Err(CertifyError::MissingLayoutDirective)
    );
    assert_eq!(
        derive_transmittable_inner(point(vec![attribute("derive", &["Debug"])])),
        Err(CertifyError::MissingLayoutDirective)
    );

    let plan = derive_transmittable_inner(point(vec![attribute("repr", &["C"])])).unwrap();
    assert_eq!(plan.implementor, "Point");
    assert_eq!(
        plan.checks.guard,
        Some("ensure_members_are_transmittable_for_Point".to_string())
    );
    assert_eq!(plan.checks.obligations, strings(&["i16", "i16"]));

    let bad = |attrs: Vec<Attribute>| {
        declaration(
            attrs,
            "Bad",
            Data::Struct(Fields::Named(vec![named("f", bare_fn())])),
        )
    };
    assert_eq!(
        derive_transmittable_inner(bad(vec![attribute("repr", &["C"])])),
        Err(unsupported(None, 0, "BareFn"))
    );
    assert_eq!(derive_transmittable_inner(bad(vec![])), Err(CertifyError::MissingLayoutDirective));

    let overlapping = |attrs: Vec<Attribute>| {
        declaration(attrs, "Overlap", Data::Union(vec![named("raw", pointer())]))
    };
    assert_eq!(
        derive_transmittable_inner(overlapping(vec![])),
        Err(CertifyError::MissingLayoutDirective)
    );
    assert!(derive_transmittable_inner(overlapping(vec![attribute("repr", &["C"])])).is_ok());
}

#[test]
fn an_envelope_needs_the_layout_directive_first() {
    let fields = || Fields::Named(vec![named("value", reference())]);
    assert_eq!(
        derive_ipc_inner(declaration(vec![], "Bad", Data::Struct(fields()))),
        Err(CertifyError::MissingLayoutDirective)
    );
    assert_eq!(
        derive_ipc_inner(declaration(
            vec![attribute("repr", &["C"])],
            "Bad",
            Data::Struct(fields())
        )),
        Err(unsupported(None, 0, "Reference"))
    );
    assert_eq!(
        derive_ipc_inner(declaration(
            vec![attribute("derive", &["Debug"])],
            "Good",
            Data::Struct(Fields::Named(vec![named("value", path("u32"))]))
        )),
        Err(CertifyError::MissingLayoutDirective)
    );
}

#[test]
fn a_certified_declaration_gets_its_envelope() {
    let incrementer = || {
        Declaration {
            attrs: vec![attribute("derive", &[]), attribute("repr", &["C"])],
            visibility: "pub (crate)".to_string(),
            name: "Incrementer".to_string(),
            data: Data::Struct(Fields::Named(vec![named("value", path("u32"))])),
        }
    };
    let plan = derive_ipc_inner(incrementer()).unwrap();
    assert_eq!(
        plan.checks,
        TransmittableChecks {
            guard: Some("ensure_members_are_transmittable_for_Incrementer".to_string()),
            obligations: strings(&["u32"]),
        }
    );
    assert_eq!(plan.envelope.visibility, "pub (crate)");
    assert_eq!(plan.envelope.original, "Incrementer");
    assert_eq!(plan.envelope.envelope, "IpcIncrementer");
    assert_eq!(plan.envelope.signature, ast_hash(&incrementer()));
    assert_eq!(plan.envelope, generate_padded_version(&incrementer()));
}

#[test]
fn an_overlapping_type_gets_an_envelope_on_trust() {
    let plan = derive_ipc_inner(declaration(
        vec![attribute("repr", &["C"])],
        "Overlap",
        Data::Union(vec![named("raw", pointer())]),
    ))
    .unwrap();
    assert_eq!(plan.checks, TransmittableChecks { guard: None, obligations: vec![] });
    assert_eq!(plan.envelope.envelope, "IpcOverlap");
}
