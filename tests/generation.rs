use typed_builder::schema::{
    make_identifier, FieldBuilderAttr, FieldDecl, GenericKind, GenericParam, SchemaError, StructInfo,
    TypeBuilderAttr,
};
use typed_builder::shape::{Assignment, SlotShape};

fn field(name: &str, ty: &str, default: Option<&str>, exclude: bool) -> FieldDecl {
    FieldDecl {
        name: name.to_string(),
        ty: ty.to_string(),
        builder_attr: FieldBuilderAttr {
            default: default.map(|d| d.to_string()),
            exclude,
            doc: None,
        },
    }
}

fn attrs(doc: bool) -> TypeBuilderAttr {
    TypeBuilderAttr {
        doc,
        name: None,
        builder_method_doc: None,
        builder_type_doc: None,
        build_method_doc: None,
    }
}

fn info(fields: Vec<FieldDecl>) -> StructInfo {
    StructInfo::new("pub".to_string(), "Foo".to_string(), Vec::new(), &fields, attrs(false)).unwrap()
}

// x: required, y: optional, z: excluded with a default, w: required.
fn mixed() -> StructInfo {
    info(vec![
        field("x", "i32", None, false),
        field("y", "String", Some("String::new()"), false),
        field("z", "u8", Some("compute()"), true),
        field("w", "bool", None, false),
    ])
}

#[test]
fn minted_identifiers() {
    let s = mixed();
    assert_eq!(s.builder_name, "FooBuilder");
    assert_eq!(s.conversion_helper_trait_name, "TypedBuilder_conversionHelperTrait_Foo");
    assert_eq!(s.conversion_helper_method_name, "TypedBuilder_conversionHelperMethod_Foo");
    assert_eq!(s.core, "TypedBuilder_core_Foo");
    assert_eq!(s.fields[1].generic_ident, "__y");
    assert_eq!(s.fields[3].ordinal, 3);
    assert_eq!(make_identifier("core", &"Bar".to_string()), "TypedBuilder_core_Bar");
}

#[test]
fn builder_name_override() {
    let mut a = attrs(false);
    a.name = Some("MakeFoo".to_string());
    let s = StructInfo::new("pub".to_string(), "Foo".to_string(), Vec::new(), &vec![], a).unwrap();
    assert_eq!(s.builder_name, "MakeFoo");
}

#[test]
fn excluded_field_needs_default() {
    let fields = vec![
        field("a", "i32", None, false),
        field("b", "i32", None, true),
        field("c", "i32", None, true),
    ];
    let r = StructInfo::new("".to_string(), "Foo".to_string(), Vec::new(), &fields, attrs(false));
    assert_eq!(r.err(), Some(SchemaError::ExcludedWithoutDefault(1)));
}

#[test]
fn included_fields_skip_excluded() {
    assert_eq!(mixed().included_fields(), vec![0, 1, 3]);
}

#[test]
fn empty_schema() {
    let s = info(vec![]);
    assert_eq!(s.included_fields(), Vec::<usize>::new());
    let c = s.builder_creation_impl();
    assert!(c.initial.is_empty());
    let b = s.build_method_impl();
    assert!(b.receiver.is_empty());
    assert!(b.assignments.is_empty());
}

#[test]
fn constructor_starts_unset() {
    let s = mixed();
    let c = s.builder_creation_impl();
    assert_eq!(c.slots, vec![0, 1, 3]);
    assert_eq!(c.initial, vec![SlotShape::Unset, SlotShape::Unset, SlotShape::Unset]);
    assert_eq!(c.builder_name, "FooBuilder");
    assert_eq!(c.builder_type_doc, None);
}

#[test]
fn setter_moves_one_slot() {
    let s = mixed();
    let st = s.field_impl(1);
    assert_eq!(st.slot, 1);
    assert_eq!(st.impl_params, vec![0, 3]);
    assert_eq!(st.receiver, vec![SlotShape::Param(0), SlotShape::Unset, SlotShape::Param(3)]);
    assert_eq!(st.target, vec![SlotShape::Param(0), SlotShape::Holds(1), SlotShape::Param(3)]);
    let last = s.field_impl(3);
    assert_eq!(last.slot, 2);
    assert_eq!(last.receiver, vec![SlotShape::Param(0), SlotShape::Param(1), SlotShape::Unset]);
    assert_eq!(last.target, vec![SlotShape::Param(0), SlotShape::Param(1), SlotShape::Holds(3)]);
}

#[test]
fn setter_twice_is_rejected_by_shape() {
    // After the setter, the slot holds a value; the setter is declared only on the unset shape.
    let s = mixed();
    let st = s.field_impl(0);
    assert_eq!(st.receiver[0], SlotShape::Unset);
    assert_eq!(st.target[0], SlotShape::Holds(0));
    assert_ne!(st.target[0], st.receiver[0]);
}

#[test]
fn finalizer_pins_required_slots() {
    let s = mixed();
    let b = s.build_method_impl();
    assert_eq!(b.receiver, vec![SlotShape::Holds(0), SlotShape::Param(1), SlotShape::Holds(3)]);
    assert_eq!(b.bounded_params, vec![1]);
    assert_eq!(
        b.assignments,
        vec![
            Assignment::Unwrap(0, 0),
            Assignment::Resolve(1, 1),
            Assignment::Default(2),
            Assignment::Unwrap(3, 2),
        ]
    );
    assert_eq!(b.helper_trait_name, "TypedBuilder_conversionHelperTrait_Foo");
    assert_eq!(b.doc, None);
}

#[test]
fn defaults_resolve_in_declaration_order() {
    // a defaults to 1, b defaults to a + 1: b's binding comes after a's.
    let s = info(vec![field("a", "i32", Some("1"), false), field("b", "i32", Some("a + 1"), false)]);
    let b = s.build_method_impl();
    assert_eq!(b.assignments, vec![Assignment::Resolve(0, 0), Assignment::Resolve(1, 1)]);
    // Neither set: both slots are free, so the finalizer accepts the fresh builder.
    assert_eq!(b.receiver, vec![SlotShape::Param(0), SlotShape::Param(1)]);
    // Only a set: the setter of a leaves b's slot free.
    let sa = s.field_impl(0);
    assert_eq!(sa.target, vec![SlotShape::Holds(0), SlotShape::Param(1)]);
}

#[test]
fn excluded_field_has_no_setter() {
    let s = mixed();
    assert!(!s.included_fields().contains(&2));
    let b = s.build_method_impl();
    assert_eq!(b.assignments[2], Assignment::Default(2));
    for k in s.included_fields() {
        let st = s.field_impl(k);
        assert!(!st.receiver.contains(&SlotShape::Param(2)));
        assert!(!st.target.contains(&SlotShape::Holds(2)));
    }
}

#[test]
fn generation_is_reproducible() {
    let a = mixed();
    let b = mixed();
    assert_eq!(a.builder_creation_impl().initial, b.builder_creation_impl().initial);
    assert_eq!(a.build_method_impl().assignments, b.build_method_impl().assignments);
    assert_eq!(a.field_impl(1).target, b.field_impl(1).target);
    assert_eq!(a.field_impl(1).impl_params, b.field_impl(1).impl_params);
    assert_eq!(a.builder_creation_impl().builder_method_doc, b.builder_creation_impl().builder_method_doc);
}

#[test]
fn builder_method_doc_lists_setters() {
    let s = mixed();
    let c = s.builder_creation_impl();
    assert_eq!(
        c.builder_method_doc,
        "Create a builder for building `Foo`.\nOn the builder, call `.x(...)`, `.y(...)`(optional), `.w(...)` to set the values of the fields (they accept `Into` values).\nFinally, call `.build()` to create the instance of `Foo`."
    );
}

#[test]
fn docs_when_enabled() {
    let fields = vec![field("x", "i32", None, false)];
    let s = StructInfo::new("pub".to_string(), "Foo".to_string(), Vec::new(), &fields, attrs(true)).unwrap();
    assert_eq!(
        s.builder_creation_impl().builder_type_doc,
        Some("Builder for [`Foo`] instances.\n\nSee [`Foo::builder()`] for more info.".to_string())
    );
    assert_eq!(
        s.build_method_impl().doc,
        Some("Finalise the builder and create its [`Foo`] instance".to_string())
    );
}

#[test]
fn doc_overrides() {
    let mut a = attrs(true);
    a.builder_method_doc = Some("make one".to_string());
    a.build_method_doc = Some("finish".to_string());
    let mut f = field("x", "i32", None, false);
    f.builder_attr.doc = Some("the x".to_string());
    let s = StructInfo::new("pub".to_string(), "Foo".to_string(), Vec::new(), &vec![f], a).unwrap();
    assert_eq!(s.builder_creation_impl().builder_method_doc, "make one");
    assert_eq!(s.build_method_impl().doc, Some("finish".to_string()));
    assert_eq!(s.field_impl(0).doc, Some("the x".to_string()));
}

#[test]
fn generics_pass_through() {
    let g = vec![
        GenericParam { kind: GenericKind::Lifetime, name: "'a".to_string() },
        GenericParam { kind: GenericKind::Type, name: "T".to_string() },
        GenericParam { kind: GenericKind::Const, name: "N".to_string() },
    ];
    let fields = vec![field("x", "&'a T", None, false)];
    let s = StructInfo::new("pub".to_string(), "Foo".to_string(), g, &fields, attrs(false)).unwrap();
    let c = s.builder_creation_impl();
    assert_eq!(c.generics.len(), 3);
    assert_eq!(c.generics[0].kind, GenericKind::Lifetime);
    assert_eq!(c.generics[2].name, "N");
}

#[test]
fn conversion_helper_names() {
    let h = mixed().conversion_helper_impl();
    assert_eq!(h.trait_name, "TypedBuilder_conversionHelperTrait_Foo");
    assert_eq!(h.method_name, "TypedBuilder_conversionHelperMethod_Foo");
}
