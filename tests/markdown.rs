use rustdoc_mcp::graph::Crate;
use rustdoc_mcp::markdown::{format_impl_header, format_item_definition, generate_item_markdown};
use rustdoc_mcp::model::{
    AssocItemConstraint, AssocItemConstraintKind, FunctionHeader, GenericArg, GenericArgs,
    GenericBound, GenericParamDef, GenericParamDefKind, Generics, Item, ItemEnum, PathRef,
    StructKind, Term, TraitBoundModifier, Type, VariantKind,
};
use rustdoc_mcp::render::{format_generic_bound, format_generics, format_type};

fn create_dummy_item(name: &str, inner: ItemEnum) -> Item {
    let id_val = name.len() as u32;
    Item { id: id_val, name: Some(name.to_string()), docs: None, inner }
}

fn create_dummy_crate() -> Crate {
    Crate::new(0, vec![])
}

fn no_generics() -> Generics {
    Generics { params: vec![] }
}

fn prim(s: &str) -> Type {
    Type::Primitive(s.to_string())
}

fn path(p: &str, args: Option<GenericArgs>) -> PathRef {
    PathRef { path: p.to_string(), args: args.map(Box::new) }
}

fn angle(args: Vec<GenericArg>) -> GenericArgs {
    GenericArgs::AngleBracketed { args, constraints: vec![] }
}

fn trait_bound(p: &str) -> GenericBound {
    GenericBound::TraitBound {
        trait_: path(p, None),
        generic_params: vec![],
        modifier: TraitBoundModifier::Plain,
    }
}

#[test]
fn test_format_type_primitive() {
    let ty = Type::Primitive("i32".to_string());
    assert_eq!(format_type(&ty), "i32");
}

#[test]
fn test_format_type_tuple() {
    let ty = Type::Tuple(vec![
        Type::Primitive("i32".to_string()),
        Type::Primitive("String".to_string()),
    ]);
    assert_eq!(format_type(&ty), "(i32, String)");
}

#[test]
fn test_format_type_slice() {
    let ty = Type::Slice(Box::new(Type::Primitive("u8".to_string())));
    assert_eq!(format_type(&ty), "[u8]");
}

#[test]
fn test_generate_struct_markdown() {
    let krate = create_dummy_crate();
    let item = create_dummy_item(
        "MyStruct",
        ItemEnum::Struct {
            generics: no_generics(),
            kind: StructKind::Plain { fields: vec![], has_stripped_fields: false },
            impls: vec![],
        },
    );

    let md = generate_item_markdown(&item, &krate);
    assert!(md.contains("# Struct MyStruct"));
    assert!(md.contains("struct MyStruct { ... }"));
}

#[test]
fn test_generate_enum_markdown() {
    let krate = create_dummy_crate();
    let item = create_dummy_item(
        "MyEnum",
        ItemEnum::Enum { generics: no_generics(), variants: vec![], impls: vec![] },
    );

    let md = generate_item_markdown(&item, &krate);
    assert!(md.contains("# Enum MyEnum"));
    assert!(md.contains("enum MyEnum"));
}

#[test]
fn test_generate_function_markdown() {
    let krate = create_dummy_crate();
    let item = create_dummy_item(
        "my_fn",
        ItemEnum::Function {
            generics: no_generics(),
            header: FunctionHeader { is_const: false, is_unsafe: false, is_async: false },
            inputs: vec![("arg1".to_string(), Type::Primitive("i32".to_string()))],
            output: Some(Type::Primitive("bool".to_string())),
        },
    );

    let md = generate_item_markdown(&item, &krate);
    assert!(md.contains("# Function my_fn"));
    assert!(md.contains("fn my_fn(arg1: i32) -> bool"));
}

#[test]
fn unit_struct_renders_whole_page() {
    let krate = create_dummy_crate();
    let item = create_dummy_item(
        "Marker",
        ItemEnum::Struct { generics: no_generics(), kind: StructKind::Unit, impls: vec![] },
    );
    let md = generate_item_markdown(&item, &krate);
    assert_eq!(md, "# Struct Marker\n\n```rust\nstruct Marker;\n```\n");
    assert!(md.contains("struct Marker;"));
}

#[test]
fn tuple_struct_signature() {
    let item = create_dummy_item(
        "Pair",
        ItemEnum::Struct {
            generics: no_generics(),
            kind: StructKind::Tuple(vec![Some(1), None]),
            impls: vec![],
        },
    );
    assert_eq!(format_item_definition(&item), "struct Pair(/* ... */);");
}

#[test]
fn rendering_twice_gives_same_text() {
    let field = Item {
        id: 2,
        name: Some("x".to_string()),
        docs: Some("The x coordinate.\nMore text.".to_string()),
        inner: ItemEnum::StructField(prim("f64")),
    };
    let point = Item {
        id: 1,
        name: Some("Point".to_string()),
        docs: Some("A point.".to_string()),
        inner: ItemEnum::Struct {
            generics: no_generics(),
            kind: StructKind::Plain { fields: vec![2], has_stripped_fields: false },
            impls: vec![],
        },
    };
    let krate = Crate::new(0, vec![point, field]);
    let point = krate.get(1).unwrap();
    let a = generate_item_markdown(point, &krate);
    let b = generate_item_markdown(point, &krate);
    assert_eq!(a, b);
}

#[test]
fn struct_page_lists_fields_with_first_doc_line() {
    let field_x = Item {
        id: 2,
        name: Some("x".to_string()),
        docs: Some("  The x coordinate.  \nMore text.".to_string()),
        inner: ItemEnum::StructField(prim("i32")),
    };
    let field_y = Item {
        id: 3,
        name: Some("y".to_string()),
        docs: None,
        inner: ItemEnum::StructField(prim("i32")),
    };
    let point = Item {
        id: 1,
        name: Some("Point".to_string()),
        docs: Some("A point.".to_string()),
        inner: ItemEnum::Struct {
            generics: no_generics(),
            kind: StructKind::Plain { fields: vec![2, 3, 99], has_stripped_fields: false },
            impls: vec![],
        },
    };
    let krate = Crate::new(0, vec![point, field_x, field_y]);
    let md = generate_item_markdown(krate.get(1).unwrap(), &krate);
    assert_eq!(
        md,
        "# Struct Point\n\n```rust\nstruct Point { ... }\n```\n\n## Documentation\n\nA point.\n\n## Fields\n\n- `x: i32` \u{2014} The x coordinate.\n- `y: i32`\n"
    );
}

#[test]
fn enum_page_lists_variant_shapes() {
    let unit = Item {
        id: 2,
        name: Some("A".to_string()),
        docs: Some("First.".to_string()),
        inner: ItemEnum::Variant(VariantKind::Plain),
    };
    let tuple = Item {
        id: 3,
        name: Some("B".to_string()),
        docs: None,
        inner: ItemEnum::Variant(VariantKind::Tuple(vec![Some(7)])),
    };
    let empty_tuple = Item {
        id: 4,
        name: Some("C".to_string()),
        docs: None,
        inner: ItemEnum::Variant(VariantKind::Tuple(vec![])),
    };
    let record = Item {
        id: 5,
        name: Some("D".to_string()),
        docs: None,
        inner: ItemEnum::Variant(VariantKind::Struct { fields: vec![], has_stripped_fields: false }),
    };
    let e = Item {
        id: 1,
        name: Some("E".to_string()),
        docs: None,
        inner: ItemEnum::Enum { generics: no_generics(), variants: vec![2, 3, 4, 5], impls: vec![] },
    };
    let krate = Crate::new(0, vec![e, unit, tuple, empty_tuple, record]);
    let md = generate_item_markdown(krate.get(1).unwrap(), &krate);
    assert!(md.contains("## Variants\n"));
    assert!(md.contains("- `A` \u{2014} First.\n"));
    assert!(md.contains("- `B`(...)\n"));
    assert!(md.contains("- `C`\n"));
    assert!(md.contains("- `D` { ... }\n"));
}

#[test]
fn method_page_shows_impl_header() {
    let method = Item {
        id: 3,
        name: Some("len".to_string()),
        docs: None,
        inner: ItemEnum::Function {
            generics: no_generics(),
            header: FunctionHeader { is_const: true, is_unsafe: true, is_async: true },
            inputs: vec![(
                "self".to_string(),
                Type::BorrowedRef { lifetime: None, is_mutable: false, type_: Box::new(Type::Generic("Self".to_string())) },
            )],
            output: Some(prim("usize")),
        },
    };
    let block = Item {
        id: 2,
        name: None,
        docs: None,
        inner: ItemEnum::Impl {
            generics: Generics {
                params: vec![GenericParamDef {
                    name: "T".to_string(),
                    kind: GenericParamDefKind::Type { bounds: vec![], default: None, is_synthetic: false },
                }],
            },
            trait_: Some(path("Container", Some(angle(vec![GenericArg::Type(Type::Generic("T".to_string()))])))),
            for_: Type::ResolvedPath(path("Vec", Some(angle(vec![GenericArg::Type(Type::Generic("T".to_string()))])))),
            items: vec![3],
        },
    };
    let krate = Crate::new(0, vec![block, method]);
    let md = generate_item_markdown(krate.get(3).unwrap(), &krate);
    assert!(md.contains("```rust\nimpl<T> Container<T> for Vec<T>\n```"));
    assert!(md.contains("const async unsafe fn len(self: &Self) -> usize"));
}

#[test]
fn impl_header_without_trait() {
    let h = format_impl_header(&no_generics(), &None, &Type::ResolvedPath(path("Foo", None)));
    assert_eq!(h, "impl Foo");
}

#[test]
fn reexport_title_and_signature() {
    let item = Item {
        id: 1,
        name: None,
        docs: None,
        inner: ItemEnum::Use { source: "crate::inner::Thing".to_string(), name: "Thing".to_string() },
    };
    let krate = Crate::new(0, vec![]);
    let md = generate_item_markdown(&item, &krate);
    assert!(md.starts_with("# Use Thing\n"));
    assert!(md.contains("use crate::inner::Thing;"));
}

#[test]
fn anonymous_item_has_placeholder_title_and_no_signature() {
    let item = Item { id: 1, name: None, docs: None, inner: ItemEnum::Macro };
    let krate = Crate::new(0, vec![]);
    assert_eq!(generate_item_markdown(&item, &krate), "# Macro <unnamed>\n");
}

#[test]
fn alias_constant_static_signatures() {
    let alias = create_dummy_item(
        "Res",
        ItemEnum::TypeAlias {
            generics: Generics {
                params: vec![GenericParamDef {
                    name: "T".to_string(),
                    kind: GenericParamDefKind::Type { bounds: vec![], default: None, is_synthetic: false },
                }],
            },
            type_: Type::ResolvedPath(path(
                "Result",
                Some(angle(vec![GenericArg::Type(Type::Generic("T".to_string())), GenericArg::Type(prim("Error"))])),
            )),
        },
    );
    assert_eq!(format_item_definition(&alias), "type Res<T> = Result<T, Error>;");
    let c = create_dummy_item("MAX", ItemEnum::Constant { type_: prim("u32") });
    assert_eq!(format_item_definition(&c), "const MAX: u32 = ...;");
    let s = create_dummy_item("COUNT", ItemEnum::Static { type_: prim("usize") });
    assert_eq!(format_item_definition(&s), "static COUNT: usize = ...;");
    let u = create_dummy_item("U", ItemEnum::Union { generics: no_generics() });
    assert_eq!(format_item_definition(&u), "union U { ... }");
    let t = create_dummy_item("Tr", ItemEnum::Trait { generics: no_generics() });
    assert_eq!(format_item_definition(&t), "trait Tr");
    let m = create_dummy_item("m", ItemEnum::Module { items: vec![] });
    assert_eq!(format_item_definition(&m), "");
}

#[test]
fn references_pointers_and_arrays() {
    let r = Type::BorrowedRef {
        lifetime: Some("'a".to_string()),
        is_mutable: true,
        type_: Box::new(prim("str")),
    };
    assert_eq!(format_type(&r), "&'a mut str");
    let p = Type::RawPointer { is_mutable: false, type_: Box::new(prim("u8")) };
    assert_eq!(format_type(&p), "*const u8");
    let pm = Type::RawPointer { is_mutable: true, type_: Box::new(prim("u8")) };
    assert_eq!(format_type(&pm), "*mut u8");
    let a = Type::Array { type_: Box::new(prim("u8")), len: "4".to_string() };
    assert_eq!(format_type(&a), "[u8; 4]");
    assert_eq!(format_type(&Type::Tuple(vec![])), "()");
    assert_eq!(format_type(&Type::Other), "_");
}

#[test]
fn impl_and_dyn_traits() {
    let it = Type::ImplTrait(vec![trait_bound("Iterator"), GenericBound::Outlives("'a".to_string())]);
    assert_eq!(format_type(&it), "impl Iterator + 'a");
    let d = Type::DynTrait {
        lifetime: Some("'static".to_string()),
        traits: vec![path("Send", None), path("Sync", None)],
    };
    assert_eq!(format_type(&d), "dyn 'static + Send + Sync");
}

#[test]
fn generic_args_and_constraints() {
    let args = GenericArgs::AngleBracketed {
        args: vec![
            GenericArg::Lifetime("'a".to_string()),
            GenericArg::Const("N".to_string()),
            GenericArg::Infer,
        ],
        constraints: vec![
            AssocItemConstraint {
                name: "Item".to_string(),
                binding: AssocItemConstraintKind::Equality(Term::Type(prim("u8"))),
            },
            AssocItemConstraint {
                name: "Out".to_string(),
                binding: AssocItemConstraintKind::Constraint(vec![trait_bound("Clone"), trait_bound("Send")]),
            },
            AssocItemConstraint {
                name: "K".to_string(),
                binding: AssocItemConstraintKind::Equality(Term::Constant("3".to_string())),
            },
        ],
    };
    let t = Type::ResolvedPath(path("Foo", Some(args)));
    assert_eq!(format_type(&t), "Foo<'a, const N, _, Item = u8, Out: Clone + Send, K = 3>");
    let empty = Type::ResolvedPath(path("Bar", Some(angle(vec![]))));
    assert_eq!(format_type(&empty), "Bar");
    let f = Type::ResolvedPath(path(
        "Fn",
        Some(GenericArgs::Parenthesized { inputs: vec![prim("i32"), prim("bool")], output: Some(Box::new(prim("u8"))) }),
    ));
    assert_eq!(format_type(&f), "Fn(i32, bool) -> u8");
    let rtn = Type::ResolvedPath(path("method", Some(GenericArgs::ReturnTypeNotation)));
    assert_eq!(format_type(&rtn), "method(..)");
}

#[test]
fn bounds_with_binders_and_modifiers() {
    let b = GenericBound::TraitBound {
        trait_: path("Fn", Some(GenericArgs::Parenthesized { inputs: vec![Type::BorrowedRef { lifetime: Some("'a".to_string()), is_mutable: false, type_: Box::new(prim("str")) }], output: None })),
        generic_params: vec![GenericParamDef {
            name: "'a".to_string(),
            kind: GenericParamDefKind::Lifetime { outlives: vec![] },
        }],
        modifier: TraitBoundModifier::Plain,
    };
    assert_eq!(format_generic_bound(&b), "for<'a> Fn(&'a str)");
    let m = GenericBound::TraitBound { trait_: path("Sized", None), generic_params: vec![], modifier: TraitBoundModifier::Maybe };
    assert_eq!(format_generic_bound(&m), "?Sized");
    let c = GenericBound::TraitBound { trait_: path("Drop", None), generic_params: vec![], modifier: TraitBoundModifier::MaybeConst };
    assert_eq!(format_generic_bound(&c), "~const Drop");
    let u = GenericBound::Use(vec!["'a".to_string(), "T".to_string()]);
    assert_eq!(format_generic_bound(&u), "use<'a, T>");
}

#[test]
fn generic_parameter_lists() {
    let g = Generics {
        params: vec![
            GenericParamDef {
                name: "'a".to_string(),
                kind: GenericParamDefKind::Lifetime { outlives: vec!["'b".to_string(), "'c".to_string()] },
            },
            GenericParamDef {
                name: "T".to_string(),
                kind: GenericParamDefKind::Type {
                    bounds: vec![trait_bound("Clone"), trait_bound("Debug")],
                    default: Some(prim("u8")),
                    is_synthetic: false,
                },
            },
            GenericParamDef {
                name: "impl Trait".to_string(),
                kind: GenericParamDefKind::Type { bounds: vec![], default: None, is_synthetic: true },
            },
            GenericParamDef {
                name: "N".to_string(),
                kind: GenericParamDefKind::Const { type_: prim("usize"), default: Some("4".to_string()) },
            },
        ],
    };
    assert_eq!(format_generics(&g), "<'a: 'b + 'c, T: Clone + Debug = u8, const N: usize = 4>");
    let only_synthetic = Generics {
        params: vec![GenericParamDef {
            name: "impl Trait".to_string(),
            kind: GenericParamDefKind::Type { bounds: vec![], default: None, is_synthetic: true },
        }],
    };
    assert_eq!(format_generics(&only_synthetic), "");
}
