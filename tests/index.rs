use rustdoc_mcp::doc_gen::DocGenerator;
use rustdoc_mcp::graph::Crate;
use rustdoc_mcp::index::{build_path_map, crate_name_of, get_item_kind, CrateIndex, LoadStep, LoadedCrate};
use rustdoc_mcp::model::{FunctionHeader, Generics, Item, ItemEnum, StructKind, Type};
use rustdoc_mcp::workspace::{PackageInfo, Workspace};

fn create_dummy_workspace() -> Workspace {
    Workspace { root: "/tmp".to_string(), target_dir: "/tmp".to_string(), packages: vec![] }
}

fn create_dummy_item(name: &str, inner: ItemEnum) -> Item {
    let id_val = name.len() as u32;
    Item { id: id_val, name: Some(name.to_string()), docs: None, inner }
}

fn named(id: u32, name: &str, inner: ItemEnum) -> Item {
    Item { id, name: Some(name.to_string()), docs: None, inner }
}

fn unit_struct() -> ItemEnum {
    ItemEnum::Struct { generics: Generics { params: vec![] }, kind: StructKind::Unit, impls: vec![] }
}

fn module(items: Vec<u32>) -> ItemEnum {
    ItemEnum::Module { items }
}

/// A library `lib` whose root lists a record `Point` with fields `x` and `y`.
fn point_library() -> Crate {
    let root = Item { id: 0, name: Some("lib".to_string()), docs: None, inner: module(vec![1]) };
    let point = named(
        1,
        "Point",
        ItemEnum::Struct {
            generics: Generics { params: vec![] },
            kind: StructKind::Plain { fields: vec![2, 3], has_stripped_fields: false },
            impls: vec![],
        },
    );
    let x = named(2, "x", ItemEnum::StructField(Type::Primitive("i32".to_string())));
    let y = named(3, "y", ItemEnum::StructField(Type::Primitive("i32".to_string())));
    Crate::new(0, vec![root, point, x, y])
}

fn loaded_index(libs: Vec<(&str, Crate)>) -> CrateIndex {
    let mut index = CrateIndex::new(create_dummy_workspace());
    for (name, krate) in libs {
        index.finish_load(name, krate);
    }
    index
}

#[test]
fn test_get_item_kind() {
    let item = create_dummy_item("test", unit_struct());
    assert_eq!(get_item_kind(&item), "struct");

    let item = create_dummy_item(
        "test",
        ItemEnum::Function {
            generics: Generics { params: vec![] },
            header: FunctionHeader { is_const: false, is_unsafe: false, is_async: false },
            inputs: vec![],
            output: None,
        },
    );
    assert_eq!(get_item_kind(&item), "function");
}

#[test]
fn test_search_docs() {
    // "std" holds std::vec::Vec and std::string::String; "other" is empty.
    let std_root = named(0, "std", module(vec![10, 11]));
    let vec_mod = named(10, "vec", module(vec![3]));
    let string_mod = named(11, "string", module(vec![6]));
    let item1 = create_dummy_item("Vec", unit_struct());
    let item2 = create_dummy_item("String", unit_struct());
    let krate = Crate::new(0, vec![std_root, vec_mod, string_mod, item1, item2]);
    let other_krate = Crate::new(0, vec![]);
    let index = loaded_index(vec![("std", krate), ("other", other_krate)]);

    // Test exact match
    let results = index.search("Vec", None);
    assert!(results.iter().any(|r| r.name == "std::vec::Vec"));

    // Test fuzzy match
    let results = index.search("std::string::Strng", None);
    assert!(results.iter().any(|r| r.name == "std::string::String"));

    // Test crate filtering
    let results = index.search("Vec", Some("std"));
    assert!(!results.is_empty());

    let results = index.search("Vec", Some("other"));
    assert!(results.is_empty());
}

#[test]
fn path_table_covers_record_and_fields() {
    let krate = point_library();
    let table = build_path_map(&krate, "lib");
    assert_eq!(table.get("lib"), Some(0));
    assert_eq!(table.get("lib::Point"), Some(1));
    assert_eq!(table.get("lib::Point::x"), Some(2));
    assert_eq!(table.get("lib::Point::y"), Some(3));
    assert_eq!(table.get("lib::Point::z"), None);
    assert_eq!(table.len(), 4);
}

#[test]
fn path_table_flattens_impl_members_and_variants() {
    let root = named(0, "lib", module(vec![1, 5, 99]));
    let s = named(
        1,
        "S",
        ItemEnum::Struct {
            generics: Generics { params: vec![] },
            kind: StructKind::Tuple(vec![Some(2), None]),
            impls: vec![3],
        },
    );
    let field = named(2, "0", ItemEnum::StructField(Type::Primitive("u8".to_string())));
    let block = Item {
        id: 3,
        name: None,
        docs: None,
        inner: ItemEnum::Impl {
            generics: Generics { params: vec![] },
            trait_: None,
            for_: Type::Generic("S".to_string()),
            items: vec![4],
        },
    };
    let method = named(
        4,
        "new",
        ItemEnum::Function {
            generics: Generics { params: vec![] },
            header: FunctionHeader { is_const: false, is_unsafe: false, is_async: false },
            inputs: vec![],
            output: None,
        },
    );
    let e = named(
        5,
        "E",
        ItemEnum::Enum { generics: Generics { params: vec![] }, variants: vec![6], impls: vec![] },
    );
    let v = named(6, "A", ItemEnum::Variant(rustdoc_mcp::model::VariantKind::Plain));
    let krate = Crate::new(0, vec![root, s, field, block, method, e, v]);
    let table = build_path_map(&krate, "lib");
    assert_eq!(table.get("lib::S::0"), Some(2));
    assert_eq!(table.get("lib::S::new"), Some(4));
    assert_eq!(table.get("lib::E::A"), Some(6));
    assert_eq!(table.len(), 6);
}

#[test]
fn path_table_later_write_wins() {
    // A module child `f` and an impl member `f` of a record claim the same path.
    let root = named(0, "lib", module(vec![1, 2]));
    let s = named(
        1,
        "T",
        ItemEnum::Struct {
            generics: Generics { params: vec![] },
            kind: StructKind::Plain { fields: vec![5], has_stripped_fields: false },
            impls: vec![3],
        },
    );
    let other = named(2, "T", ItemEnum::Macro);
    let block = Item {
        id: 3,
        name: None,
        docs: None,
        inner: ItemEnum::Impl {
            generics: Generics { params: vec![] },
            trait_: None,
            for_: Type::Generic("T".to_string()),
            items: vec![4],
        },
    };
    let m = named(4, "f", ItemEnum::Macro);
    let fld = named(5, "f", ItemEnum::StructField(Type::Primitive("u8".to_string())));
    let krate = Crate::new(0, vec![root, s, other, block, m, fld]);
    let table = build_path_map(&krate, "lib");
    assert_eq!(table.get("lib::T"), Some(2));
    assert_eq!(table.get("lib::T::f"), Some(4));
    assert_eq!(table.len(), 3);
}

#[test]
fn module_cycle_is_not_reentered() {
    let root = named(0, "lib", module(vec![1]));
    let inner = named(1, "inner", module(vec![0, 1]));
    let krate = Crate::new(0, vec![root, inner]);
    let table = build_path_map(&krate, "lib");
    assert_eq!(table.get("lib::inner"), Some(1));
    assert_eq!(table.len(), 2);
}

#[test]
fn missing_root_gives_empty_table() {
    let krate = Crate::new(7, vec![named(1, "a", ItemEnum::Macro)]);
    assert_eq!(build_path_map(&krate, "lib").len(), 0);
}

#[test]
fn search_finds_exact_typo_and_nothing() {
    let index = loaded_index(vec![("lib", point_library())]);
    let results = index.search("Point", None);
    assert!(results.iter().any(|r| r.name == "lib::Point" && r.kind == "struct"));
    let results = index.search("lib::Pont", None);
    assert!(results.iter().any(|r| r.name == "lib::Point"));
    let results = index.search("Zyxqv123", None);
    assert!(results.is_empty());
}

#[test]
fn scoped_search_stays_in_its_library() {
    let index = loaded_index(vec![("lib", point_library()), ("other", point_library())]);
    let results = index.search("Point", Some("other"));
    assert!(!results.is_empty());
    assert!(results.iter().all(|r| r.name.starts_with("other")));
    let unscoped = index.search("lib::Point", None);
    assert!(unscoped.iter().any(|r| r.name == "lib::Point"));
    assert!(index.search("Point", Some("missing")).is_empty());
}

#[test]
fn search_truncates_to_twenty_best() {
    let mut items = vec![Item { id: 0, name: Some("lib".to_string()), docs: None, inner: module((1..=30).collect()) }];
    for i in 1..=30u32 {
        items.push(named(i, &format!("Item{}", i), ItemEnum::Macro));
    }
    let index = loaded_index(vec![("lib", Crate::new(0, items))]);
    let results = index.search("lib::Item", None);
    assert_eq!(results.len(), 20);
    let scores: Vec<f64> = results.iter().map(|r| strsim::jaro_winkler("lib::Item", &r.name)).collect();
    for w in scores.windows(2) {
        assert!(w[0] >= w[1]);
    }
    assert!(results.iter().all(|r| r.kind == "macro"));
}

#[test]
fn ensure_loaded_acquires_once() {
    let ws = Workspace {
        root: "/w".to_string(),
        target_dir: "/w/target".to_string(),
        packages: vec![
            PackageInfo { name: "serde-json".to_string(), features: Some(vec!["std".to_string()]) },
            PackageInfo { name: "tokio".to_string(), features: None },
        ],
    };
    let mut index = CrateIndex::new(ws);
    match index.ensure_loaded("serde_json") {
        LoadStep::Acquire { package, features } => {
            assert_eq!(package, "serde-json");
            assert_eq!(features, Some(vec!["std".to_string()]));
        }
        LoadStep::Ready => panic!("not loaded yet"),
    }
    match index.ensure_loaded("unknown") {
        LoadStep::Acquire { package, features } => {
            assert_eq!(package, "unknown");
            assert_eq!(features, None);
        }
        LoadStep::Ready => panic!("not loaded yet"),
    }
    index.finish_load("serde_json", point_library());
    assert!(matches!(index.ensure_loaded("serde_json"), LoadStep::Ready));
    assert!(matches!(index.ensure_loaded("serde_json"), LoadStep::Ready));
    assert!(index.get_crate("serde_json").is_some());
    assert!(index.get_crate("tokio").is_none());
}

#[test]
fn reload_replaces_library() {
    let mut index = loaded_index(vec![("lib", point_library())]);
    index.finish_load("lib", Crate::new(0, vec![named(0, "lib", module(vec![]))]));
    let lib = index.get_crate("lib").unwrap();
    assert_eq!(lib.path_to_id.len(), 1);
}

#[test]
fn root_and_module_listings() {
    let root = named(0, "lib", module(vec![1, 2, 3, 42]));
    let sub = named(1, "sub", module(vec![4]));
    let reexport = Item {
        id: 2,
        name: None,
        docs: None,
        inner: ItemEnum::Use { source: "other::Thing".to_string(), name: "Thing".to_string() },
    };
    let anon = Item { id: 3, name: None, docs: None, inner: ItemEnum::Macro };
    let f = named(4, "f", ItemEnum::Macro);
    let lib = LoadedCrate::new(Crate::new(0, vec![root, sub, reexport, anon, f]), "lib");
    let items = lib.root_items().unwrap();
    let got: Vec<(String, String)> = items.into_iter().map(|s| (s.name, s.kind)).collect();
    assert_eq!(
        got,
        vec![("sub".to_string(), "module".to_string()), ("Thing".to_string(), "import".to_string())]
    );
    let items = lib.module_items("lib::sub").unwrap();
    assert_eq!(items.len(), 1);
    assert_eq!(items[0].name, "f");
    assert_eq!(items[0].kind, "macro");
    assert_eq!(lib.module_items("lib::nope").err().unwrap(), "Module not found: lib::nope");
    assert_eq!(lib.module_items("lib::sub::f").err().unwrap(), "Item at lib::sub::f is not a module");
    assert_eq!(lib.item_docs("lib::zzz").err().unwrap(), "Item not found: lib::zzz");
    assert!(lib.item_docs("lib::sub::f").unwrap().starts_with("# Macro f"));
}

#[test]
fn missing_root_and_dangling_entry() {
    let lib = LoadedCrate::new(Crate::new(9, vec![]), "lib");
    assert_eq!(lib.root_items().err().unwrap(), "Root item missing");
    let not_module_root = LoadedCrate::new(Crate::new(0, vec![named(0, "lib", ItemEnum::Macro)]), "lib");
    assert!(not_module_root.root_items().unwrap().is_empty());
}

#[test]
fn library_name_is_first_segment() {
    assert_eq!(crate_name_of("std::vec::Vec"), "std");
    assert_eq!(crate_name_of("serde"), "serde");
    assert_eq!(crate_name_of("a:b::c"), "a:b");
    assert_eq!(crate_name_of(""), "");
}

#[test]
fn dependency_names_and_package_resolution() {
    let ws = Workspace {
        root: "/w".to_string(),
        target_dir: "/w/target".to_string(),
        packages: vec![
            PackageInfo { name: "a-b".to_string(), features: None },
            PackageInfo { name: "a_b".to_string(), features: None },
            PackageInfo { name: "c".to_string(), features: None },
        ],
    };
    assert_eq!(ws.get_dependencies(), vec!["a-b".to_string(), "a_b".to_string(), "c".to_string()]);
    assert_eq!(ws.find_package("a_b"), Some(1));
    assert_eq!(ws.find_package("a-b"), Some(0));
    assert_eq!(ws.find_package("c"), Some(2));
    assert_eq!(ws.find_package("d"), None);
}

#[test]
fn rustdoc_command_and_file_names() {
    assert_eq!(DocGenerator::json_file_name("serde-json"), "serde_json.json");
    assert_eq!(DocGenerator::lock_file_name("a-b-c"), "a_b_c.lock");
    let tail = ["--lib", "--", "-Z", "unstable-options", "--output-format", "json"];
    let plain = DocGenerator::rustdoc_args("serde", None);
    let mut expected: Vec<&str> = vec!["+nightly", "rustdoc", "-p", "serde"];
    expected.extend(tail.iter());
    assert_eq!(plain, expected);
    let feats = vec!["std".to_string(), "derive".to_string()];
    let with = DocGenerator::rustdoc_args("serde", Some(&feats));
    let mut expected: Vec<&str> =
        vec!["+nightly", "rustdoc", "-p", "serde", "--no-default-features", "--features", "std,derive"];
    expected.extend(tail.iter());
    assert_eq!(with, expected);
    let none: Vec<String> = vec![];
    let without = DocGenerator::rustdoc_args("serde", Some(&none));
    let mut expected: Vec<&str> = vec!["+nightly", "rustdoc", "-p", "serde", "--no-default-features"];
    expected.extend(tail.iter());
    assert_eq!(without, expected);
}
