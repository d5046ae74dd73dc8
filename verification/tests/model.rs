use draven::ast::{FieldDecl, FnDecl, FnParam, Item, TypeExpr, UseTree};
use draven::parser::{Entity, File, Module, ParseError, SourceFile, SourceTree, Warning};

fn s(x: &str) -> String {
    x.to_string()
}

fn path_ty(segments: &[&str]) -> TypeExpr {
    TypeExpr::Path { segments: segments.iter().map(|x| s(x)).collect(), args: vec![] }
}

fn field(name: &str, ty: TypeExpr) -> FieldDecl {
    FieldDecl { name: s(name), ty }
}

fn tree_of(files: Vec<SourceFile>) -> SourceTree {
    SourceTree { files }
}

fn file(dir: &[&str], stem: &str, items: Vec<Item>) -> SourceFile {
    SourceFile { dir: dir.iter().map(|x| s(x)).collect(), stem: s(stem), items: Some(items) }
}

fn parse_root(tree: &SourceTree) -> (Module, Vec<Warning>) {
    draven::parse(tree, vec![s("src")], s("main")).expect("parse should succeed")
}

fn entity<'a>(m: &'a Module, name: &str) -> &'a Entity {
    m.entities
        .iter()
        .find(|e| match e {
            Entity::Structure(st) => st.name == name,
            Entity::Enumeration(en) => en.name == name,
            Entity::TraitDef(t) => t.name == name,
            Entity::Func(f) => f.name == name,
            Entity::Const(c) => c.name == name,
            Entity::MacroInv(mi) => mi.name == name,
            Entity::Alias(a) => a.alias == name,
        })
        .expect("entity should be present")
}

#[test]
fn struct_without_impl_has_no_methods() {
    let tree = tree_of(vec![file(
        &["src"],
        "main",
        vec![
            Item::StructDecl { name: s("Point"), fields: vec![field("x", path_ty(&["f64"]))] },
            Item::FunctionDecl { decl: FnDecl { name: s("helper"), params: vec![] } },
        ],
    )]);
    let (m, warnings) = parse_root(&tree);
    assert!(warnings.is_empty());
    match entity(&m, "Point") {
        Entity::Structure(st) => assert!(st.methods.is_empty()),
        _ => panic!("Point should be a structure"),
    }
}

#[test]
fn impl_binds_methods_to_struct() {
    let tree = tree_of(vec![file(
        &["src"],
        "main",
        vec![
            Item::StructDecl { name: s("Point"), fields: vec![] },
            Item::ImplBlock {
                target: path_ty(&["Point"]),
                methods: vec![FnDecl {
                    name: s("len"),
                    params: vec![FnParam::Receiver],
                }],
            },
        ],
    )]);
    let (m, warnings) = parse_root(&tree);
    assert!(warnings.is_empty());
    match entity(&m, "Point") {
        Entity::Structure(st) => {
            assert_eq!(st.methods.len(), 1);
            assert_eq!(st.methods[0].name, "len");
            assert!(st.methods[0].args.is_empty());
        },
        _ => panic!("Point should be a structure"),
    }
}

#[test]
fn impl_with_unsupported_target_is_skipped() {
    let tree = tree_of(vec![file(
        &["src"],
        "main",
        vec![
            Item::StructDecl { name: s("Point"), fields: vec![] },
            Item::ImplBlock {
                target: TypeExpr::Reference {
                    lifetime: None,
                    mutable: false,
                    inner: Box::new(path_ty(&["Point"])),
                },
                methods: vec![FnDecl { name: s("len"), params: vec![FnParam::Receiver] }],
            },
        ],
    )]);
    let (m, warnings) = parse_root(&tree);
    assert_eq!(warnings.len(), 1);
    assert!(matches!(warnings[0], Warning::UnsupportedImplTarget));
    match entity(&m, "Point") {
        Entity::Structure(st) => assert!(st.methods.is_empty()),
        _ => panic!("Point should be a structure"),
    }
}

#[test]
fn impl_without_struct_is_dropped() {
    let tree = tree_of(vec![file(
        &["src"],
        "main",
        vec![Item::ImplBlock {
            target: path_ty(&["Ghostly"]),
            methods: vec![FnDecl { name: s("len"), params: vec![FnParam::Receiver] }],
        }],
    )]);
    let (m, warnings) = parse_root(&tree);
    assert_eq!(warnings.len(), 1);
    match &warnings[0] {
        Warning::StructNotFound { name } => assert_eq!(name, "Ghostly"),
        _ => panic!("expected a struct-not-found warning"),
    }
    assert!(m.entities.is_empty());
}

#[test]
fn unsupported_item_warns_and_continues() {
    let tree = tree_of(vec![file(
        &["src"],
        "main",
        vec![Item::Unsupported, Item::EnumDecl { name: s("Kind"), variants: vec![s("A")] }],
    )]);
    let (m, warnings) = parse_root(&tree);
    assert_eq!(warnings.len(), 1);
    assert!(matches!(warnings[0], Warning::UnsupportedItem));
    match entity(&m, "Kind") {
        Entity::Enumeration(en) => assert_eq!(en.variants, vec![s("A")]),
        _ => panic!("Kind should be an enumeration"),
    }
}

#[test]
fn later_declaration_overwrites_earlier_name() {
    let tree = tree_of(vec![file(
        &["src"],
        "main",
        vec![
            Item::StructDecl { name: s("Thing"), fields: vec![field("a", path_ty(&["u8"]))] },
            Item::StructDecl { name: s("Thing"), fields: vec![field("b", path_ty(&["u16"]))] },
        ],
    )]);
    let (m, _) = parse_root(&tree);
    assert_eq!(m.entities.len(), 1);
    match entity(&m, "Thing") {
        Entity::Structure(st) => {
            assert_eq!(st.fields.len(), 1);
            assert_eq!(st.fields[0].alias, "b");
        },
        _ => panic!("Thing should be a structure"),
    }
}

#[test]
fn inline_submodule_is_parsed_in_place() {
    let tree = tree_of(vec![file(
        &["src"],
        "main",
        vec![Item::ModDecl {
            name: s("inner"),
            inline: Some(vec![Item::StructDecl { name: s("Deep"), fields: vec![] }]),
        }],
    )]);
    let (m, warnings) = parse_root(&tree);
    assert!(warnings.is_empty());
    assert_eq!(m.submodules.len(), 1);
    assert_eq!(m.submodules[0].name, "inner");
    match entity(&m.submodules[0], "Deep") {
        Entity::Structure(_) => {},
        _ => panic!("Deep should be a structure"),
    }
}

#[test]
fn file_submodule_sibling_candidate_wins() {
    let tree = tree_of(vec![
        file(&["src"], "main", vec![Item::ModDecl { name: s("foo"), inline: None }]),
        file(&["src"], "foo", vec![Item::StructDecl { name: s("FromSibling"), fields: vec![] }]),
        file(
            &["src", "foo"],
            "mod",
            vec![Item::StructDecl { name: s("FromIndex"), fields: vec![] }],
        ),
    ]);
    let (m, _) = parse_root(&tree);
    assert_eq!(m.submodules.len(), 1);
    assert_eq!(m.submodules[0].name, "foo");
    assert_eq!(m.submodules[0].entities.len(), 1);
    match entity(&m.submodules[0], "FromSibling") {
        Entity::Structure(_) => {},
        _ => panic!("the sibling file should back the submodule"),
    }
}

#[test]
fn file_submodule_index_candidate_backs_module() {
    let tree = tree_of(vec![
        file(&["src"], "main", vec![Item::ModDecl { name: s("foo"), inline: None }]),
        file(
            &["src", "foo"],
            "mod",
            vec![Item::StructDecl { name: s("FromIndex"), fields: vec![] }],
        ),
    ]);
    let (m, _) = parse_root(&tree);
    assert_eq!(m.submodules[0].name, "foo");
    match entity(&m.submodules[0], "FromIndex") {
        Entity::Structure(_) => {},
        _ => panic!("the index file should back the submodule"),
    }
}

#[test]
fn file_submodule_parent_dir_candidate_is_a_fallback() {
    let tree = tree_of(vec![
        file(&["src"], "main", vec![Item::ModDecl { name: s("foo"), inline: None }]),
        file(
            &["src", "main"],
            "foo",
            vec![Item::StructDecl { name: s("FromParentDir"), fields: vec![] }],
        ),
    ]);
    let (m, _) = parse_root(&tree);
    assert_eq!(m.submodules[0].name, "foo");
    match entity(&m.submodules[0], "FromParentDir") {
        Entity::Structure(_) => {},
        _ => panic!("the parent-directory file should back the submodule"),
    }
}

#[test]
fn file_submodule_parent_dir_index_candidate_is_last() {
    let tree = tree_of(vec![
        file(&["src"], "main", vec![Item::ModDecl { name: s("foo"), inline: None }]),
        file(
            &["src", "main", "foo"],
            "mod",
            vec![Item::StructDecl { name: s("FromParentIndex"), fields: vec![] }],
        ),
    ]);
    let (m, _) = parse_root(&tree);
    match entity(&m.submodules[0], "FromParentIndex") {
        Entity::Structure(_) => {},
        _ => panic!("the parent-directory index file should back the submodule"),
    }
}

#[test]
fn missing_submodule_is_fatal() {
    let tree = tree_of(vec![file(
        &["src"],
        "main",
        vec![
            Item::StructDecl { name: s("Early"), fields: vec![] },
            Item::ModDecl { name: s("ghost_mod"), inline: None },
        ],
    )]);
    let r = draven::parse(&tree, vec![s("src")], s("main"));
    match r {
        Err(ParseError::ModuleNotFound { name }) => assert_eq!(name, "ghost_mod"),
        _ => panic!("a submodule without a backing file should be fatal"),
    }
}

#[test]
fn fatal_parse_leaves_file_record_unchanged() {
    let tree = tree_of(vec![file(
        &["src"],
        "main",
        vec![Item::ModDecl { name: s("ghost_mod"), inline: None }],
    )]);
    let mut f = File::new(s("main"), vec![s("src")]);
    let r = f.parse(&tree);
    assert!(r.is_err());
    assert!(f.modules.is_empty());
}

#[test]
fn entry_file_missing_from_tree() {
    let tree = tree_of(vec![]);
    let r = draven::parse(&tree, vec![s("src")], s("main"));
    assert!(matches!(r, Err(ParseError::FileMissing)));
}

#[test]
fn unparsed_entry_file_is_fatal() {
    let tree = tree_of(vec![SourceFile { dir: vec![s("src")], stem: s("main"), items: None }]);
    let r = draven::parse(&tree, vec![s("src")], s("main"));
    assert!(matches!(r, Err(ParseError::FileUnparsed)));
}

#[test]
fn unparsed_candidate_falls_through_to_next() {
    let tree = tree_of(vec![
        file(&["src"], "main", vec![Item::ModDecl { name: s("foo"), inline: None }]),
        SourceFile { dir: vec![s("src")], stem: s("foo"), items: None },
        file(
            &["src", "foo"],
            "mod",
            vec![Item::StructDecl { name: s("FromIndex"), fields: vec![] }],
        ),
    ]);
    let (m, _) = parse_root(&tree);
    match entity(&m.submodules[0], "FromIndex") {
        Entity::Structure(_) => {},
        _ => panic!("an unparsed candidate should fall through"),
    }
}

#[test]
fn self_referential_module_hits_recursion_limit() {
    let tree = tree_of(vec![file(
        &["src"],
        "a",
        vec![Item::ModDecl { name: s("a"), inline: None }],
    )]);
    let r = draven::parse(&tree, vec![s("src")], s("a"));
    assert!(matches!(r, Err(ParseError::RecursionLimit)));
}

#[test]
fn trait_methods_are_collected() {
    let tree = tree_of(vec![file(
        &["src"],
        "main",
        vec![Item::TraitDecl {
            name: s("Walk"),
            methods: vec![
                FnDecl {
                    name: s("step"),
                    params: vec![
                        FnParam::Receiver,
                        FnParam::Typed { name: s("count"), ty: path_ty(&["u32"]) },
                    ],
                },
            ],
        }],
    )]);
    let (m, _) = parse_root(&tree);
    match entity(&m, "Walk") {
        Entity::TraitDef(t) => {
            assert_eq!(t.functions.len(), 1);
            assert_eq!(t.functions[0].name, "step");
            assert_eq!(t.functions[0].args.len(), 1);
            assert_eq!(t.functions[0].args[0].alias, "count");
        },
        _ => panic!("Walk should be a trait"),
    }
}

#[test]
fn imports_stay_in_their_module() {
    let tree = tree_of(vec![file(
        &["src"],
        "main",
        vec![
            Item::Use {
                tree: UseTree::Prefix {
                    ident: s("a"),
                    rest: Box::new(UseTree::Name { ident: s("C") }),
                },
            },
            Item::ModDecl { name: s("inner"), inline: Some(vec![]) },
        ],
    )]);
    let (m, _) = parse_root(&tree);
    assert_eq!(m.imports.len(), 1);
    assert_eq!(m.imports[0].alias, "C");
    assert_eq!(m.imports[0].path, "a::C");
    assert!(m.submodules[0].imports.is_empty());
}

#[test]
fn glob_import_contributes_nothing() {
    let tree = tree_of(vec![file(
        &["src"],
        "main",
        vec![Item::Use {
            tree: UseTree::Prefix { ident: s("a"), rest: Box::new(UseTree::Glob) },
        }],
    )]);
    let (m, _) = parse_root(&tree);
    assert!(m.imports.is_empty());
}

#[test]
fn later_import_binding_overwrites_alias() {
    let tree = tree_of(vec![file(
        &["src"],
        "main",
        vec![
            Item::Use {
                tree: UseTree::Prefix {
                    ident: s("a"),
                    rest: Box::new(UseTree::Name { ident: s("C") }),
                },
            },
            Item::Use {
                tree: UseTree::Prefix {
                    ident: s("b"),
                    rest: Box::new(UseTree::Name { ident: s("C") }),
                },
            },
        ],
    )]);
    let (m, _) = parse_root(&tree);
    assert_eq!(m.imports.len(), 1);
    assert_eq!(m.imports[0].path, "b::C");
}

#[test]
fn constants_macros_and_aliases_are_recorded() {
    let tree = tree_of(vec![file(
        &["src"],
        "main",
        vec![
            Item::ConstDecl { name: s("MAX"), ty: path_ty(&["u32"]), value: s("7 * 6") },
            Item::MacroCall { name: s("println"), tokens: s("\"hi\"") },
            Item::TypeAliasDecl { name: s("Meters"), ty: path_ty(&["f64"]) },
        ],
    )]);
    let (m, _) = parse_root(&tree);
    match entity(&m, "MAX") {
        Entity::Const(c) => assert_eq!(c.value, "7 * 6"),
        _ => panic!("MAX should be a constant"),
    }
    match entity(&m, "println") {
        Entity::MacroInv(mi) => assert_eq!(mi.body, "\"hi\""),
        _ => panic!("println should be a macro record"),
    }
    match entity(&m, "Meters") {
        Entity::Alias(_) => {},
        _ => panic!("Meters should be a type alias"),
    }
}
