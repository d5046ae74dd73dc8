use draven::ast::{FieldDecl, FnDecl, FnParam, Item, TypeExpr, UseTree};
use draven::format::{render, Note, RenderOptions};
use draven::parser::{Import, SourceFile, SourceTree};
use draven::typename::resolve_type;

fn s(x: &str) -> String {
    x.to_string()
}

fn path_ty(segments: &[&str]) -> TypeExpr {
    TypeExpr::Path { segments: segments.iter().map(|x| s(x)).collect(), args: vec![] }
}

fn tree_of(files: Vec<SourceFile>) -> SourceTree {
    SourceTree { files }
}

fn file(dir: &[&str], stem: &str, items: Vec<Item>) -> SourceFile {
    SourceFile { dir: dir.iter().map(|x| s(x)).collect(), stem: s(stem), items: Some(items) }
}

fn render_tree(tree: &SourceTree, primitive_linking: bool) -> Vec<Note> {
    let (m, _) = draven::parse(tree, vec![s("src")], s("main")).expect("parse should succeed");
    render(m, &RenderOptions { primitive_linking })
}

fn note<'a>(notes: &'a [Note], filename: &str) -> &'a Note {
    notes.iter().find(|n| n.filename == filename).expect("note should be present")
}

#[test]
fn imported_field_type_resolves_to_full_path() {
    let tree = tree_of(vec![file(
        &["src"],
        "main",
        vec![
            Item::Use {
                tree: UseTree::Prefix {
                    ident: s("a"),
                    rest: Box::new(UseTree::Prefix {
                        ident: s("b"),
                        rest: Box::new(UseTree::Name { ident: s("C") }),
                    }),
                },
            },
            Item::StructDecl { name: s("S"), fields: vec![FieldDecl { name: s("f"), ty: path_ty(&["C"]) }] },
        ],
    )]);
    let notes = render_tree(&tree, false);
    assert_eq!(note(&notes, "S.md").content, "# Struct S\nf : [[a::b::C]]\n");
}

#[test]
fn renamed_import_resolves_to_original_path() {
    let tree = tree_of(vec![file(
        &["src"],
        "main",
        vec![
            Item::Use {
                tree: UseTree::Prefix {
                    ident: s("a"),
                    rest: Box::new(UseTree::Prefix {
                        ident: s("b"),
                        rest: Box::new(UseTree::Group {
                            items: vec![
                                UseTree::Name { ident: s("C") },
                                UseTree::Rename { ident: s("D"), alias: s("E") },
                            ],
                        }),
                    }),
                },
            },
            Item::StructDecl { name: s("S"), fields: vec![FieldDecl { name: s("f"), ty: path_ty(&["E"]) }] },
        ],
    )]);
    let notes = render_tree(&tree, false);
    assert_eq!(note(&notes, "S.md").content, "# Struct S\nf : [[a::b::D]]\n");
}

#[test]
fn primitive_suppression_toggles_brackets() {
    let items = vec![Item::StructDecl {
        name: s("S"),
        fields: vec![FieldDecl { name: s("field"), ty: path_ty(&["u32"]) }],
    }];
    let tree = tree_of(vec![file(&["src"], "main", items)]);
    let plain = render_tree(&tree, false);
    assert_eq!(note(&plain, "S.md").content, "# Struct S\nfield : u32\n");
    let linked = render_tree(&tree, true);
    assert_eq!(note(&linked, "S.md").content, "# Struct S\nfield : [[u32]]\n");
}

#[test]
fn point_with_len_method_end_to_end() {
    let tree = tree_of(vec![file(
        &["src"],
        "main",
        vec![
            Item::StructDecl {
                name: s("Point"),
                fields: vec![
                    FieldDecl { name: s("x"), ty: path_ty(&["f32"]) },
                    FieldDecl { name: s("y"), ty: path_ty(&["f32"]) },
                ],
            },
            Item::ImplBlock {
                target: path_ty(&["Point"]),
                methods: vec![FnDecl { name: s("len"), params: vec![FnParam::Receiver] }],
            },
        ],
    )]);
    let notes = render_tree(&tree, true);
    let point = note(&notes, "Point.md");
    assert_eq!(point.content, "# Struct Point\nx : [[f32]]\ny : [[f32]]\n[[len]]\n");
    let len = note(&notes, "len.md");
    assert_eq!(len.content, "# Function len\n");
}

#[test]
fn two_passes_render_identical_notes() {
    let build = || {
        tree_of(vec![file(
            &["src"],
            "main",
            vec![
                Item::Use {
                    tree: UseTree::Prefix {
                        ident: s("a"),
                        rest: Box::new(UseTree::Name { ident: s("C") }),
                    },
                },
                Item::StructDecl {
                    name: s("S"),
                    fields: vec![FieldDecl { name: s("f"), ty: path_ty(&["C"]) }],
                },
                Item::EnumDecl { name: s("Kind"), variants: vec![s("A"), s("B")] },
                Item::ModDecl {
                    name: s("inner"),
                    inline: Some(vec![Item::FunctionDecl {
                        decl: FnDecl { name: s("go"), params: vec![] },
                    }]),
                },
            ],
        )])
    };
    let first = render_tree(&build(), false);
    let second = render_tree(&build(), false);
    assert_eq!(first.len(), second.len());
    for (n1, n2) in first.iter().zip(second.iter()) {
        assert_eq!(n1.filename, n2.filename);
        assert_eq!(n1.content, n2.content);
    }
}

#[test]
fn enum_and_trait_notes() {
    let tree = tree_of(vec![file(
        &["src"],
        "main",
        vec![
            Item::EnumDecl { name: s("Kind"), variants: vec![s("A"), s("B")] },
            Item::TraitDecl {
                name: s("Walk"),
                methods: vec![FnDecl {
                    name: s("step"),
                    params: vec![
                        FnParam::Receiver,
                        FnParam::Typed { name: s("count"), ty: path_ty(&["u32"]) },
                    ],
                }],
            },
        ],
    )]);
    let notes = render_tree(&tree, false);
    assert_eq!(note(&notes, "Kind.md").content, "# Enum Kind\n[[A]]\n[[B]]\n");
    assert_eq!(note(&notes, "Walk.md").content, "# Trait Walk\n[[step]]\n");
    assert_eq!(note(&notes, "step.md").content, "# Function step\ncount : u32\n");
}

#[test]
fn constant_alias_and_macro_notes() {
    let tree = tree_of(vec![file(
        &["src"],
        "main",
        vec![
            Item::ConstDecl { name: s("MAX"), ty: path_ty(&["u32"]), value: s("42") },
            Item::TypeAliasDecl { name: s("Meters"), ty: path_ty(&["f64"]) },
            Item::MacroCall { name: s("shout"), tokens: s("loud") },
        ],
    )]);
    let notes = render_tree(&tree, false);
    assert_eq!(note(&notes, "MAX.md").content, "# Constant MAX\nMAX : u32\nvalue : 42\n");
    assert_eq!(note(&notes, "Meters.md").content, "# TypeAlias Meters\nMeters : f64\n");
    assert_eq!(note(&notes, "shout.md").content, "# Macro shout\n");
}

#[test]
fn submodule_entities_render_after_parent() {
    let tree = tree_of(vec![file(
        &["src"],
        "main",
        vec![
            Item::StructDecl { name: s("Outer"), fields: vec![] },
            Item::ModDecl {
                name: s("inner"),
                inline: Some(vec![Item::StructDecl { name: s("Inner"), fields: vec![] }]),
            },
        ],
    )]);
    let notes = render_tree(&tree, false);
    let names: Vec<&str> = notes.iter().map(|n| n.filename.as_str()).collect();
    assert_eq!(names, vec!["Outer.md", "Inner.md"]);
}

#[test]
fn generic_arguments_render_in_angle_brackets() {
    let imports = vec![Import { alias: s("C"), path: s("a::b::C") }];
    let ty = TypeExpr::Path {
        segments: vec![s("Vec")],
        args: vec![path_ty(&["C"]), path_ty(&["u8"])],
    };
    assert_eq!(resolve_type(&ty, &imports), "Vec<a::b::C, u8>");
}

#[test]
fn reference_types_keep_lifetime_and_mutability() {
    let imports: Vec<Import> = vec![];
    let ty = TypeExpr::Reference {
        lifetime: Some(s("'a")),
        mutable: true,
        inner: Box::new(path_ty(&["T"])),
    };
    assert_eq!(resolve_type(&ty, &imports), "&'a mut T");
    let plain = TypeExpr::Reference {
        lifetime: None,
        mutable: false,
        inner: Box::new(path_ty(&["T"])),
    };
    assert_eq!(resolve_type(&plain, &imports), "&T");
}

#[test]
fn arrays_slices_tuples_and_opaque_types() {
    let imports: Vec<Import> = vec![];
    let arr = TypeExpr::Array { elem: Box::new(path_ty(&["u8"])) };
    assert_eq!(resolve_type(&arr, &imports), "u8");
    let sl = TypeExpr::Slice { elem: Box::new(path_ty(&["u8"])) };
    assert_eq!(resolve_type(&sl, &imports), "u8");
    let tup = TypeExpr::Tuple { elems: vec![path_ty(&["A"]), path_ty(&["B"])] };
    assert_eq!(resolve_type(&tup, &imports), "A, B");
    assert_eq!(resolve_type(&TypeExpr::Opaque, &imports), "unknown");
}

#[test]
fn multi_segment_path_substitutes_first_segment_only() {
    let imports = vec![Import { alias: s("cfg"), path: s("core::cfg") }];
    let ty = TypeExpr::Path { segments: vec![s("cfg"), s("Entry")], args: vec![] };
    assert_eq!(resolve_type(&ty, &imports), "core::cfg::Entry");
}
