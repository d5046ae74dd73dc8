use draven::ast::UseTree;
use draven::project::parser::Parser;
use draven::project::{Project, ProjectError};
use draven::strutil::is_source_file;

fn s(x: &str) -> String {
    x.to_string()
}

fn segs(xs: &[&str]) -> Vec<String> {
    xs.iter().map(|x| s(x)).collect()
}

fn fresh_parser() -> Parser {
    let project = Project::new("[package]\nname = \"demo\"\n", segs(&["src"]))
        .expect("manifest should parse");
    Parser::new(project)
}

#[test]
fn manifest_package_name_is_read() {
    let p = Project::new("[package]\nname = \"demo\"\nversion = \"0.1.0\"\n", segs(&["src"]))
        .expect("manifest should parse");
    assert_eq!(p.name, "demo");
    assert_eq!(p.src, segs(&["src"]));
}

#[test]
fn manifest_without_package_name_is_refused() {
    let r = Project::new("[dependencies]\nserde = \"1\"\n", segs(&["src"]));
    assert!(matches!(r, Err(ProjectError::PackageNameMissing)));
    let r2 = Project::new("this is [ not toml", segs(&["src"]));
    assert!(matches!(r2, Err(ProjectError::PackageNameMissing)));
    let r3 = Project::new("[package]\nedition = \"2021\"\n", segs(&["src"]));
    assert!(matches!(r3, Err(ProjectError::PackageNameMissing)));
}

#[test]
fn parent_reference_collapses_against_previous_segment() {
    let parser = fresh_parser();
    assert_eq!(parser.resolve_path(&segs(&["a", "b", "super", "c"])), "a::c");
    assert_eq!(parser.resolve_path(&segs(&["super", "c"])), "c");
}

#[test]
fn leading_root_reference_is_stripped() {
    let parser = fresh_parser();
    assert_eq!(parser.resolve_path(&segs(&["crate", "x", "y"])), "x::y");
    assert_eq!(parser.resolve_path(&segs(&["x", "crate", "y"])), "x::crate::y");
}

#[test]
fn consecutive_parent_references_fold_left_to_right() {
    let parser = fresh_parser();
    assert_eq!(parser.resolve_path(&segs(&["a", "b", "super", "super", "c"])), "c");
    assert_eq!(parser.resolve_path(&segs(&["super", "super", "c"])), "c");
}

#[test]
fn resolve_path_prepends_current_module_path() {
    let mut parser = fresh_parser();
    parser.enter_module(s("outer"));
    parser.enter_module(s("inner"));
    assert_eq!(parser.resolve_path(&segs(&["Thing"])), "outer::inner::Thing");
    assert_eq!(parser.resolve_path(&segs(&["super", "Thing"])), "outer::Thing");
    parser.exit_module();
    assert_eq!(parser.resolve_path(&segs(&["Thing"])), "outer::Thing");
}

#[test]
fn recorded_items_are_kept_once() {
    let mut parser = fresh_parser();
    parser.enter_module(s("geom"));
    parser.record_item(&segs(&["Point"]));
    parser.record_item(&segs(&["Point"]));
    parser.record_item(&segs(&["Line"]));
    let paths: Vec<&str> = parser.project_items.iter().map(|i| i.global_path.as_str()).collect();
    assert_eq!(paths, vec!["geom::Point", "geom::Line"]);
}

#[test]
fn leaving_a_module_discards_its_imports() {
    let mut parser = fresh_parser();
    parser.enter_module(s("inner"));
    parser.parse_use(&UseTree::Prefix {
        ident: s("a"),
        rest: Box::new(UseTree::Name { ident: s("C") }),
    });
    assert_eq!(parser.current_imports.len(), 1);
    assert_eq!(parser.current_imports[0].alias, "C");
    assert_eq!(parser.current_imports[0].path, "a::C");
    parser.exit_module();
    assert!(parser.current_imports.is_empty());
}

#[test]
fn source_file_suffix_decides_watch_relevance() {
    assert!(is_source_file("main.rs"));
    assert!(is_source_file("deep/nested/mod.rs"));
    assert!(!is_source_file("main.rc"));
    assert!(!is_source_file("rs"));
    assert!(!is_source_file("notes.md"));
}
