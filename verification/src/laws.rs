//! The library's laws: properties that hold across functions, stated over
//! the same spec functions the functions' own contracts use.
use crate::ast::ItemV;
use crate::format::{ref_display, spec_render};
use crate::parser::{
    entity_name, entity_upsert, file_usable, import_lookup, import_upsert, import_upsert_all,
    lemma_entity_index, lemma_import_index, lemma_import_upsert_all_single, spec_item, spec_items,
    spec_parse_file, use_entries, EntityV, ImportV, ModuleV, ParseErrorV, SourceTreeV, WarningV,
};
use crate::project::parser::{parent_segment, resolve_segments, root_segment};
use crate::strutil::{is_primitive_name, seq_join};
use crate::typename::display_type;
use crate::ast::{TypeExprV, UseTreeV};
use vstd::prelude::*;

verus! {

/// A structure entity's method map is empty; any other entity passes.
pub open spec fn structure_methods_empty(e: EntityV) -> bool {
    match e {
        EntityV::Structure(s) => s.methods.len() == 0,
        _ => true,
    }
}

/// Writing an entity with an empty method map keeps every structure's
/// method map empty.
proof fn lemma_upsert_keeps_empty_methods(es: Seq<EntityV>, e: EntityV)
    requires
        forall|j: int| 0 <= j < es.len() ==> structure_methods_empty(#[trigger] es[j]),
        structure_methods_empty(e),
    ensures
        forall|j: int|
            0 <= j < entity_upsert(es, e).len() ==> structure_methods_empty(
                #[trigger] entity_upsert(es, e)[j],
            ),
{
    lemma_entity_index(es, entity_name(e));
}

/// One non-impl declaration keeps every structure's method map empty.
proof fn lemma_item_keeps_empty_methods(
    t: SourceTreeV,
    m: ModuleV,
    item: ItemV,
    dir: Seq<Seq<char>>,
    fuel: nat,
)
    requires
        !(item is ImplBlock),
        forall|j: int|
            0 <= j < m.entities.len() ==> structure_methods_empty(#[trigger] m.entities[j]),
    ensures
        match spec_item(t, m, item, dir, fuel) {
            Ok(p) => forall|j: int|
                0 <= j < p.0.entities.len() ==> structure_methods_empty(
                    #[trigger] p.0.entities[j],
                ),
            Err(_) => true,
        },
{
    match item {
        ItemV::Use { tree } => {},
        ItemV::StructDecl { name, fields } => {
            lemma_upsert_keeps_empty_methods(
                m.entities,
                EntityV::Structure(
                    crate::parser::StructV {
                        name,
                        fields: crate::parser::fields_of_decls(fields),
                        methods: Seq::empty(),
                    },
                ),
            );
        },
        ItemV::EnumDecl { name, variants } => {
            lemma_upsert_keeps_empty_methods(
                m.entities,
                EntityV::Enumeration(crate::parser::EnumV { name, variants }),
            );
        },
        ItemV::TraitDecl { name, methods } => {
            lemma_upsert_keeps_empty_methods(
                m.entities,
                EntityV::TraitDef(
                    crate::parser::TraitV {
                        name,
                        functions: crate::parser::functions_fold(Seq::empty(), methods),
                    },
                ),
            );
        },
        ItemV::FunctionDecl { decl } => {
            lemma_upsert_keeps_empty_methods(
                m.entities,
                EntityV::Func(crate::parser::function_of_decl(decl)),
            );
        },
        ItemV::ImplBlock { target, methods } => {},
        ItemV::ConstDecl { name, ty, value } => {
            lemma_upsert_keeps_empty_methods(
                m.entities,
                EntityV::Const(crate::parser::ConstantV { name, ty, value }),
            );
        },
        ItemV::TypeAliasDecl { name, ty } => {
            lemma_upsert_keeps_empty_methods(
                m.entities,
                EntityV::Alias(crate::parser::TypeAliasV { alias: name, ty }),
            );
        },
        ItemV::ModDecl { name, inline } => {},
        ItemV::MacroCall { name, tokens } => {
            lemma_upsert_keeps_empty_methods(
                m.entities,
                EntityV::MacroInv(crate::parser::MacroV { name, body: tokens }),
            );
        },
        ItemV::Unsupported => {},
    }
}

/// For all structures with no associated implementation block, the method
/// map is empty after a full pass: a module built from declarations among
/// which no implementation block stands keeps every structure's method
/// map empty.
pub proof fn lemma_no_impl_no_methods(
    t: SourceTreeV,
    m: ModuleV,
    items: Seq<ItemV>,
    dir: Seq<Seq<char>>,
    fuel: nat,
)
    requires
        forall|i: int| 0 <= i < items.len() ==> !((#[trigger] items[i]) is ImplBlock),
        forall|j: int|
            0 <= j < m.entities.len() ==> structure_methods_empty(#[trigger] m.entities[j]),
    ensures
        match spec_items(t, m, items, dir, fuel) {
            Ok(p) => forall|j: int|
                0 <= j < p.0.entities.len() ==> structure_methods_empty(
                    #[trigger] p.0.entities[j],
                ),
            Err(_) => true,
        },
    decreases items.len(),
{
    if items.len() > 0 {
        let sr1 = spec_item(t, m, items[0], dir, fuel);
        lemma_item_keeps_empty_methods(t, m, items[0], dir, fuel);
        match sr1 {
            Ok(p1) => {
                assert(forall|i: int|
                    0 <= i < items.subrange(1, items.len() as int).len()
                        ==> !((#[trigger] items.subrange(1, items.len() as int)[i]) is ImplBlock));
                lemma_no_impl_no_methods(
                    t,
                    p1.0,
                    items.subrange(1, items.len() as int),
                    dir,
                    fuel,
                );
            },
            Err(_) => {},
        }
    }
}

/// After writing an alias binding, looking the alias up yields exactly the
/// path just written.
pub proof fn lemma_import_upsert_lookup(m: Seq<ImportV>, e: ImportV)
    ensures
        import_lookup(import_upsert(m, e), e.alias) == Some(e.path),
{
    lemma_import_index(m, e.alias);
    let i = crate::parser::import_index(m, e.alias);
    if i >= 0 {
        let s2 = m.update(i, e);
        lemma_import_index(s2, e.alias);
        assert(s2[i] == e);
        assert(forall|j: int| 0 <= j < m.len() && j != i ==> #[trigger] s2[j] == m[j]);
    } else {
        let s2 = m.push(e);
        lemma_import_index(s2, e.alias);
        assert(s2[m.len() as int] == e);
        assert(forall|j: int| 0 <= j < m.len() ==> #[trigger] s2[j] == m[j]);
    }
}

/// An import `use a::b::C` followed by a field of declared type `C`
/// resolves the field's cross-reference target to `a::b::C`, whatever the
/// alias map held before.
pub proof fn lemma_plain_import_resolves(
    a: Seq<char>,
    b: Seq<char>,
    c: Seq<char>,
    m0: Seq<ImportV>,
)
    ensures
        ({
            let tree = UseTreeV::Prefix {
                ident: a,
                rest: Box::new(
                    UseTreeV::Prefix { ident: b, rest: Box::new(UseTreeV::Name { ident: c }) },
                ),
            };
            let m1 = import_upsert_all(m0, use_entries(tree, Seq::empty()));
            display_type(TypeExprV::Path { segments: seq![c], args: Seq::empty() }, m1) == seq_join(
                seq![a, b, c],
                "::"@,
            )
        }),
{
    let t2 = UseTreeV::Name { ident: c };
    let t1 = UseTreeV::Prefix { ident: b, rest: Box::new(t2) };
    let tree = UseTreeV::Prefix { ident: a, rest: Box::new(t1) };
    let p1 = Seq::<Seq<char>>::empty().push(a);
    let p2 = p1.push(b);
    let e = ImportV { alias: c, path: seq_join(p2.push(c), "::"@) };
    assert(use_entries(tree, Seq::empty()) == use_entries(t1, p1));
    assert(use_entries(t1, p1) == use_entries(t2, p2));
    assert(use_entries(t2, p2) =~= seq![e]);
    lemma_import_upsert_all_single(m0, e);
    lemma_import_upsert_lookup(m0, e);
    let m1 = import_upsert_all(m0, use_entries(tree, Seq::empty()));
    assert(import_lookup(m1, c) == Some(e.path));
    assert(p2.push(c) =~= seq![a, b, c]);
    let segs = seq![c];
    assert(segs.subrange(1, 1) =~= Seq::<Seq<char>>::empty());
    assert(seq![e.path] + Seq::<Seq<char>>::empty() =~= seq![e.path]);
    assert(seq_join(seq![e.path], "::"@) == e.path);
    assert(display_type(TypeExprV::Path { segments: segs, args: Seq::empty() }, m1) == e.path);
}

/// An import `use a::b::{C, D as E}` makes a field of declared type `E`
/// resolve to `a::b::D`, whatever the alias map held before.
pub proof fn lemma_renamed_import_resolves(
    a: Seq<char>,
    b: Seq<char>,
    c: Seq<char>,
    d: Seq<char>,
    e_name: Seq<char>,
    m0: Seq<ImportV>,
)
    ensures
        ({
            let tree = UseTreeV::Prefix {
                ident: a,
                rest: Box::new(
                    UseTreeV::Prefix {
                        ident: b,
                        rest: Box::new(
                            UseTreeV::Group {
                                items: seq![
                                    UseTreeV::Name { ident: c },
                                    UseTreeV::Rename { ident: d, alias: e_name },
                                ],
                            },
                        ),
                    },
                ),
            };
            let m1 = import_upsert_all(m0, use_entries(tree, Seq::empty()));
            display_type(
                TypeExprV::Path { segments: seq![e_name], args: Seq::empty() },
                m1,
            ) == seq_join(seq![a, b, d], "::"@)
        }),
{
    let tn = UseTreeV::Name { ident: c };
    let tr = UseTreeV::Rename { ident: d, alias: e_name };
    let items = seq![tn, tr];
    let tg = UseTreeV::Group { items: items };
    let t1 = UseTreeV::Prefix { ident: b, rest: Box::new(tg) };
    let tree = UseTreeV::Prefix { ident: a, rest: Box::new(t1) };
    let p1 = Seq::<Seq<char>>::empty().push(a);
    let p2 = p1.push(b);
    let e1 = ImportV { alias: c, path: seq_join(p2.push(c), "::"@) };
    let e2 = ImportV { alias: e_name, path: seq_join(p2.push(d), "::"@) };
    let rest1 = items.subrange(1, 2);
    assert(rest1 =~= seq![tr]);
    assert(rest1.subrange(1, 1) =~= Seq::<UseTreeV>::empty());
    assert(crate::parser::use_entries_list(rest1.subrange(1, 1), p2)
        =~= Seq::<ImportV>::empty());
    assert(use_entries(rest1[0], p2) =~= seq![e2]);
    assert(crate::parser::use_entries_list(rest1, p2) =~= seq![e2]);
    assert(use_entries(items[0], p2) =~= seq![e1]);
    assert(crate::parser::use_entries_list(items, p2) == use_entries(items[0], p2)
        + crate::parser::use_entries_list(rest1, p2));
    assert(crate::parser::use_entries_list(items, p2) =~= seq![e1, e2]);
    assert(use_entries(tree, Seq::empty()) == use_entries(t1, p1));
    assert(use_entries(t1, p1) == use_entries(tg, p2));
    assert(use_entries(tg, p2) == crate::parser::use_entries_list(items, p2));
    let es = seq![e1, e2];
    assert(use_entries(tree, Seq::empty()) == es);
    assert(es.subrange(1, 2) =~= seq![e2]);
    assert(import_upsert_all(m0, es) == import_upsert_all(import_upsert(m0, e1), es.subrange(1, 2)));
    lemma_import_upsert_all_single(import_upsert(m0, e1), e2);
    lemma_import_upsert_lookup(import_upsert(m0, e1), e2);
    let m1 = import_upsert_all(m0, use_entries(tree, Seq::empty()));
    assert(import_lookup(m1, e_name) == Some(e2.path));
    assert(p2.push(d) =~= seq![a, b, d]);
    let segs = seq![e_name];
    assert(segs.subrange(1, 1) =~= Seq::<Seq<char>>::empty());
    assert(seq![e2.path] + Seq::<Seq<char>>::empty() =~= seq![e2.path]);
    assert(seq_join(seq![e2.path], "::"@) == e2.path);
    assert(display_type(TypeExprV::Path { segments: segs, args: Seq::empty() }, m1) == e2.path);
}

/// Parent-reference collapsing: `a::b::PARENT::c` resolves identically to
/// `a::c`, for ordinary segments `a`, `b`, `c` that are not themselves
/// parent references.
pub proof fn lemma_parent_collapse(a: Seq<char>, b: Seq<char>, c: Seq<char>)
    requires
        a != parent_segment(),
        b != parent_segment(),
        c != parent_segment(),
    ensures
        resolve_segments(seq![a, b, parent_segment(), c]) == resolve_segments(seq![a, c]),
{
    let long = seq![a, b, parent_segment(), c];
    let short = seq![a, c];
    if a == root_segment() {
        assert(crate::project::parser::strip_root(long) =~= seq![b, parent_segment(), c]);
        assert(crate::project::parser::strip_root(short) =~= seq![c]);
        lemma_collapse_bsc(b, c);
        let s1 = seq![c];
        assert(s1.subrange(1, 1) =~= Seq::<Seq<char>>::empty());
        assert(crate::project::parser::collapse_onto(Seq::empty(), s1)
            == crate::project::parser::collapse_onto(
            Seq::<Seq<char>>::empty().push(c),
            Seq::empty(),
        ));
        assert(crate::project::parser::collapse_onto(
            Seq::<Seq<char>>::empty().push(c),
            Seq::empty(),
        ) == Seq::<Seq<char>>::empty().push(c));
        assert(Seq::<Seq<char>>::empty().push(c) =~= seq![c]);
    } else {
        assert(crate::project::parser::strip_root(long) == long);
        assert(crate::project::parser::strip_root(short) == short);
        lemma_collapse_absc(a, b, c);
        lemma_collapse_ac(a, c);
    }
}

/// Collapsing `b::PARENT::c` from an empty accumulator leaves `c`.
proof fn lemma_collapse_bsc(b: Seq<char>, c: Seq<char>)
    requires
        b != parent_segment(),
        c != parent_segment(),
    ensures
        crate::project::parser::collapse_onto(Seq::empty(), seq![b, parent_segment(), c]) =~= seq![
            c,
        ],
{
    let s0 = seq![b, parent_segment(), c];
    let s1 = seq![parent_segment(), c];
    let s2 = seq![c];
    let accb = Seq::<Seq<char>>::empty().push(b);
    assert(s0.subrange(1, 3) =~= s1);
    assert(crate::project::parser::collapse_onto(Seq::empty(), s0)
        == crate::project::parser::collapse_onto(accb, s1));
    assert(s1.subrange(1, 2) =~= s2);
    assert(accb.drop_last() =~= Seq::<Seq<char>>::empty());
    assert(crate::project::parser::collapse_onto(accb, s1)
        == crate::project::parser::collapse_onto(accb.drop_last(), s2));
    assert(s2.subrange(1, 1) =~= Seq::<Seq<char>>::empty());
    assert(crate::project::parser::collapse_onto(accb.drop_last(), s2)
        == crate::project::parser::collapse_onto(accb.drop_last().push(c), Seq::empty()));
    assert(crate::project::parser::collapse_onto(accb.drop_last().push(c), Seq::empty())
        == accb.drop_last().push(c));
    assert(accb.drop_last().push(c) =~= seq![c]);
}

/// Collapsing `a::b::PARENT::c` from an empty accumulator leaves `a::c`.
proof fn lemma_collapse_absc(a: Seq<char>, b: Seq<char>, c: Seq<char>)
    requires
        a != parent_segment(),
        b != parent_segment(),
        c != parent_segment(),
    ensures
        crate::project::parser::collapse_onto(
            Seq::empty(),
            seq![a, b, parent_segment(), c],
        ) =~= seq![a, c],
{
    let s0 = seq![a, b, parent_segment(), c];
    let s1 = seq![b, parent_segment(), c];
    let s2 = seq![parent_segment(), c];
    let s3 = seq![c];
    let acca = Seq::<Seq<char>>::empty().push(a);
    let accab = acca.push(b);
    assert(s0.subrange(1, 4) =~= s1);
    assert(crate::project::parser::collapse_onto(Seq::empty(), s0)
        == crate::project::parser::collapse_onto(acca, s1));
    assert(s1.subrange(1, 3) =~= s2);
    assert(crate::project::parser::collapse_onto(acca, s1)
        == crate::project::parser::collapse_onto(accab, s2));
    assert(s2.subrange(1, 2) =~= s3);
    assert(accab.drop_last() =~= acca);
    assert(crate::project::parser::collapse_onto(accab, s2)
        == crate::project::parser::collapse_onto(accab.drop_last(), s3));
    assert(crate::project::parser::collapse_onto(accab.drop_last(), s3)
        == crate::project::parser::collapse_onto(acca, s3));
    assert(s3.subrange(1, 1) =~= Seq::<Seq<char>>::empty());
    assert(crate::project::parser::collapse_onto(acca, s3)
        == crate::project::parser::collapse_onto(acca.push(c), Seq::empty()));
    assert(crate::project::parser::collapse_onto(acca.push(c), Seq::empty()) == acca.push(c));
    assert(acca.push(c) =~= seq![a, c]);
}

/// Collapsing `a::c` from an empty accumulator leaves `a::c`.
proof fn lemma_collapse_ac(a: Seq<char>, c: Seq<char>)
    requires
        a != parent_segment(),
        c != parent_segment(),
    ensures
        crate::project::parser::collapse_onto(Seq::empty(), seq![a, c]) =~= seq![a, c],
{
    let s0 = seq![a, c];
    let s1 = seq![c];
    let acca = Seq::<Seq<char>>::empty().push(a);
    assert(s0.subrange(1, 2) =~= s1);
    assert(crate::project::parser::collapse_onto(Seq::empty(), s0)
        == crate::project::parser::collapse_onto(acca, s1));
    assert(s1.subrange(1, 1) =~= Seq::<Seq<char>>::empty());
    assert(crate::project::parser::collapse_onto(acca, s1)
        == crate::project::parser::collapse_onto(acca.push(c), Seq::empty()));
    assert(crate::project::parser::collapse_onto(acca.push(c), Seq::empty()) == acca.push(c));
    assert(acca.push(c) =~= seq![a, c]);
}

/// `PARENT::c` at the root resolves to `c`: the leading parent reference,
/// with nothing before it, collapses away alone.
pub proof fn lemma_parent_at_root(c: Seq<char>)
    requires
        c != parent_segment(),
    ensures
        resolve_segments(seq![parent_segment(), c]) == c,
{
    reveal_strlit("crate");
    reveal_strlit("super");
    let s0 = seq![parent_segment(), c];
    let s1 = seq![c];
    assert(parent_segment()[0] == 's');
    assert(root_segment()[0] == 'c');
    assert(parent_segment() != root_segment());
    assert(crate::project::parser::strip_root(s0) == s0);
    assert(s0.subrange(1, 2) =~= s1);
    assert(crate::project::parser::collapse_onto(Seq::empty(), s0)
        == crate::project::parser::collapse_onto(Seq::empty(), s1));
    assert(s1.subrange(1, 1) =~= Seq::<Seq<char>>::empty());
    assert(crate::project::parser::collapse_onto(Seq::<Seq<char>>::empty(), s1)
        == crate::project::parser::collapse_onto(Seq::<Seq<char>>::empty().push(c), Seq::empty()));
    assert(crate::project::parser::collapse_onto(Seq::<Seq<char>>::empty().push(c), Seq::empty())
        == Seq::<Seq<char>>::empty().push(c));
    assert(Seq::<Seq<char>>::empty().push(c) =~= seq![c]);
    assert(seq_join(seq![c], "::"@) == c);
}

/// Two full passes over unchanged input parse the same module tree and
/// render the same notes, byte for byte: a pass's outcome depends on the
/// source tree's content alone.
pub proof fn lemma_pass_deterministic(
    t1: SourceTreeV,
    t2: SourceTreeV,
    dir: Seq<Seq<char>>,
    stem: Seq<char>,
    fuel: nat,
    pl: bool,
)
    requires
        t1 == t2,
    ensures
        spec_parse_file(t1, dir, stem, fuel) == spec_parse_file(t2, dir, stem, fuel),
        (match (spec_parse_file(t1, dir, stem, fuel), spec_parse_file(t2, dir, stem, fuel)) {
            (Ok(p1), Ok(p2)) => p1.1 == p2.1 && spec_render(p1.0, pl) == spec_render(p2.0, pl),
            _ => true,
        }),
{
}

/// Primitive suppression: a display that names a primitive scalar type
/// renders bare when primitive linking is disabled, and bracketed when it
/// is enabled.
pub proof fn lemma_primitive_suppression(d: Seq<char>)
    requires
        is_primitive_name(d),
    ensures
        ref_display(d, false) == d,
        ref_display(d, true) == "[["@ + d + "]]"@,
{
}

/// A declared submodule with no usable file under any of the four
/// candidate paths fails the pass fatally with a module-not-found error.
pub proof fn lemma_missing_submodule_fatal(
    t: SourceTreeV,
    m: ModuleV,
    name: Seq<char>,
    dir: Seq<Seq<char>>,
    fuel: nat,
)
    requires
        fuel > 0,
        !file_usable(t, dir, name),
        !file_usable(t, dir.push(name), "mod"@),
        !file_usable(t, dir.push(m.name), name),
        !file_usable(t, dir.push(m.name).push(name), "mod"@),
    ensures
        spec_item(t, m, ItemV::ModDecl { name, inline: None }, dir, fuel) == Err::<
            (ModuleV, Seq<WarningV>),
            ParseErrorV,
        >(ParseErrorV::ModuleNotFound { name }),
{
}

} // verus!
