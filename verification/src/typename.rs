//! The type name resolver: turns a structured type expression into its
//! canonical display string, substituting the import alias map on the first
//! path segment. Resolution recurses structurally: generic arguments go in
//! angle brackets, references keep their lifetime and mutability markers,
//! arrays and slices resolve to their element type alone, tuple elements
//! are joined with a comma, and any other kind renders as a literal
//! placeholder.
use crate::ast::{type_exprs_view, TypeExpr, TypeExprV};
use crate::parser::{import_lookup, lookup_import, Import, ImportV};
use crate::strutil::{lemma_seq_join_push, seq_join};
use vstd::prelude::*;

verus! {

/// The canonical display string of a type expression under an import
/// alias map.
pub open spec fn display_type(t: TypeExprV, imports: Seq<ImportV>) -> Seq<char>
    decreases t,
{
    match t {
        TypeExprV::Path { segments, args } => {
            if segments.len() == 0 {
                Seq::empty()
            } else {
                let first = match import_lookup(imports, segments[0]) {
                    Some(p) => p,
                    None => segments[0],
                };
                let base = seq_join(
                    seq![first] + segments.subrange(1, segments.len() as int),
                    "::"@,
                );
                if args.len() == 0 {
                    base
                } else {
                    base + "<"@ + seq_join(display_types(args, imports), ", "@) + ">"@
                }
            }
        },
        TypeExprV::Reference { lifetime, mutable, inner } => {
            let lt = match lifetime {
                Some(l) => l + " "@,
                None => Seq::empty(),
            };
            let mt: Seq<char> = if mutable {
                "mut "@
            } else {
                Seq::empty()
            };
            "&"@ + lt + mt + display_type(*inner, imports)
        },
        TypeExprV::Array { elem } => display_type(*elem, imports),
        TypeExprV::Slice { elem } => display_type(*elem, imports),
        TypeExprV::Tuple { elems } => seq_join(display_types(elems, imports), ", "@),
        TypeExprV::Opaque => "unknown"@,
    }
}

/// The display strings of a list of type expressions, in order.
pub open spec fn display_types(ts: Seq<TypeExprV>, imports: Seq<ImportV>) -> Seq<Seq<char>>
    decreases ts,
{
    if ts.len() == 0 {
        Seq::empty()
    } else {
        seq![display_type(ts[0], imports)] + display_types(
            ts.subrange(1, ts.len() as int),
            imports,
        )
    }
}

/// Element-wise reading of `display_types`.
pub proof fn lemma_display_types(ts: Seq<TypeExprV>, imports: Seq<ImportV>)
    ensures
        display_types(ts, imports).len() == ts.len(),
        forall|i: int| 0 <= i < ts.len() ==> #[trigger] display_types(ts, imports)[i]
            == display_type(ts[i], imports),
    decreases ts,
{
    if ts.len() > 0 {
        lemma_display_types(ts.subrange(1, ts.len() as int), imports);
    }
}

/// Joins the resolved display strings of the expressions in `ts` with a
/// comma, as generic argument and tuple lists render.
fn resolve_joined(
    ts: &Vec<TypeExpr>,
    imports: &Vec<Import>,
    Ghost(whole): Ghost<TypeExpr>,
) -> (res: String)
    requires
        forall|j: int| 0 <= j < ts@.len() ==> decreases_to!(whole => ts@[j]),
    ensures
        res@ == seq_join(display_types(type_exprs_view(ts@), imports.deep_view()), ", "@),
    decreases whole, 0int,
{
    let ghost tv = type_exprs_view(ts@);
    proof {
        crate::ast::lemma_type_exprs_view(ts@);
        lemma_display_types(tv, imports.deep_view());
    }
    let mut out = String::new();
    let mut j: usize = 0;
    while j < ts.len()
        invariant
            j <= ts.len(),
            tv == type_exprs_view(ts@),
            tv.len() == ts.len(),
            forall|x: int| 0 <= x < ts.len() ==> #[trigger] tv[x] == crate::ast::type_expr_view(
                ts@[x],
            ),
            forall|x: int| 0 <= x < ts.len() ==> #[trigger] display_types(
                tv,
                imports.deep_view(),
            )[x] == display_type(tv[x], imports.deep_view()),
            display_types(tv, imports.deep_view()).len() == ts.len(),
            out@ == seq_join(display_types(tv, imports.deep_view()).take(j as int), ", "@),
            forall|x: int| 0 <= x < ts@.len() ==> decreases_to!(whole => ts@[x]),
        decreases ts.len() - j,
    {
        proof {
            lemma_seq_join_push(
                display_types(tv, imports.deep_view()).take(j as int),
                ", "@,
                display_types(tv, imports.deep_view())[j as int],
            );
            assert(display_types(tv, imports.deep_view()).take(j as int).push(
                display_types(tv, imports.deep_view())[j as int],
            ) =~= display_types(tv, imports.deep_view()).take(j as int + 1));
        }
        if j > 0 {
            out.append(", ");
        }
        let part = resolve_type(&ts[j], imports);
        out.append(part.as_str());
        j = j + 1;
    }
    proof {
        assert(display_types(tv, imports.deep_view()).take(ts.len() as int) =~= display_types(
            tv,
            imports.deep_view(),
        ));
    }
    out
}

/// Resolves one type expression to its canonical display string under the
/// import alias map.
pub fn resolve_type(t: &TypeExpr, imports: &Vec<Import>) -> (res: String)
    ensures
        res@ == display_type(t@, imports.deep_view()),
    decreases *t, 1int,
{
    match t {
        TypeExpr::Path { segments, args } => {
            proof {
                crate::ast::lemma_type_exprs_view(args@);
            }
            let mut out = String::new();
            if segments.len() == 0 {
                return out;
            }
            let ghost segv = segments.deep_view();
            match lookup_import(imports, segments[0].as_str()) {
                Some(p) => out.append(p.as_str()),
                None => out.append(segments[0].as_str()),
            }
            let ghost first = match import_lookup(imports.deep_view(), segv[0]) {
                Some(p) => p,
                None => segv[0],
            };
            let ghost parts = seq![first] + segv.subrange(1, segv.len() as int);
            proof {
                assert(parts.take(1) =~= seq![first]);
                assert(seq_join(parts.take(1), "::"@) == first);
            }
            let mut i: usize = 1;
            while i < segments.len()
                invariant
                    1 <= i <= segments.len(),
                    segv == segments.deep_view(),
                    segv.len() == segments.len(),
                    parts == seq![first] + segv.subrange(1, segv.len() as int),
                    parts.len() == segv.len(),
                    out@ == seq_join(parts.take(i as int), "::"@),
                decreases segments.len() - i,
            {
                proof {
                    lemma_seq_join_push(parts.take(i as int), "::"@, parts[i as int]);
                    assert(parts.take(i as int).push(parts[i as int]) =~= parts.take(i as int + 1));
                    assert(parts[i as int] == segv[i as int]);
                    assert(segments.deep_view()[i as int] == segments@[i as int]@);
                }
                out.append("::");
                out.append(segments[i].as_str());
                i = i + 1;
            }
            proof {
                assert(parts.take(parts.len() as int) =~= parts);
            }
            if args.len() > 0 {
                out.append("<");
                let joined = resolve_joined(args, imports, Ghost(*t));
                out.append(joined.as_str());
                out.append(">");
            }
            out
        },
        TypeExpr::Reference { lifetime, mutable, inner } => {
            let ghost lt: Seq<char> = match lifetime.deep_view() {
                Some(l) => l + " "@,
                None => Seq::empty(),
            };
            let ghost mt: Seq<char> = if *mutable {
                "mut "@
            } else {
                Seq::empty()
            };
            let mut out = String::new();
            out.append("&");
            match lifetime {
                Some(l) => {
                    out.append(l.as_str());
                    out.append(" ");
                },
                None => {},
            }
            if *mutable {
                out.append("mut ");
            }
            let rest = resolve_type(inner, imports);
            out.append(rest.as_str());
            proof {
                assert(out@ =~= "&"@ + lt + mt + rest@);
            }
            out
        },
        TypeExpr::Array { elem } => resolve_type(elem, imports),
        TypeExpr::Slice { elem } => resolve_type(elem, imports),
        TypeExpr::Tuple { elems } => {
            proof {
                crate::ast::lemma_type_exprs_view(elems@);
            }
            resolve_joined(elems, imports, Ghost(*t))
        },
        TypeExpr::Opaque => {
            let mut out = String::new();
            out.append("unknown");
            out
        },
    }
}

} // verus!
