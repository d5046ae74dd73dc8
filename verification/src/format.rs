//! The markdown renderer: walks a finished module tree and emits one note
//! per entity, keyed by entity name alone, so entities of the same name in
//! different modules overwrite each other's note when the notes are
//! written in order. Each field, argument, variant or method renders as
//! one line; type displays are wrapped in cross-reference brackets unless
//! they name a primitive scalar type and primitive linking is disabled.
use crate::parser::{
    Entity, EntityV, FunctionV, Import, ImportV, Module, ModuleV, TypeAlias, TypeAliasV, Function,
    lemma_modules_view, module_view, modules_view,
};
use crate::strutil::is_primitive_name;
use crate::typename::{display_type, resolve_type};
use vstd::prelude::*;

verus! {

/// The rendering options a pass runs under.
pub struct RenderOptions {
    /// Whether primitive scalar type names are cross-referenced too.
    pub primitive_linking: bool,
}

/// One note to be written: its file name and its body.
pub struct Note {
    pub filename: String,
    pub content: String,
}

pub struct NoteV {
    pub filename: Seq<char>,
    pub content: Seq<char>,
}

impl View for Note {
    type V = NoteV;

    open spec fn view(&self) -> NoteV {
        NoteV { filename: self.filename@, content: self.content@ }
    }
}

impl DeepView for Note {
    type V = NoteV;

    open spec fn deep_view(&self) -> NoteV {
        self.view()
    }
}

/// A type display wrapped for cross-reference, or bare for a primitive
/// scalar name when primitive linking is disabled.
pub open spec fn ref_display(d: Seq<char>, primitive_linking: bool) -> Seq<char> {
    if !primitive_linking && is_primitive_name(d) {
        d
    } else {
        "[["@ + d + "]]"@
    }
}

/// The line of one field or argument: its name, a colon, and its resolved
/// type display.
pub open spec fn field_line(f: TypeAliasV, imports: Seq<ImportV>, pl: bool) -> Seq<char> {
    f.alias + " : "@ + ref_display(display_type(f.ty, imports), pl) + "\n"@
}

/// The lines of a field or argument list, in order.
pub open spec fn field_lines(fs: Seq<TypeAliasV>, imports: Seq<ImportV>, pl: bool) -> Seq<char>
    decreases fs.len(),
{
    if fs.len() == 0 {
        Seq::empty()
    } else {
        field_line(fs[0], imports, pl) + field_lines(fs.subrange(1, fs.len() as int), imports, pl)
    }
}

/// One bracketed cross-reference line.
pub open spec fn bracket_line(name: Seq<char>) -> Seq<char> {
    "[["@ + name + "]]\n"@
}

/// The bracketed lines of a name list, in order.
pub open spec fn bracket_lines(names: Seq<Seq<char>>) -> Seq<char>
    decreases names.len(),
{
    if names.len() == 0 {
        Seq::empty()
    } else {
        bracket_line(names[0]) + bracket_lines(names.subrange(1, names.len() as int))
    }
}

/// One bracketed cross-reference line per method, in map order.
pub open spec fn method_ref_lines(ms: Seq<FunctionV>) -> Seq<char>
    decreases ms.len(),
{
    if ms.len() == 0 {
        Seq::empty()
    } else {
        bracket_line(ms[0].name) + method_ref_lines(ms.subrange(1, ms.len() as int))
    }
}

/// The note of one function or method: a header line and one line per
/// argument.
pub open spec fn function_note(f: FunctionV, imports: Seq<ImportV>, pl: bool) -> NoteV {
    NoteV {
        filename: f.name + ".md"@,
        content: "# Function "@ + f.name + "\n"@ + field_lines(f.args, imports, pl),
    }
}

/// The notes of a method map, in order.
pub open spec fn function_notes(ms: Seq<FunctionV>, imports: Seq<ImportV>, pl: bool) -> Seq<NoteV> {
    ms.map_values(|f: FunctionV| function_note(f, imports, pl))
}

/// The note of one entity: a header line naming its kind and name, then
/// its lines.
pub open spec fn entity_note(e: EntityV, imports: Seq<ImportV>, pl: bool) -> NoteV {
    match e {
        EntityV::Structure(s) => NoteV {
            filename: s.name + ".md"@,
            content: "# Struct "@ + s.name + "\n"@ + field_lines(s.fields, imports, pl)
                + method_ref_lines(s.methods),
        },
        EntityV::Enumeration(n) => NoteV {
            filename: n.name + ".md"@,
            content: "# Enum "@ + n.name + "\n"@ + bracket_lines(n.variants),
        },
        EntityV::TraitDef(t) => NoteV {
            filename: t.name + ".md"@,
            content: "# Trait "@ + t.name + "\n"@ + method_ref_lines(t.functions),
        },
        EntityV::Func(f) => function_note(f, imports, pl),
        EntityV::Const(c) => NoteV {
            filename: c.name + ".md"@,
            content: "# Constant "@ + c.name + "\n"@ + field_line(
                TypeAliasV { alias: c.name, ty: c.ty },
                imports,
                pl,
            ) + "value : "@ + c.value + "\n"@,
        },
        EntityV::MacroInv(m) => NoteV {
            filename: m.name + ".md"@,
            content: "# Macro "@ + m.name + "\n"@,
        },
        EntityV::Alias(a) => NoteV {
            filename: a.alias + ".md"@,
            content: "# TypeAlias "@ + a.alias + "\n"@ + field_line(a, imports, pl),
        },
    }
}

/// The notes one entity contributes: its own, then one per method for a
/// structure or a trait.
pub open spec fn notes_of_entity(e: EntityV, imports: Seq<ImportV>, pl: bool) -> Seq<NoteV> {
    seq![entity_note(e, imports, pl)] + (match e {
        EntityV::Structure(s) => function_notes(s.methods, imports, pl),
        EntityV::TraitDef(t) => function_notes(t.functions, imports, pl),
        _ => Seq::empty(),
    })
}

/// The notes of an entity map, in order.
pub open spec fn notes_of_entities(es: Seq<EntityV>, imports: Seq<ImportV>, pl: bool) -> Seq<NoteV>
    decreases es.len(),
{
    if es.len() == 0 {
        Seq::empty()
    } else {
        notes_of_entity(es[0], imports, pl) + notes_of_entities(
            es.subrange(1, es.len() as int),
            imports,
            pl,
        )
    }
}

/// The notes of a module: its own entities first, under its own import
/// alias map, then its submodules' notes in order.
pub open spec fn notes_of_module(m: ModuleV, pl: bool) -> Seq<NoteV>
    decreases m, 1int,
{
    notes_of_entities(m.entities, m.imports, pl) + notes_of_modules(m.submodules, pl)
}

pub open spec fn notes_of_modules(ms: Seq<ModuleV>, pl: bool) -> Seq<NoteV>
    decreases ms, 2int,
{
    if ms.len() == 0 {
        Seq::empty()
    } else {
        notes_of_module(ms[0], pl) + notes_of_modules(ms.subrange(1, ms.len() as int), pl)
    }
}

/// Everything one pass renders for a module tree, in write order: a later
/// note under the same file name overwrites an earlier one.
pub open spec fn spec_render(m: ModuleV, pl: bool) -> Seq<NoteV> {
    notes_of_module(m, pl)
}

/// Appends the lines of a field or argument list.
fn push_field_lines(out: &mut String, fs: &Vec<TypeAlias>, imports: &Vec<Import>, pl: bool)
    ensures
        final(out)@ == old(out)@ + field_lines(fs.deep_view(), imports.deep_view(), pl),
{
    let ghost fv = fs.deep_view();
    let ghost out0 = old(out)@;
    proof {
        assert(fv.subrange(0, fv.len() as int) =~= fv);
    }
    let mut i: usize = 0;
    while i < fs.len()
        invariant
            i <= fs.len(),
            fv == fs.deep_view(),
            fv.len() == fs.len(),
            out@ + field_lines(fv.subrange(i as int, fv.len() as int), imports.deep_view(), pl)
                == out0 + field_lines(fv, imports.deep_view(), pl),
        decreases fs.len() - i,
    {
        let ghost pre = out@;
        let ghost rem = fv.subrange(i as int, fv.len() as int);
        proof {
            assert(fv[i as int] == fs@[i as int]@);
            assert(rem[0] == fv[i as int]);
            assert(rem.subrange(1, rem.len() as int) =~= fv.subrange(i as int + 1, fv.len() as int));
        }
        let f = &fs[i];
        out.append(f.alias.as_str());
        out.append(" : ");
        let d = resolve_type(&f.ty, imports);
        if !pl && crate::strutil::primitive_name(d.as_str()) {
            out.append(d.as_str());
        } else {
            out.append("[[");
            out.append(d.as_str());
            out.append("]]");
        }
        out.append("\n");
        proof {
            assert(out@ =~= pre + field_line(fv[i as int], imports.deep_view(), pl));
            assert(pre + field_line(fv[i as int], imports.deep_view(), pl) + field_lines(
                fv.subrange(i as int + 1, fv.len() as int),
                imports.deep_view(),
                pl,
            ) =~= pre + field_lines(rem, imports.deep_view(), pl));
        }
        i = i + 1;
    }
    proof {
        assert(fv.subrange(fs.len() as int, fv.len() as int) =~= Seq::<TypeAliasV>::empty());
        assert(field_lines(Seq::<TypeAliasV>::empty(), imports.deep_view(), pl)
            == Seq::<char>::empty());
        assert(out@ + Seq::<char>::empty() =~= out@);
    }
}

/// Appends one bracketed cross-reference line per name.
fn push_bracket_lines(out: &mut String, names: &Vec<String>)
    ensures
        final(out)@ == old(out)@ + bracket_lines(names.deep_view()),
{
    let ghost nv = names.deep_view();
    let ghost out0 = old(out)@;
    proof {
        assert(nv.subrange(0, nv.len() as int) =~= nv);
    }
    let mut i: usize = 0;
    while i < names.len()
        invariant
            i <= names.len(),
            nv == names.deep_view(),
            nv.len() == names.len(),
            out@ + bracket_lines(nv.subrange(i as int, nv.len() as int)) == out0 + bracket_lines(
                nv,
            ),
        decreases names.len() - i,
    {
        let ghost pre = out@;
        let ghost rem = nv.subrange(i as int, nv.len() as int);
        proof {
            assert(nv[i as int] == names@[i as int]@);
            assert(rem[0] == nv[i as int]);
            assert(rem.subrange(1, rem.len() as int) =~= nv.subrange(i as int + 1, nv.len() as int));
        }
        out.append("[[");
        out.append(names[i].as_str());
        out.append("]]\n");
        proof {
            assert(out@ =~= pre + bracket_line(nv[i as int]));
            assert(pre + bracket_line(nv[i as int]) + bracket_lines(
                nv.subrange(i as int + 1, nv.len() as int),
            ) =~= pre + bracket_lines(rem));
        }
        i = i + 1;
    }
    proof {
        assert(nv.subrange(names.len() as int, nv.len() as int) =~= Seq::<Seq<char>>::empty());
        assert(out@ + Seq::<char>::empty() =~= out@);
    }
}

/// Appends one bracketed cross-reference line per method name.
fn push_method_ref_lines(out: &mut String, ms: &Vec<Function>)
    ensures
        final(out)@ == old(out)@ + method_ref_lines(ms.deep_view()),
{
    let ghost mv = ms.deep_view();
    let ghost out0 = old(out)@;
    proof {
        assert(mv.subrange(0, mv.len() as int) =~= mv);
    }
    let mut i: usize = 0;
    while i < ms.len()
        invariant
            i <= ms.len(),
            mv == ms.deep_view(),
            mv.len() == ms.len(),
            out@ + method_ref_lines(mv.subrange(i as int, mv.len() as int)) == out0
                + method_ref_lines(mv),
        decreases ms.len() - i,
    {
        let ghost pre = out@;
        let ghost rem = mv.subrange(i as int, mv.len() as int);
        proof {
            assert(mv[i as int] == ms@[i as int]@);
            assert(rem[0] == mv[i as int]);
            assert(rem.subrange(1, rem.len() as int) =~= mv.subrange(i as int + 1, mv.len() as int));
        }
        out.append("[[");
        out.append(ms[i].name.as_str());
        out.append("]]\n");
        proof {
            assert(out@ =~= pre + bracket_line(mv[i as int].name));
            assert(pre + bracket_line(mv[i as int].name) + method_ref_lines(
                mv.subrange(i as int + 1, mv.len() as int),
            ) =~= pre + method_ref_lines(rem));
        }
        i = i + 1;
    }
    proof {
        assert(mv.subrange(ms.len() as int, mv.len() as int) =~= Seq::<FunctionV>::empty());
        assert(out@ + Seq::<char>::empty() =~= out@);
    }
}

/// The note of one function or method.
fn make_function_note(f: &Function, imports: &Vec<Import>, pl: bool) -> (note: Note)
    ensures
        note@ == function_note(f@, imports.deep_view(), pl),
{
    let mut filename = f.name.clone();
    filename.append(".md");
    let mut content = String::new();
    content.append("# Function ");
    content.append(f.name.as_str());
    content.append("\n");
    push_field_lines(&mut content, &f.args, imports, pl);
    proof {
        assert(content@ =~= "# Function "@ + f.name@ + "\n"@ + field_lines(
            f.args.deep_view(),
            imports.deep_view(),
            pl,
        ));
    }
    Note { filename, content }
}

/// Appends the notes one entity contributes: its own, then one per method
/// for a structure or a trait.
fn push_entity_notes(e: &Entity, imports: &Vec<Import>, pl: bool, notes: &mut Vec<Note>)
    ensures
        final(notes).deep_view() == old(notes).deep_view() + notes_of_entity(
            e@,
            imports.deep_view(),
            pl,
        ),
{
    let ghost n0 = notes.deep_view();
    match e {
        Entity::Structure(s) => {
            let mut filename = s.name.clone();
            filename.append(".md");
            let mut content = String::new();
            content.append("# Struct ");
            content.append(s.name.as_str());
            content.append("\n");
            push_field_lines(&mut content, &s.fields, imports, pl);
            push_method_ref_lines(&mut content, &s.methods);
            proof {
                assert(content@ =~= "# Struct "@ + s.name@ + "\n"@ + field_lines(
                    s.fields.deep_view(),
                    imports.deep_view(),
                    pl,
                ) + method_ref_lines(s.methods.deep_view()));
            }
            notes.push(Note { filename, content });
            let ghost mv = s.methods.deep_view();
            let ghost n1 = notes.deep_view();
            proof {
                assert(n1 =~= n0.push(entity_note(e@, imports.deep_view(), pl)));
            }
            let mut i: usize = 0;
            while i < s.methods.len()
                invariant
                    i <= s.methods.len(),
                    mv == s.methods.deep_view(),
                    mv.len() == s.methods.len(),
                    notes.deep_view() =~= n1 + function_notes(mv, imports.deep_view(), pl).take(
                        i as int,
                    ),
                decreases s.methods.len() - i,
            {
                let ghost pre = notes.deep_view();
                let fnote = make_function_note(&s.methods[i], imports, pl);
                notes.push(fnote);
                proof {
                    assert(mv[i as int] == s.methods@[i as int]@);
                    assert(function_notes(mv, imports.deep_view(), pl)[i as int] == function_note(
                        mv[i as int],
                        imports.deep_view(),
                        pl,
                    ));
                    assert(notes.deep_view() =~= pre.push(fnote@));
                    assert(n1 + function_notes(mv, imports.deep_view(), pl).take(i as int + 1) =~= (
                    n1 + function_notes(mv, imports.deep_view(), pl).take(i as int)).push(
                        function_note(mv[i as int], imports.deep_view(), pl),
                    ));
                }
                i = i + 1;
            }
            proof {
                assert(function_notes(mv, imports.deep_view(), pl).take(s.methods.len() as int)
                    =~= function_notes(mv, imports.deep_view(), pl));
                assert(notes.deep_view() =~= n0 + notes_of_entity(e@, imports.deep_view(), pl));
            }
        },
        Entity::Enumeration(n) => {
            let mut filename = n.name.clone();
            filename.append(".md");
            let mut content = String::new();
            content.append("# Enum ");
            content.append(n.name.as_str());
            content.append("\n");
            push_bracket_lines(&mut content, &n.variants);
            proof {
                assert(content@ =~= "# Enum "@ + n.name@ + "\n"@ + bracket_lines(
                    n.variants.deep_view(),
                ));
            }
            notes.push(Note { filename, content });
            proof {
                assert(notes.deep_view() =~= n0 + notes_of_entity(e@, imports.deep_view(), pl));
            }
        },
        Entity::TraitDef(t) => {
            let mut filename = t.name.clone();
            filename.append(".md");
            let mut content = String::new();
            content.append("# Trait ");
            content.append(t.name.as_str());
            content.append("\n");
            push_method_ref_lines(&mut content, &t.functions);
            proof {
                assert(content@ =~= "# Trait "@ + t.name@ + "\n"@ + method_ref_lines(
                    t.functions.deep_view(),
                ));
            }
            notes.push(Note { filename, content });
            let ghost mv = t.functions.deep_view();
            let ghost n1 = notes.deep_view();
            proof {
                assert(n1 =~= n0.push(entity_note(e@, imports.deep_view(), pl)));
            }
            let mut i: usize = 0;
            while i < t.functions.len()
                invariant
                    i <= t.functions.len(),
                    mv == t.functions.deep_view(),
                    mv.len() == t.functions.len(),
                    notes.deep_view() =~= n1 + function_notes(mv, imports.deep_view(), pl).take(
                        i as int,
                    ),
                decreases t.functions.len() - i,
            {
                let ghost pre = notes.deep_view();
                let fnote = make_function_note(&t.functions[i], imports, pl);
                notes.push(fnote);
                proof {
                    assert(mv[i as int] == t.functions@[i as int]@);
                    assert(function_notes(mv, imports.deep_view(), pl)[i as int] == function_note(
                        mv[i as int],
                        imports.deep_view(),
                        pl,
                    ));
                    assert(notes.deep_view() =~= pre.push(fnote@));
                    assert(n1 + function_notes(mv, imports.deep_view(), pl).take(i as int + 1) =~= (
                    n1 + function_notes(mv, imports.deep_view(), pl).take(i as int)).push(
                        function_note(mv[i as int], imports.deep_view(), pl),
                    ));
                }
                i = i + 1;
            }
            proof {
                assert(function_notes(mv, imports.deep_view(), pl).take(t.functions.len() as int)
                    =~= function_notes(mv, imports.deep_view(), pl));
                assert(notes.deep_view() =~= n0 + notes_of_entity(e@, imports.deep_view(), pl));
            }
        },
        Entity::Func(f) => {
            let fnote = make_function_note(f, imports, pl);
            notes.push(fnote);
            proof {
                assert(notes.deep_view() =~= n0 + notes_of_entity(e@, imports.deep_view(), pl));
            }
        },
        Entity::Const(c) => {
            let mut filename = c.name.clone();
            filename.append(".md");
            let mut content = String::new();
            content.append("# Constant ");
            content.append(c.name.as_str());
            content.append("\n");
            content.append(c.name.as_str());
            content.append(" : ");
            let d = resolve_type(&c.ty, imports);
            if !pl && crate::strutil::primitive_name(d.as_str()) {
                content.append(d.as_str());
            } else {
                content.append("[[");
                content.append(d.as_str());
                content.append("]]");
            }
            content.append("\n");
            content.append("value : ");
            content.append(c.value.as_str());
            content.append("\n");
            proof {
                assert(content@ =~= "# Constant "@ + c.name@ + "\n"@ + field_line(
                    TypeAliasV { alias: c.name@, ty: c.ty@ },
                    imports.deep_view(),
                    pl,
                ) + "value : "@ + c.value@ + "\n"@);
            }
            notes.push(Note { filename, content });
            proof {
                assert(notes.deep_view() =~= n0 + notes_of_entity(e@, imports.deep_view(), pl));
            }
        },
        Entity::MacroInv(m) => {
            let mut filename = m.name.clone();
            filename.append(".md");
            let mut content = String::new();
            content.append("# Macro ");
            content.append(m.name.as_str());
            content.append("\n");
            proof {
                assert(content@ =~= "# Macro "@ + m.name@ + "\n"@);
            }
            notes.push(Note { filename, content });
            proof {
                assert(notes.deep_view() =~= n0 + notes_of_entity(e@, imports.deep_view(), pl));
            }
        },
        Entity::Alias(a) => {
            let mut filename = a.alias.clone();
            filename.append(".md");
            let mut content = String::new();
            content.append("# TypeAlias ");
            content.append(a.alias.as_str());
            content.append("\n");
            content.append(a.alias.as_str());
            content.append(" : ");
            let d = resolve_type(&a.ty, imports);
            if !pl && crate::strutil::primitive_name(d.as_str()) {
                content.append(d.as_str());
            } else {
                content.append("[[");
                content.append(d.as_str());
                content.append("]]");
            }
            content.append("\n");
            proof {
                assert(content@ =~= "# TypeAlias "@ + a.alias@ + "\n"@ + field_line(
                    a@,
                    imports.deep_view(),
                    pl,
                ));
            }
            notes.push(Note { filename, content });
            proof {
                assert(notes.deep_view() =~= n0 + notes_of_entity(e@, imports.deep_view(), pl));
            }
        },
    }
}

/// Appends every note of a module: its entities, then its submodules.
fn push_module_notes(m: &Module, pl: bool, notes: &mut Vec<Note>)
    ensures
        final(notes).deep_view() == old(notes).deep_view() + notes_of_module(module_view(*m), pl),
    decreases module_view(*m), 0int,
{
    let ghost n0 = notes.deep_view();
    let ghost ev = m.entities.deep_view();
    proof {
        assert(ev.subrange(0, ev.len() as int) =~= ev);
    }
    let mut i: usize = 0;
    while i < m.entities.len()
        invariant
            i <= m.entities.len(),
            ev == m.entities.deep_view(),
            ev.len() == m.entities.len(),
            notes.deep_view() + notes_of_entities(
                ev.subrange(i as int, ev.len() as int),
                m.imports.deep_view(),
                pl,
            ) == n0 + notes_of_entities(ev, m.imports.deep_view(), pl),
        decreases m.entities.len() - i,
    {
        let ghost pre = notes.deep_view();
        let ghost rem = ev.subrange(i as int, ev.len() as int);
        proof {
            assert(ev[i as int] == m.entities@[i as int]@);
            assert(rem[0] == ev[i as int]);
            assert(rem.subrange(1, rem.len() as int) =~= ev.subrange(i as int + 1, ev.len() as int));
        }
        push_entity_notes(&m.entities[i], &m.imports, pl, notes);
        proof {
            assert(pre + notes_of_entity(ev[i as int], m.imports.deep_view(), pl)
                + notes_of_entities(
                ev.subrange(i as int + 1, ev.len() as int),
                m.imports.deep_view(),
                pl,
            ) =~= pre + notes_of_entities(rem, m.imports.deep_view(), pl));
        }
        i = i + 1;
    }
    proof {
        assert(ev.subrange(m.entities.len() as int, ev.len() as int) =~= Seq::<EntityV>::empty());
        assert(notes.deep_view() + Seq::<NoteV>::empty() =~= notes.deep_view());
        assert(notes.deep_view() =~= n0 + notes_of_entities(ev, m.imports.deep_view(), pl));
    }
    let ghost n1 = notes.deep_view();
    let ghost smv = modules_view(m.submodules@);
    proof {
        lemma_modules_view(m.submodules@);
        assert(smv.subrange(0, smv.len() as int) =~= smv);
        assert(module_view(*m).submodules == smv);
        assert(decreases_to!(module_view(*m) => module_view(*m).submodules));
        assert forall|x: int| 0 <= x < m.submodules.len() implies decreases_to!(
            module_view(*m) => module_view(m.submodules@[x])) by {
            assert(decreases_to!(smv => smv[x]));
            assert(smv[x] == module_view(m.submodules@[x]));
        }
    }
    let mut j: usize = 0;
    while j < m.submodules.len()
        invariant
            j <= m.submodules.len(),
            smv == modules_view(m.submodules@),
            smv.len() == m.submodules.len(),
            forall|x: int| 0 <= x < m.submodules.len() ==> #[trigger] smv[x] == module_view(
                m.submodules@[x],
            ),
            notes.deep_view() + notes_of_modules(smv.subrange(j as int, smv.len() as int), pl) == n1
                + notes_of_modules(smv, pl),
            forall|x: int| 0 <= x < m.submodules.len() ==> decreases_to!(
                module_view(*m) => module_view(m.submodules@[x])),
        decreases m.submodules.len() - j,
    {
        let ghost pre = notes.deep_view();
        let ghost rem = smv.subrange(j as int, smv.len() as int);
        proof {
            assert(rem[0] == smv[j as int]);
            assert(rem.subrange(1, rem.len() as int) =~= smv.subrange(
                j as int + 1,
                smv.len() as int,
            ));
        }
        push_module_notes(&m.submodules[j], pl, notes);
        proof {
            assert(pre + notes_of_module(smv[j as int], pl) + notes_of_modules(
                smv.subrange(j as int + 1, smv.len() as int),
                pl,
            ) =~= pre + notes_of_modules(rem, pl));
        }
        j = j + 1;
    }
    proof {
        assert(smv.subrange(m.submodules.len() as int, smv.len() as int)
            =~= Seq::<ModuleV>::empty());
        assert(notes.deep_view() + Seq::<NoteV>::empty() =~= notes.deep_view());
        assert(notes.deep_view() =~= n0 + notes_of_module(module_view(*m), pl));
    }
}

/// One full rendering pass over an owned module tree: every note, in write
/// order. The tree is consumed; nothing of the model outlives the pass.
pub fn render(module: Module, options: &RenderOptions) -> (notes: Vec<Note>)
    ensures
        notes.deep_view() == spec_render(module@, options.primitive_linking),
{
    let mut notes: Vec<Note> = Vec::new();
    proof {
        assert(notes.deep_view() =~= Seq::<NoteV>::empty());
    }
    push_module_notes(&module, options.primitive_linking, &mut notes);
    proof {
        assert(Seq::<NoteV>::empty() + spec_render(module@, options.primitive_linking)
            =~= spec_render(module@, options.primitive_linking));
    }
    notes
}

} // verus!
