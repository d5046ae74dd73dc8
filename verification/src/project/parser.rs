//! Collects the fully qualified paths of a project's items. The caller
//! walks the files; this parser keeps the current module path, resolves
//! each local name against it, and records the resolved path once.
//! Qualified-path resolution strips a leading root-reference segment and
//! collapses every parent-reference segment against the segment before
//! it, left to right; a parent reference with nothing before it collapses
//! away alone.
use crate::ast::{dup_strings, UseTree};
use crate::parser::{import_upsert_all, use_entries, File, Import, ImportV, Module};
use crate::project::Project;
use crate::strutil::{join_segments, seq_join, str_eq};
use vstd::prelude::*;

verus! {

/// One recorded item: its fully qualified path.
pub struct RustItem {
    pub global_path: String,
}

impl View for RustItem {
    type V = Seq<char>;

    open spec fn view(&self) -> Seq<char> {
        self.global_path@
    }
}

impl DeepView for RustItem {
    type V = Seq<char>;

    open spec fn deep_view(&self) -> Seq<char> {
        self.view()
    }
}

/// The root-reference segment, denoting the module tree's logical root.
pub open spec fn root_segment() -> Seq<char> {
    "crate"@
}

/// The parent-reference segment, denoting one level up from here.
pub open spec fn parent_segment() -> Seq<char> {
    "super"@
}

/// Folds the segments onto an accumulator, left to right: a parent
/// reference drops the accumulator's last segment, or nothing when the
/// accumulator is empty; any other segment is kept.
pub open spec fn collapse_onto(acc: Seq<Seq<char>>, segs: Seq<Seq<char>>) -> Seq<Seq<char>>
    decreases segs.len(),
{
    if segs.len() == 0 {
        acc
    } else {
        let rest = segs.subrange(1, segs.len() as int);
        if segs[0] == parent_segment() {
            collapse_onto(
                if acc.len() == 0 {
                    acc
                } else {
                    acc.drop_last()
                },
                rest,
            )
        } else {
            collapse_onto(acc.push(segs[0]), rest)
        }
    }
}

/// The segments with a leading root reference stripped.
pub open spec fn strip_root(segs: Seq<Seq<char>>) -> Seq<Seq<char>> {
    if segs.len() > 0 && segs[0] == root_segment() {
        segs.subrange(1, segs.len() as int)
    } else {
        segs
    }
}

/// The resolved form of a qualified path: leading root reference
/// stripped, parent references collapsed, and the remaining segments
/// joined by the path separator.
pub open spec fn resolve_segments(segs: Seq<Seq<char>>) -> Seq<char> {
    seq_join(collapse_onto(Seq::empty(), strip_root(segs)), "::"@)
}

/// The first index of `p` in the recorded paths, or -1.
pub open spec fn path_index(s: Seq<Seq<char>>, p: Seq<char>) -> int
    decreases s.len(),
{
    if s.len() == 0 {
        -1
    } else if s[0] == p {
        0
    } else {
        let r = path_index(s.subrange(1, s.len() as int), p);
        if r < 0 {
            -1
        } else {
            r + 1
        }
    }
}

/// The recorded paths after recording `p`: unchanged when `p` is already
/// there, else `p` appended.
pub open spec fn record_path(s: Seq<Seq<char>>, p: Seq<char>) -> Seq<Seq<char>> {
    if path_index(s, p) >= 0 {
        s
    } else {
        s.push(p)
    }
}

/// As the other index lemmas: `path_index` finds the first occurrence.
pub proof fn lemma_path_index(s: Seq<Seq<char>>, p: Seq<char>)
    ensures
        -1 <= path_index(s, p) < s.len(),
        path_index(s, p) >= 0 ==> s[path_index(s, p)] == p,
        forall|j: int| 0 <= j < path_index(s, p) ==> #[trigger] s[j] != p,
        path_index(s, p) == -1 ==> forall|j: int| 0 <= j < s.len() ==> #[trigger] s[j] != p,
    decreases s.len(),
{
    if s.len() > 0 {
        let sub = s.subrange(1, s.len() as int);
        lemma_path_index(sub, p);
        assert(forall|j: int| 1 <= j < s.len() ==> #[trigger] s[j] == sub[j - 1]);
    }
}

/// Walks a project's files, keyed off an externally driven traversal:
/// the recorded item set, the current module path, and the import
/// aliases of the module being walked.
pub struct Parser {
    pub project: Project,
    pub project_items: Vec<RustItem>,
    pub current_module_path: Vec<String>,
    pub current_imports: Vec<Import>,
}

impl Parser {
    /// A parser over the given project, with nothing recorded yet.
    pub fn new(project: Project) -> (p: Parser)
        ensures
            p.project == project,
            p.project_items.deep_view() == Seq::<Seq<char>>::empty(),
            p.current_module_path@ == Seq::<String>::empty(),
            p.current_imports.deep_view() == Seq::<ImportV>::empty(),
    {
        let p = Parser {
            project,
            project_items: Vec::new(),
            current_module_path: Vec::new(),
            current_imports: Vec::new(),
        };
        proof {
            assert(p.project_items.deep_view() =~= Seq::<Seq<char>>::empty());
            assert(p.current_imports.deep_view() =~= Seq::<ImportV>::empty());
        }
        p
    }

    /// Resolves a local path against the current module path: the module
    /// path and the local segments are joined, a leading root reference
    /// is stripped, and parent references collapse left to right.
    pub fn resolve_path(&self, local_path: &Vec<String>) -> (r: String)
        ensures
            r@ == resolve_segments(
                self.current_module_path.deep_view() + local_path.deep_view(),
            ),
    {
        let mut all = dup_strings(&self.current_module_path);
        let mut i: usize = 0;
        while i < local_path.len()
            invariant
                i <= local_path.len(),
                all@ =~= self.current_module_path@ + local_path@.take(i as int),
            decreases local_path.len() - i,
        {
            all.push(local_path[i].clone());
            proof {
                assert(self.current_module_path@ + local_path@.take(i as int + 1)
                    =~= (self.current_module_path@ + local_path@.take(i as int)).push(
                    local_path@[i as int],
                ));
            }
            i = i + 1;
        }
        proof {
            assert(local_path@.take(local_path.len() as int) =~= local_path@);
            assert(all.deep_view() =~= self.current_module_path.deep_view()
                + local_path.deep_view());
        }
        let ghost allv = all.deep_view();
        let start: usize = if all.len() > 0 && str_eq(all[0].as_str(), "crate") {
            1
        } else {
            0
        };
        proof {
            if all@.len() > 0 {
                assert(allv[0] == all@[0]@);
            }
            assert(strip_root(allv) =~= allv.subrange(start as int, allv.len() as int));
        }
        let ghost stripped = strip_root(allv);
        let mut stack: Vec<String> = Vec::new();
        proof {
            assert(stack.deep_view() =~= Seq::<Seq<char>>::empty());
            assert(stripped.subrange(0, stripped.len() as int) =~= stripped);
        }
        let mut j: usize = start;
        while j < all.len()
            invariant
                start <= j <= all.len(),
                allv == all.deep_view(),
                allv.len() == all.len(),
                stripped == strip_root(allv),
                stripped =~= allv.subrange(start as int, allv.len() as int),
                collapse_onto(Seq::empty(), stripped) == collapse_onto(
                    stack.deep_view(),
                    allv.subrange(j as int, allv.len() as int),
                ),
            decreases all.len() - j,
        {
            let ghost rem = allv.subrange(j as int, allv.len() as int);
            proof {
                assert(rem[0] == allv[j as int]);
                assert(allv[j as int] == all@[j as int]@);
                assert(rem.subrange(1, rem.len() as int) =~= allv.subrange(
                    j as int + 1,
                    allv.len() as int,
                ));
            }
            if str_eq(all[j].as_str(), "super") {
                let ghost st0 = stack.deep_view();
                if stack.len() > 0 {
                    stack.pop();
                    proof {
                        assert(stack.deep_view() =~= st0.drop_last());
                    }
                }
            } else {
                let ghost st0 = stack.deep_view();
                stack.push(all[j].clone());
                proof {
                    assert(stack.deep_view() =~= st0.push(allv[j as int]));
                }
            }
            j = j + 1;
        }
        proof {
            assert(allv.subrange(all.len() as int, allv.len() as int)
                =~= Seq::<Seq<char>>::empty());
            assert(collapse_onto(stack.deep_view(), Seq::<Seq<char>>::empty())
                == stack.deep_view());
        }
        join_segments(&stack, "::")
    }

    /// Records the resolved path of a local name declared in the current
    /// module, once: a path already recorded stays as it is. A traversal
    /// records structures, functions, type aliases and enumerations this
    /// way.
    pub fn record_item(&mut self, local_path: &Vec<String>)
        ensures
            final(self).project_items.deep_view() == record_path(
                old(self).project_items.deep_view(),
                resolve_segments(
                    old(self).current_module_path.deep_view() + local_path.deep_view(),
                ),
            ),
            final(self).project == old(self).project,
            final(self).current_module_path == old(self).current_module_path,
            final(self).current_imports == old(self).current_imports,
    {
        let path = self.resolve_path(local_path);
        let ghost s0 = self.project_items.deep_view();
        proof {
            lemma_path_index(s0, path@);
        }
        let mut i: usize = 0;
        while i < self.project_items.len()
            invariant
                i <= self.project_items.len(),
                s0 == self.project_items.deep_view(),
                s0.len() == self.project_items.len(),
                forall|j: int| 0 <= j < i ==> #[trigger] s0[j] != path@,
                path@ == resolve_segments(
                    old(self).current_module_path.deep_view() + local_path.deep_view(),
                ),
                self == old(self),
            decreases self.project_items.len() - i,
        {
            if str_eq(self.project_items[i].global_path.as_str(), path.as_str()) {
                proof {
                    assert(s0[i as int] == self.project_items@[i as int]@);
                    lemma_path_index(s0, path@);
                }
                return ;
            }
            i = i + 1;
        }
        self.project_items.push(RustItem { global_path: path });
        proof {
            assert(self.project_items.deep_view() =~= s0.push(
                resolve_segments(
                    old(self).current_module_path.deep_view() + local_path.deep_view(),
                ),
            ));
        }
    }

    /// Enters a declared submodule: its name goes onto the current module
    /// path.
    pub fn enter_module(&mut self, name: String)
        ensures
            final(self).current_module_path@ == old(self).current_module_path@.push(name),
            final(self).project == old(self).project,
            final(self).project_items == old(self).project_items,
            final(self).current_imports == old(self).current_imports,
    {
        self.current_module_path.push(name);
    }

    /// Leaves the submodule entered last: its name comes off the current
    /// module path, and the import aliases accumulated inside it are
    /// discarded, never leaking into the enclosing module.
    pub fn exit_module(&mut self)
        requires
            old(self).current_module_path@.len() > 0,
        ensures
            final(self).current_module_path@ == old(self).current_module_path@.drop_last(),
            final(self).current_imports.deep_view() == Seq::<ImportV>::empty(),
            final(self).project == old(self).project,
            final(self).project_items == old(self).project_items,
    {
        self.current_module_path.pop();
        self.current_imports.clear();
        proof {
            assert(self.current_imports.deep_view() =~= Seq::<ImportV>::empty());
        }
    }

    /// Walks one import declaration into the current module's alias map.
    pub fn parse_use(&mut self, tree: &UseTree)
        ensures
            final(self).current_imports.deep_view() == import_upsert_all(
                old(self).current_imports.deep_view(),
                use_entries(tree@, Seq::empty()),
            ),
            final(self).project == old(self).project,
            final(self).project_items == old(self).project_items,
            final(self).current_module_path == old(self).current_module_path,
    {
        let mut tmp = Module::new(String::new());
        core::mem::swap(&mut tmp.imports, &mut self.current_imports);
        let mut prefix: Vec<String> = Vec::new();
        proof {
            assert(prefix.deep_view() =~= Seq::<Seq<char>>::empty());
        }
        File::parse_use_tree(tree, &mut prefix, &mut tmp);
        core::mem::swap(&mut tmp.imports, &mut self.current_imports);
    }
}

} // verus!
