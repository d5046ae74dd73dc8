//! Builds cross-linked documentation notes from a tree of parsed source
//! files: it resolves which file backs each declared submodule, tracks
//! import aliases per module scope, binds out-of-line method blocks to the
//! types they extend, turns structured type expressions into canonical
//! display strings, and renders one markdown note per entity.
pub mod ast;
pub mod format;
pub mod laws;
pub mod parser;
pub mod project;
pub mod strutil;
pub mod typename;

use parser::{
    lemma_modules_view, spec_parse_file, submodule_upsert, File, Module, ModuleV, ParseError,
    SourceTree, Warning,
};
use vstd::prelude::*;

verus! {

/// One full parse of a source tree, from the entry file at `folder` with
/// stem `entry_stem`: the module tree it declares and the warnings of the
/// pass, or the first fatal error.
pub fn parse(tree: &SourceTree, folder: Vec<String>, entry_stem: String) -> (r: Result<
    (Module, Vec<Warning>),
    ParseError,
>)
    ensures
        ({
            let sr = spec_parse_file(tree@, folder.deep_view(), entry_stem@, tree@.files.len());
            match sr {
                Ok(p) => (match r {
                    Ok(pair) => pair.0@ == p.0 && pair.1.deep_view() == p.1,
                    Err(_) => false,
                }),
                Err(e) => parser::is_err(r, e),
            }
        }),
{
    let mut file = File::new(entry_stem, folder);
    match file.parse(tree) {
        Err(e) => Err(e),
        Ok(warnings) => {
            proof {
                assert(submodule_upsert(Seq::<ModuleV>::empty(), file@.modules[0]).len() == 1);
                lemma_modules_view(file.modules@);
            }
            match file.modules.pop() {
                Some(m) => Ok((m, warnings)),
                None => {
                    proof {
                        assert(false);
                    }
                    Err(ParseError::FileMissing)
                },
            }
        },
    }
}

} // verus!
