//! The project being documented: its declared package name, read from the
//! manifest text, and the path of its source directory. Checking that the
//! directories exist on disk stays with the caller; this module only
//! extracts the name from the text it is handed.
pub mod parser;

use vstd::prelude::*;

verus! {

/// The package name a manifest text declares, if it parses as a manifest
/// and its package table carries a string name: what the `toml` crate
/// yields for the text. The result depends on the text alone.
pub uninterp spec fn manifest_package_name(s: Seq<char>) -> Option<Seq<char>>;

/// Relies on toml::from_str::<toml::Value>, toml::Value::get and
/// toml::Value::as_str: parsing manifest text and reading the string under
/// the package table's name key is a computation on the text alone.
#[verifier::external_body]
fn read_package_name(manifest: &str) -> (r: Option<String>)
    ensures
        match r {
            Some(n) => manifest_package_name(manifest@) == Some(n@),
            None => manifest_package_name(manifest@) is None,
        },
{
    let value: toml::Value = match toml::from_str(manifest) {
        Ok(v) => v,
        Err(_) => return None,
    };
    let name = value.get("package")?.get("name")?.as_str()?;
    Some(name.to_string())
}

/// Why a manifest text yields no project.
#[derive(Debug)]
pub enum ProjectError {
    /// The text does not parse as a manifest, or its package table
    /// carries no string name.
    PackageNameMissing,
}

/// A project: its package name and its source directory path.
pub struct Project {
    pub name: String,
    pub src: Vec<String>,
}

pub struct ProjectV {
    pub name: Seq<char>,
    pub src: Seq<Seq<char>>,
}

impl View for Project {
    type V = ProjectV;

    open spec fn view(&self) -> ProjectV {
        ProjectV { name: self.name@, src: self.src.deep_view() }
    }
}

impl Project {
    /// A project from its manifest text and source directory: succeeds
    /// exactly when the manifest declares a package name.
    pub fn new(manifest: &str, src: Vec<String>) -> (r: Result<Project, ProjectError>)
        ensures
            match manifest_package_name(manifest@) {
                Some(n) => (match r {
                    Ok(p) => p@ == (ProjectV { name: n, src: src.deep_view() }),
                    Err(_) => false,
                }),
                None => r == Err::<Project, ProjectError>(ProjectError::PackageNameMissing),
            },
    {
        match read_package_name(manifest) {
            Some(name) => Ok(Project { name, src }),
            None => Err(ProjectError::PackageNameMissing),
        }
    }
}

} // verus!
