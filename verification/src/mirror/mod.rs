//! Locating the source of a struct to mirror: which file of which crate checkout holds it.
//! The directory walk and the reading of files happen around this logic, which decides.
use vstd::prelude::*;

pub mod args;
pub mod cargo_files;
pub mod expand;
pub mod hit_list;
pub mod paths;
pub mod resolve;
pub mod roots;
pub mod source_file;
pub mod source_hits;

verus! {

/// The crate package that a mirrored path should come from, as `Cargo.toml` and
/// `Cargo.lock` describe it.
pub struct PreferredPackage {
    pub name: String,
    pub version: Option<String>,
    pub source: Option<String>,
}

/// The text of an optional string.
pub open spec fn opt_text(s: Option<String>) -> Option<Seq<char>> {
    match s {
        Some(x) => Some(x@),
        None => None,
    }
}

/// The mathematical form of a preferred package: name, version, source.
pub type PackageView = (Seq<char>, Option<Seq<char>>, Option<Seq<char>>);

impl PreferredPackage {
    pub open spec fn view_package(&self) -> PackageView {
        (self.name@, opt_text(self.version), opt_text(self.source))
    }
}

} // verus!
