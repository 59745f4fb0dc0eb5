//! An extension as its manifest describes it.
use vstd::prelude::*;

use crate::paths::{append_path, appended};
use crate::security::Constraints;

verus! {

/// An extension package: its metadata, the entry module and its security
/// policy.
pub struct Extension {
    pub name: String,
    pub version: String,
    pub description: String,
    pub author: String,
    /// The entry module; relative to the extension's root in a manifest.
    pub main: String,
    pub security: Constraints,
}

impl Extension {
    /// The extension rooted at `path`, from its parsed manifest: the entry
    /// module is appended to the root as written.
    pub fn from_manifest(path: &str, manifest: Extension) -> (r: Extension)
        ensures
            r.main@ == appended(path@, manifest.main@),
            r.name == manifest.name,
            r.version == manifest.version,
            r.description == manifest.description,
            r.author == manifest.author,
            r.security == manifest.security,
    {
        let Extension { name, version, description, author, main, security } = manifest;
        let main = append_path(path, main.as_str());
        Extension { name, version, description, author, main, security }
    }

    /// The extension's entry module.
    pub fn main(&self) -> (r: &String)
        ensures
            r == &self.main,
    {
        &self.main
    }

    pub fn security(&self) -> (r: &Constraints)
        ensures
            r == &self.security,
    {
        &self.security
    }
}

} // verus!
