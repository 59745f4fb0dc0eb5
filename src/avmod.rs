//! The decisions of the module loader: which provider loads a resolved file,
//! which native capabilities back internal modules, and where a bare package
//! name leads.
use vstd::prelude::*;

use crate::paths::{
    absolute, components, extension, extension_of, is_absolute, join_path, joined,
    normal_components, render, render_components,
};
use crate::resource::{is_script_extension, is_script_name, EntryKind, LoadError, Specifier};
use crate::store::AvModStore;
use crate::text::{same_text, strings_view};

verus! {

/// Loads modules of every kind; the providers below each handle one.
pub struct AvMod {}

/// Compiles script source and loads its static imports first.
pub struct AvModJS {}

/// Exposes a parsed data file as the single `default` export.
pub struct AvModJSON {}

/// Builds a synthetic module from a native capability object.
pub struct AvModInternal {}

/// How a resolved file is turned into a module.
#[derive(Clone, Copy, PartialEq, Eq, Structural, Debug)]
pub enum ModuleFormat {
    /// `.js` or `.mjs`: compiled as a script module.
    Script,
    /// `.json`: parsed and exposed as the `default` export.
    Data,
}

pub open spec fn json_extension() -> Seq<char> {
    seq!['j', 's', 'o', 'n']
}

/// The provider for a file with extension `ext`, if any.
pub open spec fn format_for(ext: Option<Seq<char>>) -> Option<ModuleFormat> {
    match ext {
        Some(e) => if is_script_extension(e) {
            Some(ModuleFormat::Script)
        } else if e == json_extension() {
            Some(ModuleFormat::Data)
        } else {
            None
        },
        None => None,
    }
}

fn is_json_name(e: &str) -> (r: bool)
    ensures
        r == (e@ == json_extension()),
{
    let n = e.unicode_len();
    let r = n == 4 && e.get_char(0) == 'j' && e.get_char(1) == 's' && e.get_char(2) == 'o'
        && e.get_char(3) == 'n';
    assert(r ==> e@ =~= json_extension());
    r
}

impl AvMod {
    /// The provider for the resolved file `path`, chosen by its extension.
    pub fn module_format(path: &str) -> (r: Result<ModuleFormat, LoadError>)
        ensures
            match format_for(extension(path@)) {
                Some(f) => r == Ok::<ModuleFormat, LoadError>(f),
                None => r matches Err(LoadError::UnsupportedFormat(e)) && e@ == match extension(
                    path@,
                ) {
                    Some(x) => x,
                    None => Seq::empty(),
                },
            },
    {
        match extension_of(path) {
            Some(e) => {
                if is_script_name(e.as_str()) {
                    Ok(ModuleFormat::Script)
                } else if is_json_name(e.as_str()) {
                    Ok(ModuleFormat::Data)
                } else {
                    Err(LoadError::UnsupportedFormat(e))
                }
            },
            None => Err(LoadError::UnsupportedFormat(String::new())),
        }
    }
}

/// The native capabilities that scripts can import as `@avdan/<name>`.
#[derive(Clone, Copy, PartialEq, Eq, Structural, Debug)]
pub enum InternalApi {
    Debug,
    Shell,
    Net,
}

pub open spec fn api_name(api: InternalApi) -> Seq<char> {
    match api {
        InternalApi::Debug => seq!['d', 'e', 'b', 'u', 'g'],
        InternalApi::Shell => seq!['s', 'h', 'e', 'l', 'l'],
        InternalApi::Net => seq!['n', 'e', 't'],
    }
}

/// The capability registered under `name`, if any.
pub open spec fn api_named(name: Seq<char>) -> Option<InternalApi> {
    if name == api_name(InternalApi::Debug) {
        Some(InternalApi::Debug)
    } else if name == api_name(InternalApi::Shell) {
        Some(InternalApi::Shell)
    } else if name == api_name(InternalApi::Net) {
        Some(InternalApi::Net)
    } else {
        None
    }
}

impl InternalApi {
    /// The name under which the capability is imported.
    pub fn name(&self) -> (r: String)
        ensures
            r@ == api_name(*self),
    {
        proof {
            reveal_strlit("debug");
            reveal_strlit("shell");
            reveal_strlit("net");
        }
        let r = match self {
            InternalApi::Debug => String::from_str("debug"),
            InternalApi::Shell => String::from_str("shell"),
            InternalApi::Net => String::from_str("net"),
        };
        assert(r@ =~= api_name(*self));
        r
    }
}

impl AvModInternal {
    /// The capability behind the internal module `name`.
    pub fn lookup(name: &str) -> (r: Result<InternalApi, LoadError>)
        ensures
            match api_named(name@) {
                Some(api) => r == Ok::<InternalApi, LoadError>(api),
                None => r matches Err(LoadError::UnknownInternal(n)) && n@ == name@,
            },
    {
        proof {
            reveal_strlit("debug");
            reveal_strlit("shell");
            reveal_strlit("net");
            assert("debug"@ =~= api_name(InternalApi::Debug));
            assert("shell"@ =~= api_name(InternalApi::Shell));
            assert("net"@ =~= api_name(InternalApi::Net));
        }
        if same_text(name, "debug") {
            Ok(InternalApi::Debug)
        } else if same_text(name, "shell") {
            Ok(InternalApi::Shell)
        } else if same_text(name, "net") {
            Ok(InternalApi::Net)
        } else {
            Err(LoadError::UnknownInternal(String::from_str(name)))
        }
    }

    /// The exports of a synthetic module over a capability object with these
    /// property names: `default` first, then each property.
    pub fn export_names(property_names: &Vec<String>) -> (r: Vec<String>)
        ensures
            strings_view(r@) == seq![seq!['d', 'e', 'f', 'a', 'u', 'l', 't']] + strings_view(
                property_names@,
            ),
    {
        let mut r: Vec<String> = Vec::new();
        proof {
            reveal_strlit("default");
        }
        let first = String::from_str("default");
        assert(first@ =~= seq!['d', 'e', 'f', 'a', 'u', 'l', 't']);
        r.push(first);
        let mut i: usize = 0;
        while i < property_names.len()
            invariant
                i <= property_names.len(),
                strings_view(r@) == seq![seq!['d', 'e', 'f', 'a', 'u', 'l', 't']] + strings_view(
                    property_names@.take(i as int),
                ),
            decreases property_names.len() - i,
        {
            let name = property_names[i].clone();
            proof {
                assert(property_names@.take(i + 1) =~= property_names@.take(i as int).push(
                    property_names@[i as int],
                ));
                assert(strings_view(r@.push(name)) =~= strings_view(r@).push(name@));
            }
            r.push(name);
            i = i + 1;
            assert(strings_view(r@) =~= seq![seq!['d', 'e', 'f', 'a', 'u', 'l', 't']]
                + strings_view(property_names@.take(i as int)));
        }
        assert(property_names@.take(i as int) =~= property_names@);
        r
    }
}

pub open spec fn node_modules() -> Seq<char> {
    seq!['n', 'o', 'd', 'e', '_', 'm', 'o', 'd', 'u', 'l', 'e', 's']
}

/// `start` with its last `up` names removed.
pub open spec fn ancestor(start: Seq<char>, up: int) -> Seq<char> {
    let cs = normal_components(start);
    render(is_absolute(start), cs.take(cs.len() - up))
}

/// The dependency directories looked for from `start`, nearest first: one in
/// `start` itself and one in each of its ancestors.
pub open spec fn dependency_dirs(start: Seq<char>) -> Seq<Seq<char>> {
    Seq::new(
        (normal_components(start).len() + 1) as nat,
        |i: int| joined(ancestor(start, i), node_modules()),
    )
}

/// The default entry file of a package whose manifest names none.
pub open spec fn default_main() -> Seq<char> {
    seq!['.', '/', 'i', 'n', 'd', 'e', 'x', '.', 'j', 's']
}

/// The manifest of an installed package, as far as resolution reads it.
pub struct PackageManifest {
    pub name: String,
    pub version: String,
    /// The entry file, relative to the package directory.
    pub main: Option<String>,
    pub dependencies: Vec<(String, String)>,
}

impl PackageManifest {
    /// The file that importing the package loads.
    pub fn entry_path(&self, package_dir: &str) -> (r: String)
        ensures
            r@ == joined(
                package_dir@,
                match self.main {
                    Some(m) => m@,
                    None => default_main(),
                },
            ),
    {
        match &self.main {
            Some(m) => join_path(package_dir, m.as_str()),
            None => {
                proof {
                    reveal_strlit("./index.js");
                }
                assert("./index.js"@ =~= default_main());
                join_path(package_dir, "./index.js")
            },
        }
    }
}

/// The dependency directories to look for from `start`, nearest first.
pub fn dependency_dir_candidates(start: &str) -> (r: Vec<String>)
    ensures
        strings_view(r@) == dependency_dirs(start@),
{
    let abs = absolute(start);
    let mut current = components(start);
    let ghost cs = strings_view(current@);
    let n = current.len();
    proof {
        reveal_strlit("node_modules");
    }
    assert("node_modules"@ =~= node_modules());
    let mut r: Vec<String> = Vec::new();
    let mut i: usize = 0;
    loop
        invariant_except_break
            r.len() == i,
            forall|j: int| 0 <= j < i ==> #[trigger] r@[j]@ == dependency_dirs(start@)[j],
        invariant
            cs == normal_components(start@),
            abs == is_absolute(start@),
            n == cs.len(),
            i <= n,
            "node_modules"@ == node_modules(),
            strings_view(current@) == cs.take(n - i),
        ensures
            r.len() == n + 1,
            forall|j: int| 0 <= j <= n ==> #[trigger] r@[j]@ == dependency_dirs(start@)[j],
        decreases n - i,
    {
        let dir = render_components(abs, &current);
        let candidate = join_path(dir.as_str(), "node_modules");
        assert(candidate@ == dependency_dirs(start@)[i as int]);
        r.push(candidate);
        if i == n {
            break;
        }
        let ghost before = strings_view(current@);
        current.pop();
        assert(strings_view(current@) =~= before.drop_last());
        assert(cs.take(n - i).drop_last() =~= cs.take(n - (i + 1)));
        i = i + 1;
    }
    assert(strings_view(r@) =~= dependency_dirs(start@));
    r
}

/// Picks the nearest dependency directory that exists: `found[i]` tells
/// whether the `i`-th of `dependency_dir_candidates(start)` does; entries past
/// either list's end are ignored.
pub fn select_dependency_dir(start: &str, found: &Vec<bool>) -> (r: Result<String, LoadError>)
    ensures
        match r {
            Ok(d) => exists|i: int|
                0 <= i < found.len() && i < dependency_dirs(start@).len() && found[i] && (forall|
                    j: int,
                | 0 <= j < i ==> !#[trigger] found[j]) && d@ == dependency_dirs(start@)[i],
            Err(e) => (forall|i: int|
                0 <= i < found.len() && i < dependency_dirs(start@).len() ==> !#[trigger] found[i])
                && (e matches LoadError::NoDependencyDir(s) && s@ == start@),
        },
{
    let candidates = dependency_dir_candidates(start);
    let mut i: usize = 0;
    while i < found.len() && i < candidates.len()
        invariant
            strings_view(candidates@) == dependency_dirs(start@),
            i <= found.len(),
            forall|j: int| 0 <= j < i ==> !#[trigger] found[j],
        decreases found.len() - i,
    {
        if found[i] {
            let d = candidates[i].clone();
            assert(strings_view(candidates@)[i as int] == candidates@[i as int]@);
            return Ok(d);
        }
        i = i + 1;
    }
    Err(LoadError::NoDependencyDir(String::from_str(start)))
}

/// The directory of package `name` inside the dependency directory
/// `dependency_dir`, given what was found there.
pub fn package_dir(dependency_dir: &str, name: &str, kind: EntryKind) -> (r: Result<String, LoadError>)
    ensures
        kind == EntryKind::Directory ==> (r matches Ok(d) && d@ == joined(dependency_dir@, name@)),
        kind != EntryKind::Directory ==> (r matches Err(LoadError::PackageNotFound(n, d)) && n@
            == name@ && d@ == dependency_dir@),
{
    if kind == EntryKind::Directory {
        Ok(join_path(dependency_dir, name))
    } else {
        Err(LoadError::PackageNotFound(String::from_str(name), String::from_str(dependency_dir)))
    }
}

impl<H> AvModStore<H> {
    /// What to do with one static import request of a module being loaded:
    /// `None` when its specifier is already registered, an error when its
    /// module is itself still loading (an import cycle), otherwise the parsed
    /// specifier to load.
    pub fn import_step(&self, request: &str) -> (r: Result<Option<Specifier>, LoadError>)
        requires
            self.wf(),
        ensures
            match crate::resource::classify(request@) {
                None => r matches Err(e) && e is EmptySpecifier,
                Some(t) => if self@.contains_key(t) {
                    r matches Ok(None)
                } else if self.loading().contains(t) {
                    r matches Err(LoadError::ImportCycle(s)) && s@ == request@
                } else {
                    r matches Ok(Some(s)) && s@ == t
                },
            },
    {
        let s = Specifier::parse(request)?;
        if self.contains(&s) {
            Ok(None)
        } else if self.is_loading(&s) {
            Err(LoadError::ImportCycle(String::from_str(request)))
        } else {
            Ok(Some(s))
        }
    }
}

} // verus!
