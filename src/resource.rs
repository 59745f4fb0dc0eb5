//! Import specifiers and the resolution of a file specifier to a path.
use vstd::prelude::*;

use crate::paths::{extension, extension_of, join_path, joined, with_js, with_js_extension};
use crate::text::starts_with;

verus! {

/// What a path on disk turned out to be when it was looked up.
#[derive(Clone, Copy, PartialEq, Eq, Structural, Debug)]
pub enum EntryKind {
    Missing,
    File,
    Directory,
}

/// Why a module could not be resolved or loaded.
#[derive(Debug)]
pub enum LoadError {
    /// The import text was empty.
    EmptySpecifier,
    /// Neither the path nor its `.js` variant exists; holds the last path tried.
    NotFound(String),
    /// The resolved path is a directory.
    IsDirectory(String),
    /// The resolved file's extension names no known module format.
    UnsupportedFormat(String),
    /// No native capability is registered under this name.
    UnknownInternal(String),
    /// No dependency directory in the given directory or any of its parents.
    NoDependencyDir(String),
    /// The named package is not in the dependency directory that was found.
    PackageNotFound(String, String),
    /// The package manifest at the given path could not be read.
    MalformedManifest(String, String),
    /// The import closes a cycle: its module is still loading its own
    /// dependencies.
    ImportCycle(String),
}

pub open spec fn not_found_text(path: Seq<char>) -> Seq<char> {
    path + "\nPath does not exist !"@
}

pub open spec fn is_directory_text(path: Seq<char>) -> Seq<char> {
    path + "\nPath is a directory !"@
}

pub open spec fn unsupported_text(ext: Seq<char>) -> Seq<char> {
    "Unrecognised file format "@ + ext
}

pub open spec fn unknown_internal_text(name: Seq<char>) -> Seq<char> {
    "internal module @avdan/"@ + name + " not found!"@
}

pub open spec fn no_dependency_dir_text(start: Seq<char>) -> Seq<char> {
    "no node_modules directory in "@ + start + " or any parent directory"@
}

pub open spec fn package_not_found_text(name: Seq<char>, dir: Seq<char>) -> Seq<char> {
    "package "@ + name + " not found in "@ + dir
}

pub open spec fn malformed_manifest_text(path: Seq<char>, detail: Seq<char>) -> Seq<char> {
    "malformed package manifest "@ + path + ": "@ + detail
}

pub open spec fn import_cycle_text(specifier: Seq<char>) -> Seq<char> {
    "import cycle through "@ + specifier
}

pub open spec fn load_error_text(e: LoadError) -> Seq<char> {
    match e {
        LoadError::EmptySpecifier => "Empty resource path!"@,
        LoadError::NotFound(p) => not_found_text(p@),
        LoadError::IsDirectory(p) => is_directory_text(p@),
        LoadError::UnsupportedFormat(x) => unsupported_text(x@),
        LoadError::UnknownInternal(n) => unknown_internal_text(n@),
        LoadError::NoDependencyDir(d) => no_dependency_dir_text(d@),
        LoadError::PackageNotFound(n, d) => package_not_found_text(n@, d@),
        LoadError::MalformedManifest(p, d) => malformed_manifest_text(p@, d@),
        LoadError::ImportCycle(s) => import_cycle_text(s@),
    }
}

fn concat2(a: &str, b: &str) -> (r: String)
    ensures
        r@ == a@ + b@,
{
    let mut r = String::from_str(a);
    r.append(b);
    r
}

fn concat3(a: &str, b: &str, c: &str) -> (r: String)
    ensures
        r@ == a@ + b@ + c@,
{
    let mut r = String::from_str(a);
    r.append(b);
    r.append(c);
    r
}

fn concat4(a: &str, b: &str, c: &str, d: &str) -> (r: String)
    ensures
        r@ == a@ + b@ + c@ + d@,
{
    let mut r = String::from_str(a);
    r.append(b);
    r.append(c);
    r.append(d);
    r
}

impl LoadError {
    /// A description of the failure, naming the specifier, path or directory
    /// concerned.
    pub fn message(&self) -> (r: String)
        ensures
            r@ == load_error_text(*self),
    {
        match self {
            LoadError::EmptySpecifier => String::from_str("Empty resource path!"),
            LoadError::NotFound(p) => concat2(p.as_str(), "\nPath does not exist !"),
            LoadError::IsDirectory(p) => concat2(p.as_str(), "\nPath is a directory !"),
            LoadError::UnsupportedFormat(x) => concat2("Unrecognised file format ", x.as_str()),
            LoadError::UnknownInternal(n) => concat3(
                "internal module @avdan/",
                n.as_str(),
                " not found!",
            ),
            LoadError::NoDependencyDir(d) => concat3(
                "no node_modules directory in ",
                d.as_str(),
                " or any parent directory",
            ),
            LoadError::PackageNotFound(n, d) => concat4(
                "package ",
                n.as_str(),
                " not found in ",
                d.as_str(),
            ),
            LoadError::MalformedManifest(p, d) => concat4(
                "malformed package manifest ",
                p.as_str(),
                ": ",
                d.as_str(),
            ),
            LoadError::ImportCycle(s) => concat2("import cycle through ", s.as_str()),
        }
    }
}

/// A relative or absolute file path named by an import.
#[derive(Clone, Debug)]
pub struct SourceFile {
    path: String,
}

impl View for SourceFile {
    type V = Seq<char>;

    closed spec fn view(&self) -> Seq<char> {
        self.path@
    }
}

pub open spec fn is_script_extension(e: Seq<char>) -> bool {
    e == seq!['j', 's'] || e == seq!['m', 'j', 's']
}

/// How a file import resolves, on the level of paths.
pub enum FileOutcome {
    /// The file at this path.
    Found(Seq<char>),
    /// This path, tried last, is a directory.
    Directory(Seq<char>),
    /// Nothing exists at this path, tried last.
    Missing(Seq<char>),
}

/// Where a file import resolves from `root`, given what was found at the
/// literal path and at its `.js` variant.
pub open spec fn file_resolution(
    root: Seq<char>,
    file: Seq<char>,
    literal: EntryKind,
    fallback: EntryKind,
) -> FileOutcome {
    let lit = joined(root, file);
    let alt = with_js(lit);
    match literal {
        EntryKind::File => FileOutcome::Found(lit),
        EntryKind::Directory => FileOutcome::Directory(lit),
        EntryKind::Missing => match fallback {
            EntryKind::File => FileOutcome::Found(alt),
            EntryKind::Directory => FileOutcome::Directory(alt),
            EntryKind::Missing => FileOutcome::Missing(alt),
        },
    }
}

impl SourceFile {
    pub fn new(path: String) -> (r: SourceFile)
        ensures
            r@ == path@,
    {
        SourceFile { path }
    }

    pub fn path(&self) -> (r: &String)
        ensures
            r@ == self@,
    {
        &self.path
    }

    /// The path as written, read from the directory `root`.
    pub fn literal_path(&self, root: &str) -> (r: String)
        ensures
            r@ == joined(root@, self@),
    {
        join_path(root, self.path.as_str())
    }

    /// The path tried when the literal one does not exist: `.js` added to
    /// its last name, unless that name already ends in `.js`.
    pub fn fallback_path(&self, root: &str) -> (r: String)
        ensures
            r@ == with_js(joined(root@, self@)),
    {
        let lit = self.literal_path(root);
        with_js_extension(lit.as_str())
    }

    /// Resolves this file from the directory `root_path`, given what was
    /// found at `literal_path(root_path)` and at `fallback_path(root_path)`.
    pub fn to_path(&self, root_path: &str, literal: EntryKind, fallback: EntryKind) -> (r: Result<String, LoadError>)
        ensures
            match file_resolution(root_path@, self@, literal, fallback) {
                FileOutcome::Found(q) => r matches Ok(p) && p@ == q,
                FileOutcome::Directory(q) => r matches Err(LoadError::IsDirectory(p)) && p@ == q,
                FileOutcome::Missing(q) => r matches Err(LoadError::NotFound(p)) && p@ == q,
            },
    {
        let lit = self.literal_path(root_path);
        match literal {
            EntryKind::File => Ok(lit),
            EntryKind::Directory => Err(LoadError::IsDirectory(lit)),
            EntryKind::Missing => {
                let alt = with_js_extension(lit.as_str());
                match fallback {
                    EntryKind::File => Ok(alt),
                    EntryKind::Directory => Err(LoadError::IsDirectory(alt)),
                    EntryKind::Missing => Err(LoadError::NotFound(alt)),
                }
            },
        }
    }

    /// The extension of the file's name; empty when it has none.
    pub fn extension(&self) -> (r: String)
        ensures
            r@ == match extension(self@) {
                Some(e) => e,
                None => Seq::empty(),
            },
    {
        match extension_of(self.path.as_str()) {
            Some(e) => e,
            None => String::new(),
        }
    }

    pub fn is_js_file(&self) -> (r: bool)
        ensures
            r == (extension(self@) matches Some(e) && is_script_extension(e)),
    {
        match extension_of(self.path.as_str()) {
            Some(e) => is_script_name(e.as_str()),
            None => false,
        }
    }
}

pub(crate) fn is_script_name(e: &str) -> (r: bool)
    ensures
        r == is_script_extension(e@),
{
    let n = e.unicode_len();
    let r = (n == 2 && e.get_char(0) == 'j' && e.get_char(1) == 's') || (n == 3 && e.get_char(0)
        == 'm' && e.get_char(1) == 'j' && e.get_char(2) == 's');
    assert(n == 2 && e@[0] == 'j' && e@[1] == 's' ==> e@ =~= seq!['j', 's']);
    assert(n == 3 && e@[0] == 'm' && e@[1] == 'j' && e@[2] == 's' ==> e@ =~= seq!['m', 'j', 's']);
    r
}

/// A bare package name, found in a dependency directory.
#[derive(Clone, Debug)]
pub struct ExternalModule {
    identifier: String,
}

impl View for ExternalModule {
    type V = Seq<char>;

    closed spec fn view(&self) -> Seq<char> {
        self.identifier@
    }
}

impl ExternalModule {
    pub fn new(identifier: String) -> (r: ExternalModule)
        ensures
            r@ == identifier@,
    {
        ExternalModule { identifier }
    }

    pub fn identifier(&self) -> (r: &String)
        ensures
            r@ == self@,
    {
        &self.identifier
    }
}

/// What an import names, up to the text it was written with.
pub enum ImportTarget {
    File(Seq<char>),
    Package(Seq<char>),
    Internal(Seq<char>),
}

/// The parsed form of an import string.
#[derive(Clone, Debug)]
pub enum Specifier {
    /// Starts with `.` or `/`.
    File(SourceFile),
    /// A bare package name.
    Module(ExternalModule),
    /// A native capability, written `@avdan/<name>`; holds the name.
    Internal(String),
}

impl View for Specifier {
    type V = ImportTarget;

    open spec fn view(&self) -> ImportTarget {
        match self {
            Specifier::File(f) => ImportTarget::File(f@),
            Specifier::Module(m) => ImportTarget::Package(m@),
            Specifier::Internal(n) => ImportTarget::Internal(n@),
        }
    }
}

pub open spec fn internal_prefix() -> Seq<char> {
    seq!['@', 'a', 'v', 'd', 'a', 'n', '/']
}

/// The classification of an import text; `None` for the empty text.
pub open spec fn classify(text: Seq<char>) -> Option<ImportTarget> {
    if text.len() == 0 {
        None
    } else if internal_prefix().len() <= text.len() && text.take(internal_prefix().len() as int)
        == internal_prefix() {
        Some(ImportTarget::Internal(text.skip(internal_prefix().len() as int)))
    } else if text[0] == '.' || text[0] == '/' {
        Some(ImportTarget::File(text))
    } else {
        Some(ImportTarget::Package(text))
    }
}

impl Specifier {
    /// Classifies an import text: `@avdan/<name>` is internal, a leading `.`
    /// or `/` names a file, anything else a package. The empty text is an
    /// error.
    pub fn parse(text: &str) -> (r: Result<Specifier, LoadError>)
        ensures
            match r {
                Ok(s) => classify(text@) == Some(s@),
                Err(e) => classify(text@) is None && e is EmptySpecifier,
            },
    {
        let n = text.unicode_len();
        if n == 0 {
            return Err(LoadError::EmptySpecifier);
        }
        proof {
            reveal_strlit("@avdan/");
        }
        if starts_with(text, "@avdan/") {
            assert("@avdan/"@ =~= internal_prefix());
            return Ok(Specifier::Internal(String::from_str(text.substring_char(7, n))));
        }
        assert("@avdan/"@ =~= internal_prefix());
        let c = text.get_char(0);
        if c == '.' || c == '/' {
            Ok(Specifier::File(SourceFile::new(String::from_str(text))))
        } else {
            Ok(Specifier::Module(ExternalModule::new(String::from_str(text))))
        }
    }

    /// Whether two specifiers name the same target.
    pub fn same_as(&self, other: &Specifier) -> (r: bool)
        ensures
            r == (self@ == other@),
    {
        match self {
            Specifier::File(a) => match other {
                Specifier::File(b) => a.path == b.path,
                _ => false,
            },
            Specifier::Module(a) => match other {
                Specifier::Module(b) => a.identifier == b.identifier,
                _ => false,
            },
            Specifier::Internal(a) => match other {
                Specifier::Internal(b) => {
                    let r = *a == *b;
                    r
                },
                _ => false,
            },
        }
    }
}

} // verus!
