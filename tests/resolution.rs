use avdan_runtime::avmod::{
    dependency_dir_candidates, package_dir, select_dependency_dir, AvMod, AvModInternal,
    InternalApi, ModuleFormat, PackageManifest,
};
use avdan_runtime::paths::{extension_of, join_path, normalize, with_js_extension};
use avdan_runtime::resource::{EntryKind, ExternalModule, LoadError, SourceFile, Specifier};
use avdan_runtime::store::AvModStore;
use avdan_runtime::text::split;

#[test]
fn split_keeps_empty_pieces() {
    assert_eq!(split("a.b", '.'), vec!["a", "b"]);
    assert_eq!(split("", '.'), vec![""]);
    assert_eq!(split("a.", '.'), vec!["a", ""]);
    assert_eq!(split(".a..b", '.'), vec!["", "a", "", "b"]);
}

#[test]
fn specifiers_are_classified_lexically() {
    match Specifier::parse("./util.js").unwrap() {
        Specifier::File(f) => assert_eq!(f.path(), "./util.js"),
        _ => panic!("expected a file"),
    }
    match Specifier::parse("/abs/x.js").unwrap() {
        Specifier::File(f) => assert_eq!(f.path(), "/abs/x.js"),
        _ => panic!("expected a file"),
    }
    match Specifier::parse("@avdan/debug").unwrap() {
        Specifier::Internal(n) => assert_eq!(n, "debug"),
        _ => panic!("expected an internal module"),
    }
    match Specifier::parse("lodash").unwrap() {
        Specifier::Module(m) => assert_eq!(m.identifier(), "lodash"),
        _ => panic!("expected a package"),
    }
    assert!(matches!(Specifier::parse(""), Err(LoadError::EmptySpecifier)));
}

#[test]
fn paths_are_joined_and_normalised() {
    assert_eq!(join_path("/ext", "./util.js"), "/ext/util.js");
    assert_eq!(join_path("/ext/src", "../lib/a.js"), "/ext/lib/a.js");
    assert_eq!(join_path("/ext", "/other/b.js"), "/other/b.js");
    assert_eq!(normalize("/a//b/./c/.."), "/a/b");
    assert_eq!(normalize("/.."), "/");
    assert_eq!(normalize("a/../.."), "..");
    assert_eq!(normalize("./"), ".");
    assert_eq!(join_path("", "x"), "x");
    assert_eq!(join_path("", "./lib/x.js"), "lib/x.js");
}

#[test]
fn extensions_follow_the_last_name() {
    assert_eq!(extension_of("/ext/util.js"), Some(String::from("js")));
    assert_eq!(extension_of("/ext/archive.tar.gz"), Some(String::from("gz")));
    assert_eq!(extension_of("/ext/.hidden"), None);
    assert_eq!(extension_of("/ext/noext"), None);
    assert_eq!(with_js_extension("/ext/util"), "/ext/util.js");
    assert_eq!(with_js_extension("/ext/util.ts"), "/ext/util.ts.js");
    assert_eq!(with_js_extension("/ext/a.b"), "/ext/a.b.js");
    assert_eq!(with_js_extension("/ext/jquery.min"), "/ext/jquery.min.js");
    assert_eq!(with_js_extension("/ext/util.js"), "/ext/util.js");
}

#[test]
fn source_file_extension_and_kind() {
    let f = SourceFile::new(String::from("./util.mjs"));
    assert_eq!(f.extension(), "mjs");
    assert!(f.is_js_file());
    let g = SourceFile::new(String::from("./data.json"));
    assert_eq!(g.extension(), "json");
    assert!(!g.is_js_file());
    let h = SourceFile::new(String::from("./util"));
    assert_eq!(h.extension(), "");
    assert!(!h.is_js_file());
}

#[test]
fn relative_import_resolves_next_to_importer() {
    let f = SourceFile::new(String::from("./util.js"));
    let dir = "/ext";
    assert_eq!(f.literal_path(dir), "/ext/util.js");
    assert_eq!(f.fallback_path(dir), "/ext/util.js");
    assert_eq!(f.to_path(dir, EntryKind::File, EntryKind::Missing).unwrap(), "/ext/util.js");
    assert_eq!(f.to_path(dir, EntryKind::Missing, EntryKind::File).unwrap(), "/ext/util.js");
    match f.to_path(dir, EntryKind::Missing, EntryKind::Missing) {
        Err(LoadError::NotFound(p)) => assert_eq!(p, "/ext/util.js"),
        _ => panic!("expected file-not-found"),
    }
}

#[test]
fn import_without_extension_falls_back_to_js() {
    let f = SourceFile::new(String::from("./lib/util"));
    assert_eq!(f.fallback_path("/ext"), "/ext/lib/util.js");
    assert_eq!(f.to_path("/ext", EntryKind::Missing, EntryKind::File).unwrap(), "/ext/lib/util.js");
    match f.to_path("/ext", EntryKind::Directory, EntryKind::File) {
        Err(LoadError::IsDirectory(p)) => assert_eq!(p, "/ext/lib/util"),
        _ => panic!("expected a directory error"),
    }
    let e = f.to_path("/ext", EntryKind::Missing, EntryKind::Missing).unwrap_err();
    assert_eq!(e.message(), "/ext/lib/util.js\nPath does not exist !");
}

#[test]
fn module_format_by_extension() {
    assert_eq!(AvMod::module_format("/ext/a.js").unwrap(), ModuleFormat::Script);
    assert_eq!(AvMod::module_format("/ext/a.mjs").unwrap(), ModuleFormat::Script);
    assert_eq!(AvMod::module_format("/ext/a.json").unwrap(), ModuleFormat::Data);
    match AvMod::module_format("/ext/a.ts") {
        Err(LoadError::UnsupportedFormat(e)) => assert_eq!(e, "ts"),
        _ => panic!("expected an unsupported format"),
    }
    let e = AvMod::module_format("/ext/a.ts").unwrap_err();
    assert_eq!(e.message(), "Unrecognised file format ts");
}

#[test]
fn internal_modules_by_name() {
    assert_eq!(AvModInternal::lookup("debug").unwrap(), InternalApi::Debug);
    assert_eq!(AvModInternal::lookup("shell").unwrap(), InternalApi::Shell);
    assert_eq!(AvModInternal::lookup("net").unwrap(), InternalApi::Net);
    let e = AvModInternal::lookup("clipboard").unwrap_err();
    assert_eq!(e.message(), "internal module @avdan/clipboard not found!");
    assert_eq!(InternalApi::Net.name(), "net");
}

#[test]
fn synthetic_exports_start_with_default() {
    let names = vec![String::from("log"), String::from("wait")];
    assert_eq!(AvModInternal::export_names(&names), vec!["default", "log", "wait"]);
    assert_eq!(AvModInternal::export_names(&vec![]), vec!["default"]);
}

#[test]
fn dependency_dirs_ascend_to_root() {
    assert_eq!(
        dependency_dir_candidates("/ext/src"),
        vec!["/ext/src/node_modules", "/ext/node_modules", "/node_modules"]
    );
    let found = vec![false, true, true];
    assert_eq!(select_dependency_dir("/ext/src", &found).unwrap(), "/ext/node_modules");
}

#[test]
fn missing_dependency_dir_is_an_error() {
    let start = "/ext/src";
    let found = vec![false; dependency_dir_candidates(start).len()];
    let e = select_dependency_dir(start, &found).unwrap_err();
    match &e {
        LoadError::NoDependencyDir(d) => assert_eq!(d, "/ext/src"),
        _ => panic!("expected a missing dependency directory"),
    }
    assert!(e.message().contains("node_modules"));
    assert_eq!(e.message(), "no node_modules directory in /ext/src or any parent directory");
}

#[test]
fn package_inside_dependency_dir() {
    assert_eq!(
        package_dir("/ext/node_modules", "lodash", EntryKind::Directory).unwrap(),
        "/ext/node_modules/lodash"
    );
    let e = package_dir("/ext/node_modules", "lodash", EntryKind::Missing).unwrap_err();
    assert_eq!(e.message(), "package lodash not found in /ext/node_modules");
}

#[test]
fn package_entry_defaults_to_index() {
    let m = PackageManifest {
        name: String::from("lodash"),
        version: String::from("4.17.21"),
        main: None,
        dependencies: vec![],
    };
    assert_eq!(m.entry_path("/ext/node_modules/lodash"), "/ext/node_modules/lodash/index.js");
    let n = PackageManifest { main: Some(String::from("lib/main.js")), ..m };
    assert_eq!(n.entry_path("/ext/node_modules/lodash"), "/ext/node_modules/lodash/lib/main.js");
}

#[test]
fn registering_twice_keeps_one_entry() {
    let mut store: AvModStore<u32> = AvModStore::new();
    let s = Specifier::parse("./util.js").unwrap();
    store.register(s.clone(), 1);
    store.register(s.clone(), 2);
    assert_eq!(store.len(), 1);
    assert_eq!(store.get(&s), Some(&1));
    store.register(Specifier::parse("@avdan/debug").unwrap(), 3);
    assert_eq!(store.len(), 2);
    assert!(store.contains(&Specifier::parse("@avdan/debug").unwrap()));
    assert_eq!(store.get(&Specifier::parse("./other.js").unwrap()), None);
}

#[test]
fn registered_imports_are_skipped() {
    let mut store: AvModStore<u32> = AvModStore::new();
    store.register(Specifier::parse("./util.js").unwrap(), 7);
    assert!(store.import_step("./util.js").unwrap().is_none());
    match store.import_step("./other.js").unwrap() {
        Some(Specifier::File(f)) => assert_eq!(f.path(), "./other.js"),
        _ => panic!("expected a file to load"),
    }
    assert!(matches!(store.import_step(""), Err(LoadError::EmptySpecifier)));
}

#[test]
fn specifiers_compare_by_target() {
    let a = Specifier::parse("lodash").unwrap();
    let b = Specifier::Module(ExternalModule::new(String::from("lodash")));
    assert!(a.same_as(&b));
    assert!(!a.same_as(&Specifier::parse("./lodash").unwrap()));
}

#[test]
fn import_of_a_loading_module_is_a_cycle() {
    let mut store: AvModStore<u32> = AvModStore::new();
    let b = Specifier::parse("./b.js").unwrap();
    store.begin_load(b.clone());
    assert!(store.is_loading(&b));
    match store.import_step("./b.js") {
        Err(LoadError::ImportCycle(s)) => assert_eq!(s, "./b.js"),
        _ => panic!("expected an import cycle"),
    }
    assert_eq!(store.import_step("./b.js").unwrap_err().message(), "import cycle through ./b.js");
    store.end_load();
    assert!(!store.is_loading(&b));
    store.register(b, 1);
    assert!(store.import_step("./b.js").unwrap().is_none());
}

#[test]
fn malformed_manifest_message_names_the_file() {
    let e = LoadError::MalformedManifest(
        String::from("/ext/node_modules/x/package.json"),
        String::from("expected value at line 1 column 1"),
    );
    assert_eq!(
        e.message(),
        "malformed package manifest /ext/node_modules/x/package.json: expected value at line 1 column 1"
    );
}

#[test]
fn dotted_name_falls_back_with_js_appended() {
    let f = SourceFile::new(String::from("./jquery.min"));
    assert_eq!(f.fallback_path("/ext"), "/ext/jquery.min.js");
    assert_eq!(f.to_path("/ext", EntryKind::Missing, EntryKind::File).unwrap(), "/ext/jquery.min.js");
}
