use avdan_runtime::api::{AvClipboard, AvdanAPI, ClipSource, Error, Method, ShellObj};
use avdan_runtime::avmod::InternalApi;
use avdan_runtime::loader::Extension;
use avdan_runtime::security::Constraints;

#[test]
fn clip_sources_by_name() {
    assert_eq!(ClipSource::PRIMARY.name(), "primary");
    assert_eq!(ClipSource::SECONDARY.name(), "secondary");
    assert_eq!(ClipSource::CLIPBOARD.name(), "clipboard");
    assert_eq!(ClipSource::from(String::from("primary")), Some(ClipSource::PRIMARY));
    assert_eq!(ClipSource::from(String::from("clipboard")), Some(ClipSource::CLIPBOARD));
    assert_eq!(ClipSource::from(String::from("tertiary")), None);
    assert_eq!(ClipSource::from_selector("secondary"), ClipSource::SECONDARY);
    assert_eq!(ClipSource::from_selector("anything"), ClipSource::CLIPBOARD);
}

#[test]
fn methods_ignore_letter_case() {
    assert_eq!(Method::from_name("POST"), Method::POST);
    assert_eq!(Method::from_name("Patch"), Method::PATCH);
    assert_eq!(Method::from_name("delete"), Method::DELETE);
    assert_eq!(Method::from_name("fetch"), Method::GET);
    assert_eq!(Method::from_lowercase("HEAD"), Method::GET);
    assert_eq!(Method::from_lowercase("head"), Method::HEAD);
}

#[test]
fn error_text_has_code_and_message() {
    let e = Error::str("C-COPY-0000A", "String to copy is empty!");
    assert_eq!(e.text(), "#C-COPY-0000A - String to copy is empty!");
    assert_eq!(e.code(), "C-COPY-0000A");
    let f = Error::new(String::from("3"), String::from("Generic IO Error!"));
    assert_eq!(f.text(), "#3 - Generic IO Error!");
}

#[test]
fn public_apis_are_listed() {
    assert_eq!(
        AvdanAPI::public_apis(),
        vec![InternalApi::Debug, InternalApi::Shell, InternalApi::Net]
    );
}

#[test]
fn shell_execution_is_unsupported() {
    assert!(ShellObj::new(vec![String::from("ls")]).execute().is_err());
}

#[test]
fn manifest_main_is_read_from_root() {
    let parsed = Extension {
        name: String::from("demo"),
        version: String::from("1.0.0"),
        description: String::from("d"),
        author: String::from("a"),
        main: String::from("./src/main.js"),
        security: Constraints::new(vec!["avdan.debug.*"], vec![]),
    };
    let e = Extension::from_manifest("/home/u/ext", parsed);
    assert_eq!(e.main(), "/home/u/ext/./src/main.js");
    assert!(e.security().has_permission("avdan.debug.log"));
    assert_eq!(e.name, "demo");
}


#[test]
fn formats_follow_the_multiple_line() {
    let out = "TIMESTAMP\nTARGETS\nMULTIPLE\ntext/plain\nUTF8_STRING\n";
    assert_eq!(AvClipboard::formats_from_targets(out), vec!["text/plain", "UTF8_STRING"]);
    let crlf = "TARGETS\r\nMULTIPLE\r\nimage/png\r\n";
    assert_eq!(AvClipboard::formats_from_targets(crlf), vec!["image/png"]);
    assert!(AvClipboard::formats_from_targets("TARGETS\ntext/plain\n").is_empty());
    assert!(AvClipboard::formats_from_targets("").is_empty());
    assert!(AvClipboard::formats_from_targets("MULTIPLE").is_empty());
}

fn manifest_with_main(main: &str) -> Extension {
    Extension {
        name: String::from("demo"),
        version: String::from("1.0.0"),
        description: String::from("d"),
        author: String::from("a"),
        main: String::from(main),
        security: Constraints::new(vec![], vec![]),
    }
}

#[test]
fn manifest_main_is_joined_as_written() {
    assert_eq!(Extension::from_manifest(".", manifest_with_main("x")).main(), "./x");
    assert_eq!(Extension::from_manifest("/ext/", manifest_with_main("main.js")).main(), "/ext/main.js");
    assert_eq!(Extension::from_manifest("/ext", manifest_with_main("/abs/main.js")).main(), "/abs/main.js");
    assert_eq!(Extension::from_manifest("", manifest_with_main("main.js")).main(), "main.js");
    assert_eq!(Extension::from_manifest("/ext", manifest_with_main("../a/main.js")).main(), "/ext/../a/main.js");
}
