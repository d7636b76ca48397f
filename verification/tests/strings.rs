use clap_nested::error::ErrorKind;
use clap_nested::help::Help;
use clap_nested::schema::AppSpec;
use clap_nested::strutil;
use clap_nested::usage;

#[test]
fn file_stem() {
    assert!(strutil::file_stem("src/macros.rs") == "macros");
}

#[test]
fn file_stem_variants() {
    assert_eq!(strutil::file_stem("a/b/report.tar.gz"), "report.tar");
    assert_eq!(strutil::file_stem(".hidden"), ".hidden");
    assert_eq!(strutil::file_stem("plain"), "plain");
    assert_eq!(strutil::file_stem("dir/"), "");
}

#[test]
fn file_name_of_path() {
    assert_eq!(strutil::file_name("target/debug/program"), Some(String::from("program")));
    assert_eq!(strutil::file_name("program"), Some(String::from("program")));
    assert_eq!(strutil::file_name("dir/"), None);
}

#[test]
fn find_from_finds_first() {
    assert_eq!(strutil::find_from("abcabc", "bc", 0), Some(1));
    assert_eq!(strutil::find_from("abcabc", "bc", 2), Some(4));
    assert_eq!(strutil::find_from("abcabc", "zz", 0), None);
    assert_eq!(strutil::find_from("abc", "", 1), Some(1));
}

#[test]
fn split_ws_tokens() {
    let toks = strutil::split_ws("  one  two\tthree ");
    assert_eq!(toks, vec![String::from("one"), String::from("two"), String::from("three")]);
    let none = strutil::split_ws("   ");
    assert_eq!(none.len(), 0);
}

#[test]
fn str_eq_compares_characters() {
    assert!(strutil::str_eq("abc", "abc"));
    assert!(!strutil::str_eq("abc", "abd"));
    assert!(!strutil::str_eq("abc", "ab"));
}

#[test]
fn usage_split_takes_message_apart() {
    let msg = String::from(
        "error: something went wrong\n\nUSAGE:\n    prog show foo [FLAGS]\n\nFor more information try --help",
    );
    let (head, path) = usage::usage_split(msg.as_str()).unwrap();
    assert_eq!(head.as_str(), "error: something went wrong\n");
    assert_eq!(path, vec![String::from("show"), String::from("foo")]);
}

#[test]
fn usage_split_root_path() {
    let msg = String::from("error: bad\n\nUSAGE:\n    prog [SUBCOMMAND]\n");
    let (_, path) = usage::usage_split(msg.as_str()).unwrap();
    assert_eq!(path.len(), 0);
}

#[test]
fn usage_split_rejects_missing_section() {
    assert!(usage::usage_split("error: no usage anywhere").is_none());
    assert!(usage::usage_split("error: bad\n\nUSAGE:").is_none());
    assert!(usage::usage_split("error: bad\n\nUSAGE:\n    [FLAGS]\n").is_none());
}

#[test]
fn resolved_error_is_fault_without_usage() {
    let help = Help::from(&AppSpec::new("prog"));
    let err = usage::resolved_error(&String::from("error: no usage anywhere"), &help);
    assert_eq!(err.kind, ErrorKind::Fault);
    assert!(err.use_stderr());
}

#[test]
fn resolved_error_is_fault_on_unknown_path() {
    let help = Help::from(&AppSpec::new("prog"));
    let msg = String::from("error: bad\n\nUSAGE:\n    prog nowhere [FLAGS]\n");
    let err = usage::resolved_error(&msg, &help);
    assert_eq!(err.kind, ErrorKind::Fault);
}

#[test]
fn resolved_error_appends_snapshot_text() {
    let mut spec = AppSpec::new("prog");
    spec.bin_name = Some(String::from("prog"));
    spec.about = Some(String::from("A described program"));
    let help = Help::from(&spec.propagated());
    let msg = String::from("error: bad\n\nUSAGE:\n    prog [SUBCOMMAND]\n");
    let err = usage::resolved_error(&msg, &help);
    assert_eq!(err.kind, ErrorKind::HelpDisplayed);
    assert!(err.message().starts_with("error: error: bad\n"));
    assert!(err.message().contains("A described program"));
}
