use clap_nested::error::{Error, ErrorKind};
use clap_nested::matches::Matches;
use clap_nested::registry::{Command, Commander};
use clap_nested::schema::{ArgSpec, Meta};

const DERIVE_OUTER: u64 = 10;
const DERIVE_INNER: u64 = 11;
const REPORT_CTX: u64 = 20;
const FAIL_BOOM: u64 = 21;
const RUN_QUIET: u64 = 22;

fn prop_meta() -> Meta {
    Meta {
        name: String::from("prog"),
        version: String::from("0.1.0"),
        description: String::from("A test program"),
        author: String::from("Someone"),
    }
}

fn prop_args(parts: &[&str]) -> Vec<String> {
    parts.iter().map(|p| String::from(*p)).collect()
}

fn prop_derive(tag: u64, ctx: &String, m: &Matches) -> String {
    match tag {
        DERIVE_OUTER => {
            let env = match m.value_of("environment") {
                Some(v) => v.clone(),
                None => String::from("dev"),
            };
            format!("{}>outer[{}]", ctx, env)
        },
        DERIVE_INNER => format!("{}>inner", ctx),
        _ => ctx.clone(),
    }
}

fn prop_run(tag: u64, ctx: &String, _m: &Matches) -> Result<(), Error> {
    match tag {
        REPORT_CTX => Err(Error::raw(format!("ctx={}", ctx), ErrorKind::Other)),
        FAIL_BOOM => Err(Error::with_description("boom", ErrorKind::Other)),
        _ => Ok(()),
    }
}

fn prop_run_with(commander: &Commander, parts: &[&str]) -> Result<(), Error> {
    let meta = prop_meta();
    let args = prop_args(parts);
    let ctx = String::from("start");
    commander.run_with_args(&meta, &args, &ctx, &prop_derive, &prop_run)
}

/// A name registered once is dispatched to, however many other entries
/// the registry holds and in whatever order they were added.
#[test]
fn unique_name_selects_child() {
    let build = |reversed: bool| {
        let a = Command::new("alpha").runner(RUN_QUIET);
        let b = Command::new("beta").runner(REPORT_CTX);
        let c = Command::new("gamma").runner(RUN_QUIET);
        if reversed {
            Commander::new().add_cmd(c).add_cmd(b).add_cmd(a)
        } else {
            Commander::new().add_cmd(a).add_cmd(b).add_cmd(c)
        }
    };
    for reversed in [false, true] {
        let res = prop_run_with(&build(reversed), &["prog", "beta"]);
        let err = res.unwrap_err();
        assert_eq!(err.kind, ErrorKind::Other);
        assert_eq!(err.message().as_str(), "ctx=start");
    }
}

/// With no fallback and no matching subcommand the outcome is the
/// "help displayed" one, carrying this registry's own help text, not a
/// parser error.
#[test]
fn no_subcommand_shows_root_help() {
    let commander = Commander::new()
        .add_cmd(Command::new("foo").runner(RUN_QUIET))
        .add_cmd(Command::new("bar").runner(RUN_QUIET));
    let err = prop_run_with(&commander, &["prog"]).unwrap_err();
    assert_eq!(err.kind, ErrorKind::HelpDisplayed);
    assert!(!err.use_stderr());
    assert!(err.message().contains("foo"));
    assert!(err.message().contains("bar"));
    assert!(err.message().contains("USAGE"));
}

/// Context derivation composes through nesting: a runner three levels
/// down observes the outer derivation applied first and the inner one
/// applied to its result.
#[test]
fn nested_context_composes() {
    let foo = Command::new("foo").runner(REPORT_CTX);
    let bar = Command::new("bar").runner(RUN_QUIET);
    let inner = Commander::new().args(DERIVE_INNER).add_cmd(foo).add_cmd(bar).into_cmd("show");
    let outer = Commander::new()
        .options(vec![ArgSpec::with_name("environment")
            .short("e")
            .long("env")
            .global(true)
            .takes_value(true)])
        .args(DERIVE_OUTER)
        .add_cmd(inner);
    let err = prop_run_with(&outer, &["prog", "show", "foo"]).unwrap_err();
    assert_eq!(err.message().as_str(), "ctx=start>outer[dev]>inner");

    let err = prop_run_with(&outer, &["prog", "-e", "prod", "show", "foo"]).unwrap_err();
    assert_eq!(err.message().as_str(), "ctx=start>outer[prod]>inner");
}

/// Running twice with identical inputs on an unmodified registry gives
/// identical results: nothing carries over between runs.
#[test]
fn repeated_runs_agree() {
    let commander = Commander::new()
        .add_cmd(Command::new("foo").runner(RUN_QUIET))
        .add_cmd(Command::new("fail").runner(FAIL_BOOM));
    for parts in [
        vec!["prog"],
        vec!["prog", "foo"],
        vec!["prog", "fail"],
        vec!["prog", "nonsense"],
    ] {
        let r1 = prop_run_with(&commander, &parts);
        let r2 = prop_run_with(&commander, &parts);
        assert_eq!(r1, r2);
    }
}

/// A runner's error comes back exactly as the runner produced it,
/// wrapped in nothing.
#[test]
fn runner_error_returned_unwrapped() {
    let commander = Commander::new().add_cmd(Command::new("fail").runner(FAIL_BOOM));
    let res = prop_run_with(&commander, &["prog", "fail"]);
    assert_eq!(res, Err(Error::with_description("boom", ErrorKind::Other)));
}

/// Malformed input yields the "help displayed" outcome holding both the
/// original parser error and the root help with its subcommand list.
#[test]
fn malformed_input_shows_error_and_help() {
    let commander = Commander::new().add_cmd(Command::new("foo").runner(RUN_QUIET));
    let err = prop_run_with(&commander, &["prog", "unknown-flag-xyz"]).unwrap_err();
    assert_eq!(err.kind, ErrorKind::HelpDisplayed);
    assert!(err.message().contains("unknown-flag-xyz"));
    assert!(err.message().contains("USAGE"));
    assert!(err.message().contains("foo"));
}

/// An explicit version request passes through as the parser classified
/// it.
#[test]
fn version_request_passes_through() {
    let commander = Commander::new().add_cmd(Command::new("foo").runner(RUN_QUIET));
    let err = prop_run_with(&commander, &["prog", "-V"]).unwrap_err();
    assert_eq!(err.kind, ErrorKind::VersionDisplayed);
    assert!(!err.use_stderr());
}

/// A command built without a runner succeeds trivially when matched.
#[test]
fn runnerless_command_succeeds() {
    let commander = Commander::new().add_cmd(Command::new("noop"));
    assert_eq!(prop_run_with(&commander, &["prog", "noop"]), Ok(()));
}
