use clap_nested::error::{Error, ErrorKind};
use clap_nested::matches::Matches;
use clap_nested::registry::{Command, Commander};
use clap_nested::schema::{ArgSpec, Meta};

const RUN_FOO: u64 = 1;
const RUN_BAR: u64 = 2;
const SHOW_NO_CMD: u64 = 3;
const RUN_WHAT: u64 = 4;
const RUN_FAIL: u64 = 5;
const DERIVE_ENV: u64 = 1;

fn test_meta() -> Meta {
    Meta {
        name: String::from("clap-nested"),
        version: String::from("1.2.3"),
        description: String::from("Does things"),
        author: String::from("Jane Doe <jane@example.com>"),
    }
}

fn strip(s: &str) -> String {
    let re = regex::Regex::new("\x1b[^m]*m").unwrap();
    let t = s.trim().replace("\r", "");
    re.replace_all(&t, "").into_owned()
}

fn assert_result(res: Result<(), Error>, expected: &str, use_stderr: bool) {
    let err = res.unwrap_err();
    assert_eq!(err.use_stderr(), use_stderr);
    assert_eq!(strip(err.message()), strip(expected));
}

fn args_of(parts: &[&str]) -> Vec<String> {
    parts.iter().map(|p| String::from(*p)).collect()
}

fn derive_env(tag: u64, ctx: &String, m: &Matches) -> String {
    match tag {
        DERIVE_ENV => match m.value_of("environment") {
            Some(v) => v.clone(),
            None => String::from("dev"),
        },
        _ => ctx.clone(),
    }
}

fn run_tag(tag: u64, ctx: &String, m: &Matches) -> Result<(), Error> {
    match tag {
        RUN_FOO => {
            println!("foo: {:?} {:?}", ctx, m.occurrences_of("debug"));
            Ok(())
        },
        RUN_BAR => {
            println!("bar: {:?}", ctx);
            Ok(())
        },
        SHOW_NO_CMD => {
            println!("show: {:?}", ctx);
            Ok(())
        },
        RUN_WHAT => {
            println!("what: {:?}", ctx);
            Ok(())
        },
        RUN_FAIL => Err(Error::with_description("other os error", ErrorKind::Io)),
        _ => Ok(()),
    }
}

fn two_level() -> Commander {
    let foo = Command::new("foo")
        .options(vec![ArgSpec::with_name("debug")
            .short("d")
            .help("Prints debug information verbosely")])
        .description("Shows foo")
        .runner(RUN_FOO);

    let bar = Command::new("bar").description("Shows bar").runner(RUN_BAR);

    let show = Commander::new()
        .options(vec![ArgSpec::with_name("environment")
            .short("e")
            .long("env")
            .global(true)
            .takes_value(true)
            .value_name("STRING")
            .help("Sets an environment value, defaults to \"dev\"")])
        .args(DERIVE_ENV)
        .add_cmd(foo)
        .add_cmd(bar)
        .no_cmd(SHOW_NO_CMD)
        .into_cmd("show")
        .description("Shows things");

    let what = Command::new("what").description("So what").runner(RUN_WHAT);

    Commander::new().name("program").add_cmd(show).add_cmd(what)
}

fn run(commander: &Commander, parts: &[&str]) -> Result<(), Error> {
    let meta = test_meta();
    let args = args_of(parts);
    let ctx = String::new();
    commander.run_with_args(&meta, &args, &ctx, &derive_env, &run_tag)
}

#[test]
fn lib_two_level_commander() {
    let commander = two_level();

    assert!(run(&commander, &["program", "show"]).is_ok());
    assert!(run(&commander, &["program", "show", "foo"]).is_ok());
    assert!(run(&commander, &["program", "show", "bar"]).is_ok());
    assert!(run(&commander, &["program", "what"]).is_ok());

    assert_result(
        run(&commander, &["program"]),
        "error: program 1.2.3
Jane Doe <jane@example.com>
Does things

USAGE:
    program [SUBCOMMAND]

FLAGS:
    -h, --help       Prints help information
    -V, --version    Prints version information

SUBCOMMANDS:
    help    Prints this message or the help of the given subcommand(s)
    show    Shows things
    what    So what",
        false,
    );
}

#[test]
fn help() {
    let commander = Commander::new().add_cmd(Command::new("foo").description("Shows foo"));

    assert_result(
        run(&commander, &["program", "foo", "--help"]),
        "program-foo 1.2.3
Jane Doe <jane@example.com>
Shows foo

USAGE:
    program foo

FLAGS:
    -h, --help       Prints help information
    -V, --version    Prints version information",
        false,
    );
}

#[test]
fn substituted_help() {
    let commander = Commander::new()
        .name("program")
        .add_cmd(Command::new("foo").description("Shows foo"));

    assert_result(
        run(&commander, &["program", "foo", "-e"]),
        "error: error: Found argument '-e' which wasn't expected, or isn't valid in this context

program-foo 1.2.3
Jane Doe <jane@example.com>
Shows foo

USAGE:
    program foo

FLAGS:
    -h, --help       Prints help information
    -V, --version    Prints version information",
        false,
    );

    assert_result(
        run(&commander, &["program", "bar"]),
        "error: error: Found argument 'bar' which wasn't expected, or isn't valid in this context

program 1.2.3
Jane Doe <jane@example.com>
Does things

USAGE:
    program [SUBCOMMAND]

FLAGS:
    -h, --help       Prints help information
    -V, --version    Prints version information

SUBCOMMANDS:
    foo     Shows foo
    help    Prints this message or the help of the given subcommand(s)",
        false,
    );
}

#[test]
fn failed_command() {
    let commander = Commander::new().add_cmd(
        Command::new("fail")
            .description("Fails")
            .options(vec![ArgSpec::with_name("debug")
                .short("d")
                .help("Prints debug information verbosely")])
            .runner(RUN_FAIL),
    );

    assert_result(run(&commander, &["test", "fail"]), "error: other os error", true);
}

#[test]
fn clap_nested_two_level_commander() {
    let foo = Command::new("foo").description("Shows foo").runner(RUN_FOO);
    let bar = Command::new("bar").description("Shows bar").runner(RUN_BAR);

    let show = Commander::new()
        .add_cmd(foo)
        .add_cmd(bar)
        .no_cmd(SHOW_NO_CMD)
        .into_cmd("show")
        .description("Shows things");

    let what = Command::new("what").description("So what").runner(RUN_WHAT);

    let commander = Commander::new().add_cmd(show).add_cmd(what);

    assert!(run(&commander, &["program", "show", "foo"]).is_ok());
    assert!(run(&commander, &["program", "show", "bar"]).is_ok());
    assert!(run(&commander, &["program", "show"]).is_ok());
    assert!(run(&commander, &["program", "what"]).is_ok());
}
