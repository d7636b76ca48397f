//! The boundary to the underlying argument parser.
//!
//! Everything the library needs from the parser goes through the small
//! trusted wrappers in this module: building the parser-side schema from
//! an [`AppSpec`], parsing an argument list, rendering a node's help
//! text, and reading a parse verdict back field by field.  The verified
//! [`matches_from_clap`] walks a verdict and turns it into the plain
//! [`Matches`] value the rest of the library works on.

use vstd::prelude::*;
use crate::matches::{ArgValue, Matches};
use crate::schema::{AppSpec, AppView, lemma_apps_view_index, lemma_apps_view_len};
use crate::strutil::str_eq;

verus! {

/// How a parse attempt failed.
#[derive(Clone, Copy, PartialEq, Eq, Structural, Debug)]
pub enum ParseErrorKind {
    /// The user explicitly asked for help.
    Help,
    /// The user explicitly asked for the version.
    Version,
    /// Anything else: unknown flags, bad values, unknown subcommands.
    Other,
}

/// A failed parse attempt: its classification and the parser's fully
/// formatted message.
#[derive(Clone, PartialEq, Eq, Debug)]
pub struct ParseFailure {
    pub kind: ParseErrorKind,
    pub message: String,
}

#[verifier::external_type_specification]
#[verifier::external_body]
pub struct ExApp<'a, 'b>(clap::App<'a, 'b>) where 'a: 'b;

#[verifier::external_type_specification]
#[verifier::external_body]
pub struct ExArg<'a, 'b>(clap::Arg<'a, 'b>) where 'a: 'b;

#[verifier::external_type_specification]
#[verifier::external_body]
pub struct ExArgMatches<'a>(clap::ArgMatches<'a>);

/// Relies on clap::Arg's builder methods (`with_name`, `short`, `long`,
/// `help`, `takes_value`, `value_name`, `global`): copies one [`ArgSpec`]
/// field by field into the parser's argument type.
#[verifier::external_body]
fn to_clap_arg<'a>(a: &'a ArgSpec) -> clap::Arg<'a, 'a> {
    let mut arg = clap::Arg::with_name(a.name.as_str());
    arg = arg.takes_value(a.takes_value).global(a.global);
    if let Some(s) = &a.short {
        arg = arg.short(s.as_str());
    }
    if let Some(l) = &a.long {
        arg = arg.long(l.as_str());
    }
    if let Some(h) = &a.help {
        arg = arg.help(h.as_str());
    }
    if let Some(v) = &a.value_name {
        arg = arg.value_name(v.as_str());
    }
    arg
}

/// Relies on clap::App's metadata builder methods (`new`, `bin_name`,
/// `version`, `about`, `author`, `setting`): copies one node's metadata
/// into the parser's schema type, always with the global-version policy
/// the dispatch layer assumes.
#[verifier::external_body]
fn build_clap_base<'a>(spec: &'a AppSpec) -> clap::App<'a, 'a> {
    let mut app = clap::App::new(spec.name.clone()).setting(clap::AppSettings::GlobalVersion);
    if let Some(b) = &spec.bin_name {
        app = app.bin_name(b.clone());
    }
    if let Some(v) = &spec.version {
        app = app.version(v.as_str());
    }
    if let Some(a) = &spec.about {
        app = app.about(a.as_str());
    }
    if let Some(a) = &spec.author {
        app = app.author(a.as_str());
    }
    app
}

/// Relies on clap::App's `arg` and `subcommand` builder methods: copies
/// an [`AppSpec`] tree node for node into the parser's schema type.
#[verifier::external_body]
fn build_clap_app<'a>(spec: &'a AppSpec) -> clap::App<'a, 'a> {
    let mut app = build_clap_base(spec);
    for a in &spec.args {
        app = app.arg(to_clap_arg(a));
    }
    for s in &spec.subs {
        app = app.subcommand(build_clap_app(s));
    }
    app
}

/// Relies on clap::App::get_matches_from_safe: parses the argument list
/// (the first entry is taken as the binary name) against the schema
/// built from `spec`, handing back either the parser's verdict or its
/// error classified as help, version or other, with its formatted
/// message.
#[verifier::external_body]
pub(crate) fn clap_parse<'a>(spec: &'a AppSpec, args: &Vec<String>) -> Result<
    clap::ArgMatches<'a>,
    ParseFailure,
> {
    let app = build_clap_app(spec);
    match app.get_matches_from_safe(args.iter()) {
        Ok(m) => Ok(m),
        Err(e) => Err(
            ParseFailure {
                kind: match e.kind {
                    clap::ErrorKind::HelpDisplayed => ParseErrorKind::Help,
                    clap::ErrorKind::VersionDisplayed => ParseErrorKind::Version,
                    _ => ParseErrorKind::Other,
                },
                message: e.message,
            },
        ),
    }
}

/// Relies on clap::App::write_help, after the parser's own build steps
/// (clap::Parser::propagate_globals, propagate_settings,
/// derive_display_order and create_help_and_version), so the rendered
/// text includes the generated help and version flags: renders one
/// schema node's help text.  A node without a binary name is rendered
/// under its own name.
#[verifier::external_body]
pub(crate) fn render_clap_help(spec: &AppSpec) -> String {
    let mut app = build_clap_app(spec);
    if app.p.meta.bin_name.is_none() {
        app.p.meta.bin_name = Some(spec.name.clone());
    }
    app.p.propagate_globals();
    app.p.propagate_settings();
    app.p.derive_display_order();
    app.p.create_help_and_version();
    let mut buf: Vec<u8> = Vec::new();
    let _ = app.write_help(&mut buf);
    String::from_utf8_lossy(&buf).into_owned()
}

/// Relies on clap::ArgMatches::occurrences_of: how often the named
/// argument occurred.
#[verifier::external_body]
fn clap_occurrences_of<'a>(m: &clap::ArgMatches<'a>, name: &String) -> u64 {
    m.occurrences_of(name.as_str())
}

/// Relies on clap::ArgMatches::values_of_lossy: the values recorded for
/// the named argument, if any.
#[verifier::external_body]
fn clap_values_of<'a>(m: &'a clap::ArgMatches<'a>, name: &String) -> Option<Vec<String>> {
    m.values_of_lossy(name.as_str())
}

/// Relies on clap::ArgMatches::subcommand_name: the name of the matched
/// subcommand, if one matched.
#[verifier::external_body]
fn clap_subcommand_name<'a>(m: &clap::ArgMatches<'a>) -> Option<String> {
    m.subcommand_name().map(str::to_owned)
}

/// Relies on clap::ArgMatches::subcommand_matches: the verdict of the
/// matched subcommand, if it is the named one.
#[verifier::external_body]
fn clap_sub_matches<'a, 'b>(m: &'b clap::ArgMatches<'a>, name: &String) -> Option<
    &'b clap::ArgMatches<'a>,
> {
    m.subcommand_matches(name.as_str())
}

/// Whether `m` has the shape the schema `spec` admits: one argument
/// entry per declared argument, in declaration order, and a matched
/// subcommand only under a name the schema declares, recursively.
pub open spec fn matches_shaped(spec: AppView, m: Matches) -> bool
    decreases m,
    via matches_shaped_dec
{
    &&& m.args@.len() == spec.args.len()
    &&& forall|i: int| 0 <= i < m.args@.len() ==> (#[trigger] m.args@[i].name)@ == spec.args[i].name
    &&& match m.sub {
        None => true,
        Some((n, sm)) => exists|j: int|
            0 <= j < spec.subs.len() && (#[trigger] spec.subs[j]).name == n@ && matches_shaped(
                spec.subs[j],
                *sm,
            ),
    }
}

#[via_fn]
proof fn matches_shaped_dec(spec: AppView, m: Matches) {
    match m.sub {
        Some((n, sm)) => {
            assert(decreases_to!(m => m.sub));
            assert(decreases_to!(m.sub => (n, sm)));
            assert(decreases_to!((n, sm) => sm));
        },
        None => {},
    }
}

use crate::schema::ArgSpec;

/// Resolves a matched subcommand name against the declared sub-schemas:
/// the first sub-schema of that name, read back recursively, or nothing
/// if the name is not declared or the parser has no verdict for it.
fn resolve_sub<'b>(spec: &AppSpec, m: &clap::ArgMatches<'b>, n: &String) -> (r: Option<
    (String, Box<Matches>),
>)
    ensures
        match r {
            Some(p) => exists|j: int|
                0 <= j < spec@.subs.len() && (#[trigger] spec@.subs[j]).name == p.0@
                    && matches_shaped(spec@.subs[j], *p.1),
            None => true,
        },
    decreases *spec, 0int,
{
    let mut j: usize = 0;
    while j < spec.subs.len()
        invariant
            j <= spec.subs@.len(),
        decreases spec.subs@.len() - j,
    {
        if str_eq(spec.subs[j].name.as_str(), n.as_str()) {
            match clap_sub_matches(m, n) {
                Some(sm) => {
                    proof {
                        assert(decreases_to!(*spec => spec.subs));
                        assert(decreases_to!(spec.subs => spec.subs@));
                        assert(decreases_to!(spec.subs@ => spec.subs@[j as int]));
                    }
                    let inner = matches_from_clap(&spec.subs[j], sm);
                    let r = Some((n.clone(), Box::new(inner)));
                    proof {
                        lemma_apps_view_len(spec.subs@);
                        lemma_apps_view_index(spec.subs@, j as int);
                        assert(spec@.subs[j as int].name == n@ && matches_shaped(
                            spec@.subs[j as int],
                            *r->Some_0.1,
                        ));
                    }
                    return r;
                },
                None => {
                    return None;
                },
            }
        }
        j = j + 1;
    }
    None
}

/// Reads the parser's verdict back into a plain [`Matches`] value,
/// guided by the (propagated) schema: one entry per declared argument,
/// and the matched subcommand resolved against the declared sub-schemas.
pub fn matches_from_clap<'a>(spec: &AppSpec, m: &clap::ArgMatches<'a>) -> (r: Matches)
    ensures
        matches_shaped(spec@, r),
    decreases *spec, 1int,
{
    let mut args: Vec<ArgValue> = Vec::new();
    let mut i: usize = 0;
    while i < spec.args.len()
        invariant
            i <= spec.args@.len(),
            args@.len() == i,
            forall|j: int| 0 <= j < i ==> (#[trigger] args@[j].name)@ == spec.args@[j]@.name,
        decreases spec.args@.len() - i,
    {
        let name = spec.args[i].name.clone();
        let occurs = clap_occurrences_of(m, &name);
        let vals = match clap_values_of(m, &name) {
            Some(v) => v,
            None => Vec::new(),
        };
        args.push(ArgValue { name, occurs, vals });
        i = i + 1;
    }
    let sub: Option<(String, Box<Matches>)> = match clap_subcommand_name(m) {
        Some(n) => resolve_sub(spec, m, &n),
        None => None,
    };
    let r = Matches { args, sub };
    proof {
        assert(spec@.args =~= spec.args@.map_values(|a: ArgSpec| a@));
    }
    r
}

} // verus!
