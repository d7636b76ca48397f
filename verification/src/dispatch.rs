//! The dispatch engine: from a registry, a parse verdict and a context
//! value to the matched command's runner, the fallback, or a "help
//! displayed" outcome.
//!
//! Behavior is supplied at the call: a derivation closure gives meaning
//! to the registries' context tags, a runner closure to the commands'
//! runner and fallback tags.  The contract [`dispatch_post`] pins the
//! whole walk down the tree: which entry is selected at each level (the
//! first one whose name the verdict matched), which context each level
//! derives, and exactly what comes back in every case.

use vstd::prelude::*;
use crate::error::{Error, ErrorKind};
use crate::help::{Help, help_iso, spec_help_child, spec_help_index};
use crate::matches::Matches;
use crate::registry::{
    CommandEntry,
    Commander,
    entries_app_view,
    entry_name,
    first_match,
    group_app_view,
    reg_app_view,
    lemma_entries_app_view_index,
    lemma_entries_app_view_len,
};
use crate::schema::{
    AppView,
    ArgView,
    Meta,
    globals_of,
    lemma_propagated_children_index,
    lemma_propagated_children_len,
    opt_view,
    propagated_view,
};
use crate::strutil::str_eq;
use crate::usage::{resolved_error, spec_resolved};

verus! {

/// Whether the help tree `h` mirrors the registry `reg`: one child per
/// entry, in order, under the entry's name, mirroring nested
/// registries recursively.
pub open spec fn reg_help_iso(reg: Commander, h: Help) -> bool
    decreases reg,
    via reg_help_iso_dec
{
    &&& h.cmds@.len() == reg.cmds@.len()
    &&& forall|i: int|
        0 <= i < reg.cmds@.len() ==> (#[trigger] h.cmds@[i].0)@ == entry_name(reg.cmds@[i])
            && match reg.cmds@[i] {
            CommandEntry::Group(g) => reg_help_iso(g.cmd, h.cmds@[i].1),
            CommandEntry::Leaf(_) => true,
        }
}

#[via_fn]
proof fn reg_help_iso_dec(reg: Commander, h: Help) {
    assert forall|i: int|
        0 <= i < reg.cmds@.len() implies match #[trigger] reg.cmds@[i] {
        CommandEntry::Group(g) => decreases_to!(reg => g.cmd),
        CommandEntry::Leaf(_) => true,
    } by {
        assert(decreases_to!(reg => reg.cmds));
        assert(decreases_to!(reg.cmds => reg.cmds@));
        assert(decreases_to!(reg.cmds@ => reg.cmds@[i]));
        match reg.cmds@[i] {
            CommandEntry::Group(g) => {
                assert(decreases_to!(reg.cmds@[i] => g));
                assert(decreases_to!(g => g.cmd));
            },
            CommandEntry::Leaf(_) => {},
        }
    }
}

/// What running one command yields: its runner's verdict if it has a
/// runner, trivial success otherwise.
pub open spec fn runner_post<C, R: Fn(u64, &C, &Matches) -> Result<(), Error>>(
    run: R,
    tag: Option<u64>,
    ctx: C,
    m: Matches,
    r: Result<(), Error>,
) -> bool {
    match tag {
        Some(t) => call_ensures(run, (t, &ctx, &m), r),
        None => r == Ok::<(), Error>(()),
    }
}

/// What an unmatched verdict yields: the fallback's verdict if one is
/// set, and otherwise the "help displayed" outcome carrying exactly
/// this registry's snapshot text.
pub open spec fn no_match_post<C, R: Fn(u64, &C, &Matches) -> Result<(), Error>>(
    run: R,
    no_cmd: Option<u64>,
    ctx: C,
    m: Matches,
    help: Help,
    r: Result<(), Error>,
) -> bool {
    match no_cmd {
        Some(t) => call_ensures(run, (t, &ctx, &m), r),
        None => r matches Err(e) && e.kind == ErrorKind::HelpDisplayed && e.message@ == "error: "@
            + help.data@,
    }
}

/// The dispatch contract for one registry level, after this level's
/// context has been derived.
pub open spec fn children_post<
    C,
    D: Fn(u64, &C, &Matches) -> C,
    R: Fn(u64, &C, &Matches) -> Result<(), Error>,
>(reg: Commander, derive: D, run: R, ctx: C, m: Matches, help: Help, r: Result<(), Error>) -> bool
    decreases reg, 0int,
    via children_post_dec::<C, D, R>
{
    match m.sub {
        Some((n, sm)) => match first_match(reg.cmds@, n@) {
            Some(i) => match reg.cmds@[i] {
                CommandEntry::Leaf(c) => runner_post(run, c.runner, ctx, *sm, r),
                CommandEntry::Group(g) => match spec_help_child(help, n@) {
                    Some(h2) => dispatch_post(g.cmd, derive, run, ctx, *sm, h2, r),
                    None => true,
                },
            },
            None => no_match_post(run, reg.no_cmd, ctx, m, help, r),
        },
        None => no_match_post(run, reg.no_cmd, ctx, m, help, r),
    }
}

/// The dispatch contract for one registry level: a context is derived
/// from the parent context and this level's verdict (the parent context
/// itself where no derivation tag is set), and the rest of the walk
/// proceeds with it.
pub open spec fn dispatch_post<
    C,
    D: Fn(u64, &C, &Matches) -> C,
    R: Fn(u64, &C, &Matches) -> Result<(), Error>,
>(reg: Commander, derive: D, run: R, ctx: C, m: Matches, help: Help, r: Result<(), Error>) -> bool
    decreases reg, 1int,
{
    match reg.args {
        Some(t) => exists|c1: C|
            #[trigger] call_ensures(derive, (t, &ctx, &m), c1) && children_post(
                reg,
                derive,
                run,
                c1,
                m,
                help,
                r,
            ),
        None => children_post(reg, derive, run, ctx, m, help, r),
    }
}

#[via_fn]
proof fn children_post_dec<
    C,
    D: Fn(u64, &C, &Matches) -> C,
    R: Fn(u64, &C, &Matches) -> Result<(), Error>,
>(reg: Commander, derive: D, run: R, ctx: C, m: Matches, help: Help, r: Result<(), Error>) {
    match m.sub {
        Some((n, sm)) => {
            lemma_first_match(reg.cmds@, n@);
            match first_match(reg.cmds@, n@) {
                Some(i) => {
                    assert(decreases_to!(reg => reg.cmds));
                    assert(decreases_to!(reg.cmds => reg.cmds@));
                    assert(decreases_to!(reg.cmds@ => reg.cmds@[i]));
                    match reg.cmds@[i] {
                        CommandEntry::Group(g) => {
                            assert(decreases_to!(reg.cmds@[i] => g));
                            assert(decreases_to!(g => g.cmd));
                        },
                        CommandEntry::Leaf(_) => {},
                    }
                },
                None => {},
            }
        },
        None => {},
    }
}

/// What `first_match` finds: a valid index carrying the name, with no
/// earlier entry of that name — or nothing, when no entry has the name.
pub proof fn lemma_first_match(cmds: Seq<CommandEntry>, name: Seq<char>)
    ensures
        match first_match(cmds, name) {
            Some(i) => 0 <= i < cmds.len() && entry_name(cmds[i]) == name && forall|j: int|
                0 <= j < i ==> entry_name(#[trigger] cmds[j]) != name,
            None => forall|j: int| 0 <= j < cmds.len() ==> entry_name(#[trigger] cmds[j]) != name,
        },
    decreases cmds.len(),
{
    if cmds.len() != 0 && entry_name(cmds[0]) != name {
        lemma_first_match(cmds.skip(1), name);
        let rest = cmds.skip(1);
        assert(forall|j: int| 0 <= j < rest.len() ==> #[trigger] rest[j] == cmds[j + 1]);
        match first_match(rest, name) {
            Some(i2) => {
                assert(entry_name(cmds[i2 + 1]) == name);
                assert forall|j: int| 0 <= j < i2 + 1 implies entry_name(#[trigger] cmds[j])
                    != name by {
                    if j > 0 {
                        assert(entry_name(rest[j - 1]) != name);
                    }
                }
            },
            None => {
                assert forall|j: int| 0 <= j < cmds.len() implies entry_name(#[trigger] cmds[j])
                    != name by {
                    if j > 0 {
                        assert(entry_name(rest[j - 1]) != name);
                    }
                }
            },
        }
    }
}

/// Name-aligned sequences resolve a name at the same position: with the
/// help tree mirroring the registry, the snapshot child found under a
/// name sits at the index `first_match` finds.
pub proof fn lemma_first_match_help(
    cmds: Seq<CommandEntry>,
    pairs: Seq<(String, Help)>,
    name: Seq<char>,
)
    requires
        pairs.len() == cmds.len(),
        forall|i: int| 0 <= i < cmds.len() ==> (#[trigger] pairs[i].0)@ == entry_name(cmds[i]),
    ensures
        match first_match(cmds, name) {
            Some(i) => spec_help_index(pairs, name) == Some(i),
            None => spec_help_index(pairs, name) is None,
        },
    decreases cmds.len(),
{
    if cmds.len() != 0 {
        if entry_name(cmds[0]) != name {
            assert forall|i: int|
                0 <= i < cmds.skip(1).len() implies (#[trigger] pairs.skip(1)[i].0)@ == entry_name(
                cmds.skip(1)[i],
            ) by {
                assert(pairs.skip(1)[i] == pairs[i + 1]);
                assert(cmds.skip(1)[i] == cmds[i + 1]);
            }
            lemma_first_match_help(cmds.skip(1), pairs.skip(1), name);
        }
    }
}

impl Commander {
    /// Runs the fallback, or produces the "help displayed" outcome with
    /// this registry's snapshot text.
    fn run_no_match<C, R>(&self, ctx: &C, m: &Matches, help: &Help, run: &R) -> (r: Result<
        (),
        Error,
    >) where R: Fn(u64, &C, &Matches) -> Result<(), Error>
        requires
            forall|t: u64, c: C, mm: Matches| #[trigger] call_requires(*run, (t, &c, &mm)),
        ensures
            no_match_post(*run, self.no_cmd, *ctx, *m, *help, r),
    {
        match self.no_cmd {
            Some(t) => run(t, ctx, m),
            None => Err(Error::with_description(help.data.as_str(), ErrorKind::HelpDisplayed)),
        }
    }

    /// Dispatches a verdict at this registry level with an already
    /// derived context: runs the first entry whose name the verdict
    /// matched, recursing through nested registries, and falls back to
    /// [`Self::run_no_match`] when nothing matched.
    #[verifier::loop_isolation(false)]
    fn dispatch_children<C, D, R>(
        &self,
        ctx: &C,
        m: &Matches,
        help: &Help,
        derive: &D,
        run: &R,
    ) -> (r: Result<(), Error>) where
        D: Fn(u64, &C, &Matches) -> C,
        R: Fn(u64, &C, &Matches) -> Result<(), Error>,

        requires
            reg_help_iso(*self, *help),
            forall|t: u64, c: C, mm: Matches| #[trigger] call_requires(*derive, (t, &c, &mm)),
            forall|t: u64, c: C, mm: Matches| #[trigger] call_requires(*run, (t, &c, &mm)),
        ensures
            children_post(*self, *derive, *run, *ctx, *m, *help, r),
        decreases *self, 0int,
    {
        match &m.sub {
            Some((n, sm)) => {
                let mut i: usize = 0;
                while i < self.cmds.len()
                    invariant
                        i <= self.cmds@.len(),
                        forall|j: int| 0 <= j < i ==> entry_name(#[trigger] self.cmds@[j]) != n@,
                    decreases self.cmds@.len() - i,
                {
                    let e = &self.cmds[i];
                    let ename: &String = match e {
                        CommandEntry::Leaf(c) => &c.name,
                        CommandEntry::Group(g) => &g.name,
                    };
                    if str_eq(ename.as_str(), n.as_str()) {
                        proof {
                            lemma_first_match(self.cmds@, n@);
                            assert(first_match(self.cmds@, n@) == Some(i as int));
                        }
                        match e {
                            CommandEntry::Leaf(c) => {
                                let res = match c.runner {
                                    Some(t) => run(t, ctx, &**sm),
                                    None => Ok(()),
                                };
                                return res;
                            },
                            CommandEntry::Group(g) => {
                                proof {
                                    lemma_first_match_help(self.cmds@, help.cmds@, n@);
                                }
                                let h2 = match help.child(n.as_str()) {
                                    Some(h) => h,
                                    None => unreached(),
                                };
                                proof {
                                    assert(help.cmds@[i as int].0@ == entry_name(
                                        self.cmds@[i as int],
                                    ));
                                    assert(spec_help_index(help.cmds@, n@) == Some(i as int));
                                    assert(*h2 == help.cmds@[i as int].1);
                                    assert(reg_help_iso(g.cmd, *h2));
                                    assert(decreases_to!(*self => self.cmds));
                                    assert(decreases_to!(self.cmds => self.cmds@));
                                    assert(decreases_to!(self.cmds@ => self.cmds@[i as int]));
                                    assert(decreases_to!(self.cmds@[i as int] => *g));
                                    assert(decreases_to!(*g => g.cmd));
                                }
                                return g.cmd.run_with_data(ctx, &**sm, h2, derive, run);
                            },
                        }
                    }
                    i = i + 1;
                }
                proof {
                    lemma_first_match(self.cmds@, n@);
                }
                self.run_no_match(ctx, m, help, run)
            },
            None => self.run_no_match(ctx, m, help, run),
        }
    }

    /// Dispatches a verdict at this registry level: derives this
    /// level's context — through the derivation closure if a tag is
    /// set, passing the parent context through otherwise — and hands it
    /// to [`Self::dispatch_children`].
    pub fn run_with_data<C, D, R>(
        &self,
        ctx: &C,
        m: &Matches,
        help: &Help,
        derive: &D,
        run: &R,
    ) -> (r: Result<(), Error>) where
        D: Fn(u64, &C, &Matches) -> C,
        R: Fn(u64, &C, &Matches) -> Result<(), Error>,

        requires
            reg_help_iso(*self, *help),
            forall|t: u64, c: C, mm: Matches| #[trigger] call_requires(*derive, (t, &c, &mm)),
            forall|t: u64, c: C, mm: Matches| #[trigger] call_requires(*run, (t, &c, &mm)),
        ensures
            dispatch_post(*self, *derive, *run, *ctx, *m, *help, r),
        decreases *self, 1int,
    {
        match self.args {
            Some(t) => {
                let c1 = derive(t, ctx, m);
                let r = self.dispatch_children(&c1, m, help, derive, run);
                proof {
                    assert(call_ensures(*derive, (t, ctx, m), c1) && children_post(
                        *self,
                        *derive,
                        *run,
                        c1,
                        *m,
                        *help,
                        r,
                    ));
                }
                r
            },
            None => self.dispatch_children(ctx, m, help, derive, run),
        }
    }
}


/// A help tree that mirrors a propagated schema whose sub-schemas come
/// from a registry's entries mirrors the registry itself: the snapshot
/// taken after schema building and propagation is exactly shaped for
/// dispatch.
pub proof fn lemma_help_iso_to_reg(
    reg: Commander,
    meta: Meta,
    v: AppView,
    bin: Seq<char>,
    version: Option<Seq<char>>,
    author: Option<Seq<char>>,
    inherited: Seq<ArgView>,
    h: Help,
)
    requires
        v.subs == entries_app_view(reg.cmds@, meta),
        help_iso(h, propagated_view(v, bin, version, author, inherited)),
    ensures
        reg_help_iso(reg, h),
    decreases reg,
{
    let p = propagated_view(v, bin, version, author, inherited);
    let inh2 = inherited + globals_of(v.args);
    lemma_propagated_children_len(v.subs, bin, version, author, inh2);
    lemma_entries_app_view_len(reg.cmds@, meta);
    assert(h.cmds@.len() == reg.cmds@.len());
    assert forall|i: int|
        0 <= i < reg.cmds@.len() implies (#[trigger] h.cmds@[i].0)@ == entry_name(reg.cmds@[i])
            && match reg.cmds@[i] {
            CommandEntry::Group(g) => reg_help_iso(g.cmd, h.cmds@[i].1),
            CommandEntry::Leaf(_) => true,
        } by {
        lemma_propagated_children_index(v.subs, bin, version, author, inh2, i);
        lemma_entries_app_view_index(reg.cmds@, meta, i);
        let sub = v.subs[i];
        let bin_i = bin + " "@ + sub.name;
        let ver_i = if sub.version is Some {
            sub.version
        } else {
            version
        };
        let auth_i = if author is Some {
            author
        } else {
            sub.author
        };
        assert(p.subs[i] == propagated_view(sub, bin_i, ver_i, auth_i, inh2));
        assert(p.subs[i].name == sub.name);
        assert((h.cmds@[i].0)@ == p.subs[i].name);
        assert(help_iso(h.cmds@[i].1, p.subs[i]));
        match reg.cmds@[i] {
            CommandEntry::Group(g) => {
                assert(sub == group_app_view(g, meta));
                assert(sub.subs == entries_app_view(g.cmd.cmds@, meta));
                assert(decreases_to!(reg => reg.cmds));
                assert(decreases_to!(reg.cmds => reg.cmds@));
                assert(decreases_to!(reg.cmds@ => reg.cmds@[i]));
                assert(decreases_to!(reg.cmds@[i] => g));
                assert(decreases_to!(g => g.cmd));
                lemma_help_iso_to_reg(g.cmd, meta, sub, bin_i, ver_i, auth_i, inh2, h.cmds@[i].1);
            },
            CommandEntry::Leaf(_) => {},
        }
    }
}

/// Changing only a schema node's recorded binary name changes nothing
/// about its propagated copy: propagation resolves the binary-name path
/// from its own arguments.
pub proof fn lemma_propagated_ignores_bin_field(
    a1: AppView,
    a2: AppView,
    bin: Seq<char>,
    version: Option<Seq<char>>,
    author: Option<Seq<char>>,
    inherited: Seq<ArgView>,
)
    requires
        a2 == (AppView { bin_name: a2.bin_name, ..a1 }),
    ensures
        propagated_view(a1, bin, version, author, inherited) == propagated_view(
            a2,
            bin,
            version,
            author,
            inherited,
        ),
{
    assert(propagated_view(a1, bin, version, author, inherited) =~= propagated_view(
        a2,
        bin,
        version,
        author,
        inherited,
    ));
}

/// What the run entry point may hand back: a dispatch outcome reached
/// through a help snapshot mirroring the registry and a parse verdict
/// shaped by the registry's propagated schema, the parser's own help or
/// version outcome passed through, a rewritten parse error resolved
/// against such a snapshot, or a distinct internal fault.
pub open spec fn run_with_args_post<
    C,
    D: Fn(u64, &C, &Matches) -> C,
    R: Fn(u64, &C, &Matches) -> Result<(), Error>,
>(reg: Commander, meta: Meta, ctx: C, derive: D, run: R, r: Result<(), Error>) -> bool {
    ||| (exists|h: Help, m: Matches, bin: Seq<char>|
        {
            &&& reg_help_iso(reg, h)
            &&& #[trigger] crate::parser::matches_shaped(
                propagated_view(
                    reg_app_view(reg, meta),
                    bin,
                    Some(meta.version@),
                    Some(meta.author@),
                    Seq::empty(),
                ),
                m,
            )
            &&& #[trigger] dispatch_post(reg, derive, run, ctx, m, h, r)
        })
    ||| (exists|h: Help, pmsg: Seq<char>|
        {
            &&& reg_help_iso(reg, h)
            &&& r matches Err(e)
            &&& e.kind == (#[trigger] spec_resolved(pmsg, h)).0
            &&& e.message@ == spec_resolved(pmsg, h).1
        })
    ||| (r matches Err(e) && (e.kind == ErrorKind::HelpDisplayed || e.kind
        == ErrorKind::VersionDisplayed))
}

impl Commander {
    /// The run entry point: builds the schema (inferring the displayed
    /// program name from the first argument's file name when none is
    /// set), propagates shared metadata and global arguments through
    /// it, captures the help snapshot, parses the argument list, and
    /// either dispatches the verdict or rewrites the parse error as
    /// [`resolved_error`] says.  Help and version requests pass through
    /// unchanged.
    pub fn run_with_args<C, D, R>(
        &self,
        meta: &Meta,
        args: &Vec<String>,
        ctx: &C,
        derive: &D,
        run: &R,
    ) -> (r: Result<(), Error>) where
        D: Fn(u64, &C, &Matches) -> C,
        R: Fn(u64, &C, &Matches) -> Result<(), Error>,

        requires
            forall|t: u64, c: C, mm: Matches| #[trigger] call_requires(*derive, (t, &c, &mm)),
            forall|t: u64, c: C, mm: Matches| #[trigger] call_requires(*run, (t, &c, &mm)),
        ensures
            run_with_args_post(*self, *meta, *ctx, *derive, *run, r),
    {
        let mut spec0 = self.app(meta);
        if args.len() > 0 {
            match crate::strutil::file_name(args[0].as_str()) {
                Some(b) => {
                    spec0.bin_name = Some(b);
                },
                None => {},
            }
        }
        let pspec = spec0.propagated();
        let help = Help::from(&pspec);
        proof {
            assert(spec0@.subs == entries_app_view(self.cmds@, *meta));
            lemma_help_iso_to_reg(
                *self,
                *meta,
                spec0@,
                spec0.spec_effective_bin(),
                opt_view(spec0.version),
                opt_view(spec0.author),
                Seq::<ArgView>::empty(),
                help,
            );
        }
        let parse_spec = spec0.author_propagated();
        match crate::parser::clap_parse(&parse_spec, args) {
            Ok(cm) => {
                let m = crate::parser::matches_from_clap(&pspec, &cm);
                let r = self.run_with_data(ctx, &m, &help, derive, run);
                proof {
                    lemma_propagated_ignores_bin_field(
                        reg_app_view(*self, *meta),
                        spec0@,
                        spec0.spec_effective_bin(),
                        opt_view(spec0.version),
                        opt_view(spec0.author),
                        Seq::empty(),
                    );
                    assert(reg_help_iso(*self, help) && crate::parser::matches_shaped(
                        propagated_view(
                            reg_app_view(*self, *meta),
                            spec0.spec_effective_bin(),
                            Some(meta.version@),
                            Some(meta.author@),
                            Seq::empty(),
                        ),
                        m,
                    ) && dispatch_post(*self, *derive, *run, *ctx, m, help, r));
                }
                r
            },
            Err(pf) => {
                match pf.kind {
                    crate::parser::ParseErrorKind::Help => Err(
                        Error::raw(pf.message, ErrorKind::HelpDisplayed),
                    ),
                    crate::parser::ParseErrorKind::Version => Err(
                        Error::raw(pf.message, ErrorKind::VersionDisplayed),
                    ),
                    crate::parser::ParseErrorKind::Other => {
                        let e = resolved_error(&pf.message, &help);
                        proof {
                            assert(reg_help_iso(*self, help) && e.kind == spec_resolved(
                                pf.message@,
                                help,
                            ).0 && e.message@ == spec_resolved(pf.message@, help).1);
                        }
                        Err(e)
                    },
                }
            },
        }
    }
}

} // verus!
