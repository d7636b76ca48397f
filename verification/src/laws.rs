//! Properties of the dispatch engine, stated and proved once for all
//! registries, verdicts and handler closures.

use vstd::prelude::*;
use crate::dispatch::{children_post, dispatch_post, lemma_first_match, reg_help_iso, runner_post};
use crate::error::{Error, ErrorKind};
use crate::help::{Help, spec_help_child};
use crate::matches::Matches;
use crate::registry::{Command, CommandEntry, Commander, MultiCommand, entry_name, first_match};

verus! {

/// How one dispatch level turns the parent context into its own: through
/// the derivation closure when a tag is set, unchanged otherwise.
pub open spec fn ctx_derived<C, D: Fn(u64, &C, &Matches) -> C>(
    derive: D,
    tag: Option<u64>,
    parent: C,
    m: Matches,
    c: C,
) -> bool {
    match tag {
        Some(t) => call_ensures(derive, (t, &parent, &m), c),
        None => c == parent,
    }
}

/// Dispatch taken apart: some context derived as [`ctx_derived`] says
/// carries the rest of the walk.
pub proof fn lemma_dispatch_unfold<
    C,
    D: Fn(u64, &C, &Matches) -> C,
    R: Fn(u64, &C, &Matches) -> Result<(), Error>,
>(reg: Commander, derive: D, run: R, ctx: C, m: Matches, help: Help, r: Result<(), Error>)
    requires
        dispatch_post(reg, derive, run, ctx, m, help, r),
    ensures
        exists|c1: C|
            #[trigger] ctx_derived(derive, reg.args, ctx, m, c1) && children_post(
                reg,
                derive,
                run,
                c1,
                m,
                help,
                r,
            ),
{
    match reg.args {
        Some(t) => {
            assert(exists|c1: C|
                #[trigger] call_ensures(derive, (t, &ctx, &m), c1) && children_post(
                    reg,
                    derive,
                    run,
                    c1,
                    m,
                    help,
                    r,
                ));
            let c1 = choose|c1: C|
                #[trigger] call_ensures(derive, (t, &ctx, &m), c1) && children_post(
                    reg,
                    derive,
                    run,
                    c1,
                    m,
                    help,
                    r,
                );
            assert(ctx_derived(derive, reg.args, ctx, m, c1));
        },
        None => {
            assert(ctx_derived(derive, reg.args, ctx, m, ctx));
        },
    }
}

/// A name registered exactly once selects exactly that entry: whatever
/// other entries the registry holds and in whatever order, a verdict
/// naming `n` is handled by the one entry named `n`, with the verdict's
/// own sub-verdict.
pub proof fn lemma_unique_child_selected<
    C,
    D: Fn(u64, &C, &Matches) -> C,
    R: Fn(u64, &C, &Matches) -> Result<(), Error>,
>(
    reg: Commander,
    derive: D,
    run: R,
    ctx: C,
    m: Matches,
    help: Help,
    r: Result<(), Error>,
    n: String,
    sm: Box<Matches>,
    i: int,
)
    requires
        dispatch_post(reg, derive, run, ctx, m, help, r),
        m.sub == Some((n, sm)),
        0 <= i < reg.cmds@.len(),
        entry_name(reg.cmds@[i]) == n@,
        forall|j: int|
            0 <= j < reg.cmds@.len() && j != i ==> entry_name(#[trigger] reg.cmds@[j]) != n@,
    ensures
        exists|c1: C|
            #[trigger] ctx_derived(derive, reg.args, ctx, m, c1) && (match reg.cmds@[i] {
                CommandEntry::Leaf(c) => runner_post(run, c.runner, c1, *sm, r),
                CommandEntry::Group(g) => match spec_help_child(help, n@) {
                    Some(h2) => dispatch_post(g.cmd, derive, run, c1, *sm, h2, r),
                    None => true,
                },
            }),
{
    lemma_first_match(reg.cmds@, n@);
    assert(first_match(reg.cmds@, n@) == Some(i));
    lemma_dispatch_unfold(reg, derive, run, ctx, m, help, r);
}

/// With no fallback and a verdict selecting no entry, the outcome is
/// the "help displayed" one, and its text is exactly this registry
/// node's precomputed snapshot text — not a parser error.
pub proof fn lemma_no_match_yields_snapshot<
    C,
    D: Fn(u64, &C, &Matches) -> C,
    R: Fn(u64, &C, &Matches) -> Result<(), Error>,
>(reg: Commander, derive: D, run: R, ctx: C, m: Matches, help: Help, r: Result<(), Error>)
    requires
        dispatch_post(reg, derive, run, ctx, m, help, r),
        reg.no_cmd is None,
        forall|j: int|
            0 <= j < reg.cmds@.len() ==> match m.sub {
                Some(p) => entry_name(#[trigger] reg.cmds@[j]) != p.0@,
                None => true,
            },
    ensures
        r matches Err(e) && e.kind == ErrorKind::HelpDisplayed && e.message@ == "error: "@
            + help.data@,
{
    lemma_dispatch_unfold(reg, derive, run, ctx, m, help, r);
    match m.sub {
        Some(p) => {
            lemma_first_match(reg.cmds@, p.0@);
            assert(first_match(reg.cmds@, p.0@) is None);
        },
        None => {},
    }
}

/// Context derivation composes through nesting: when an outer registry
/// derives `c1` from the starting context and an inner registry,
/// reached through its adapter, derives `c2` from `c1`, a runner inside
/// the inner registry observes exactly `c2` — derivation applied twice,
/// never reset.
pub proof fn lemma_context_composes<
    C,
    D: Fn(u64, &C, &Matches) -> C,
    R: Fn(u64, &C, &Matches) -> Result<(), Error>,
>(
    reg1: Commander,
    derive: D,
    run: R,
    c0: C,
    m0: Matches,
    help: Help,
    r: Result<(), Error>,
    t1: u64,
    t2: u64,
    n1: String,
    m1: Box<Matches>,
    i: int,
    g: MultiCommand,
    n2: String,
    m2: Box<Matches>,
    k: int,
    leaf: Command,
    tr: u64,
    c1v: C,
    c2v: C,
)
    requires
        dispatch_post(reg1, derive, run, c0, m0, help, r),
        reg1.args == Some(t1),
        m0.sub == Some((n1, m1)),
        first_match(reg1.cmds@, n1@) == Some(i),
        reg1.cmds@[i] == CommandEntry::Group(g),
        spec_help_child(help, n1@) is Some,
        g.cmd.args == Some(t2),
        m1.sub == Some((n2, m2)),
        first_match(g.cmd.cmds@, n2@) == Some(k),
        g.cmd.cmds@[k] == CommandEntry::Leaf(leaf),
        leaf.runner == Some(tr),
        forall|t: u64, c: C, mm: Matches, y1: C, y2: C|
            #[trigger] call_ensures(derive, (t, &c, &mm), y1) && #[trigger] call_ensures(
                derive,
                (t, &c, &mm),
                y2,
            ) ==> y1 == y2,
        call_ensures(derive, (t1, &c0, &m0), c1v),
        call_ensures(derive, (t2, &c1v, &*m1), c2v),
    ensures
        call_ensures(run, (tr, &c2v, &*m2), r),
{
    let c1 = choose|c1: C|
        #[trigger] call_ensures(derive, (t1, &c0, &m0), c1) && children_post(
            reg1,
            derive,
            run,
            c1,
            m0,
            help,
            r,
        );
    assert(c1 == c1v);
    let h2 = spec_help_child(help, n1@)->Some_0;
    assert(dispatch_post(g.cmd, derive, run, c1v, *m1, h2, r));
    let c2 = choose|c2: C|
        #[trigger] call_ensures(derive, (t2, &c1v, &*m1), c2) && children_post(
            g.cmd,
            derive,
            run,
            c2,
            *m1,
            h2,
            r,
        );
    assert(c2 == c2v);
    assert(runner_post(run, leaf.runner, c2v, *m2, r));
}

/// Whether two run outcomes agree in everything observable: success, or
/// failure with the same kind and the same message text.
pub open spec fn results_match(r1: Result<(), Error>, r2: Result<(), Error>) -> bool {
    match (r1, r2) {
        (Ok(()), Ok(())) => true,
        (Err(e1), Err(e2)) => e1.kind == e2.kind && e1.message@ == e2.message@,
        _ => false,
    }
}

/// Dispatch is repeatable: the registry is read, never changed, so two
/// dispatches of the same verdict with the same snapshot and with
/// deterministic handler closures agree — no hidden state carries over
/// from one run to the next.
pub proof fn lemma_dispatch_repeatable<
    C,
    D: Fn(u64, &C, &Matches) -> C,
    R: Fn(u64, &C, &Matches) -> Result<(), Error>,
>(
    reg: Commander,
    derive: D,
    run: R,
    ctx: C,
    m: Matches,
    help: Help,
    r1: Result<(), Error>,
    r2: Result<(), Error>,
)
    requires
        reg_help_iso(reg, help),
        dispatch_post(reg, derive, run, ctx, m, help, r1),
        dispatch_post(reg, derive, run, ctx, m, help, r2),
        forall|t: u64, c: C, mm: Matches, y1: C, y2: C|
            #[trigger] call_ensures(derive, (t, &c, &mm), y1) && #[trigger] call_ensures(
                derive,
                (t, &c, &mm),
                y2,
            ) ==> y1 == y2,
        forall|t: u64, c: C, mm: Matches, y1: Result<(), Error>, y2: Result<(), Error>|
            #[trigger] call_ensures(run, (t, &c, &mm), y1) && #[trigger] call_ensures(
                run,
                (t, &c, &mm),
                y2,
            ) ==> results_match(y1, y2),
    ensures
        results_match(r1, r2),
    decreases reg,
{
    lemma_dispatch_unfold(reg, derive, run, ctx, m, help, r1);
    lemma_dispatch_unfold(reg, derive, run, ctx, m, help, r2);
    let c1 = choose|c1: C|
        #[trigger] ctx_derived(derive, reg.args, ctx, m, c1) && children_post(
            reg,
            derive,
            run,
            c1,
            m,
            help,
            r1,
        );
    let c2 = choose|c2: C|
        #[trigger] ctx_derived(derive, reg.args, ctx, m, c2) && children_post(
            reg,
            derive,
            run,
            c2,
            m,
            help,
            r2,
        );
    assert(c1 == c2);
    match m.sub {
        Some((n, sm)) => {
            lemma_first_match(reg.cmds@, n@);
            match first_match(reg.cmds@, n@) {
                Some(i) => {
                    match reg.cmds@[i] {
                        CommandEntry::Leaf(c) => {},
                        CommandEntry::Group(g) => {
                            crate::dispatch::lemma_first_match_help(reg.cmds@, help.cmds@, n@);
                            assert((help.cmds@[i].0)@ == entry_name(reg.cmds@[i]));
                            let h2 = help.cmds@[i].1;
                            assert(spec_help_child(help, n@) == Some(h2));
                            assert(reg_help_iso(g.cmd, h2));
                            assert(decreases_to!(reg => reg.cmds));
                            assert(decreases_to!(reg.cmds => reg.cmds@));
                            assert(decreases_to!(reg.cmds@ => reg.cmds@[i]));
                            match reg.cmds@[i] {
                                CommandEntry::Group(g2) => {
                                    assert(decreases_to!(reg.cmds@[i] => g2));
                                    assert(decreases_to!(g2 => g2.cmd));
                                },
                                CommandEntry::Leaf(_) => {},
                            }
                            lemma_dispatch_repeatable(g.cmd, derive, run, c1, *sm, h2, r1, r2);
                        },
                    }
                },
                None => {},
            }
        },
        None => {},
    }
}

/// A runner that can only yield one error yields exactly it: the
/// dispatch engine passes a runner's failure through unchanged, wrapped
/// in nothing.
pub proof fn lemma_runner_error_propagates<
    C,
    D: Fn(u64, &C, &Matches) -> C,
    R: Fn(u64, &C, &Matches) -> Result<(), Error>,
>(
    reg: Commander,
    derive: D,
    run: R,
    ctx: C,
    m: Matches,
    help: Help,
    r: Result<(), Error>,
    n: String,
    sm: Box<Matches>,
    i: int,
    leaf: Command,
    tr: u64,
    e0: Error,
)
    requires
        dispatch_post(reg, derive, run, ctx, m, help, r),
        m.sub == Some((n, sm)),
        first_match(reg.cmds@, n@) == Some(i),
        reg.cmds@[i] == CommandEntry::Leaf(leaf),
        leaf.runner == Some(tr),
        forall|t: u64, c: C, mm: Matches, y: Result<(), Error>|
            #[trigger] call_ensures(run, (t, &c, &mm), y) ==> y == Err::<(), Error>(e0),
    ensures
        r == Err::<(), Error>(e0),
{
    lemma_dispatch_unfold(reg, derive, run, ctx, m, help, r);
    lemma_first_match(reg.cmds@, n@);
}

} // verus!
