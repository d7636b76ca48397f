//! The command registry and its dispatch engine.
//!
//! A [`Command`] is one directly runnable subcommand; a [`Commander`] is
//! an ordered registry of commands or — through [`MultiCommand`] —
//! whole nested registries.  Behavior is not stored in the tree: a
//! command or fallback carries a numeric runner tag and a registry a
//! numeric context-derivation tag, and the caller of the run entry
//! points supplies two closures that give the tags meaning.  Dispatch
//! walks the tree, derives a context value at every registry level, and
//! hands the matched command's tag, the derived context and the
//! sub-verdict to the runner closure.

use vstd::prelude::*;
use vstd::string::*;
use crate::schema::{
    AppSpec,
    AppView,
    ArgSpec,
    Meta,
    apps_view,
    lemma_apps_view_index,
    lemma_apps_view_len,
    opt_view,
};

verus! {

/// A single subcommand: a name, an optional description, its own
/// arguments, and optionally the tag of the runner that executes it.
pub struct Command {
    pub name: String,
    pub desc: Option<String>,
    pub opts: Vec<ArgSpec>,
    pub runner: Option<u64>,
}

/// A registry wrapped as a single named command, so whole registries
/// nest inside other registries.
pub struct MultiCommand {
    pub name: String,
    pub desc: Option<String>,
    pub cmd: Commander,
}

/// One entry of a registry: a directly runnable command or a nested
/// registry.
pub enum CommandEntry {
    Leaf(Command),
    Group(MultiCommand),
}

/// An ordered registry of commands sharing an option schema, a
/// context-derivation tag and a fallback for unmatched input.
pub struct Commander {
    pub name: Option<String>,
    pub opts: Vec<ArgSpec>,
    pub args: Option<u64>,
    pub cmds: Vec<CommandEntry>,
    pub no_cmd: Option<u64>,
}

/// The name under which an entry is dispatched.
pub open spec fn entry_name(e: CommandEntry) -> Seq<char> {
    match e {
        CommandEntry::Leaf(c) => c.name@,
        CommandEntry::Group(g) => g.name@,
    }
}

/// The index of the first entry of `cmds` named `name`, if any.
pub open spec fn first_match(cmds: Seq<CommandEntry>, name: Seq<char>) -> Option<int>
    decreases cmds.len(),
{
    if cmds.len() == 0 {
        None
    } else if entry_name(cmds[0]) == name {
        Some(0)
    } else {
        match first_match(cmds.skip(1), name) {
            Some(i) => Some(i + 1),
            None => None,
        }
    }
}

/// The schema a single command contributes: a named sub-schema with its
/// description and its own arguments.
pub open spec fn cmd_app_view(c: Command) -> AppView {
    AppView {
        name: c.name@,
        bin_name: None,
        version: None,
        about: opt_view(c.desc),
        author: None,
        args: c.opts@.map_values(|a: ArgSpec| a@),
        subs: Seq::empty(),
    }
}

/// The schema a whole registry contributes as the root of a tree: the
/// registry's name (or the package name), the package metadata, the
/// registry's own arguments, and one sub-schema per entry.
pub open spec fn reg_app_view(reg: Commander, meta: Meta) -> AppView
    decreases reg, 2int,
    via reg_app_view_dec
{
    AppView {
        name: match reg.name {
            Some(n) => n@,
            None => meta.name@,
        },
        bin_name: None,
        version: Some(meta.version@),
        about: Some(meta.description@),
        author: Some(meta.author@),
        args: reg.opts@.map_values(|a: ArgSpec| a@),
        subs: entries_app_view(reg.cmds@, meta),
    }
}

/// The sub-schemas contributed by a sequence of entries.
pub open spec fn entries_app_view(s: Seq<CommandEntry>, meta: Meta) -> Seq<AppView>
    decreases s, 1int,
    via entries_app_view_dec
{
    if s.len() == 0 {
        Seq::empty()
    } else {
        entries_app_view(s.drop_last(), meta).push(entry_app_view(s.last(), meta))
    }
}

/// The sub-schema one entry contributes.
pub open spec fn entry_app_view(e: CommandEntry, meta: Meta) -> AppView
    decreases e, 1int,
    via entry_app_view_dec
{
    match e {
        CommandEntry::Leaf(c) => cmd_app_view(c),
        CommandEntry::Group(g) => group_app_view(g, meta),
    }
}

/// The sub-schema a nested registry contributes: the inner registry's
/// schema under the adapter's name, with the adapter's description if
/// it has one.
pub open spec fn group_app_view(g: MultiCommand, meta: Meta) -> AppView
    decreases g, 3int,
    via group_app_view_dec
{
    let inner = reg_app_view(g.cmd, meta);
    AppView {
        name: g.name@,
        about: if g.desc is Some {
            opt_view(g.desc)
        } else {
            inner.about
        },
        ..inner
    }
}

#[via_fn]
proof fn reg_app_view_dec(reg: Commander, meta: Meta) {
    assert(decreases_to!(reg => reg.cmds));
    assert(decreases_to!(reg.cmds => reg.cmds@));
}

#[via_fn]
proof fn entries_app_view_dec(s: Seq<CommandEntry>, meta: Meta) {
    if s.len() != 0 {
        vstd::seq::axiom_seq_subrange_decreases(s, 0, s.len() - 1);
    }
}

#[via_fn]
proof fn entry_app_view_dec(e: CommandEntry, meta: Meta) {
    match e {
        CommandEntry::Group(g) => {
            assert(decreases_to!(e => g));
        },
        CommandEntry::Leaf(_) => {},
    }
}

#[via_fn]
proof fn group_app_view_dec(g: MultiCommand, meta: Meta) {
    assert(decreases_to!(g => g.cmd));
}

/// `entries_app_view` taken apart: entry `i` contributes sub-schema `i`.
pub proof fn lemma_entries_app_view_index(s: Seq<CommandEntry>, meta: Meta, i: int)
    requires
        0 <= i < s.len(),
    ensures
        entries_app_view(s, meta).len() == s.len(),
        entries_app_view(s, meta)[i] == entry_app_view(s[i], meta),
    decreases s.len(),
{
    lemma_entries_app_view_len(s, meta);
    if i < s.len() - 1 {
        lemma_entries_app_view_index(s.drop_last(), meta, i);
    }
}

/// `entries_app_view` preserves length.
pub proof fn lemma_entries_app_view_len(s: Seq<CommandEntry>, meta: Meta)
    ensures
        entries_app_view(s, meta).len() == s.len(),
    decreases s.len(),
{
    if s.len() != 0 {
        lemma_entries_app_view_len(s.drop_last(), meta);
    }
}

/// Copies an argument list.
pub(crate) fn dup_args(opts: &Vec<ArgSpec>) -> (r: Vec<ArgSpec>)
    ensures
        r@.map_values(|a: ArgSpec| a@) == opts@.map_values(|a: ArgSpec| a@),
        r@.len() == opts@.len(),
{
    let mut out: Vec<ArgSpec> = Vec::new();
    let mut i: usize = 0;
    while i < opts.len()
        invariant
            i <= opts@.len(),
            out@.len() == i,
            forall|j: int| 0 <= j < i ==> (#[trigger] out@[j])@ == opts@[j]@,
        decreases opts@.len() - i,
    {
        let a = &opts[i];
        let d = ArgSpec {
            name: a.name.clone(),
            short: crate::schema::opt_dup(&a.short),
            long: crate::schema::opt_dup(&a.long),
            help: crate::schema::opt_dup(&a.help),
            takes_value: a.takes_value,
            value_name: crate::schema::opt_dup(&a.value_name),
            global: a.global,
        };
        proof {
            assert(d@ =~= a@);
        }
        out.push(d);
        i = i + 1;
    }
    proof {
        assert(out@.map_values(|a: ArgSpec| a@) =~= opts@.map_values(|a: ArgSpec| a@));
    }
    out
}

impl Command {
    /// A new command with the given name: no description, no arguments,
    /// no runner.
    pub fn new(name: &str) -> (r: Command)
        ensures
            r.name@ == name@,
            r.desc is None,
            r.opts@ == Seq::<ArgSpec>::empty(),
            r.runner is None,
    {
        Command { name: String::from_str(name), desc: None, opts: Vec::new(), runner: None }
    }

    /// Sets the description.
    pub fn description(self, desc: &str) -> (r: Command)
        ensures
            r.name == self.name,
            r.desc matches Some(d) && d@ == desc@,
            r.opts == self.opts,
            r.runner == self.runner,
    {
        Command { desc: Some(String::from_str(desc)), ..self }
    }

    /// Contributes additional arguments to the command's schema.
    pub fn options(self, opts: Vec<ArgSpec>) -> (r: Command)
        ensures
            r.name == self.name,
            r.desc == self.desc,
            r.opts@ == self.opts@ + opts@,
            r.runner == self.runner,
    {
        let mut all = self.opts;
        let mut more = opts;
        all.append(&mut more);
        Command { opts: all, ..self }
    }

    /// Sets the tag of the runner that executes this command.
    pub fn runner(self, tag: u64) -> (r: Command)
        ensures
            r.name == self.name,
            r.desc == self.desc,
            r.opts == self.opts,
            r.runner == Some(tag),
    {
        Command { runner: Some(tag), ..self }
    }

    /// The name under which the command is dispatched.
    pub fn name(&self) -> (r: &String)
        ensures
            r == &self.name,
    {
        &self.name
    }

    /// The sub-schema this command contributes.
    pub fn app(&self) -> (r: AppSpec)
        ensures
            r@ == cmd_app_view(*self),
    {
        let r = AppSpec {
            name: self.name.clone(),
            bin_name: None,
            version: None,
            about: crate::schema::opt_dup(&self.desc),
            author: None,
            args: dup_args(&self.opts),
            subs: Vec::new(),
        };
        proof {
            lemma_apps_view_len(r.subs@);
            assert(r@ =~= cmd_app_view(*self));
        }
        r
    }
}

impl MultiCommand {
    /// Sets the description shown for the wrapped registry.
    pub fn description(self, desc: &str) -> (r: MultiCommand)
        ensures
            r.name == self.name,
            r.desc matches Some(d) && d@ == desc@,
            r.cmd == self.cmd,
    {
        MultiCommand { desc: Some(String::from_str(desc)), ..self }
    }

    /// The name under which the wrapped registry is dispatched.
    pub fn name(&self) -> (r: &String)
        ensures
            r == &self.name,
    {
        &self.name
    }

    /// The sub-schema this adapter contributes: the inner registry's
    /// schema under the adapter's name and description.
    pub fn app(&self, meta: &Meta) -> (r: AppSpec)
        ensures
            r@ == group_app_view(*self, *meta),
        decreases *self, 3int,
    {
        proof {
            assert(decreases_to!(*self => self.cmd));
        }
        let inner = self.cmd.app(meta);
        let r = AppSpec {
            name: self.name.clone(),
            about: match &self.desc {
                Some(d) => Some(d.clone()),
                None => inner.about,
            },
            ..inner
        };
        proof {
            assert(r@ =~= group_app_view(*self, *meta));
        }
        r
    }
}

impl Commander {
    /// An empty registry: no entries, identity context derivation, no
    /// fallback.
    pub fn new() -> (r: Commander)
        ensures
            r.name is None,
            r.opts@ == Seq::<ArgSpec>::empty(),
            r.args is None,
            r.cmds@ == Seq::<CommandEntry>::empty(),
            r.no_cmd is None,
    {
        Commander { name: None, opts: Vec::new(), args: None, cmds: Vec::new(), no_cmd: None }
    }

    /// Overrides the displayed program name.
    pub fn name(self, name: &str) -> (r: Commander)
        ensures
            r.name matches Some(n) && n@ == name@,
            r.opts == self.opts,
            r.args == self.args,
            r.cmds == self.cmds,
            r.no_cmd == self.no_cmd,
    {
        Commander { name: Some(String::from_str(name)), ..self }
    }

    /// Contributes additional arguments to the registry's own top-level
    /// schema.
    pub fn options(self, opts: Vec<ArgSpec>) -> (r: Commander)
        ensures
            r.name == self.name,
            r.opts@ == self.opts@ + opts@,
            r.args == self.args,
            r.cmds == self.cmds,
            r.no_cmd == self.no_cmd,
    {
        let mut all = self.opts;
        let mut more = opts;
        all.append(&mut more);
        Commander { opts: all, ..self }
    }

    /// Sets the context-derivation tag — and, because previously added
    /// entries and the fallback were built for the registry's previous
    /// context, discards them.
    pub fn args(self, tag: u64) -> (r: Commander)
        ensures
            r.name == self.name,
            r.opts == self.opts,
            r.args == Some(tag),
            r.cmds@ == Seq::<CommandEntry>::empty(),
            r.no_cmd is None,
    {
        Commander { args: Some(tag), cmds: Vec::new(), no_cmd: None, ..self }
    }

    /// Appends an entry — a command, or a nested registry through its
    /// adapter — to the ordered entry list.
    pub fn add_cmd<E>(self, cmd: E) -> (r: Commander) where CommandEntry: From<E>
        ensures
            r.name == self.name,
            r.opts == self.opts,
            r.args == self.args,
            <CommandEntry as vstd::std_specs::convert::FromSpec<E>>::obeys_from_spec()
                ==> r.cmds@ == self.cmds@.push(
                <CommandEntry as vstd::std_specs::convert::FromSpec<E>>::from_spec(cmd)),
            r.no_cmd == self.no_cmd,
    {
        let mut cmds = self.cmds;
        cmds.push(CommandEntry::from(cmd));
        Commander { cmds, ..self }
    }

    /// Sets the fallback tag, run when no entry matches.
    pub fn no_cmd(self, tag: u64) -> (r: Commander)
        ensures
            r.name == self.name,
            r.opts == self.opts,
            r.args == self.args,
            r.cmds == self.cmds,
            r.no_cmd == Some(tag),
    {
        Commander { no_cmd: Some(tag), ..self }
    }

    /// Wraps this registry as a single named command for an outer
    /// registry.
    pub fn into_cmd(self, name: &str) -> (r: MultiCommand)
        ensures
            r.name@ == name@,
            r.desc is None,
            r.cmd == self,
    {
        MultiCommand { name: String::from_str(name), desc: None, cmd: self }
    }

    /// The full schema of this registry: package metadata, the
    /// registry's own arguments, and one sub-schema per entry.
    pub fn app(&self, meta: &Meta) -> (r: AppSpec)
        ensures
            r@ == reg_app_view(*self, *meta),
        decreases *self, 2int,
    {
        let name = match &self.name {
            Some(n) => n.clone(),
            None => meta.name.clone(),
        };
        let mut subs: Vec<AppSpec> = Vec::new();
        let mut i: usize = 0;
        while i < self.cmds.len()
            invariant
                i <= self.cmds@.len(),
                subs@.len() == i,
                forall|j: int|
                    0 <= j < i ==> (#[trigger] subs@[j])@ == entry_app_view(self.cmds@[j], *meta),
            decreases self.cmds@.len() - i, 1int,
        {
            proof {
                assert(decreases_to!(*self => self.cmds));
                assert(decreases_to!(self.cmds => self.cmds@));
                assert(decreases_to!(self.cmds@ => self.cmds@[i as int]));
            }
            let sub = match &self.cmds[i] {
                CommandEntry::Leaf(c) => c.app(),
                CommandEntry::Group(g) => {
                    proof {
                        assert(decreases_to!(self.cmds@[i as int] => *g));
                    }
                    g.app(meta)
                },
            };
            subs.push(sub);
            i = i + 1;
        }
        let r = AppSpec {
            name,
            bin_name: None,
            version: Some(meta.version.clone()),
            about: Some(meta.description.clone()),
            author: Some(meta.author.clone()),
            args: dup_args(&self.opts),
            subs,
        };
        proof {
            lemma_apps_view_len(r.subs@);
            lemma_entries_app_view_len(self.cmds@, *meta);
            assert forall|j: int| 0 <= j < r.subs@.len() implies apps_view(r.subs@)[j]
                == entries_app_view(self.cmds@, *meta)[j] by {
                lemma_apps_view_index(r.subs@, j);
                lemma_entries_app_view_index(self.cmds@, *meta, j);
            }
            assert(apps_view(r.subs@) =~= entries_app_view(self.cmds@, *meta));
            assert(r@ =~= reg_app_view(*self, *meta));
        }
        r
    }
}

impl From<Command> for CommandEntry {
    /// A command becomes a leaf entry.
    fn from(c: Command) -> (r: CommandEntry)
        ensures
            r == CommandEntry::Leaf(c),
    {
        CommandEntry::Leaf(c)
    }
}

impl vstd::std_specs::convert::FromSpecImpl<Command> for CommandEntry {
    open spec fn obeys_from_spec() -> bool {
        true
    }

    open spec fn from_spec(c: Command) -> CommandEntry {
        CommandEntry::Leaf(c)
    }
}

impl From<MultiCommand> for CommandEntry {
    /// A wrapped registry becomes a group entry.
    fn from(g: MultiCommand) -> (r: CommandEntry)
        ensures
            r == CommandEntry::Group(g),
    {
        CommandEntry::Group(g)
    }
}

impl vstd::std_specs::convert::FromSpecImpl<MultiCommand> for CommandEntry {
    open spec fn obeys_from_spec() -> bool {
        true
    }

    open spec fn from_spec(g: MultiCommand) -> CommandEntry {
        CommandEntry::Group(g)
    }
}

} // verus!
