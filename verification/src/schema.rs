//! The declarative argument schema handed to the underlying parser.
//!
//! An [`AppSpec`] tree describes one program or subcommand node: its
//! metadata, its declared arguments and its nested sub-schemas.  The
//! parser does not propagate shared metadata (author, version under a
//! global-version policy, binary-name prefixes, global arguments) into
//! nested schemas when they are handled one by one, so [`AppSpec::propagated`]
//! performs that propagation here, as verified data manipulation, before
//! any node is rendered or read back.

use vstd::prelude::*;
use vstd::string::*;

verus! {

/// One declared argument: a name plus the parser-facing settings this
/// layer lets callers choose.
#[derive(Clone, PartialEq, Eq, Debug)]
pub struct ArgSpec {
    pub name: String,
    pub short: Option<String>,
    pub long: Option<String>,
    pub help: Option<String>,
    pub takes_value: bool,
    pub value_name: Option<String>,
    pub global: bool,
}

/// One node of the schema tree.
#[derive(PartialEq, Eq, Debug)]
pub struct AppSpec {
    pub name: String,
    pub bin_name: Option<String>,
    pub version: Option<String>,
    pub about: Option<String>,
    pub author: Option<String>,
    pub args: Vec<ArgSpec>,
    pub subs: Vec<AppSpec>,
}

/// Build-time package metadata for the root of the schema tree.
#[derive(Clone, PartialEq, Eq, Debug)]
pub struct Meta {
    pub name: String,
    pub version: String,
    pub description: String,
    pub author: String,
}

/// The mathematical value of an [`ArgSpec`].
#[verifier::ext_equal]
pub struct ArgView {
    pub name: Seq<char>,
    pub short: Option<Seq<char>>,
    pub long: Option<Seq<char>>,
    pub help: Option<Seq<char>>,
    pub takes_value: bool,
    pub value_name: Option<Seq<char>>,
    pub global: bool,
}

/// The mathematical value of an [`AppSpec`].
#[verifier::ext_equal]
pub struct AppView {
    pub name: Seq<char>,
    pub bin_name: Option<Seq<char>>,
    pub version: Option<Seq<char>>,
    pub about: Option<Seq<char>>,
    pub author: Option<Seq<char>>,
    pub args: Seq<ArgView>,
    pub subs: Seq<AppView>,
}

/// The character sequence behind an optional string.
pub open spec fn opt_view(o: Option<String>) -> Option<Seq<char>> {
    match o {
        Some(s) => Some(s@),
        None => None,
    }
}

impl View for ArgSpec {
    type V = ArgView;

    open spec fn view(&self) -> ArgView {
        ArgView {
            name: self.name@,
            short: opt_view(self.short),
            long: opt_view(self.long),
            help: opt_view(self.help),
            takes_value: self.takes_value,
            value_name: opt_view(self.value_name),
            global: self.global,
        }
    }
}

/// The mathematical value of an [`AppSpec`] tree.
pub open spec fn app_view(a: AppSpec) -> AppView
    decreases a,
    via app_view_dec
{
    AppView {
        name: a.name@,
        bin_name: opt_view(a.bin_name),
        version: opt_view(a.version),
        about: opt_view(a.about),
        author: opt_view(a.author),
        args: a.args@.map_values(|x: ArgSpec| x@),
        subs: apps_view(a.subs@),
    }
}

/// The mathematical values of a sequence of [`AppSpec`] trees.
pub open spec fn apps_view(s: Seq<AppSpec>) -> Seq<AppView>
    decreases s,
    via apps_view_dec
{
    if s.len() == 0 {
        Seq::empty()
    } else {
        apps_view(s.drop_last()).push(app_view(s.last()))
    }
}

#[via_fn]
proof fn app_view_dec(a: AppSpec) {
    assert(decreases_to!(a => a.subs));
    assert(decreases_to!(a.subs => a.subs@));
}

#[via_fn]
proof fn apps_view_dec(s: Seq<AppSpec>) {
    if s.len() != 0 {
        vstd::seq::axiom_seq_subrange_decreases(s, 0, s.len() - 1);
    }
}

/// `apps_view` taken apart: it maps `app_view` over the sequence.
pub proof fn lemma_apps_view_index(s: Seq<AppSpec>, i: int)
    requires
        0 <= i < s.len(),
    ensures
        apps_view(s).len() == s.len(),
        apps_view(s)[i] == app_view(s[i]),
    decreases s.len(),
{
    lemma_apps_view_len(s);
    if i < s.len() - 1 {
        lemma_apps_view_index(s.drop_last(), i);
    }
}

/// `apps_view` preserves length.
pub proof fn lemma_apps_view_len(s: Seq<AppSpec>)
    ensures
        apps_view(s).len() == s.len(),
    decreases s.len(),
{
    if s.len() != 0 {
        lemma_apps_view_len(s.drop_last());
    }
}

impl View for AppSpec {
    type V = AppView;

    open spec fn view(&self) -> AppView {
        app_view(*self)
    }
}

/// `a` with its global flag cleared.
pub open spec fn stripped_arg(a: ArgView) -> ArgView {
    ArgView { global: false, ..a }
}

/// The global-flagged entries of `args`, in order, with the flag
/// cleared: what a node passes down to its sub-schemas.
pub open spec fn globals_of(args: Seq<ArgView>) -> Seq<ArgView>
    decreases args.len(),
{
    if args.len() == 0 {
        Seq::empty()
    } else {
        let rest = globals_of(args.drop_last());
        if args.last().global {
            rest.push(stripped_arg(args.last()))
        } else {
            rest
        }
    }
}

/// The fully propagated copy of a schema node.
///
/// `bin` is the binary-name path resolved for the node, `version` and
/// `author` the values resolved for it by its ancestors, and `inherited`
/// the stripped global arguments collected from its ancestors.  A
/// sub-schema inherits the binary name extended with its own name, its
/// own version if it has one and the resolved one otherwise, the
/// resolved author if there is one, and additionally the node's own
/// global arguments.
pub open spec fn propagated_view(
    a: AppView,
    bin: Seq<char>,
    version: Option<Seq<char>>,
    author: Option<Seq<char>>,
    inherited: Seq<ArgView>,
) -> AppView
    decreases a,
    via propagated_view_dec
{
    AppView {
        name: a.name,
        bin_name: Some(bin),
        version: version,
        about: a.about,
        author: author,
        args: a.args.map_values(|x: ArgView| stripped_arg(x)) + inherited,
        subs: propagated_children(a.subs, bin, version, author, inherited + globals_of(a.args)),
    }
}

/// The propagated copies of a node's sub-schemas; `bin`, `version` and
/// `author` are the parent's resolved values, `inherited` already holds
/// the parent's own global arguments.
pub open spec fn propagated_children(
    subs: Seq<AppView>,
    bin: Seq<char>,
    version: Option<Seq<char>>,
    author: Option<Seq<char>>,
    inherited: Seq<ArgView>,
) -> Seq<AppView>
    decreases subs,
    via propagated_children_dec
{
    if subs.len() == 0 {
        Seq::empty()
    } else {
        propagated_children(subs.drop_last(), bin, version, author, inherited).push(
            propagated_view(
                subs.last(),
                bin + " "@ + subs.last().name,
                if subs.last().version is Some {
                    subs.last().version
                } else {
                    version
                },
                if author is Some {
                    author
                } else {
                    subs.last().author
                },
                inherited,
            ),
        )
    }
}

#[via_fn]
proof fn propagated_view_dec(
    a: AppView,
    bin: Seq<char>,
    version: Option<Seq<char>>,
    author: Option<Seq<char>>,
    inherited: Seq<ArgView>,
) {
    assert(decreases_to!(a => a.subs));
}

#[via_fn]
proof fn propagated_children_dec(
    subs: Seq<AppView>,
    bin: Seq<char>,
    version: Option<Seq<char>>,
    author: Option<Seq<char>>,
    inherited: Seq<ArgView>,
) {
    if subs.len() != 0 {
        vstd::seq::axiom_seq_subrange_decreases(subs, 0, subs.len() - 1);
    }
}

/// `propagated_children` taken apart: entry `i` is the propagated copy
/// of sub-schema `i`.
pub proof fn lemma_propagated_children_index(
    subs: Seq<AppView>,
    bin: Seq<char>,
    version: Option<Seq<char>>,
    author: Option<Seq<char>>,
    inherited: Seq<ArgView>,
    i: int,
)
    requires
        0 <= i < subs.len(),
    ensures
        propagated_children(subs, bin, version, author, inherited).len() == subs.len(),
        propagated_children(subs, bin, version, author, inherited)[i] == propagated_view(
            subs[i],
            bin + " "@ + subs[i].name,
            if subs[i].version is Some {
                subs[i].version
            } else {
                version
            },
            if author is Some {
                author
            } else {
                subs[i].author
            },
            inherited,
        ),
    decreases subs.len(),
{
    lemma_propagated_children_len(subs, bin, version, author, inherited);
    if i < subs.len() - 1 {
        lemma_propagated_children_index(subs.drop_last(), bin, version, author, inherited, i);
    }
}

/// `propagated_children` preserves length.
pub proof fn lemma_propagated_children_len(
    subs: Seq<AppView>,
    bin: Seq<char>,
    version: Option<Seq<char>>,
    author: Option<Seq<char>>,
    inherited: Seq<ArgView>,
)
    ensures
        propagated_children(subs, bin, version, author, inherited).len() == subs.len(),
    decreases subs.len(),
{
    if subs.len() != 0 {
        lemma_propagated_children_len(subs.drop_last(), bin, version, author, inherited);
    }
}

/// `a` with `author` imposed on it and every node below it, when
/// `author` is set: the parser propagates everything else it needs into
/// nested schemas while parsing, but not the author.
pub open spec fn author_filled_view(a: AppView, author: Option<Seq<char>>) -> AppView
    decreases a,
    via author_filled_view_dec
{
    AppView {
        author: if author is Some {
            author
        } else {
            a.author
        },
        subs: children_author_filled(a.subs, author),
        ..a
    }
}

/// `author_filled_view` over a node's sub-schemas.
pub open spec fn children_author_filled(s: Seq<AppView>, author: Option<Seq<char>>) -> Seq<AppView>
    decreases s,
    via children_author_filled_dec
{
    if s.len() == 0 {
        Seq::empty()
    } else {
        children_author_filled(s.drop_last(), author).push(author_filled_view(s.last(), author))
    }
}

#[via_fn]
proof fn author_filled_view_dec(a: AppView, author: Option<Seq<char>>) {
    assert(decreases_to!(a => a.subs));
}

#[via_fn]
proof fn children_author_filled_dec(s: Seq<AppView>, author: Option<Seq<char>>) {
    if s.len() != 0 {
        vstd::seq::axiom_seq_subrange_decreases(s, 0, s.len() - 1);
    }
}

/// `children_author_filled` taken apart.
pub proof fn lemma_children_author_filled_index(s: Seq<AppView>, author: Option<Seq<char>>, i: int)
    requires
        0 <= i < s.len(),
    ensures
        children_author_filled(s, author).len() == s.len(),
        children_author_filled(s, author)[i] == author_filled_view(s[i], author),
    decreases s.len(),
{
    lemma_children_author_filled_len(s, author);
    if i < s.len() - 1 {
        lemma_children_author_filled_index(s.drop_last(), author, i);
    }
}

/// `children_author_filled` preserves length.
pub proof fn lemma_children_author_filled_len(s: Seq<AppView>, author: Option<Seq<char>>)
    ensures
        children_author_filled(s, author).len() == s.len(),
    decreases s.len(),
{
    if s.len() != 0 {
        lemma_children_author_filled_len(s.drop_last(), author);
    }
}

/// Copies an optional string.
pub fn opt_dup(o: &Option<String>) -> (r: Option<String>)
    ensures
        opt_view(r) == opt_view(*o),
{
    match o {
        Some(s) => Some(s.clone()),
        None => None,
    }
}

impl ArgSpec {
    /// A new argument with the given name and everything else unset.
    pub fn with_name(name: &str) -> (r: ArgSpec)
        ensures
            r@ == (ArgView {
                name: name@,
                short: None,
                long: None,
                help: None,
                takes_value: false,
                value_name: None,
                global: false,
            }),
    {
        ArgSpec {
            name: String::from_str(name),
            short: None,
            long: None,
            help: None,
            takes_value: false,
            value_name: None,
            global: false,
        }
    }

    /// Sets the short flag.
    pub fn short(self, s: &str) -> (r: ArgSpec)
        ensures
            r@ == (ArgView { short: Some(s@), ..self@ }),
    {
        ArgSpec { short: Some(String::from_str(s)), ..self }
    }

    /// Sets the long flag.
    pub fn long(self, l: &str) -> (r: ArgSpec)
        ensures
            r@ == (ArgView { long: Some(l@), ..self@ }),
    {
        ArgSpec { long: Some(String::from_str(l)), ..self }
    }

    /// Sets the help line.
    pub fn help(self, h: &str) -> (r: ArgSpec)
        ensures
            r@ == (ArgView { help: Some(h@), ..self@ }),
    {
        ArgSpec { help: Some(String::from_str(h)), ..self }
    }

    /// Declares whether the argument takes a value.
    pub fn takes_value(self, t: bool) -> (r: ArgSpec)
        ensures
            r@ == (ArgView { takes_value: t, ..self@ }),
    {
        ArgSpec { takes_value: t, ..self }
    }

    /// Sets the display name of the argument's value.
    pub fn value_name(self, v: &str) -> (r: ArgSpec)
        ensures
            r@ == (ArgView { value_name: Some(v@), ..self@ }),
    {
        ArgSpec { value_name: Some(String::from_str(v)), ..self }
    }

    /// Declares the argument global: it is shared with every sub-schema.
    pub fn global(self, g: bool) -> (r: ArgSpec)
        ensures
            r@ == (ArgView { global: g, ..self@ }),
    {
        ArgSpec { global: g, ..self }
    }

    /// A copy with the global flag cleared.
    pub fn stripped(&self) -> (r: ArgSpec)
        ensures
            r@ == stripped_arg(self@),
    {
        let r = ArgSpec {
            name: self.name.clone(),
            short: opt_dup(&self.short),
            long: opt_dup(&self.long),
            help: opt_dup(&self.help),
            takes_value: self.takes_value,
            value_name: opt_dup(&self.value_name),
            global: false,
        };
        proof {
            assert(r@ =~= stripped_arg(self@));
        }
        r
    }
}

/// `bin + " " + name`, the binary-name path of a sub-schema.
pub fn join_bin(bin: &String, name: &String) -> (r: String)
    ensures
        r@ == bin@ + " "@ + name@,
{
    let mut r = bin.clone();
    r.append(" ");
    r.append(name.as_str());
    r
}

impl AppSpec {
    /// A new schema node with the given name and nothing else.
    pub fn new(name: &str) -> (r: AppSpec)
        ensures
            r@ == (AppView {
                name: name@,
                bin_name: None,
                version: None,
                about: None,
                author: None,
                args: Seq::empty(),
                subs: Seq::empty(),
            }),
    {
        let r = AppSpec {
            name: String::from_str(name),
            bin_name: None,
            version: None,
            about: None,
            author: None,
            args: Vec::new(),
            subs: Vec::new(),
        };
        proof {
            assert(r@ =~= (AppView {
                name: name@,
                bin_name: None,
                version: None,
                about: None,
                author: None,
                args: Seq::empty(),
                subs: Seq::empty(),
            }));
        }
        r
    }

    /// The binary name this node displays: the explicit one if set, the
    /// node name otherwise.
    pub open spec fn spec_effective_bin(self) -> Seq<char> {
        match self.bin_name {
            Some(b) => b@,
            None => self.name@,
        }
    }

    /// The binary name this node displays.
    pub fn effective_bin(&self) -> (r: String)
        ensures
            r@ == self.spec_effective_bin(),
    {
        match &self.bin_name {
            Some(b) => b.clone(),
            None => self.name.clone(),
        }
    }

    /// The stripped global arguments this node passes down.
    fn collect_globals(&self) -> (r: Vec<ArgSpec>)
        ensures
            r@.map_values(|a: ArgSpec| a@) == globals_of(self@.args),
    {
        let mut out: Vec<ArgSpec> = Vec::new();
        let mut i: usize = 0;
        proof {
            assert(self@.args =~= self.args@.map_values(|a: ArgSpec| a@));
        }
        while i < self.args.len()
            invariant
                i <= self.args@.len(),
                self@.args == self.args@.map_values(|a: ArgSpec| a@),
                out@.map_values(|a: ArgSpec| a@) == globals_of(self@.args.take(i as int)),
            decreases self.args@.len() - i,
        {
            proof {
                assert(self@.args.take(i + 1).drop_last() =~= self@.args.take(i as int));
                assert(self@.args.take(i + 1).last() == self@.args[i as int]);
                assert(self@.args[i as int] == self.args@[i as int]@);
            }
            if self.args[i].global {
                let s = self.args[i].stripped();
                out.push(s);
                proof {
                    assert(out@.map_values(|a: ArgSpec| a@) =~= globals_of(
                        self@.args.take(i + 1),
                    ));
                }
            } else {
                proof {
                    assert(out@.map_values(|a: ArgSpec| a@) =~= globals_of(
                        self@.args.take(i + 1),
                    ));
                }
            }
            i = i + 1;
        }
        proof {
            assert(self@.args.take(self.args@.len() as int) =~= self@.args);
        }
        out
    }

    /// The fully propagated copy of this tree: every node carries its
    /// binary-name path, a resolved version and author, and the global
    /// arguments of all its ancestors, and no argument is still flagged
    /// global.
    pub fn propagated(&self) -> (out: AppSpec)
        ensures
            out@ == propagated_view(
                self@,
                self.spec_effective_bin(),
                opt_view(self.version),
                opt_view(self.author),
                Seq::empty(),
            ),
    {
        let bin = self.effective_bin();
        let version = opt_dup(&self.version);
        let author = opt_dup(&self.author);
        let inherited: Vec<ArgSpec> = Vec::new();
        proof {
            assert(inherited@.map_values(|a: ArgSpec| a@) =~= Seq::<ArgView>::empty());
        }
        self.propagate_rec(&bin, &version, &author, &inherited)
    }

    /// A copy of this tree with this node's author imposed on every
    /// node, as [`author_filled_view`] says.
    pub fn author_propagated(&self) -> (out: AppSpec)
        ensures
            out@ == author_filled_view(self@, opt_view(self.author)),
    {
        let author = opt_dup(&self.author);
        self.author_fill(&author)
    }

    /// Imposes `author` on this node and everything below it, when it
    /// is set.
    fn author_fill(&self, author: &Option<String>) -> (out: AppSpec)
        ensures
            out@ == author_filled_view(self@, opt_view(*author)),
        decreases *self,
    {
        let ghost goal = author_filled_view(self@, opt_view(*author));
        let mut subs: Vec<AppSpec> = Vec::new();
        let mut i: usize = 0;
        while i < self.subs.len()
            invariant
                i <= self.subs@.len(),
                subs@.len() == i,
                goal == author_filled_view(self@, opt_view(*author)),
                forall|j: int| 0 <= j < i ==> (#[trigger] subs@[j])@ == goal.subs[j],
            decreases self.subs@.len() - i,
        {
            proof {
                assert(decreases_to!(*self => self.subs));
                assert(decreases_to!(self.subs => self.subs@));
                assert(decreases_to!(self.subs@ => self.subs@[i as int]));
                lemma_apps_view_index(self.subs@, i as int);
            }
            let child = self.subs[i].author_fill(author);
            proof {
                lemma_children_author_filled_index(self@.subs, opt_view(*author), i as int);
            }
            subs.push(child);
            i = i + 1;
        }
        let ghost subs_snap = subs@;
        let out = AppSpec {
            name: self.name.clone(),
            bin_name: opt_dup(&self.bin_name),
            version: opt_dup(&self.version),
            about: opt_dup(&self.about),
            author: match author {
                Some(a) => Some(a.clone()),
                None => opt_dup(&self.author),
            },
            args: crate::registry::dup_args(&self.args),
            subs,
        };
        proof {
            lemma_apps_view_len(out.subs@);
            lemma_apps_view_len(self.subs@);
            lemma_children_author_filled_len(self@.subs, opt_view(*author));
            assert(out@.args =~= goal.args) by {
                assert(self@.args =~= self.args@.map_values(|a: ArgSpec| a@));
            }
            assert forall|j: int| 0 <= j < out.subs@.len() implies out@.subs[j] == goal.subs[j] by {
                lemma_apps_view_index(out.subs@, j);
                assert(subs_snap[j]@ == goal.subs[j]);
                assert(out.subs@[j] == subs_snap[j]);
            }
            assert(out@.subs =~= goal.subs);
            assert(out@ =~= goal);
        }
        out
    }

    /// Propagation worker: `bin`, `version` and `author` are the values
    /// resolved for this node, `inherited` the stripped global arguments
    /// of its ancestors.
    fn propagate_rec(
        &self,
        bin: &String,
        version: &Option<String>,
        author: &Option<String>,
        inherited: &Vec<ArgSpec>,
    ) -> (out: AppSpec)
        ensures
            out@ == propagated_view(
                self@,
                bin@,
                opt_view(*version),
                opt_view(*author),
                inherited@.map_values(|a: ArgSpec| a@),
            ),
        decreases *self,
    {
        let ghost goal = propagated_view(
            self@,
            bin@,
            opt_view(*version),
            opt_view(*author),
            inherited@.map_values(|a: ArgSpec| a@),
        );
        let mut args: Vec<ArgSpec> = Vec::new();
        let mut i: usize = 0;
        while i < self.args.len()
            invariant
                i <= self.args@.len(),
                args@.len() == i,
                forall|j: int| 0 <= j < i ==> #[trigger] args@[j]@ == stripped_arg(self.args@[j]@),
            decreases self.args@.len() - i,
        {
            let s = self.args[i].stripped();
            args.push(s);
            i = i + 1;
        }
        let own_len = self.args.len();
        let mut i: usize = 0;
        while i < inherited.len()
            invariant
                i <= inherited@.len(),
                args@.len() == own_len + i,
                own_len == self.args@.len(),
                forall|j: int|
                    0 <= j < own_len ==> #[trigger] args@[j]@ == stripped_arg(self.args@[j]@),
                forall|j: int| 0 <= j < i ==> #[trigger] args@[own_len + j]@ == inherited@[j]@,
            decreases inherited@.len() - i,
        {
            let s = ArgSpec {
                name: inherited[i].name.clone(),
                short: opt_dup(&inherited[i].short),
                long: opt_dup(&inherited[i].long),
                help: opt_dup(&inherited[i].help),
                takes_value: inherited[i].takes_value,
                value_name: opt_dup(&inherited[i].value_name),
                global: inherited[i].global,
            };
            proof {
                assert(s@ =~= inherited@[i as int]@);
            }
            args.push(s);
            i = i + 1;
        }
        let own_globals = self.collect_globals();
        let mut child_inherited: Vec<ArgSpec> = Vec::new();
        let mut i: usize = 0;
        while i < inherited.len()
            invariant
                i <= inherited@.len(),
                child_inherited@.len() == i,
                forall|j: int| 0 <= j < i ==> #[trigger] child_inherited@[j]@ == inherited@[j]@,
            decreases inherited@.len() - i,
        {
            let s = ArgSpec {
                name: inherited[i].name.clone(),
                short: opt_dup(&inherited[i].short),
                long: opt_dup(&inherited[i].long),
                help: opt_dup(&inherited[i].help),
                takes_value: inherited[i].takes_value,
                value_name: opt_dup(&inherited[i].value_name),
                global: inherited[i].global,
            };
            proof {
                assert(s@ =~= inherited@[i as int]@);
            }
            child_inherited.push(s);
            i = i + 1;
        }
        let pre_len = child_inherited.len();
        let mut i: usize = 0;
        while i < own_globals.len()
            invariant
                i <= own_globals@.len(),
                child_inherited@.len() == pre_len + i,
                pre_len == inherited@.len(),
                forall|j: int|
                    0 <= j < pre_len ==> #[trigger] child_inherited@[j]@ == inherited@[j]@,
                forall|j: int|
                    0 <= j < i ==> #[trigger] child_inherited@[pre_len + j]@ == own_globals@[j]@,
            decreases own_globals@.len() - i,
        {
            let s = ArgSpec {
                name: own_globals[i].name.clone(),
                short: opt_dup(&own_globals[i].short),
                long: opt_dup(&own_globals[i].long),
                help: opt_dup(&own_globals[i].help),
                takes_value: own_globals[i].takes_value,
                value_name: opt_dup(&own_globals[i].value_name),
                global: own_globals[i].global,
            };
            proof {
                assert(s@ =~= own_globals@[i as int]@);
            }
            child_inherited.push(s);
            i = i + 1;
        }
        proof {
            let lhs = child_inherited@.map_values(|a: ArgSpec| a@);
            let rhs = inherited@.map_values(|a: ArgSpec| a@) + globals_of(self@.args);
            assert(own_globals@.map_values(|a: ArgSpec| a@) == globals_of(self@.args));
            assert(globals_of(self@.args).len() == own_globals@.len());
            assert forall|j: int| 0 <= j < lhs.len() implies lhs[j] == rhs[j] by {
                if j < inherited@.len() {
                    assert(child_inherited@[j]@ == inherited@[j]@);
                } else {
                    let k = j - inherited@.len();
                    assert(child_inherited@[pre_len + k]@ == own_globals@[k]@);
                    assert(globals_of(self@.args)[j - inherited@.len()] == own_globals@.map_values(
                        |a: ArgSpec| a@,
                    )[j - inherited@.len()]);
                }
            }
            assert(lhs =~= rhs);
        }
        let mut subs: Vec<AppSpec> = Vec::new();
        let mut i: usize = 0;
        while i < self.subs.len()
            invariant
                i <= self.subs@.len(),
                subs@.len() == i,
                child_inherited@.map_values(|a: ArgSpec| a@) == inherited@.map_values(
                    |a: ArgSpec| a@,
                ) + globals_of(self@.args),
                goal == propagated_view(
                    self@,
                    bin@,
                    opt_view(*version),
                    opt_view(*author),
                    inherited@.map_values(|a: ArgSpec| a@),
                ),
                forall|j: int| 0 <= j < i ==> #[trigger] subs@[j]@ == goal.subs[j],
            decreases self.subs@.len() - i,
        {
            let sub = &self.subs[i];
            let child_bin = join_bin(bin, &sub.name);
            let child_version = match &sub.version {
                Some(v) => Some(v.clone()),
                None => opt_dup(version),
            };
            let child_author = match author {
                Some(a) => Some(a.clone()),
                None => opt_dup(&sub.author),
            };
            proof {
                lemma_apps_view_index(self.subs@, i as int);
                assert(self@.subs[i as int] == self.subs@[i as int]@);
            }
            let child = sub.propagate_rec(&child_bin, &child_version, &child_author,
                &child_inherited);
            proof {
                let ghost inh = inherited@.map_values(|a: ArgSpec| a@);
                let ghost ci = inh + globals_of(self@.args);
                lemma_propagated_children_index(
                    self@.subs,
                    bin@,
                    opt_view(*version),
                    opt_view(*author),
                    ci,
                    i as int,
                );
                assert(child_inherited@.map_values(|a: ArgSpec| a@) == ci);
                assert(child_bin@ == bin@ + " "@ + self@.subs[i as int].name);
                assert(opt_view(child_version) == (if self@.subs[i as int].version is Some {
                    self@.subs[i as int].version
                } else {
                    opt_view(*version)
                }));
                assert(opt_view(child_author) == (if opt_view(*author) is Some {
                    opt_view(*author)
                } else {
                    self@.subs[i as int].author
                }));
                assert(child@ == goal.subs[i as int]);
            }
            subs.push(child);
            i = i + 1;
        }
        let ghost subs_snap = subs@;
        let ghost args_snap = args@;
        let out = AppSpec {
            name: self.name.clone(),
            bin_name: Some(bin.clone()),
            version: opt_dup(version),
            about: opt_dup(&self.about),
            author: opt_dup(author),
            args,
            subs,
        };
        proof {
            let oa = out.args@.map_values(|x: ArgSpec| x@);
            let ga = self@.args.map_values(|x: ArgView| stripped_arg(x)) + inherited@.map_values(
                |a: ArgSpec| a@,
            );
            assert forall|j: int| 0 <= j < oa.len() implies oa[j] == ga[j] by {
                if j < self.args@.len() {
                    assert(out.args@[j]@ == stripped_arg(self.args@[j]@));
                    assert(self@.args[j] == self.args@[j]@);
                } else {
                    let k = j - self.args@.len();
                    assert(out.args@[own_len + k]@ == inherited@[k]@);
                }
            }
            assert(oa =~= ga);
            lemma_apps_view_len(out.subs@);
            lemma_apps_view_len(self.subs@);
            lemma_propagated_children_len(
                self@.subs,
                bin@,
                opt_view(*version),
                opt_view(*author),
                inherited@.map_values(|a: ArgSpec| a@) + globals_of(self@.args),
            );
            assert forall|j: int| 0 <= j < out.subs@.len() implies out@.subs[j] == goal.subs[j] by {
                lemma_apps_view_index(out.subs@, j);
                assert(subs_snap[j]@ == goal.subs[j]);
                assert(out.subs@[j] == subs_snap[j]);
            }
            assert(out@.subs =~= goal.subs);
            assert(out@ =~= goal);
        }
        out
    }
}

} // verus!
