//! The help snapshot: rendered help text for every schema node,
//! captured once per run and looked up by subcommand path afterwards.

use vstd::prelude::*;
use crate::schema::{AppSpec, AppView, lemma_apps_view_index, lemma_apps_view_len};
use crate::strutil::str_eq;

verus! {

/// Rendered help text for one schema node and, keyed by name, for each
/// of its sub-schemas.
pub struct Help {
    pub data: String,
    pub cmds: Vec<(String, Help)>,
}

/// The index of the first child of `cmds` named `name`, if any.
pub open spec fn spec_help_index(cmds: Seq<(String, Help)>, name: Seq<char>) -> Option<int>
    decreases cmds.len(),
{
    if cmds.len() == 0 {
        None
    } else if cmds[0].0@ == name {
        Some(0)
    } else {
        match spec_help_index(cmds.skip(1), name) {
            Some(i) => Some(i + 1),
            None => None,
        }
    }
}

/// The first child of `h` named `name`, if any.
pub open spec fn spec_help_child(h: Help, name: Seq<char>) -> Option<Help> {
    match spec_help_index(h.cmds@, name) {
        Some(i) => Some(h.cmds@[i].1),
        None => None,
    }
}

/// Whether the help tree `h` mirrors the schema tree `a`: same child
/// names, same order, same nesting.
pub open spec fn help_iso(h: Help, a: AppView) -> bool
    decreases h,
    via help_iso_dec
{
    &&& h.cmds@.len() == a.subs.len()
    &&& forall|i: int|
        0 <= i < h.cmds@.len() ==> (#[trigger] h.cmds@[i].0)@ == a.subs[i].name && help_iso(
            h.cmds@[i].1,
            a.subs[i],
        )
}

#[via_fn]
proof fn help_iso_dec(h: Help, a: AppView) {
    assert forall|i: int| 0 <= i < h.cmds@.len() implies decreases_to!(h => h.cmds@[i].1) by {
        assert(decreases_to!(h => h.cmds));
        assert(decreases_to!(h.cmds => h.cmds@));
        assert(decreases_to!(h.cmds@ => h.cmds@[i]));
        assert(decreases_to!(h.cmds@[i] => h.cmds@[i].1));
    }
}

impl Help {
    /// Captures the help snapshot of a schema tree: this node's rendered
    /// help text, and a snapshot of every sub-schema keyed by its name.
    pub fn from(app: &AppSpec) -> (r: Help)
        ensures
            help_iso(r, app@),
        decreases *app,
    {
        let data = crate::parser::render_clap_help(app);
        let mut cmds: Vec<(String, Help)> = Vec::new();
        let mut i: usize = 0;
        proof {
            lemma_apps_view_len(app.subs@);
        }
        while i < app.subs.len()
            invariant
                i <= app.subs@.len(),
                cmds@.len() == i,
                app@.subs.len() == app.subs@.len(),
                forall|j: int|
                    0 <= j < i ==> (#[trigger] cmds@[j].0)@ == app@.subs[j].name && help_iso(
                        cmds@[j].1,
                        app@.subs[j],
                    ),
            decreases app.subs@.len() - i,
        {
            let sub = &app.subs[i];
            proof {
                assert(decreases_to!(*app => app.subs));
                assert(decreases_to!(app.subs => app.subs@));
                assert(decreases_to!(app.subs@ => app.subs@[i as int]));
            }
            let child = Help::from(sub);
            proof {
                lemma_apps_view_index(app.subs@, i as int);
            }
            cmds.push((sub.name.clone(), child));
            i = i + 1;
        }
        Help { data, cmds }
    }

    /// The first child snapshot named `name`, if any.
    pub fn child(&self, name: &str) -> (r: Option<&Help>)
        ensures
            match r {
                Some(h) => spec_help_child(*self, name@) == Some(*h),
                None => spec_help_child(*self, name@) is None,
            },
    {
        let mut i: usize = 0;
        proof {
            assert(self.cmds@.skip(0) =~= self.cmds@);
        }
        while i < self.cmds.len()
            invariant
                i <= self.cmds@.len(),
                spec_help_index(self.cmds@, name@) == match spec_help_index(
                    self.cmds@.skip(i as int),
                    name@,
                ) {
                    Some(k) => Some(k + i),
                    None => None::<int>,
                },
            decreases self.cmds@.len() - i,
        {
            proof {
                assert(self.cmds@.skip(i as int)[0] == self.cmds@[i as int]);
            }
            if str_eq(self.cmds[i].0.as_str(), name) {
                return Some(&self.cmds[i].1);
            }
            proof {
                assert(self.cmds@.skip(i as int).skip(1) =~= self.cmds@.skip(i + 1));
            }
            i = i + 1;
        }
        None
    }

    /// Walks `path` down the snapshot tree: the snapshot at that
    /// subcommand path, or nothing if some segment does not resolve.
    pub fn lookup<'a>(&'a self, path: &Vec<String>) -> (r: Option<&'a Help>)
        ensures
            match r {
                Some(h) => spec_help_lookup(*self, path@.map_values(|s: String| s@)) == Some(*h),
                None => spec_help_lookup(*self, path@.map_values(|s: String| s@)) is None,
            },
    {
        let mut cur: &Help = self;
        let mut i: usize = 0;
        let ghost segs = path@.map_values(|s: String| s@);
        proof {
            assert(segs.skip(0) =~= segs);
        }
        while i < path.len()
            invariant
                i <= path@.len(),
                segs == path@.map_values(|s: String| s@),
                spec_help_lookup(*self, segs) == spec_help_lookup(*cur, segs.skip(i as int)),
            decreases path@.len() - i,
        {
            proof {
                assert(segs.skip(i as int)[0] == segs[i as int]);
                assert(segs.skip(i as int).skip(1) =~= segs.skip(i + 1));
            }
            match cur.child(path[i].as_str()) {
                Some(h) => {
                    cur = h;
                },
                None => {
                    return None;
                },
            }
            i = i + 1;
        }
        proof {
            assert(segs.skip(i as int) =~= Seq::<Seq<char>>::empty());
        }
        Some(cur)
    }
}

/// The snapshot at subcommand path `path`, if every segment resolves.
pub open spec fn spec_help_lookup(h: Help, path: Seq<Seq<char>>) -> Option<Help>
    decreases path.len(),
{
    if path.len() == 0 {
        Some(h)
    } else {
        match spec_help_child(h, path[0]) {
            Some(c) => spec_help_lookup(c, path.skip(1)),
            None => None,
        }
    }
}

} // verus!
