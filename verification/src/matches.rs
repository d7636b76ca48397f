//! The parsed-arguments value that dispatch and user code read.
//!
//! A [`Matches`] mirrors what the underlying parser reports for one level
//! of the command tree: for every declared argument its occurrence count
//! and values, and at most one matched subcommand with its own nested
//! [`Matches`].  It is plain data, so everything that reads it can be
//! reasoned about for every possible parser verdict.

use vstd::prelude::*;

verus! {

/// One declared argument as the parser saw it: how often it occurred and
/// which values it carried.
#[derive(Clone, PartialEq, Eq, Debug)]
pub struct ArgValue {
    pub name: String,
    pub occurs: u64,
    pub vals: Vec<String>,
}

/// The parser's verdict for one level of the command tree.
#[derive(PartialEq, Eq, Debug)]
pub struct Matches {
    pub args: Vec<ArgValue>,
    pub sub: Option<(String, Box<Matches>)>,
}

/// The index of the first entry of `args` named `name`, if any.
pub open spec fn spec_arg_index(args: Seq<ArgValue>, name: Seq<char>) -> Option<int>
    decreases args.len(),
{
    if args.len() == 0 {
        None
    } else if args[0].name@ == name {
        Some(0)
    } else {
        match spec_arg_index(args.skip(1), name) {
            Some(i) => Some(i + 1),
            None => None,
        }
    }
}

/// The first value recorded for the argument named `name`, if any.
pub open spec fn spec_value_of(m: Matches, name: Seq<char>) -> Option<Seq<char>> {
    match spec_arg_index(m.args@, name) {
        Some(i) => if m.args@[i].vals@.len() > 0 {
            Some(m.args@[i].vals@[0]@)
        } else {
            None
        },
        None => None,
    }
}

/// How often the argument named `name` occurred.
pub open spec fn spec_occurrences_of(m: Matches, name: Seq<char>) -> u64 {
    match spec_arg_index(m.args@, name) {
        Some(i) => m.args@[i].occurs,
        None => 0,
    }
}

/// The nested verdict for the subcommand named `name`, if that is the one
/// that matched.
pub open spec fn spec_subcommand_matches(m: Matches, name: Seq<char>) -> Option<Matches> {
    match m.sub {
        Some((n, sm)) => if n@ == name {
            Some(*sm)
        } else {
            None
        },
        None => None,
    }
}

impl Matches {
    /// A verdict with no arguments and no matched subcommand.
    pub fn empty() -> (r: Matches)
        ensures
            r.args@ == Seq::<ArgValue>::empty(),
            r.sub is None,
    {
        Matches { args: Vec::new(), sub: None }
    }

    /// The position of the first recorded argument named `name`.
    fn arg_index(&self, name: &str) -> (r: Option<usize>)
        ensures
            match r {
                Some(i) => spec_arg_index(self.args@, name@) == Some(i as int) && i
                    < self.args@.len(),
                None => spec_arg_index(self.args@, name@) is None,
            },
    {
        let mut i: usize = 0;
        proof {
            assert(self.args@.skip(0) =~= self.args@);
        }
        while i < self.args.len()
            invariant
                i <= self.args@.len(),
                forall|j: int| 0 <= j < i ==> self.args@[j].name@ != name@,
                spec_arg_index(self.args@, name@) == match spec_arg_index(
                    self.args@.skip(i as int),
                    name@,
                ) {
                    Some(k) => Some(k + i),
                    None => None::<int>,
                },
            decreases self.args@.len() - i,
        {
            proof {
                assert(self.args@.skip(i as int)[0] == self.args@[i as int]);
            }
            if crate::strutil::str_eq(self.args[i].name.as_str(), name) {
                return Some(i);
            }
            proof {
                assert(self.args@.skip(i as int).skip(1) =~= self.args@.skip(i + 1));
            }
            i = i + 1;
        }
        None
    }

    /// The first value of the argument named `name`, if it has one.
    pub fn value_of(&self, name: &str) -> (r: Option<&String>)
        ensures
            match r {
                Some(v) => spec_value_of(*self, name@) == Some(v@),
                None => spec_value_of(*self, name@) is None,
            },
    {
        match self.arg_index(name) {
            Some(i) => {
                if self.args[i].vals.len() > 0 {
                    Some(&self.args[i].vals[0])
                } else {
                    None
                }
            },
            None => None,
        }
    }

    /// How often the argument named `name` occurred.
    pub fn occurrences_of(&self, name: &str) -> (r: u64)
        ensures
            r == spec_occurrences_of(*self, name@),
    {
        match self.arg_index(name) {
            Some(i) => self.args[i].occurs,
            None => 0,
        }
    }

    /// Whether the argument named `name` occurred at all.
    pub fn is_present(&self, name: &str) -> (r: bool)
        ensures
            r == (spec_occurrences_of(*self, name@) > 0),
    {
        self.occurrences_of(name) > 0
    }

    /// The name of the matched subcommand, if one matched.
    pub fn subcommand_name(&self) -> (r: Option<&String>)
        ensures
            match r {
                Some(n) => self.sub is Some && self.sub->Some_0.0 == *n,
                None => self.sub is None,
            },
    {
        match &self.sub {
            Some((n, _)) => Some(n),
            None => None,
        }
    }

    /// The nested verdict of the subcommand named `name`, if that is the
    /// one that matched.
    pub fn subcommand_matches(&self, name: &str) -> (r: Option<&Matches>)
        ensures
            match r {
                Some(sm) => spec_subcommand_matches(*self, name@) == Some(*sm),
                None => spec_subcommand_matches(*self, name@) is None,
            },
    {
        match &self.sub {
            Some((n, sm)) => {
                if crate::strutil::str_eq(n.as_str(), name) {
                    Some(&**sm)
                } else {
                    None
                }
            },
            None => None,
        }
    }
}

} // verus!
