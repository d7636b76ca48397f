//! Recovering contextual help from a parse error.
//!
//! The parser's error messages carry a usage section whose first line
//! names the binary followed by the subcommand path the error belongs
//! to.  [`usage_split`] takes such a message apart — exactly as
//! specified by [`spec_usage_split`] — and [`resolved_error`] turns the
//! message into the "help displayed" outcome carrying the original
//! error text plus the help snapshot for that path, or into a distinct
//! internal fault when the message breaks the expected format.

use vstd::prelude::*;
use vstd::string::*;
use crate::error::{Error, ErrorKind};
use crate::help::{Help, spec_help_lookup};
use crate::strutil::{find_from, spec_find_from, spec_tokens, split_ws};

verus! {

/// Takes a parser error message apart: everything before the usage
/// section, and the subcommand path named on the usage line (the line
/// two below the start of the usage section, cut at its first `[`, with
/// its leading binary-name token dropped).  Nothing, when the message
/// has no usage section, no such line, or no token on it.
pub open spec fn spec_usage_split(msg: Seq<char>) -> Option<(Seq<char>, Seq<Seq<char>>)> {
    match spec_find_from(msg, "\nUSAGE"@, 0) {
        None => None,
        Some(idx) => match spec_find_from(msg, "\n"@, idx + 1) {
            None => None,
            Some(b) => {
                let c = match spec_find_from(msg, "\n"@, b + 1) {
                    Some(c) => c,
                    None => msg.len() as int,
                };
                let line = msg.subrange(b + 1, c);
                let trunc = match spec_find_from(line, "["@, 0) {
                    Some(t) => line.take(t),
                    None => line,
                };
                let toks = spec_tokens(trunc);
                if toks.len() == 0 {
                    None
                } else {
                    Some((msg.take(idx), toks.skip(1)))
                }
            },
        },
    }
}

/// Takes a parser error message apart as [`spec_usage_split`] says.
pub fn usage_split(msg: &str) -> (r: Option<(String, Vec<String>)>)
    ensures
        match r {
            Some(p) => spec_usage_split(msg@) == Some(
                (p.0@, p.1@.map_values(|x: String| x@)),
            ),
            None => spec_usage_split(msg@) is None,
        },
{
    let len = msg.unicode_len();
    proof {
        reveal_strlit("\nUSAGE");
        reveal_strlit("\n");
        reveal_strlit("[");
    }
    let idx = match find_from(msg, "\nUSAGE", 0) {
        Some(i) => i,
        None => {
            return None;
        },
    };
    let b = match find_from(msg, "\n", idx + 1) {
        Some(b) => b,
        None => {
            return None;
        },
    };
    let c = match find_from(msg, "\n", b + 1) {
        Some(c) => c,
        None => len,
    };
    let line = msg.substring_char(b + 1, c);
    proof {
        assert(line@ == msg@.subrange(b + 1, c as int));
    }
    let tlen = line.unicode_len();
    let t = match find_from(line, "[", 0) {
        Some(t) => t,
        None => tlen,
    };
    let trunc = line.substring_char(0, t);
    proof {
        assert(line@.take(tlen as int) =~= line@);
    }
    let mut toks = split_ws(trunc);
    if toks.len() == 0 {
        return None;
    }
    let head = msg.substring_char(0, idx).to_owned();
    let ghost full = toks@;
    toks.remove(0);
    proof {
        assert(toks@ =~= full.skip(1));
        assert(toks@.map_values(|x: String| x@) =~= full.map_values(|x: String| x@).skip(1));
        assert(head@ =~= msg@.take(idx as int));
    }
    Some((head, toks))
}

/// The outcome [`resolved_error`] produces: its kind and message text.
pub open spec fn spec_resolved(msg: Seq<char>, help: Help) -> (ErrorKind, Seq<char>) {
    match spec_usage_split(msg) {
        None => (ErrorKind::Fault, "The parser's error message is missing a usage section."@),
        Some((head, path)) => match spec_help_lookup(help, path) {
            None => (ErrorKind::Fault, "Bad help structure (doesn't match with path)"@),
            Some(node) => (ErrorKind::HelpDisplayed, "error: "@ + head + "\n"@ + node.data@),
        },
    }
}

/// Rewrites a parse error into the "help displayed" outcome: the
/// original error text followed by the full help snapshot for the
/// subcommand path its usage line names.  A message without a usable
/// usage section, or a path the snapshot cannot resolve, is an
/// internal-consistency fault and surfaces as a distinct
/// [`ErrorKind::Fault`], never as a user-facing condition.
pub fn resolved_error(msg: &String, help: &Help) -> (r: Error)
    ensures
        r.kind == spec_resolved(msg@, *help).0,
        r.message@ == spec_resolved(msg@, *help).1,
{
    match usage_split(msg.as_str()) {
        None => Error::raw(
            String::from_str("The parser's error message is missing a usage section."),
            ErrorKind::Fault,
        ),
        Some((head, path)) => match help.lookup(&path) {
            None => Error::raw(
                String::from_str("Bad help structure (doesn't match with path)"),
                ErrorKind::Fault,
            ),
            Some(node) => {
                let mut desc = head;
                desc.append("\n");
                desc.append(node.data.as_str());
                Error::with_description(desc.as_str(), ErrorKind::HelpDisplayed)
            },
        },
    }
}

} // verus!
