//! Verified character-level string helpers.
//!
//! Everything here works on the character sequences behind `&str` and
//! `String`, so the text manipulation this layer performs — locating the
//! usage section of a parser error, walking a subcommand path, trimming a
//! file name down to a program name — is specified exactly.

use vstd::prelude::*;
use vstd::string::*;

verus! {

/// Whether two string slices hold the same characters.
pub fn str_eq(a: &str, b: &str) -> (r: bool)
    ensures
        r == (a@ == b@),
{
    let alen = a.unicode_len();
    let blen = b.unicode_len();
    if alen != blen {
        proof {
            assert(a@ != b@);
        }
        return false;
    }
    let mut i: usize = 0;
    while i < alen
        invariant
            alen == a@.len(),
            blen == b@.len(),
            alen == blen,
            i <= alen,
            forall|j: int| 0 <= j < i ==> a@[j] == b@[j],
        decreases alen - i,
    {
        if a.get_char(i) != b.get_char(i) {
            return false;
        }
        i = i + 1;
    }
    proof {
        assert(a@ =~= b@);
    }
    true
}

/// The first position at or after `i` where `needle` occurs in `hay`.
pub open spec fn spec_find_from(hay: Seq<char>, needle: Seq<char>, i: int) -> Option<int>
    decreases hay.len() - i + 1,
{
    if i < 0 || i + needle.len() > hay.len() {
        None
    } else if hay.subrange(i, i + needle.len()) == needle {
        Some(i)
    } else {
        spec_find_from(hay, needle, i + 1)
    }
}

/// What `spec_find_from` finds: the first occurrence at or after `from`.
pub proof fn lemma_find_from(hay: Seq<char>, needle: Seq<char>, from: int)
    requires
        0 <= from,
    ensures
        match spec_find_from(hay, needle, from) {
            Some(i) => from <= i && i + needle.len() <= hay.len() && hay.subrange(
                i,
                i + needle.len(),
            ) == needle,
            None => true,
        },
    decreases hay.len() - from + 1,
{
    if !(from + needle.len() > hay.len()) && hay.subrange(from, from + needle.len()) != needle {
        lemma_find_from(hay, needle, from + 1);
    }
}

/// Finds the first occurrence of `needle` in `hay` at or after `from`.
pub fn find_from(hay: &str, needle: &str, from: usize) -> (r: Option<usize>)
    ensures
        match r {
            Some(i) => spec_find_from(hay@, needle@, from as int) == Some(i as int) && from <= i
                && i + needle@.len() <= hay@.len(),
            None => spec_find_from(hay@, needle@, from as int) is None,
        },
{
    let hlen = hay.unicode_len();
    let nlen = needle.unicode_len();
    if nlen == 0 {
        if from <= hlen {
            proof {
                assert(hay@.subrange(from as int, from as int) =~= needle@);
            }
            return Some(from);
        }
        return None;
    }
    if nlen > hlen || from > hlen - nlen {
        return None;
    }
    let mut i: usize = from;
    while i <= hlen - nlen
        invariant
            hlen == hay@.len(),
            nlen == needle@.len(),
            nlen <= hlen,
            1 <= nlen,
            from <= i,
            i <= hlen - nlen + 1,
            spec_find_from(hay@, needle@, from as int) == spec_find_from(hay@, needle@, i as int),
        decreases hlen - i,
    {
        if match_at(hay, needle, i) {
            return Some(i);
        }
        proof {
            assert(spec_find_from(hay@, needle@, i as int) == spec_find_from(
                hay@,
                needle@,
                i + 1,
            ));
        }
        i = i + 1;
    }
    None
}

/// Whether `needle` occurs in `hay` exactly at position `i`.
fn match_at(hay: &str, needle: &str, i: usize) -> (r: bool)
    requires
        i + needle@.len() <= hay@.len(),
    ensures
        r == (hay@.subrange(i as int, i + needle@.len()) == needle@),
{
    let hlen = hay.unicode_len();
    let nlen = needle.unicode_len();
    let mut j: usize = 0;
    while j < nlen
        invariant
            hlen == hay@.len(),
            nlen == needle@.len(),
            i + nlen <= hay@.len(),
            j <= nlen,
            forall|k: int| 0 <= k < j ==> hay@[i + k] == needle@[k],
        decreases nlen - j,
    {
        if hay.get_char(i + j) != needle.get_char(j) {
            proof {
                assert(hay@.subrange(i as int, i + needle@.len())[j as int] != needle@[j as int]);
            }
            return false;
        }
        j = j + 1;
    }
    proof {
        assert(hay@.subrange(i as int, i + needle@.len()) =~= needle@);
    }
    true
}

/// The last position where `c` occurs in `s`.
pub open spec fn spec_rfind(s: Seq<char>, c: char) -> Option<int>
    decreases s.len(),
{
    if s.len() == 0 {
        None
    } else if s.last() == c {
        Some(s.len() - 1)
    } else {
        spec_rfind(s.drop_last(), c)
    }
}

/// What `spec_rfind` finds: the last occurrence.
pub proof fn lemma_rfind(s: Seq<char>, c: char)
    ensures
        match spec_rfind(s, c) {
            Some(i) => 0 <= i < s.len() && s[i] == c && forall|j: int| i < j < s.len() ==> s[j] != c,
            None => forall|j: int| 0 <= j < s.len() ==> s[j] != c,
        },
    decreases s.len(),
{
    if s.len() != 0 && s.last() != c {
        lemma_rfind(s.drop_last(), c);
        assert(forall|j: int| 0 <= j < s.len() - 1 ==> s.drop_last()[j] == s[j]);
    }
}

/// Finds the last occurrence of `c` in `s`.
pub fn rfind_char(s: &str, c: char) -> (r: Option<usize>)
    ensures
        match r {
            Some(i) => spec_rfind(s@, c) == Some(i as int) && i < s@.len(),
            None => spec_rfind(s@, c) is None,
        },
{
    let len = s.unicode_len();
    let mut i: usize = len;
    proof {
        assert(s@.take(len as int) =~= s@);
    }
    while i > 0
        invariant
            len == s@.len(),
            i <= len,
            spec_rfind(s@, c) == spec_rfind(s@.take(i as int), c),
        decreases i,
    {
        i = i - 1;
        proof {
            assert(s@.take(i + 1).drop_last() =~= s@.take(i as int));
            assert(s@.take(i + 1).last() == s@[i as int]);
        }
        if s.get_char(i) == c {
            return Some(i);
        }
    }
    proof {
        assert(s@.take(0) =~= Seq::<char>::empty());
    }
    None
}

/// The whitespace rule used when a usage line is taken apart.
pub open spec fn is_ws(c: char) -> bool {
    c == ' ' || c == '\t' || c == '\n' || c == '\r'
}

/// Whether `c` counts as whitespace here.
pub fn is_ws_exec(c: char) -> (r: bool)
    ensures
        r == is_ws(c),
{
    c == ' ' || c == '\t' || c == '\n' || c == '\r'
}

/// The end of the whitespace-free run starting at `i`: the first
/// position at or after `i` holding whitespace, or the length.
pub open spec fn token_end_from(s: Seq<char>, i: int) -> int
    decreases s.len() - i,
{
    if i < 0 || i >= s.len() {
        s.len() as int
    } else if is_ws(s[i]) {
        i
    } else {
        token_end_from(s, i + 1)
    }
}

/// What `token_end_from` finds: the first whitespace at or after `i`.
pub proof fn lemma_token_end(s: Seq<char>, i: int)
    requires
        0 <= i <= s.len(),
    ensures
        i <= token_end_from(s, i) <= s.len(),
        forall|k: int| i <= k < token_end_from(s, i) ==> !is_ws(s[k]),
        token_end_from(s, i) < s.len() ==> is_ws(s[token_end_from(s, i)]),
    decreases s.len() - i,
{
    if i < s.len() && !is_ws(s[i]) {
        lemma_token_end(s, i + 1);
    }
}

/// The whitespace-separated tokens of `s`, in order.
pub open spec fn spec_tokens(s: Seq<char>) -> Seq<Seq<char>>
    decreases s.len(),
    via spec_tokens_dec
{
    if s.len() == 0 {
        Seq::empty()
    } else if is_ws(s[0]) {
        spec_tokens(s.skip(1))
    } else {
        let k = token_end_from(s, 0);
        seq![s.subrange(0, k)] + spec_tokens(s.skip(k))
    }
}

#[via_fn]
proof fn spec_tokens_dec(s: Seq<char>) {
    if s.len() != 0 && !is_ws(s[0]) {
        lemma_token_end(s, 0);
        assert(token_end_from(s, 0) >= 1);
    }
}

/// Skipping a leading whitespace character drops no token.
proof fn lemma_tokens_skip_ws(s: Seq<char>, i: int)
    requires
        0 <= i < s.len(),
        is_ws(s[i]),
    ensures
        spec_tokens(s.skip(i)) == spec_tokens(s.skip(i + 1)),
{
    assert(s.skip(i)[0] == s[i]);
    assert(s.skip(i).skip(1) =~= s.skip(i + 1));
}

/// A whitespace-free run `[i, j)` bounded by whitespace (or the ends)
/// is the next token.
proof fn lemma_tokens_step(s: Seq<char>, i: int, j: int)
    requires
        0 <= i < j <= s.len(),
        forall|k: int| i <= k < j ==> !is_ws(s[k]),
        j == s.len() || is_ws(s[j]),
    ensures
        spec_tokens(s.skip(i)) == seq![s.subrange(i, j)] + spec_tokens(s.skip(j)),
{
    let t = s.skip(i);
    assert(t[0] == s[i]);
    assert(!is_ws(t[0]));
    assert forall|k: int| 0 <= k < j - i implies !is_ws(t[k]) by {
        assert(t[k] == s[i + k]);
    }
    lemma_token_end(t, 0);
    let te = token_end_from(t, 0);
    if te < j - i {
        assert(is_ws(t[te]) || te == t.len());
        assert(t[te] == s[i + te]);
        assert(false);
    }
    if te > j - i {
        assert(j - i < t.len());
        assert(t[j - i] == s[j]);
        assert(!is_ws(t[j - i]));
        assert(false);
    }
    assert(te == j - i);
    assert(t.subrange(0, j - i) =~= s.subrange(i, j));
    assert(t.skip(j - i) =~= s.skip(j));
}

/// Splits `s` into its whitespace-separated tokens.
pub fn split_ws(s: &str) -> (r: Vec<String>)
    ensures
        r@.map_values(|x: String| x@) == spec_tokens(s@),
{
    let len = s.unicode_len();
    let mut out: Vec<String> = Vec::new();
    let mut i: usize = 0;
    proof {
        assert(s@.skip(0) =~= s@);
        assert(out@.map_values(|x: String| x@) + spec_tokens(s@) =~= spec_tokens(s@));
    }
    while i < len
        invariant
            len == s@.len(),
            i <= len,
            spec_tokens(s@) == out@.map_values(|x: String| x@) + spec_tokens(s@.skip(i as int)),
        decreases len - i,
    {
        let c = s.get_char(i);
        if is_ws_exec(c) {
            proof {
                lemma_tokens_skip_ws(s@, i as int);
            }
            i = i + 1;
        } else {
            let mut j: usize = i + 1;
            while j < len && !is_ws_exec(s.get_char(j))
                invariant
                    len == s@.len(),
                    i < j <= len,
                    forall|k: int| i <= k < j ==> !is_ws(s@[k]),
                decreases len - j,
            {
                j = j + 1;
            }
            let tok = s.substring_char(i, j).to_owned();
            proof {
                lemma_tokens_step(s@, i as int, j as int);
            }
            out.push(tok);
            proof {
                let ghost prev = out@.drop_last();
                assert(out@.map_values(|x: String| x@) =~= prev.map_values(|x: String| x@).push(
                    tok@,
                ));
                assert(prev.map_values(|x: String| x@).push(tok@) + spec_tokens(s@.skip(j as int))
                    =~= prev.map_values(|x: String| x@) + (seq![s@.subrange(i as int, j as int)]
                    + spec_tokens(s@.skip(j as int))));
            }
            i = j;
        }
    }
    proof {
        assert(s@.skip(i as int) =~= Seq::<char>::empty());
        assert(out@.map_values(|x: String| x@) + spec_tokens(s@.skip(i as int)) =~= out@.map_values(
            |x: String| x@,
        ));
    }
    out
}

/// The final path segment: everything after the last `/`.
pub open spec fn spec_file_name(s: Seq<char>) -> Seq<char> {
    match spec_rfind(s, '/') {
        Some(i) => s.skip(i + 1),
        None => s,
    }
}

/// The final path segment without its extension: the segment up to its
/// last `.`, kept whole when the `.` leads it or there is none.
pub open spec fn spec_file_stem(s: Seq<char>) -> Seq<char> {
    let n = spec_file_name(s);
    match spec_rfind(n, '.') {
        Some(i) => if i > 0 {
            n.take(i)
        } else {
            n
        },
        None => n,
    }
}

/// The final path segment of `path`, if it is not empty: the program
/// name a leading argument displays.
pub fn file_name(path: &str) -> (r: Option<String>)
    ensures
        match r {
            Some(n) => n@ == spec_file_name(path@) && n@.len() > 0,
            None => spec_file_name(path@).len() == 0,
        },
{
    let len = path.unicode_len();
    let start: usize = match rfind_char(path, '/') {
        Some(i) => i + 1,
        None => 0,
    };
    proof {
        lemma_rfind(path@, '/');
        if spec_rfind(path@, '/') is None {
            assert(path@.skip(0) =~= path@);
        }
    }
    if start >= len {
        return None;
    }
    let n = path.substring_char(start, len).to_owned();
    proof {
        assert(n@ =~= spec_file_name(path@));
    }
    Some(n)
}

/// The file stem of `path`: its final path segment without the
/// extension.
pub fn file_stem(path: &str) -> (r: String)
    ensures
        r@ == spec_file_stem(path@),
{
    let len = path.unicode_len();
    let start: usize = match rfind_char(path, '/') {
        Some(i) => i + 1,
        None => 0,
    };
    proof {
        lemma_rfind(path@, '/');
        if spec_rfind(path@, '/') is None {
            assert(path@.skip(0) =~= path@);
        }
    }
    let name = path.substring_char(start, len);
    proof {
        assert(name@ =~= spec_file_name(path@));
    }
    let nlen = name.unicode_len();
    let end: usize = match rfind_char(name, '.') {
        Some(i) => if i > 0 {
            i
        } else {
            nlen
        },
        None => nlen,
    };
    let stem = name.substring_char(0, end).to_owned();
    proof {
        assert(name@.take(name@.len() as int) =~= name@);
        assert(stem@ =~= spec_file_stem(path@));
    }
    stem
}

} // verus!
