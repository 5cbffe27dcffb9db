//! The `major.minor` Python version recorded in a lockfile entry, found in the
//! free-form Python description of an environment with a regular expression.

use vstd::prelude::*;
use regex::Regex;

verus! {

#[verifier::external_type_specification]
#[verifier::external_body]
pub struct ExRegex(Regex);

/// Whether `regex::Regex::new` accepts `pattern`.
pub uninterp spec fn regex_compiles(pattern: Seq<char>) -> bool;

/// What `regex::Regex::captures` finds in `haystack` with the expression
/// compiled from `pattern`: `None` when there is no match, else the text of
/// each capture group of the leftmost-first match, group 0 (the whole match)
/// first, then the groups in the order of their opening parentheses, `None`
/// for a group that took no part in the match.
pub uninterp spec fn regex_captures(pattern: Seq<char>, haystack: Seq<char>) -> Option<Seq<Option<Seq<char>>>>;

/// The contents of the capture groups as returned.
pub open spec fn groups_view(groups: Option<Vec<Option<String>>>) -> Option<Seq<Option<Seq<char>>>> {
    match groups {
        Some(g) => Some(g@.map_values(|m: Option<String>| crate::package::opt_view(m))),
        None => None,
    }
}

/// A regular expression together with the pattern it was compiled from.
pub struct CompiledPattern {
    source: String,
    regex: Regex,
}

/// Compiles `pattern` with `regex::Regex::new`. The contract states that the
/// result is present exactly when the crate accepts the pattern (named
/// [`regex_compiles`]); the error itself is dropped.
#[verifier::external_body]
fn compile_regex(pattern: &str) -> (res: Option<Regex>)
    ensures
        res is Some <==> regex_compiles(pattern@),
{
    Regex::new(pattern).ok()
}

/// Searches `haystack` with `regex::Regex::captures` and hands out the text of
/// every capture group (through `Captures::iter` and `Match::as_str`). The
/// contract states that the result is [`regex_captures`] of the pattern the
/// expression was compiled from: a `CompiledPattern` is only built by
/// [`CompiledPattern::new`], which compiles `source` itself.
#[verifier::external_body]
fn regex_first_captures(compiled: &CompiledPattern, haystack: &str) -> (res: Option<Vec<Option<String>>>)
    ensures
        groups_view(res) == regex_captures(compiled.source@, haystack@),
{
    compiled.regex.captures(haystack).map(|caps| caps.iter().map(|m| m.map(|m| m.as_str().to_string())).collect())
}

impl CompiledPattern {
    /// The pattern this expression was compiled from.
    pub closed spec fn source(&self) -> Seq<char> {
        self.source@
    }

    /// Compiles `pattern`; `None` when the regex crate refuses it.
    pub fn new(pattern: &str) -> (res: Option<CompiledPattern>)
        ensures
            res is Some <==> regex_compiles(pattern@),
            res matches Some(p) ==> p.source() == pattern@,
    {
        match compile_regex(pattern) {
            Some(regex) => Some(CompiledPattern { source: String::from_str(pattern), regex }),
            None => None,
        }
    }

    /// The capture groups of the first match in `haystack`, if any.
    pub fn captures(&self, haystack: &str) -> (res: Option<Vec<Option<String>>>)
        ensures
            groups_view(res) == regex_captures(self.source(), haystack@),
    {
        regex_first_captures(self, haystack)
    }
}

/// The pattern of a Python version in a Python description: two runs of
/// digits separated by a dot.
pub const PYTHON_VERSION_PATTERN: &'static str = "(\\d+)\\.(\\d+)";

/// `major.minor` from the capture groups of a version match: groups 1 and 2
/// joined by a dot; `None` when there was no match or either group is missing.
pub open spec fn version_of_groups(groups: Option<Seq<Option<Seq<char>>>>) -> Option<Seq<char>> {
    match groups {
        Some(g) => if g.len() > 2 && g[1] is Some && g[2] is Some {
            Some(g[1]->0 + "."@ + g[2]->0)
        } else {
            None
        },
        None => None,
    }
}

/// The Python version found in `input`: from the first match of
/// [`PYTHON_VERSION_PATTERN`], `None` where there is none.
pub open spec fn python_version_of(input: Seq<char>) -> Option<Seq<char>> {
    if regex_compiles(PYTHON_VERSION_PATTERN@) {
        version_of_groups(regex_captures(PYTHON_VERSION_PATTERN@, input))
    } else {
        None
    }
}

/// Joins the capture groups 1 and 2 of a version match as `major.minor`.
pub fn version_from_captures(groups: Option<Vec<Option<String>>>) -> (res: Option<String>)
    ensures
        opt_string_view(res) == version_of_groups(groups_view(groups)),
{
    match groups {
        Some(mut g) => {
            let ghost gv = groups_view(Some(g))->0;
            if g.len() > 2 {
                let minor = g.remove(2);
                let major = g.remove(1);
                assert(crate::package::opt_view(major) == gv[1]);
                assert(crate::package::opt_view(minor) == gv[2]);
                match (major, minor) {
                    (Some(mut major), Some(minor)) => {
                        major.append(".");
                        major.append(minor.as_str());
                        Some(major)
                    },
                    _ => None,
                }
            } else {
                None
            }
        },
        None => None,
    }
}

/// The contents of an optional string.
pub open spec fn opt_string_view(s: Option<String>) -> Option<Seq<char>> {
    crate::package::opt_view(s)
}

/// The `major.minor` Python version in a Python description such as
/// `CPython 3.12.1`, which gives `3.12`.
pub fn extract_python_version(input: &str) -> (res: Option<String>)
    ensures
        opt_string_view(res) == python_version_of(input@),
{
    let compiled = match CompiledPattern::new(PYTHON_VERSION_PATTERN) {
        Some(c) => c,
        None => return None,
    };
    version_from_captures(compiled.captures(input))
}

/// The version is the text of group 1, a dot, and the text of group 2, each
/// whole: its length is theirs plus one, group 1 comes first, the dot at its
/// end, group 2 after it. No version comes without a match or with a group
/// missing.
pub proof fn lemma_version_of_groups(g: Seq<Option<Seq<char>>>)
    ensures
        version_of_groups(None) is None,
        (g.len() <= 2 || g[1] is None || g[2] is None) ==> version_of_groups(Some(g)) is None,
        (g.len() > 2 && g[1] is Some && g[2] is Some) ==> {
            let a = g[1]->0;
            let b = g[2]->0;
            &&& version_of_groups(Some(g)) is Some
            &&& version_of_groups(Some(g))->0.len() == a.len() + 1 + b.len()
            &&& version_of_groups(Some(g))->0.subrange(0, a.len() as int) == a
            &&& version_of_groups(Some(g))->0[a.len() as int] == '.'
            &&& version_of_groups(Some(g))->0.subrange(a.len() + 1int, a.len() + 1int + b.len()) == b
        },
{
    reveal_strlit(".");
    if g.len() > 2 && g[1] is Some && g[2] is Some {
        let a = g[1]->0;
        let b = g[2]->0;
        let r = a + "."@ + b;
        assert(r.subrange(0, a.len() as int) =~= a);
        assert(r.subrange(a.len() + 1int, a.len() + 1int + b.len()) =~= b);
    }
}

} // verus!
