//! Shell-style patterns of the `glob` crate, matched against whole paths.
use vstd::prelude::*;

verus! {

/// Whether `t` holds a character that `glob::Pattern` treats specially (`*`, `?` or `[`).
pub open spec fn has_glob_metachar(t: Seq<char>) -> bool {
    exists|i: int| 0 <= i < t.len() && (t[i] == '*' || t[i] == '?' || t[i] == '[')
}

/// `s` starts with `p`.
pub open spec fn has_prefix(s: Seq<char>, p: Seq<char>) -> bool {
    p.len() <= s.len() && s.take(p.len() as int) == p
}

/// `t` has the form `Q**` where `Q` ends with `/` and holds no `*`, `?` or
/// `[`: the pattern of everything below the directory `Q`.
pub open spec fn is_subtree_pattern(t: Seq<char>) -> bool {
    &&& t.len() >= 3
    &&& t[t.len() - 1] == '*'
    &&& t[t.len() - 2] == '*'
    &&& t[t.len() - 3] == '/'
    &&& !has_glob_metachar(t.take(t.len() - 2))
}

/// The directory part `Q` (with its trailing `/`) of a pattern `Q**`.
pub open spec fn subtree_base(t: Seq<char>) -> Seq<char> {
    t.take(t.len() - 2)
}

/// `t` holds a `[` with no `]` anywhere after it: a character class that is
/// never closed.
pub open spec fn has_unclosed_bracket(t: Seq<char>) -> bool {
    exists|i: int| 0 <= i < t.len() && t[i] == '[' && forall|j: int| i < j < t.len() ==> t[j] != ']'
}

/// What `glob::Pattern::new(pattern)` reports: `None` when the pattern compiles,
/// otherwise the text of its `PatternError`.
pub uninterp spec fn glob_pattern_error(pattern: Seq<char>) -> Option<Seq<char>>;

/// Whether the compiled `pattern` matches the whole of `path` under the options
/// used throughout this library: case-sensitive, `/` matched only literally,
/// leading dots not special.
pub uninterp spec fn glob_pattern_matches(pattern: Seq<char>, path: Seq<char>) -> bool;

/// Compiles `pattern` with `glob::Pattern::new` and reports the outcome:
/// `None` when it compiles, the error text otherwise (as `glob_pattern_error`
/// names it). The claims beyond the name: a pattern without `*`, `?` or `[`
/// always compiles (`Pattern::new` only fails on those characters), and so
/// does `Q**` with `Q` as in `is_subtree_pattern` (a `**` that follows a `/`
/// and ends the pattern is accepted); a pattern with a `[` that no `]`
/// follows is refused (`Pattern::new` either fails before reaching that `[`,
/// or finds no `]` to close the class it opens: an earlier class cannot take
/// it in, as that would need a `]` after it).
#[verifier::external_body]
pub(crate) fn glob_pattern_check(pattern: &str) -> (r: Option<String>)
    ensures
        match r {
            None => glob_pattern_error(pattern@) is None,
            Some(m) => glob_pattern_error(pattern@) == Some(m@),
        },
        !has_glob_metachar(pattern@) ==> r is None,
        is_subtree_pattern(pattern@) ==> r is None,
        has_unclosed_bracket(pattern@) ==> r is Some,
{
    match ::glob::Pattern::new(pattern) {
        Ok(_) => None,
        Err(e) => Some(e.to_string()),
    }
}

/// Matches `path` against the compiled `pattern` with `glob::Pattern::matches_with`
/// under the options `glob_pattern_matches` names. The claims beyond the name:
/// a pattern without `*`, `?` or `[` compiles to plain characters, each of
/// which matches only itself (case-sensitively), so it matches exactly the
/// equal path; and a pattern `Q**` as in `is_subtree_pattern` compiles to the
/// characters of `Q` followed by a recursive wildcard that ends the pattern
/// and takes whatever is left, so it matches exactly the paths that start with `Q`.
#[verifier::external_body]
pub(crate) fn glob_pattern_match(pattern: &str, path: &str) -> (r: bool)
    requires
        glob_pattern_error(pattern@) is None,
    ensures
        r == glob_pattern_matches(pattern@, path@),
        !has_glob_metachar(pattern@) ==> (r <==> pattern@ == path@),
        is_subtree_pattern(pattern@) ==> (r <==> has_prefix(path@, subtree_base(pattern@))),
{
    let options = ::glob::MatchOptions {
        case_sensitive: true,
        require_literal_separator: true,
        require_literal_leading_dot: false,
    };
    match ::glob::Pattern::new(pattern) {
        Ok(p) => p.matches_with(path, options),
        Err(_) => false,
    }
}

} // verus!
