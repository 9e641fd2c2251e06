use vstd::prelude::*;

use crate::error::{ErrorKind, ToolError};
use crate::path::{strip_prefix_or_keep, strip_prefix_or_keep_exec};
use crate::permissions::{access, Access, Permissions, PermissionsGroup};
use crate::text::{
    chars_of, debug_quoted, debug_text, decimal, decimal_chars, push_all, push_str, std_lines,
    std_lines_exec, string_of, trim_end, trim_end_exec, views,
};

verus! {

#[verifier::external_type_specification]
#[verifier::external_body]
pub struct ExRegex(::regex::Regex);

/// What `RegexBuilder::new(pattern).case_insensitive(ignore_case).build()`
/// reports: `None` when the expression compiles, otherwise the error's text.
pub uninterp spec fn regex_build_error(pattern: Seq<char>, ignore_case: bool) -> Option<Seq<char>>;

/// Whether the expression compiled from `pattern` (case-insensitively when
/// `ignore_case`) matches somewhere in `haystack` (`Regex::is_match`).
pub uninterp spec fn regex_is_match(pattern: Seq<char>, ignore_case: bool, haystack: Seq<char>) -> bool;

/// Compiles a regular expression with `regex::RegexBuilder`; the error, if
/// any, is returned as its text. Both are as `regex_build_error` names them.
#[verifier::external_body]
fn build_regex(pattern: &str, ignore_case: bool) -> (r: Result<::regex::Regex, String>)
    ensures
        r is Ok <==> regex_build_error(pattern@, ignore_case) is None,
        r matches Err(m) ==> regex_build_error(pattern@, ignore_case) == Some(m@),
{
    match ::regex::RegexBuilder::new(pattern).case_insensitive(ignore_case).build() {
        Ok(re) => Ok(re),
        Err(e) => Err(e.to_string()),
    }
}

/// A compiled search expression together with the text and flag it was
/// compiled from. Only `GrepTool::build_query_regex` builds one, so the
/// compiled expression always belongs to `pattern` and `ignore_case`.
#[derive(Debug)]
pub struct CompiledQuery {
    pattern: String,
    ignore_case: bool,
    regex: ::regex::Regex,
}

impl CompiledQuery {
    /// The expression's text.
    pub closed spec fn pattern_view(&self) -> Seq<char> {
        self.pattern@
    }

    /// Whether it matches case-insensitively.
    pub closed spec fn ignore_case_view(&self) -> bool {
        self.ignore_case
    }
}

/// Runs `Regex::is_match` on `line` with the query's compiled expression,
/// which was built from the query's text and flag; the result is as
/// `regex_is_match` names it.
#[verifier::external_body]
fn query_is_match(query: &CompiledQuery, line: &str) -> (r: bool)
    ensures
        r == regex_is_match(query.pattern_view(), query.ignore_case_view(), line@),
{
    query.regex.is_match(line)
}

/// Most result lines a search returns.
pub const MAX_RESULTS: usize = 1000;

/// One hit as it is listed: `display:number:line`, the line number 1-based
/// and the line without trailing white space.
pub open spec fn hit_text(display: Seq<char>, index: nat, line: Seq<char>) -> Seq<char> {
    display + seq![':'] + decimal(index + 1) + seq![':'] + trim_end(line)
}

/// The results after searching `lines[i..]`: each line the query matches adds
/// its hit, and the search stops as soon as the results reach `MAX_RESULTS`.
pub open spec fn collect_hits(
    acc: Seq<Seq<char>>,
    display: Seq<char>,
    lines: Seq<Seq<char>>,
    i: int,
    pattern: Seq<char>,
    ignore_case: bool,
) -> Seq<Seq<char>>
    decreases lines.len() - i,
{
    if i >= lines.len() || i < 0 {
        acc
    } else if !regex_is_match(pattern, ignore_case, lines[i]) {
        collect_hits(acc, display, lines, i + 1, pattern, ignore_case)
    } else {
        let next = acc.push(hit_text(display, i as nat, lines[i]));
        if next.len() >= MAX_RESULTS {
            next
        } else {
            collect_hits(next, display, lines, i + 1, pattern, ignore_case)
        }
    }
}

/// A search that starts below the limit keeps what it had and never holds
/// more than `MAX_RESULTS` results.
pub proof fn lemma_hits_capped(
    acc: Seq<Seq<char>>,
    display: Seq<char>,
    lines: Seq<Seq<char>>,
    i: int,
    pattern: Seq<char>,
    ignore_case: bool,
)
    requires
        acc.len() < MAX_RESULTS,
    ensures
        collect_hits(acc, display, lines, i, pattern, ignore_case).len() <= MAX_RESULTS,
        collect_hits(acc, display, lines, i, pattern, ignore_case).len() >= acc.len(),
        collect_hits(acc, display, lines, i, pattern, ignore_case).take(acc.len() as int) == acc,
    decreases lines.len() - i,
{
    if i >= lines.len() || i < 0 {
        assert(acc.take(acc.len() as int) =~= acc);
    } else if !regex_is_match(pattern, ignore_case, lines[i]) {
        lemma_hits_capped(acc, display, lines, i + 1, pattern, ignore_case);
    } else {
        let next = acc.push(hit_text(display, i as nat, lines[i]));
        if next.len() >= MAX_RESULTS {
            assert(next.take(acc.len() as int) =~= acc);
        } else {
            lemma_hits_capped(next, display, lines, i + 1, pattern, ignore_case);
            let r = collect_hits(next, display, lines, i + 1, pattern, ignore_case);
            assert(r.take(acc.len() as int) =~= r.take(next.len() as int).take(acc.len() as int));
            assert(next.take(acc.len() as int) =~= acc);
        }
    }
}

/// Search arguments: a regular expression, where to search, which files
/// (a glob), and whether case is ignored.
#[derive(Debug)]
pub struct GrepTool {
    pub query: String,
    pub path: Option<String>,
    pub file_glob: Option<String>,
    pub ignore_case: Option<bool>,
}

/// The results gathered by one search.
#[derive(Debug)]
pub struct GrepResults {
    pub results: Vec<String>,
}

/// The views of a list of strings.
pub open spec fn string_views(v: Seq<String>) -> Seq<Seq<char>> {
    v.map_values(|s: String| s@)
}

impl GrepResults {
    pub fn new() -> (r: GrepResults)
        ensures
            r.results@.len() == 0,
    {
        GrepResults { results: Vec::new() }
    }

    /// Whether the search has reached `MAX_RESULTS` and stops.
    pub fn is_full(&self) -> (r: bool)
        ensures
            r == (self.results@.len() >= MAX_RESULTS),
    {
        self.results.len() >= MAX_RESULTS
    }

    /// Lists a file itself (a search without expression lists the files).
    pub fn push_file(&mut self, display: String)
        ensures
            string_views(final(self).results@) == string_views(old(self).results@).push(display@),
    {
        let ghost before = string_views(self.results@);
        self.results.push(display);
        assert(string_views(self.results@) =~= before.push(display@));
    }

    /// Adds the hits of one file's `contents`, as `collect_hits` states over
    /// its lines (`str::lines`).
    pub fn collect_file_lines(&mut self, display: &str, contents: &str, query: &CompiledQuery)
        ensures
            string_views(final(self).results@) == collect_hits(
                string_views(old(self).results@),
                display@,
                std_lines(contents@),
                0,
                query.pattern_view(),
                query.ignore_case_view(),
            ),
    {
        let s = chars_of(contents);
        let lines = std_lines_exec(&s);
        let ghost l = std_lines(contents@);
        let ghost p = query.pattern_view();
        let ghost ic = query.ignore_case_view();
        let d = chars_of(display);
        let mut i: usize = 0;
        assert(l.len() == lines@.len());
        while i < lines.len()
            invariant
                i <= lines@.len(),
                views(lines@) == l,
                l.len() == lines@.len(),
                l == std_lines(contents@),
                d@ == display@,
                p == query.pattern_view(),
                ic == query.ignore_case_view(),
                collect_hits(string_views(old(self).results@), display@, l, 0, p, ic) == collect_hits(
                    string_views(self.results@),
                    display@,
                    l,
                    i as int,
                    p,
                    ic,
                ),
            decreases lines@.len() - i,
        {
            let line = string_of(&lines[i]);
            assert(line@ == l[i as int]);
            let ghost acc = string_views(self.results@);
            if query_is_match(query, line.as_str()) {
                let mut h: Vec<char> = Vec::new();
                push_all(&mut h, &d);
                h.push(':');
                let num = decimal_chars((i + 1) as u64);
                push_all(&mut h, &num);
                h.push(':');
                let t = trim_end_exec(&lines[i]);
                push_all(&mut h, &t);
                let hit = string_of(&h);
                assert(hit@ =~= hit_text(display@, i as nat, l[i as int]));
                let ghost before = string_views(self.results@);
                self.results.push(hit);
                assert(string_views(self.results@) =~= before.push(hit@));
                if self.results.len() >= MAX_RESULTS {
                    assert(collect_hits(acc, display@, l, i as int, p, ic) == acc.push(hit@));
                    return;
                }
                assert(collect_hits(acc, display@, l, i as int, p, ic) == collect_hits(acc.push(hit@), display@, l, i + 1, p, ic));
            } else {
                assert(collect_hits(acc, display@, l, i as int, p, ic) == collect_hits(acc, display@, l, i + 1, p, ic));
            }
            i = i + 1;
        }
    }

    /// Whether a walked file's text is wanted: only by a search with an
    /// expression, while the results are not full, and when reading the
    /// (walked) file is granted.
    pub fn wants_contents(&self, permissions: &Permissions, file: &str, searching: bool) -> (r: bool)
        ensures
            r == (searching && self.results@.len() < MAX_RESULTS && access(
                permissions.rules(),
                PermissionsGroup::FsRead,
                file@,
            ) == Access::Granted),
    {
        searching && !self.is_full() && permissions.check(PermissionsGroup::FsRead, file).is_ok()
    }

    /// Takes one walked file. Once the results are full nothing changes.
    /// Without an expression the file itself is listed, shown relative to
    /// `workspace`; with one, the hits of its text are added when reading the
    /// file is granted and its text could be read (`contents`), and nothing
    /// otherwise.
    pub fn take_file(
        &mut self,
        permissions: &Permissions,
        workspace: &str,
        file: &str,
        query: Option<&CompiledQuery>,
        contents: Option<&str>,
    )
        ensures
            old(self).results@.len() >= MAX_RESULTS ==> string_views(final(self).results@) == string_views(
                old(self).results@,
            ),
            old(self).results@.len() < MAX_RESULTS && query is None ==> string_views(final(self).results@)
                == string_views(old(self).results@).push(strip_prefix_or_keep(file@, workspace@)),
            old(self).results@.len() < MAX_RESULTS && query is Some && access(
                permissions.rules(),
                PermissionsGroup::FsRead,
                file@,
            ) == Access::Granted && contents is Some ==> string_views(final(self).results@) == collect_hits(
                string_views(old(self).results@),
                strip_prefix_or_keep(file@, workspace@),
                std_lines(contents->0@),
                0,
                query->0.pattern_view(),
                query->0.ignore_case_view(),
            ),
            old(self).results@.len() < MAX_RESULTS && query is Some && !(access(
                permissions.rules(),
                PermissionsGroup::FsRead,
                file@,
            ) == Access::Granted && contents is Some) ==> string_views(final(self).results@) == string_views(
                old(self).results@,
            ),
    {
        if self.is_full() {
            return;
        }
        let display = strip_prefix_or_keep_exec(file, workspace);
        match query {
            None => self.push_file(display),
            Some(q) => {
                if permissions.check(PermissionsGroup::FsRead, file).is_ok() {
                    match contents {
                        Some(c) => self.collect_file_lines(display.as_str(), c, q),
                        None => {},
                    }
                }
            },
        }
    }

    /// The search output: the results one per line; with none, `no matches`
    /// (for an empty query) or `no matches for` and the quoted query; when the
    /// results reached `MAX_RESULTS`, a last line saying so.
    pub fn render(&self, query: &str) -> (r: String)
        ensures
            self.results@.len() == 0 && query@.len() == 0 ==> r@ == "no matches"@,
            self.results@.len() == 0 && query@.len() > 0 ==> r@ == "no matches for "@ + debug_text(query@),
            self.results@.len() > 0 ==> r@ == join_lines(string_views(self.results@)) + (
                if self.results@.len() >= MAX_RESULTS {
                    "\n... results truncated at 1000"@
                } else {
                    Seq::<char>::empty()
                }),
    {
        if self.results.len() == 0 {
            if query.is_empty() {
                return String::from_str("no matches");
            }
            let mut m: Vec<char> = Vec::new();
            push_str(&mut m, "no matches for ");
            let q = debug_quoted(query);
            push_str(&mut m, q.as_str());
            return string_of(&m);
        }
        let mut out = join_lines_exec(&self.results);
        if self.results.len() >= MAX_RESULTS {
            push_str(&mut out, "\n... results truncated at 1000");
        }
        string_of(&out)
    }
}

/// The items joined with `'\n'` between them (`[..].join("\n")`).
pub open spec fn join_lines(items: Seq<Seq<char>>) -> Seq<char>
    decreases items.len(),
{
    if items.len() == 0 {
        Seq::empty()
    } else if items.len() == 1 {
        items[0]
    } else {
        join_lines(items.drop_last()).push('\n') + items.last()
    }
}

/// The items joined with `'\n'` between them, as `join_lines` states.
pub fn join_lines_exec(items: &Vec<String>) -> (r: Vec<char>)
    ensures
        r@ == join_lines(string_views(items@)),
{
    let mut out: Vec<char> = Vec::new();
    let mut i: usize = 0;
    let ghost v = string_views(items@);
    while i < items.len()
        invariant
            i <= items@.len(),
            v == string_views(items@),
            out@ == join_lines(v.take(i as int)),
        decreases items@.len() - i,
    {
        let ghost w = v.take(i + 1);
        assert(w.drop_last() =~= v.take(i as int));
        assert(w.last() == items@[i as int]@);
        if i > 0 {
            out.push('\n');
        } else {
            assert(w.len() == 1);
            assert(out@ =~= Seq::<char>::empty());
        }
        push_str(&mut out, items[i].as_str());
        i = i + 1;
    }
    assert(v.take(items@.len() as int) =~= v);
    out
}

impl GrepTool {
    /// An empty query is refused (`query must not be empty`).
    pub fn validate(&self) -> (r: Result<(), ToolError>)
        ensures
            r is Ok <==> self.query@.len() > 0,
            r matches Err(e) ==> e.kind == ErrorKind::InvalidRequest && e.message@ == "query must not be empty"@,
    {
        if self.query.as_str().is_empty() {
            return Err(ToolError::invalid_request(String::from_str("query must not be empty")));
        }
        Ok(())
    }

    /// Compiles the query: none for an empty query; otherwise the compiled
    /// expression, or an invalid-request error naming the query and the
    /// compiler's message.
    pub fn build_query_regex(query: &str, ignore_case: bool) -> (r: Result<Option<CompiledQuery>, ToolError>)
        ensures
            query@.len() == 0 ==> r matches Ok(None),
            query@.len() > 0 ==> (r is Ok <==> regex_build_error(query@, ignore_case) is None),
            query@.len() > 0 && regex_build_error(query@, ignore_case) is None ==> r matches Ok(Some(_)),
            r matches Ok(Some(q)) ==> q.pattern_view() == query@ && q.ignore_case_view() == ignore_case,
            r matches Err(e) ==> e.kind == ErrorKind::InvalidRequest && e.message@ == "invalid regular expression "@
                + debug_text(query@) + ": "@ + regex_build_error(query@, ignore_case)->0,
    {
        if query.is_empty() {
            return Ok(None);
        }
        match build_regex(query, ignore_case) {
            Ok(re) => Ok(
                Some(CompiledQuery { pattern: String::from_str(query), ignore_case, regex: re }),
            ),
            Err(m) => {
                let mut out: Vec<char> = Vec::new();
                push_str(&mut out, "invalid regular expression ");
                let q = debug_quoted(query);
                push_str(&mut out, q.as_str());
                push_str(&mut out, ": ");
                push_str(&mut out, m.as_str());
                Err(ToolError::invalid_request(string_of(&out)))
            },
        }
    }
}

} // verus!
