use vstd::prelude::*;

use crate::path::{strip_prefix_or_keep, strip_prefix_or_keep_exec};
use crate::tools::fs::glob::glob_output;
use crate::tools::fs::grep::string_views;

verus! {

/// The byte `*`.
pub const STAR: u8 = 42u8;

/// The byte `?`.
pub const QUESTION: u8 = 63u8;

/// The path separator `/`.
pub const SLASH: u8 = 47u8;

/// No byte of `t` is a path separator.
pub open spec fn within_segment(t: Seq<u8>) -> bool {
    forall|j: int| 0 <= j < t.len() ==> t[j] != SLASH
}

/// Whether the `/`-separated path `t` matches the glob pattern `p`:
/// - `?` matches one byte other than `/`;
/// - `*` matches any run of bytes within one segment (no `/`);
/// - `**` matches any run of bytes, `/` included; a `/` right after it is
///   consumed with it, so `**/` also matches zero directories;
/// - any other byte matches itself.
pub open spec fn glob_matches(p: Seq<u8>, t: Seq<u8>) -> bool
    decreases p.len(), t.len(),
{
    if p.len() == 0 {
        t.len() == 0
    } else if p[0] == STAR && p.len() >= 2 && p[1] == STAR {
        let after = if p.len() >= 3 && p[2] == SLASH {
            p.skip(3)
        } else {
            p.skip(2)
        };
        glob_matches(after, t) || (t.len() > 0 && glob_matches(p, t.drop_first()))
    } else if p[0] == STAR {
        glob_matches(p.drop_first(), t) || (t.len() > 0 && t[0] != SLASH && glob_matches(
            p,
            t.drop_first(),
        ))
    } else if p[0] == QUESTION {
        t.len() > 0 && t[0] != SLASH && glob_matches(p.drop_first(), t.drop_first())
    } else {
        t.len() > 0 && t[0] == p[0] && glob_matches(p.drop_first(), t.drop_first())
    }
}

proof fn lemma_skip_next(s: Seq<u8>, a: int)
    requires
        0 <= a < s.len(),
    ensures
        s.skip(a).drop_first() == s.skip(a + 1),
        s.skip(a)[0] == s[a],
{
    assert(s.skip(a).drop_first() =~= s.skip(a + 1));
}

fn match_from(p: &[u8], pi: usize, t: &[u8], ti: usize) -> (r: bool)
    requires
        pi <= p@.len(),
        ti <= t@.len(),
    ensures
        r == glob_matches(p@.skip(pi as int), t@.skip(ti as int)),
    decreases p@.len() - pi,
{
    let ghost ps = p@.skip(pi as int);
    let ghost ts = t@.skip(ti as int);
    let plen = p.len();
    let tlen = t.len();
    if pi == plen {
        return ti == tlen;
    }
    proof {
        lemma_skip_next(p@, pi as int);
    }
    if p[pi] == STAR && pi + 1 < plen && p[pi + 1] == STAR {
        let after: usize = if pi + 2 < plen && p[pi + 2] == SLASH {
            pi + 3
        } else {
            pi + 2
        };
        proof {
            assert(ps[1] == p@[pi + 1]);
            assert(ps.len() >= 3 ==> ps[2] == p@[pi + 2]);
            assert(ps.skip(after - pi) =~= p@.skip(after as int));
        }
        let mut i: usize = ti;
        loop
            invariant
                pi < after <= p@.len(),
                ti <= i <= t@.len(),
                tlen == t@.len(),
                ps == p@.skip(pi as int),
                ts == t@.skip(ti as int),
                ps[0] == STAR && ps.len() >= 2 && ps[1] == STAR,
                ps.skip(after - pi) == p@.skip(after as int),
                after - pi == (if ps.len() >= 3 && ps[2] == SLASH {
                    3int
                } else {
                    2int
                }),
                glob_matches(ps, ts) == glob_matches(ps, t@.skip(i as int)),
            decreases t@.len() - i,
        {
            if match_from(p, after, t, i) {
                return true;
            }
            if i == tlen {
                assert(t@.skip(i as int).len() == 0);
                return false;
            }
            proof {
                lemma_skip_next(t@, i as int);
            }
            i = i + 1;
        }
    } else if p[pi] == STAR {
        let mut i: usize = ti;
        loop
            invariant
                pi < p@.len(),
                plen == p@.len(),
                ti <= i <= t@.len(),
                tlen == t@.len(),
                ps == p@.skip(pi as int),
                ts == t@.skip(ti as int),
                ps[0] == STAR,
                !(ps.len() >= 2 && ps[1] == STAR),
                ps.drop_first() == p@.skip(pi + 1),
                glob_matches(ps, ts) == glob_matches(ps, t@.skip(i as int)),
            decreases t@.len() - i,
        {
            if match_from(p, pi + 1, t, i) {
                return true;
            }
            if i == tlen || t[i] == SLASH {
                proof {
                    if i < tlen {
                        lemma_skip_next(t@, i as int);
                    }
                }
                return false;
            }
            proof {
                lemma_skip_next(t@, i as int);
            }
            i = i + 1;
        }
    } else if p[pi] == QUESTION {
        if ti < tlen && t[ti] != SLASH {
            proof {
                lemma_skip_next(t@, ti as int);
            }
            match_from(p, pi + 1, t, ti + 1)
        } else {
            proof {
                if ti < tlen {
                    lemma_skip_next(t@, ti as int);
                }
            }
            false
        }
    } else {
        if ti < tlen && t[ti] == p[pi] {
            proof {
                lemma_skip_next(t@, ti as int);
            }
            match_from(p, pi + 1, t, ti + 1)
        } else {
            proof {
                if ti < tlen {
                    lemma_skip_next(t@, ti as int);
                }
            }
            false
        }
    }
}

/// Matches a `/`-separated path against a glob pattern, as `glob_matches` states.
pub fn glob_match(pattern: &[u8], text: &[u8]) -> (r: bool)
    ensures
        r == glob_matches(pattern@, text@),
{
    proof {
        assert(pattern@.skip(0) =~= pattern@);
        assert(text@.skip(0) =~= text@);
    }
    match_from(pattern, 0, text, 0)
}


/// A pattern free of `*` and `?` matches exactly the path equal to it.
pub proof fn lemma_literal_pattern_matches_only_itself(p: Seq<u8>, t: Seq<u8>)
    requires
        forall|i: int| 0 <= i < p.len() ==> p[i] != STAR && p[i] != QUESTION,
    ensures
        glob_matches(p, t) <==> p == t,
    decreases p.len(),
{
    if p.len() == 0 {
        if t.len() != 0 {
            assert(p != t);
        } else {
            assert(p =~= t);
        }
    } else if t.len() == 0 {
        assert(p != t);
    } else {
        lemma_literal_pattern_matches_only_itself(p.drop_first(), t.drop_first());
        if p == t {
            assert(p.drop_first() == t.drop_first());
        }
        if p[0] == t[0] && p.drop_first() == t.drop_first() {
            assert forall|i: int| 0 <= i < p.len() implies p[i] == t[i] by {
                if i > 0 {
                    assert(p[i] == p.drop_first()[i - 1]);
                    assert(t[i] == t.drop_first()[i - 1]);
                }
            }
            assert(p =~= t);
        }
    }
}

/// `**` on its own matches every path.
pub proof fn lemma_double_star_matches_everything(t: Seq<u8>)
    ensures
        glob_matches(seq![STAR, STAR], t),
    decreases t.len(),
{
    reveal_with_fuel(glob_matches, 2);
    let p = seq![STAR, STAR];
    assert(p[0] == STAR && p[1] == STAR && p.len() == 2);
    assert(p.skip(2) =~= Seq::<u8>::empty());
    if t.len() > 0 {
        lemma_double_star_matches_everything(t.drop_first());
    }
}

/// `*` on its own matches exactly the paths of one segment (no `/`).
pub proof fn lemma_single_star_matches_one_segment(t: Seq<u8>)
    ensures
        glob_matches(seq![STAR], t) <==> within_segment(t),
    decreases t.len(),
{
    reveal_with_fuel(glob_matches, 2);
    let p = seq![STAR];
    assert(p[0] == STAR && p.len() == 1);
    assert(p.drop_first() =~= Seq::<u8>::empty());
    if t.len() > 0 {
        lemma_single_star_matches_one_segment(t.drop_first());
        if within_segment(t) {
            assert(within_segment(t.drop_first()));
        }
        if t[0] != SLASH && within_segment(t.drop_first()) {
            assert forall|j: int| 0 <= j < t.len() implies t[j] != SLASH by {
                if j > 0 {
                    assert(t[j] == t.drop_first()[j - 1]);
                }
            }
        }
    }
}

/// `?` on its own matches exactly one byte other than `/`.
pub proof fn lemma_question_mark_matches_one_byte(t: Seq<u8>)
    ensures
        glob_matches(seq![QUESTION], t) <==> (t.len() == 1 && t[0] != SLASH),
{
    reveal_with_fuel(glob_matches, 2);
    let p = seq![QUESTION];
    assert(p[0] == QUESTION && p.len() == 1);
    assert(p.drop_first() =~= Seq::<u8>::empty());
}

/// A leading `**/` lets a pattern match below any directory prefix, including
/// none: if `p` matches `t`, then `**/` followed by `p` matches `x + t`.
pub proof fn lemma_recursive_prefix_crosses_directories(p: Seq<u8>, x: Seq<u8>, t: Seq<u8>)
    requires
        glob_matches(p, t),
    ensures
        glob_matches(seq![STAR, STAR, SLASH] + p, x + t),
    decreases x.len(),
{
    let q = seq![STAR, STAR, SLASH] + p;
    assert(q[0] == STAR && q[1] == STAR && q[2] == SLASH);
    assert(q.skip(3) =~= p);
    if x.len() == 0 {
        assert(x + t =~= t);
    } else {
        lemma_recursive_prefix_crosses_directories(p, x.drop_first(), t);
        assert((x + t).drop_first() =~= x.drop_first() + t);
    }
}


/// The files of `files` whose path relative to `root` matches `pattern`
/// (compared as UTF-8 bytes, as `glob_matches` states), in order.
pub open spec fn retained_by_bytes(root: Seq<char>, files: Seq<Seq<char>>, pattern: Seq<char>) -> Seq<Seq<char>>
    decreases files.len(),
{
    if files.len() == 0 {
        Seq::empty()
    } else {
        let r = retained_by_bytes(root, files.drop_last(), pattern);
        if glob_matches(
            vstd::utf8::encode_utf8(pattern),
            vstd::utf8::encode_utf8(strip_prefix_or_keep(files.last(), root)),
        ) {
            r.push(files.last())
        } else {
            r
        }
    }
}

/// Glob search arguments: a pattern (`*`, `**`, `?`) matched against paths
/// relative to the searched directory, and that directory (the workspace when absent).
#[derive(Debug)]
pub struct GlobTool {
    pub pattern: String,
    pub path: Option<String>,
}

impl GlobTool {
    /// Keeps the walked `files` under `path` whose relative path matches
    /// `pattern` with `glob_match` (all of them without a pattern).
    pub fn collect(path: &str, files: Vec<String>, pattern: Option<&str>) -> (r: Vec<String>)
        ensures
            pattern is None ==> string_views(r@) == string_views(files@),
            pattern is Some ==> string_views(r@) == retained_by_bytes(
                path@,
                string_views(files@),
                pattern->0@,
            ),
    {
        let p = match pattern {
            None => return files,
            Some(p) => p,
        };
        let ghost fv = string_views(files@);
        let mut kept: Vec<String> = Vec::new();
        let mut i: usize = 0;
        while i < files.len()
            invariant
                i <= files@.len(),
                fv == string_views(files@),
                string_views(kept@) == retained_by_bytes(path@, fv.take(i as int), p@),
            decreases files@.len() - i,
        {
            let f = files[i].as_str();
            let rel = strip_prefix_or_keep_exec(f, path);
            let ghost w = fv.take(i + 1);
            assert(w.drop_last() =~= fv.take(i as int));
            assert(w.last() == f@);
            if glob_match(p.as_bytes(), rel.as_str().as_bytes()) {
                let ghost before = string_views(kept@);
                kept.push(String::from_str(f));
                assert(string_views(kept@) =~= before.push(f@));
            }
            i = i + 1;
        }
        assert(fv.take(files@.len() as int) =~= fv);
        kept
    }

    /// The search answer for the files found, as `glob_output` states.
    pub fn render(&self, workspace: &str, files: &Vec<String>) -> (r: String)
        ensures
            r@ == glob_output(workspace@, string_views(files@), self.pattern@),
    {
        let same = crate::tools::fs::glob::GlobTool {
            pattern: self.pattern.clone(),
            path: None,
        };
        same.render(workspace, files)
    }
}

} // verus!
