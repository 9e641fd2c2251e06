use vstd::prelude::*;

use crate::error::{ErrorKind, ToolError};
use crate::text::{
    chars_of, decimal, decimal_chars, lemma_lines_flatten, lines_inclusive, push_all, push_str,
    split_lines_inclusive, string_of, views,
};

verus! {

/// `t`, with a `'\n'` added when it is not empty and does not already end with one.
pub open spec fn terminated(t: Seq<char>) -> Seq<char> {
    if t.len() > 0 && t.last() != '\n' {
        t.push('\n')
    } else {
        t
    }
}

/// The smaller of two naturals.
pub open spec fn min_nat(a: nat, b: nat) -> nat {
    if a <= b {
        a
    } else {
        b
    }
}

/// The text `s` with its lines (as `lines_inclusive` counts them) from index
/// `keep` up to index `resume` replaced by `text`: the first `keep` lines stay,
/// then `text` (terminated by a newline), then the lines from index `resume` on.
/// Indices past the last line stand for the end of the text.
pub open spec fn replace_lines(s: Seq<char>, keep: nat, resume: nat, text: Seq<char>) -> Seq<char> {
    let l = lines_inclusive(s);
    l.take(min_nat(keep, l.len()) as int).flatten() + terminated(text) + l.skip(
        min_nat(resume, l.len()) as int,
    ).flatten()
}

/// Appends the lines `lines[from..to]` to `out`.
pub fn push_lines(out: &mut Vec<char>, lines: &Vec<Vec<char>>, from: usize, to: usize)
    requires
        from <= to <= lines@.len(),
    ensures
        final(out)@ == old(out)@ + views(lines@).subrange(from as int, to as int).flatten(),
{
    broadcast use Seq::lemma_flatten_push;

    let mut i: usize = from;
    while i < to
        invariant
            from <= i <= to <= lines@.len(),
            out@ == old(out)@ + views(lines@).subrange(from as int, i as int).flatten(),
        decreases to - i,
    {
        let ghost prev = out@;
        push_all(out, &lines[i]);
        let ghost sub = views(lines@).subrange(from as int, i as int);
        assert(views(lines@).subrange(from as int, i + 1) =~= sub.push(lines@[i as int]@));
        proof {
            sub.lemma_flatten_push(lines@[i as int]@);
        }
        assert(out@ =~= old(out)@ + (sub.flatten() + lines@[i as int]@));
        i = i + 1;
    }
}

/// The text `contents` with its lines edited as `replace_lines` states.
pub fn replace_lines_exec(contents: &str, keep: usize, count: usize, text: &str) -> (r: String)
    ensures
        r@ == replace_lines(contents@, keep as nat, (keep + count) as nat, text@),
{
    let s = chars_of(contents);
    let lines = split_lines_inclusive(&s);
    let ghost l = lines_inclusive(s@);
    let n = lines.len();
    let a: usize = if keep <= n { keep } else { n };
    let b: usize = if keep >= n {
        n
    } else if count <= n - keep {
        keep + count
    } else {
        n
    };
    let mut out: Vec<char> = Vec::new();
    push_lines(&mut out, &lines, 0, a);
    let t = chars_of(text);
    push_all(&mut out, &t);
    if t.len() > 0 && t[t.len() - 1] != '\n' {
        out.push('\n');
    }
    push_lines(&mut out, &lines, b, n);
    proof {
        assert(views(lines@).subrange(0, a as int) =~= l.take(a as int));
        assert(views(lines@).subrange(b as int, n as int) =~= l.skip(b as int));
        if t@.len() > 0 {
            assert(t@.last() == t@[t@.len() - 1]);
        }
    }
    string_of(&out)
}

/// Editing arguments: lines `[start_line, end_line)` (1-based, end exclusive)
/// are replaced by `new_text`; without `end_line` the text is inserted before
/// `start_line` and no line is removed.
#[derive(Debug)]
pub struct FileEditTool {
    pub path: String,
    pub start_line: usize,
    pub end_line: Option<usize>,
    pub new_text: String,
}

impl FileEditTool {
    /// The arguments carry no zero line number (they are non-zero by type in the request).
    pub open spec fn wf(&self) -> bool {
        &&& self.start_line >= 1
        &&& self.end_line != Some(0usize)
    }

    /// The last line number replaced plus one.
    pub open spec fn end_spec(&self) -> usize {
        match self.end_line {
            Some(e) => e,
            None => self.start_line,
        }
    }

    /// How many lines are removed: `end_line - start_line`, or an error when
    /// `end_line` comes before `start_line`.
    pub fn lines_count(&self) -> (r: Result<usize, ToolError>)
        requires
            self.wf(),
        ensures
            self.end_spec() >= self.start_line <==> r is Ok,
            r matches Ok(c) ==> c == self.end_spec() - self.start_line,
            r matches Err(e) ==> e.kind == crate::error::ErrorKind::InvalidRequest && e.message@
                == "end_line ("@ + decimal(self.end_spec() as nat) + ") must not be less than start_line ("@
                + decimal(self.start_line as nat) + ")"@,
    {
        let start = self.start_line;
        let end = match self.end_line {
            Some(e) => e,
            None => start,
        };
        if end < start {
            let mut m: Vec<char> = Vec::new();
            push_str(&mut m, "end_line (");
            let d = decimal_chars(end as u64);
            push_all(&mut m, &d);
            push_str(&mut m, ") must not be less than start_line (");
            let d2 = decimal_chars(start as u64);
            push_all(&mut m, &d2);
            push_str(&mut m, ")");
            return Err(ToolError::invalid_request(string_of(&m)));
        }
        Ok(end - start)
    }

    /// The new contents of the file: the lines before `start_line` are kept, then
    /// `new_text` (newline-terminated when not empty), then the lines from
    /// `end_line` on.
    pub fn edited(&self, contents: &str) -> (r: String)
        requires
            self.wf(),
            self.end_spec() >= self.start_line,
        ensures
            r@ == replace_lines(
                contents@,
                (self.start_line - 1) as nat,
                (self.end_spec() - 1) as nat,
                self.new_text@,
            ),
    {
        let end = match self.end_line {
            Some(e) => e,
            None => self.start_line,
        };
        replace_lines_exec(contents, self.start_line - 1, end - self.start_line, self.new_text.as_str())
    }

    /// The answer once the file is updated.
    pub fn updated(resolved: &str) -> (r: String)
        ensures
            r@ == "updated "@ + resolved@,
    {
        let mut out: Vec<char> = Vec::new();
        push_str(&mut out, "updated ");
        push_str(&mut out, resolved);
        string_of(&out)
    }

    /// The refusal when the file could not be written, with the system's reason.
    pub fn write_failed(resolved: &str, reason: &str) -> (r: ToolError)
        ensures
            r.kind == ErrorKind::InvalidRequest,
            r.message@ == "failed to write a file: "@ + resolved@ + "\n"@ + reason@,
    {
        let mut out: Vec<char> = Vec::new();
        push_str(&mut out, "failed to write a file: ");
        push_str(&mut out, resolved);
        push_str(&mut out, "\n");
        push_str(&mut out, reason);
        ToolError::invalid_request(string_of(&out))
    }
}

/// Inserting nothing changes nothing: replacing no line by an empty text gives
/// the text back.
pub proof fn lemma_empty_insert_is_identity(s: Seq<char>, k: nat)
    ensures
        replace_lines(s, k, k, Seq::empty()) == s,
{
    let l = lines_inclusive(s);
    let m = min_nat(k, l.len());
    lemma_lines_flatten(s);
    assert(l.take(m as int) + l.skip(m as int) =~= l);
    vstd::seq_lib::lemma_flatten_concat(l.take(m as int), l.skip(m as int));
    assert(terminated(Seq::<char>::empty()) =~= Seq::<char>::empty());
    assert(replace_lines(s, k, k, Seq::empty()) =~= s);
}

/// Writing back the lines that a range holds changes nothing, when they are
/// newline-terminated (or the range is empty).
pub proof fn lemma_rewriting_same_lines_is_identity(s: Seq<char>, a: nat, b: nat)
    requires
        a <= b <= lines_inclusive(s).len(),
        ({
            let t = lines_inclusive(s).subrange(a as int, b as int).flatten();
            t.len() == 0 || t.last() == '\n'
        }),
    ensures
        replace_lines(s, a, b, lines_inclusive(s).subrange(a as int, b as int).flatten()) == s,
{
    let l = lines_inclusive(s);
    let t = l.subrange(a as int, b as int).flatten();
    lemma_lines_flatten(s);
    assert(l.take(a as int) + l.subrange(a as int, b as int) + l.skip(b as int) =~= l);
    vstd::seq_lib::lemma_flatten_concat(l.take(a as int), l.subrange(a as int, b as int));
    vstd::seq_lib::lemma_flatten_concat(
        l.take(a as int) + l.subrange(a as int, b as int),
        l.skip(b as int),
    );
    assert(terminated(t) == t);
    assert(replace_lines(s, a, b, t) =~= s);
}

} // verus!
