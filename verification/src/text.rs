use vstd::prelude::*;

verus! {

/// The ASCII digit character of a value below ten.
pub open spec fn digit_char(d: nat) -> char {
    if d == 0 { '0' } else if d == 1 { '1' } else if d == 2 { '2' } else if d == 3 { '3' }
    else if d == 4 { '4' } else if d == 5 { '5' } else if d == 6 { '6' } else if d == 7 { '7' }
    else if d == 8 { '8' } else { '9' }
}

/// The decimal notation of a natural number, without sign or leading zeros.
pub open spec fn decimal(n: nat) -> Seq<char>
    decreases n,
{
    if n < 10 {
        seq![digit_char(n)]
    } else {
        decimal(n / 10).push(digit_char(n % 10))
    }
}

fn digit(d: u64) -> (c: char)
    requires
        d < 10,
    ensures
        c == digit_char(d as nat),
{
    if d == 0 { '0' } else if d == 1 { '1' } else if d == 2 { '2' } else if d == 3 { '3' }
    else if d == 4 { '4' } else if d == 5 { '5' } else if d == 6 { '6' } else if d == 7 { '7' }
    else if d == 8 { '8' } else { '9' }
}

/// Decimal digits of `n`, most significant first.
pub fn decimal_chars(n: u64) -> (r: Vec<char>)
    ensures
        r@ == decimal(n as nat),
    decreases n,
{
    if n < 10 {
        let mut v: Vec<char> = Vec::new();
        v.push(digit(n));
        v
    } else {
        let mut v = decimal_chars(n / 10);
        v.push(digit(n % 10));
        v
    }
}

} // verus!

verus! {

/// The characters of a string slice, in order.
pub fn chars_of(s: &str) -> (r: Vec<char>)
    ensures
        r@ == s@,
{
    broadcast use vstd::string::group_string_axioms;

    let mut out: Vec<char> = Vec::new();
    for c in iter: s.chars()
        invariant
            iter.seq() == s@,
            out@ == s@.take(iter.index() as int),
    {
        out.push(c);
        assert(s@.take(iter.index() + 1) =~= s@.take(iter.index() as int).push(c));
    }
    assert(s@.take(s@.len() as int) =~= s@);
    out
}


/// Appends one character to a string.
#[verifier::external_body]
fn push_char(s: &mut String, c: char)
    ensures
        final(s)@ == old(s)@.push(c),
{
    s.push(c);
}

/// A string holding the given characters.
pub fn string_of(v: &Vec<char>) -> (r: String)
    ensures
        r@ == v@,
{
    let mut out = String::new();
    let mut i: usize = 0;
    while i < v.len()
        invariant
            i <= v@.len(),
            out@ == v@.take(i as int),
        decreases v@.len() - i,
    {
        push_char(&mut out, v[i]);
        assert(v@.take(i + 1) =~= v@.take(i as int).push(v@[i as int]));
        i = i + 1;
    }
    assert(v@.take(v@.len() as int) =~= v@);
    out
}

/// Appends the characters of `s` to `out`.
pub fn push_str(out: &mut Vec<char>, s: &str)
    ensures
        final(out)@ == old(out)@ + s@,
{
    let mut v = chars_of(s);
    out.append(&mut v);
}

/// Appends the characters of `src` to `out`.
pub fn push_all(out: &mut Vec<char>, src: &Vec<char>)
    ensures
        final(out)@ == old(out)@ + src@,
{
    let mut i: usize = 0;
    while i < src.len()
        invariant
            i <= src@.len(),
            out@ == old(out)@ + src@.take(i as int),
        decreases src@.len() - i,
    {
        out.push(src[i]);
        assert(src@.take(i + 1) =~= src@.take(i as int).push(src@[i as int]));
        i = i + 1;
    }
    assert(src@.take(src@.len() as int) =~= src@);
}

/// `n` spaces.
pub open spec fn spaces(n: nat) -> Seq<char> {
    Seq::new(n, |i: int| ' ')
}

/// `d` right-aligned in a field `width` characters wide (never truncated).
pub open spec fn right_align(d: Seq<char>, width: nat) -> Seq<char> {
    if d.len() >= width {
        d
    } else {
        spaces((width - d.len()) as nat) + d
    }
}

/// Appends `n` in decimal, right-aligned in a field `width` characters wide.
pub fn push_right_aligned(out: &mut Vec<char>, n: u64, width: usize)
    ensures
        final(out)@ == old(out)@ + right_align(decimal(n as nat), width as nat),
{
    let d = decimal_chars(n);
    let mut k: usize = d.len();
    while k < width
        invariant
            d.len() <= k <= width || (k == d.len() && k >= width),
            out@ == old(out)@ + spaces((k - d.len()) as nat),
        decreases width - k,
    {
        out.push(' ');
        assert(spaces((k + 1 - d.len()) as nat) =~= spaces((k - d.len()) as nat).push(' '));
        k = k + 1;
    }
    let ghost before = out@;
    push_all(out, &d);
    proof {
        if d@.len() >= width {
            assert(spaces(0) =~= Seq::<char>::empty());
            assert(out@ =~= old(out)@ + d@);
        } else {
            assert(out@ =~= old(out)@ + (spaces((width - d@.len()) as nat) + d@));
        }
    }
}

/// The lines of `s` as `str::split_inclusive('\n')` yields them: every line
/// but the last ends with its `'\n'`, and no line is empty.
pub open spec fn lines_inclusive(s: Seq<char>) -> Seq<Seq<char>>
    decreases s.len(),
{
    if s.len() == 0 {
        Seq::empty()
    } else {
        let r = lines_inclusive(s.drop_last());
        let c = s.last();
        if r.len() == 0 || r.last().last() == '\n' {
            r.push(seq![c])
        } else {
            r.update(r.len() - 1, r.last().push(c))
        }
    }
}

/// The views of a sequence of character vectors.
pub open spec fn views(v: Seq<Vec<char>>) -> Seq<Seq<char>> {
    v.map_values(|l: Vec<char>| l@)
}

/// The lines of a text, as `lines_inclusive` states.
pub fn split_lines_inclusive(s: &Vec<char>) -> (r: Vec<Vec<char>>)
    ensures
        views(r@) == lines_inclusive(s@),
{
    let mut done: Vec<Vec<char>> = Vec::new();
    let mut cur: Vec<char> = Vec::new();
    let mut i: usize = 0;
    while i < s.len()
        invariant
            i <= s@.len(),
            forall|k: int| 0 <= k < done@.len() ==> (#[trigger] done@[k])@.len() > 0 && done@[k]@.last() == '\n',
            forall|k: int| 0 <= k < cur@.len() ==> cur@[k] != '\n',
            lines_inclusive(s@.take(i as int)) == views(done@) + (if cur@.len() == 0 {
                Seq::<Seq<char>>::empty()
            } else {
                seq![cur@]
            }),
        decreases s@.len() - i,
    {
        let c = s[i];
        let ghost t = s@.take(i + 1);
        let ghost r = lines_inclusive(s@.take(i as int));
        assert(t.drop_last() =~= s@.take(i as int));
        assert(t.last() == c);
        let ghost old_done = views(done@);
        let ghost old_cur = cur@;
        cur.push(c);
        assert(cur@.drop_last() =~= old_cur);
        if c == '\n' {
            let line = cur;
            cur = Vec::new();
            done.push(line);
            proof {
                assert(views(done@) =~= old_done.push(line@));
                if line@.len() == 1 {
                    assert(r =~= old_done);
                    assert(line@ =~= seq![c]);
                } else {
                    assert(r =~= old_done.push(line@.drop_last()));
                    assert(line@.drop_last().push(c) =~= line@);
                }
            }
        } else {
            proof {
                if cur@.len() == 1 {
                    assert(r =~= old_done);
                    assert(cur@ =~= seq![c]);
                } else {
                    assert(r =~= old_done.push(cur@.drop_last()));
                    assert(cur@.drop_last().push(c) =~= cur@);
                    assert(r.update(r.len() - 1, r.last().push(c)) =~= old_done.push(cur@));
                }
                assert forall|k: int| 0 <= k < cur@.len() implies cur@[k] != '\n' by {
                    if k < cur@.len() - 1 {
                        assert(cur@[k] == cur@.drop_last()[k]);
                    }
                }
            }
        }
        i = i + 1;
    }
    assert(s@.take(s@.len() as int) =~= s@);
    if cur.len() > 0 {
        let ghost before = views(done@);
        done.push(cur);
        assert(views(done@) =~= before.push(done@.last()@));
    }
    done
}

/// Flattening the lines of a text gives the text back.
pub proof fn lemma_lines_flatten(s: Seq<char>)
    ensures
        lines_inclusive(s).flatten() == s,
    decreases s.len(),
{
    broadcast use Seq::lemma_flatten_push;

    if s.len() > 0 {
        let r = lines_inclusive(s.drop_last());
        lemma_lines_flatten(s.drop_last());
        let c = s.last();
        if r.len() == 0 || r.last().last() == '\n' {
            assert(s.drop_last().push(c) =~= s);
        } else {
            assert(r =~= r.drop_last().push(r.last()));
            assert(r.update(r.len() - 1, r.last().push(c)) =~= r.drop_last().push(r.last().push(c)));
            assert(r.drop_last().push(r.last()).flatten() == r.drop_last().flatten() + r.last());
            assert(r.drop_last().push(r.last().push(c)).flatten() == r.drop_last().flatten() + r.last().push(c));
            assert(s =~= s.drop_last().push(c));
        }
    }
}


/// What `format!("{:?}", s)` writes for a string: the text quoted and escaped.
pub uninterp spec fn debug_text(s: Seq<char>) -> Seq<char>;

/// The `Debug` rendering of a string (`format!("{:?}", s)`), as `debug_text` names it.
#[verifier::external_body]
pub(crate) fn debug_quoted(s: &str) -> (r: String)
    ensures
        r@ == debug_text(s@),
{
    format!("{:?}", s)
}


/// What `format!("{:?}", Path::new(s))` writes for a path: the text quoted
/// and escaped as `Path`'s `Debug` does it (which the standard library
/// defines, and may define differently from a string's).
pub uninterp spec fn path_debug_text(s: Seq<char>) -> Seq<char>;

/// The `Debug` rendering of `s` taken as a path (`format!("{:?}", Path::new(s))`),
/// as `path_debug_text` names it.
#[verifier::external_body]
pub(crate) fn path_debug_quoted(s: &str) -> (r: String)
    ensures
        r@ == path_debug_text(s@),
{
    format!("{:?}", std::path::Path::new(s))
}

/// Whether `c` is white space as `char::is_whitespace` defines it (the
/// Unicode `White_Space` property).
pub open spec fn is_white_space(c: char) -> bool {
    ||| ('\u{9}' <= c && c <= '\u{d}')
    ||| c == ' '
    ||| c == '\u{85}'
    ||| c == '\u{a0}'
    ||| c == '\u{1680}'
    ||| ('\u{2000}' <= c && c <= '\u{200a}')
    ||| c == '\u{2028}'
    ||| c == '\u{2029}'
    ||| c == '\u{202f}'
    ||| c == '\u{205f}'
    ||| c == '\u{3000}'
}

/// Whether `c` is white space, as `is_white_space` states.
pub fn is_white_space_exec(c: char) -> (r: bool)
    ensures
        r == is_white_space(c),
{
    ('\u{9}' <= c && c <= '\u{d}') || c == ' ' || c == '\u{85}' || c == '\u{a0}' || c == '\u{1680}'
        || ('\u{2000}' <= c && c <= '\u{200a}') || c == '\u{2028}' || c == '\u{2029}' || c
        == '\u{202f}' || c == '\u{205f}' || c == '\u{3000}'
}

/// `s` without its trailing white space (`str::trim_end`).
pub open spec fn trim_end(s: Seq<char>) -> Seq<char>
    decreases s.len(),
{
    if s.len() > 0 && is_white_space(s.last()) {
        trim_end(s.drop_last())
    } else {
        s
    }
}

/// `s` without its trailing white space, as `trim_end` states.
pub fn trim_end_exec(s: &Vec<char>) -> (r: Vec<char>)
    ensures
        r@ == trim_end(s@),
{
    let mut k: usize = s.len();
    assert(s@.take(k as int) =~= s@);
    while k > 0 && is_white_space_exec(s[k - 1])
        invariant
            k <= s@.len(),
            trim_end(s@) == trim_end(s@.take(k as int)),
        decreases k,
    {
        assert(s@.take(k as int).drop_last() =~= s@.take(k - 1));
        k = k - 1;
    }
    let mut out: Vec<char> = Vec::new();
    let mut i: usize = 0;
    while i < k
        invariant
            i <= k <= s@.len(),
            out@ == s@.take(i as int),
        decreases k - i,
    {
        out.push(s[i]);
        assert(s@.take(i + 1) =~= s@.take(i as int).push(s@[i as int]));
        i = i + 1;
    }
    assert(trim_end(s@.take(k as int)) == s@.take(k as int));
    out
}

/// A line as `str::lines` yields it: without its `'\n'`, and without a
/// `'\r'` right before that `'\n'`.
pub open spec fn strip_line_ending(l: Seq<char>) -> Seq<char> {
    if l.len() > 0 && l.last() == '\n' {
        let m = l.drop_last();
        if m.len() > 0 && m.last() == '\r' {
            m.drop_last()
        } else {
            m
        }
    } else {
        l
    }
}

/// The lines of `s` as `str::lines` yields them.
pub open spec fn std_lines(s: Seq<char>) -> Seq<Seq<char>> {
    lines_inclusive(s).map_values(|l: Seq<char>| strip_line_ending(l))
}

/// A line without its ending, as `strip_line_ending` states.
pub fn strip_line_ending_exec(l: &Vec<char>) -> (r: Vec<char>)
    ensures
        r@ == strip_line_ending(l@),
{
    let n = l.len();
    let k: usize = if n > 0 && l[n - 1] == '\n' {
        if n > 1 && l[n - 2] == '\r' {
            n - 2
        } else {
            n - 1
        }
    } else {
        n
    };
    let mut out: Vec<char> = Vec::new();
    let mut i: usize = 0;
    while i < k
        invariant
            i <= k <= n,
            n == l@.len(),
            out@ == l@.take(i as int),
        decreases k - i,
    {
        out.push(l[i]);
        assert(l@.take(i + 1) =~= l@.take(i as int).push(l@[i as int]));
        i = i + 1;
    }
    proof {
        if n > 0 && l@[n - 1] == '\n' {
            assert(l@.last() == l@[n - 1]);
            let m = l@.drop_last();
            if n > 1 && l@[n - 2] == '\r' {
                assert(m.last() == l@[n - 2]);
                assert(m.drop_last() =~= l@.take(k as int));
            } else {
                assert(m =~= l@.take(k as int));
                if m.len() > 0 {
                    assert(m.last() == l@[n - 2]);
                }
            }
        } else {
            assert(l@.take(n as int) =~= l@);
            if n > 0 {
                assert(l@.last() == l@[n - 1]);
            }
        }
    }
    out
}

/// The lines of a text, as `std_lines` states.
pub fn std_lines_exec(s: &Vec<char>) -> (r: Vec<Vec<char>>)
    ensures
        views(r@) == std_lines(s@),
{
    let inc = split_lines_inclusive(s);
    let mut out: Vec<Vec<char>> = Vec::new();
    let mut i: usize = 0;
    while i < inc.len()
        invariant
            i <= inc@.len(),
            views(inc@) == lines_inclusive(s@),
            views(out@) == std_lines(s@).take(i as int),
        decreases inc@.len() - i,
    {
        let l = strip_line_ending_exec(&inc[i]);
        let ghost before = views(out@);
        out.push(l);
        assert(views(out@) =~= before.push(l@));
        assert(std_lines(s@).take(i + 1) =~= std_lines(s@).take(i as int).push(std_lines(s@)[i as int]));
        i = i + 1;
    }
    assert(std_lines(s@).take(inc@.len() as int) =~= std_lines(s@));
    out
}


/// `s` without its leading white space (`str::trim_start`).
pub open spec fn trim_start(s: Seq<char>) -> Seq<char>
    decreases s.len(),
{
    if s.len() > 0 && is_white_space(s[0]) {
        trim_start(s.drop_first())
    } else {
        s
    }
}

/// `s` without white space at either end (`str::trim`).
pub open spec fn trim(s: Seq<char>) -> Seq<char> {
    trim_start(trim_end(s))
}

/// `s` without white space at either end, as `trim` states.
pub fn trim_exec(s: &str) -> (r: Vec<char>)
    ensures
        r@ == trim(s@),
{
    let v = chars_of(s);
    let e = trim_end_exec(&v);
    let mut k: usize = 0;
    assert(e@.skip(0) =~= e@);
    while k < e.len() && is_white_space_exec(e[k])
        invariant
            k <= e@.len(),
            trim_start(e@) == trim_start(e@.skip(k as int)),
        decreases e@.len() - k,
    {
        assert(e@.skip(k as int).drop_first() =~= e@.skip(k + 1));
        k = k + 1;
    }
    let mut out: Vec<char> = Vec::new();
    let mut i: usize = k;
    while i < e.len()
        invariant
            k <= i <= e@.len(),
            out@ == e@.subrange(k as int, i as int),
        decreases e@.len() - i,
    {
        out.push(e[i]);
        assert(e@.subrange(k as int, i + 1) =~= e@.subrange(k as int, i as int).push(e@[i as int]));
        i = i + 1;
    }
    assert(e@.subrange(k as int, e@.len() as int) =~= e@.skip(k as int));
    out
}

} // verus!
