use vstd::prelude::*;

use crate::text::{chars_of, push_all, string_of};

verus! {

/// One component of a `/`-separated (Unix) path, as `std::path::Path::components` yields it.
pub enum Component {
    RootDir,
    CurDir,
    ParentDir,
    Normal(Seq<char>),
}

/// The pieces of `s` between `/` separators, empty pieces included
/// (`""` gives one empty piece, `"/a"` gives `""` and `"a"`).
pub open spec fn split_slash(s: Seq<char>) -> Seq<Seq<char>>
    decreases s.len(),
{
    if s.len() == 0 {
        seq![Seq::<char>::empty()]
    } else {
        let r = split_slash(s.drop_last());
        if s.last() == '/' {
            r.push(Seq::empty())
        } else {
            r.update(r.len() - 1, r.last().push(s.last()))
        }
    }
}

/// Splitting always gives at least one piece.
pub proof fn lemma_split_slash_nonempty(s: Seq<char>)
    ensures
        split_slash(s).len() >= 1,
    decreases s.len(),
{
    if s.len() > 0 {
        lemma_split_slash_nonempty(s.drop_last());
    }
}

/// The one-character text `.`.
pub open spec fn dot() -> Seq<char> {
    seq!['.']
}

/// The two-character text `..`.
pub open spec fn dot_dot() -> Seq<char> {
    seq!['.', '.']
}

/// What a piece between separators contributes: nothing for an empty piece or
/// `.`, a parent step for `..`, a name otherwise.
pub open spec fn segment_component(seg: Seq<char>) -> Seq<Component> {
    if seg.len() == 0 || seg == dot() {
        Seq::empty()
    } else if seg == dot_dot() {
        seq![Component::ParentDir]
    } else {
        seq![Component::Normal(seg)]
    }
}

/// The components contributed by a list of pieces, in order.
pub open spec fn segments_components(segs: Seq<Seq<char>>) -> Seq<Component>
    decreases segs.len(),
{
    if segs.len() == 0 {
        Seq::empty()
    } else {
        segments_components(segs.drop_last()) + segment_component(segs.last())
    }
}

/// The components of a path: a root for a leading `/`; a current-directory
/// component only when a relative path starts with the piece `.`; then a
/// parent step for each `..` and a name for each other non-empty piece
/// (empty pieces and later `.` pieces are dropped).
pub open spec fn components(s: Seq<char>) -> Seq<Component> {
    let segs = split_slash(s);
    if s.len() > 0 && s[0] == '/' {
        seq![Component::RootDir] + segments_components(segs)
    } else if segs[0] == dot() {
        seq![Component::CurDir] + segments_components(segs.drop_first())
    } else {
        segments_components(segs)
    }
}

/// The text a component stands for.
pub open spec fn component_text(c: Component) -> Seq<char> {
    match c {
        Component::RootDir => seq!['/'],
        Component::CurDir => dot(),
        Component::ParentDir => dot_dot(),
        Component::Normal(n) => n,
    }
}

/// `PathBuf::push` on texts: an absolute `p` replaces `buf`; otherwise `p` is
/// appended, after a `/` when `buf` is not empty and does not end with one.
pub open spec fn push_path(buf: Seq<char>, p: Seq<char>) -> Seq<char> {
    if p.len() > 0 && p[0] == '/' {
        p
    } else if buf.len() == 0 || buf.last() == '/' {
        buf + p
    } else {
        buf.push('/') + p
    }
}

/// The path text built by pushing the components one after the other onto an empty path.
pub open spec fn render(cs: Seq<Component>) -> Seq<char>
    decreases cs.len(),
{
    if cs.len() == 0 {
        Seq::empty()
    } else {
        push_path(render(cs.drop_last()), component_text(cs.last()))
    }
}

/// An executable path component.
#[derive(Debug)]
pub enum PathComponent {
    RootDir,
    CurDir,
    ParentDir,
    Normal(Vec<char>),
}

impl View for PathComponent {
    type V = Component;

    open spec fn view(&self) -> Component {
        match self {
            PathComponent::RootDir => Component::RootDir,
            PathComponent::CurDir => Component::CurDir,
            PathComponent::ParentDir => Component::ParentDir,
            PathComponent::Normal(n) => Component::Normal(n@),
        }
    }
}

/// The views of a list of executable components.
pub open spec fn comps(v: Seq<PathComponent>) -> Seq<Component> {
    v.map_values(|c: PathComponent| c@)
}

impl PathComponent {
    /// A copy of this component.
    pub fn duplicate(&self) -> (r: PathComponent)
        ensures
            r@ == self@,
    {
        match self {
            PathComponent::RootDir => PathComponent::RootDir,
            PathComponent::CurDir => PathComponent::CurDir,
            PathComponent::ParentDir => PathComponent::ParentDir,
            PathComponent::Normal(n) => PathComponent::Normal(n.clone()),
        }
    }

    /// Whether this is the root component.
    pub fn is_root(&self) -> (r: bool)
        ensures
            r == (self@ == Component::RootDir),
    {
        match self {
            PathComponent::RootDir => true,
            _ => false,
        }
    }
}

/// A copy of a list of components.
pub fn duplicate_all(v: &Vec<PathComponent>) -> (r: Vec<PathComponent>)
    ensures
        comps(r@) == comps(v@),
{
    let mut out: Vec<PathComponent> = Vec::new();
    let mut i: usize = 0;
    while i < v.len()
        invariant
            i <= v@.len(),
            comps(out@) == comps(v@).take(i as int),
        decreases v@.len() - i,
    {
        let c = v[i].duplicate();
        let ghost before = comps(out@);
        out.push(c);
        assert(comps(out@) =~= before.push(c@));
        assert(comps(v@).take(i + 1) =~= comps(v@).take(i as int).push(v@[i as int]@));
        i = i + 1;
    }
    assert(comps(v@).take(v@.len() as int) =~= comps(v@));
    out
}

fn split_slash_exec(s: &Vec<char>) -> (r: Vec<Vec<char>>)
    ensures
        crate::text::views(r@) == split_slash(s@),
{
    let mut done: Vec<Vec<char>> = Vec::new();
    let mut cur: Vec<char> = Vec::new();
    let mut i: usize = 0;
    assert(s@.take(0) =~= Seq::<char>::empty());
    while i < s.len()
        invariant
            i <= s@.len(),
            split_slash(s@.take(i as int)) == crate::text::views(done@).push(cur@),
        decreases s@.len() - i,
    {
        let c = s[i];
        let ghost t = s@.take(i + 1);
        assert(t.drop_last() =~= s@.take(i as int));
        assert(t.last() == c);
        let ghost old_done = crate::text::views(done@);
        let ghost old_cur = cur@;
        if c == '/' {
            let piece = cur;
            cur = Vec::new();
            done.push(piece);
            assert(crate::text::views(done@) =~= old_done.push(old_cur));
        } else {
            cur.push(c);
            assert(old_done.push(old_cur).update(old_done.len() as int, old_cur.push(c))
                =~= old_done.push(cur@));
        }
        i = i + 1;
    }
    assert(s@.take(s@.len() as int) =~= s@);
    let ghost before = crate::text::views(done@);
    done.push(cur);
    assert(crate::text::views(done@) =~= before.push(done@.last()@));
    done
}

fn is_dot_exec(seg: &Vec<char>) -> (r: bool)
    ensures
        r == (seg@ == dot()),
{
    if seg.len() == 1 && seg[0] == '.' {
        assert(seg@ =~= dot());
        true
    } else {
        proof {
            if seg@ == dot() {
                assert(seg@.len() == 1 && seg@[0] == '.');
            }
        }
        false
    }
}

fn is_dot_dot_exec(seg: &Vec<char>) -> (r: bool)
    ensures
        r == (seg@ == dot_dot()),
{
    if seg.len() == 2 && seg[0] == '.' && seg[1] == '.' {
        assert(seg@ =~= dot_dot());
        true
    } else {
        proof {
            if seg@ == dot_dot() {
                assert(seg@.len() == 2 && seg@[0] == '.' && seg@[1] == '.');
            }
        }
        false
    }
}

fn segments_to_components(segs: &Vec<Vec<char>>, from: usize, out: &mut Vec<PathComponent>)
    requires
        from <= segs@.len(),
    ensures
        comps(final(out)@) == comps(old(out)@) + segments_components(
            crate::text::views(segs@).subrange(from as int, segs@.len() as int),
        ),
{
    let mut i: usize = from;
    let ghost sv = crate::text::views(segs@);
    while i < segs.len()
        invariant
            from <= i <= segs@.len(),
            sv == crate::text::views(segs@),
            comps(out@) == comps(old(out)@) + segments_components(sv.subrange(from as int, i as int)),
        decreases segs@.len() - i,
    {
        let seg = &segs[i];
        let ghost before = comps(out@);
        let ghost sub = sv.subrange(from as int, i + 1);
        assert(sub.drop_last() =~= sv.subrange(from as int, i as int));
        assert(sub.last() == seg@);
        if seg.len() == 0 || is_dot_exec(seg) {
        } else if is_dot_dot_exec(seg) {
            out.push(PathComponent::ParentDir);
            assert(comps(out@) =~= before.push(Component::ParentDir));
        } else {
            let c = PathComponent::Normal(seg.clone());
            out.push(c);
            assert(comps(out@) =~= before.push(Component::Normal(seg@)));
        }
        assert(comps(out@) =~= comps(old(out)@) + segments_components(sub));
        i = i + 1;
    }
}

/// The components of a path, as `components` states.
pub fn components_of(path: &str) -> (r: Vec<PathComponent>)
    ensures
        comps(r@) == components(path@),
{
    let s = chars_of(path);
    let segs = split_slash_exec(&s);
    proof {
        lemma_split_slash_nonempty(s@);
    }
    let ghost sv = crate::text::views(segs@);
    let mut out: Vec<PathComponent> = Vec::new();
    if s.len() > 0 && s[0] == '/' {
        out.push(PathComponent::RootDir);
        assert(comps(out@) =~= seq![Component::RootDir]);
        segments_to_components(&segs, 0, &mut out);
        assert(sv.subrange(0, sv.len() as int) =~= sv);
    } else if is_dot_exec(&segs[0]) {
        out.push(PathComponent::CurDir);
        assert(comps(out@) =~= seq![Component::CurDir]);
        segments_to_components(&segs, 1, &mut out);
        assert(sv.subrange(1, sv.len() as int) =~= sv.drop_first());
    } else {
        segments_to_components(&segs, 0, &mut out);
        assert(sv.subrange(0, sv.len() as int) =~= sv);
        assert(comps(Seq::<PathComponent>::empty()) =~= Seq::<Component>::empty());
    }
    out
}

/// Appends a path text to another, as `PathBuf::push` does (`push_path`).
pub fn push_text(buf: &mut Vec<char>, p: &Vec<char>)
    ensures
        final(buf)@ == push_path(old(buf)@, p@),
{
    if p.len() > 0 && p[0] == '/' {
        buf.clear();
        push_all(buf, p);
        assert(buf@ =~= p@);
    } else {
        let need_sep = buf.len() > 0 && buf[buf.len() - 1] != '/';
        if need_sep {
            buf.push('/');
        }
        push_all(buf, p);
        proof {
            if old(buf)@.len() > 0 {
                assert(old(buf)@.last() == old(buf)@[old(buf)@.len() - 1]);
            }
        }
    }
}

/// The text of a component.
pub fn component_text_exec(c: &PathComponent) -> (r: Vec<char>)
    ensures
        r@ == component_text(c@),
{
    match c {
        PathComponent::RootDir => {
            let mut v: Vec<char> = Vec::new();
            v.push('/');
            assert(v@ =~= seq!['/']);
            v
        },
        PathComponent::CurDir => {
            let mut v: Vec<char> = Vec::new();
            v.push('.');
            assert(v@ =~= dot());
            v
        },
        PathComponent::ParentDir => {
            let mut v: Vec<char> = Vec::new();
            v.push('.');
            v.push('.');
            assert(v@ =~= dot_dot());
            v
        },
        PathComponent::Normal(n) => n.clone(),
    }
}

/// Appends one component to a path text, as `PathBuf::push` does.
pub fn push_component(buf: &mut Vec<char>, c: &PathComponent)
    ensures
        final(buf)@ == push_path(old(buf)@, component_text(c@)),
{
    let t = component_text_exec(c);
    push_text(buf, &t);
}

/// The path text of a component list, as `render` states.
pub fn render_exec(cs: &Vec<PathComponent>) -> (r: Vec<char>)
    ensures
        r@ == render(comps(cs@)),
{
    let mut out: Vec<char> = Vec::new();
    let mut i: usize = 0;
    while i < cs.len()
        invariant
            i <= cs@.len(),
            out@ == render(comps(cs@).take(i as int)),
        decreases cs@.len() - i,
    {
        push_component(&mut out, &cs[i]);
        let ghost t = comps(cs@).take(i + 1);
        assert(t.drop_last() =~= comps(cs@).take(i as int));
        assert(t.last() == cs@[i as int]@);
        i = i + 1;
    }
    assert(comps(cs@).take(cs@.len() as int) =~= comps(cs@));
    out
}

/// The path text of a component list, as a string.
pub fn render_string(cs: &Vec<PathComponent>) -> (r: String)
    ensures
        r@ == render(comps(cs@)),
{
    let v = render_exec(cs);
    string_of(&v)
}


/// Whether two components are the same.
pub fn component_eq(a: &PathComponent, b: &PathComponent) -> (r: bool)
    ensures
        r == (a@ == b@),
{
    match (a, b) {
        (PathComponent::RootDir, PathComponent::RootDir) => true,
        (PathComponent::CurDir, PathComponent::CurDir) => true,
        (PathComponent::ParentDir, PathComponent::ParentDir) => true,
        (PathComponent::Normal(x), PathComponent::Normal(y)) => {
            if x.len() != y.len() {
                proof {
                    if Component::Normal(x@) == Component::Normal(y@) {
                        assert(x@ == y@);
                    }
                }
                return false;
            }
            let mut i: usize = 0;
            while i < x.len()
                invariant
                    i <= x@.len(),
                    x@.len() == y@.len(),
                    a@ == Component::Normal(x@),
                    b@ == Component::Normal(y@),
                    forall|j: int| 0 <= j < i ==> x@[j] == y@[j],
                decreases x@.len() - i,
            {
                if x[i] != y[i] {
                    proof {
                        if Component::Normal(x@) == Component::Normal(y@) {
                            assert(x@ == y@);
                            assert(x@[i as int] == y@[i as int]);
                        }
                    }
                    return false;
                }
                i = i + 1;
            }
            assert(x@ =~= y@);
            true
        },
        _ => false,
    }
}

/// `Path::strip_prefix` on texts: when the components of `base` begin those of
/// `path`, the path made of the remaining components; otherwise `path` itself.
pub open spec fn strip_prefix_or_keep(path: Seq<char>, base: Seq<char>) -> Seq<char> {
    let p = components(path);
    let b = components(base);
    if b.len() <= p.len() && p.take(b.len() as int) == b {
        render(p.skip(b.len() as int))
    } else {
        path
    }
}

/// The path relative to `base` when it lies below it, as `strip_prefix_or_keep` states.
pub fn strip_prefix_or_keep_exec(path: &str, base: &str) -> (r: String)
    ensures
        r@ == strip_prefix_or_keep(path@, base@),
{
    let p = components_of(path);
    let b = components_of(base);
    let ghost pv = comps(p@);
    let ghost bv = comps(b@);
    if b.len() > p.len() {
        return String::from_str(path);
    }
    let mut i: usize = 0;
    while i < b.len()
        invariant
            i <= b@.len() <= p@.len(),
            pv == comps(p@),
            bv == comps(b@),
            pv == components(path@),
            bv == components(base@),
            forall|j: int| 0 <= j < i ==> pv[j] == bv[j],
        decreases b@.len() - i,
    {
        if !component_eq(&p[i], &b[i]) {
            proof {
                assert(pv[i as int] == p@[i as int]@ && bv[i as int] == b@[i as int]@);
                if pv.take(bv.len() as int) == bv {
                    assert(pv.take(bv.len() as int)[i as int] == pv[i as int]);
                }
            }
            return String::from_str(path);
        }
        i = i + 1;
    }
    assert(pv.take(bv.len() as int) =~= bv);
    let mut rest: Vec<char> = Vec::new();
    let mut k: usize = b.len();
    while k < p.len()
        invariant
            b@.len() <= k <= p@.len(),
            pv == comps(p@),
            rest@ == render(pv.subrange(b@.len() as int, k as int)),
        decreases p@.len() - k,
    {
        push_component(&mut rest, &p[k]);
        let ghost w = pv.subrange(b@.len() as int, k + 1);
        assert(w.drop_last() =~= pv.subrange(b@.len() as int, k as int));
        assert(w.last() == pv[k as int]);
        k = k + 1;
    }
    assert(pv.subrange(b@.len() as int, p@.len() as int) =~= pv.skip(bv.len() as int));
    string_of(&rest)
}

} // verus!
