use vstd::prelude::*;

use crate::path::{
    component_text, components, dot, dot_dot, push_path, render, segment_component, segments_components,
    split_slash, Component,
};

verus! {

/// A name a path component can carry: not empty, not `.` or `..`, and free of `/`.
pub open spec fn valid_name(n: Seq<char>) -> bool {
    &&& n.len() > 0
    &&& n != dot()
    &&& n != dot_dot()
    &&& forall|i: int| 0 <= i < n.len() ==> n[i] != '/'
}

/// A component that may stand anywhere but first: a parent step or a valid name.
pub open spec fn later_component(c: Component) -> bool {
    match c {
        Component::ParentDir => true,
        Component::Normal(n) => valid_name(n),
        _ => false,
    }
}

/// A component list as `components` gives one: a root or `.` may only come
/// first, every other component is a parent step or a valid name.
pub open spec fn well_formed(cs: Seq<Component>) -> bool {
    &&& (cs.len() > 0 ==> (cs[0] is RootDir || cs[0] is CurDir || later_component(cs[0])))
    &&& forall|i: int| 1 <= i < cs.len() ==> later_component(#[trigger] cs[i])
}

/// `t` holds no `/`.
pub open spec fn no_slash(t: Seq<char>) -> bool {
    forall|i: int| 0 <= i < t.len() ==> t[i] != '/'
}

proof fn lemma_split_no_slash(t: Seq<char>)
    requires
        no_slash(t),
    ensures
        split_slash(t) == seq![t],
    decreases t.len(),
{
    if t.len() > 0 {
        let d = t.drop_last();
        assert forall|i: int| 0 <= i < d.len() implies d[i] != '/' by {
            assert(d[i] == t[i]);
        }
        lemma_split_no_slash(d);
        assert(t.last() != '/');
        let r = seq![d];
        assert(r.len() == 1 && r.last() == d);
        assert(d.push(t.last()) =~= t);
        assert(r.update(0, d.push(t.last())) =~= seq![t]);
    } else {
        assert(t =~= Seq::<char>::empty());
    }
}

/// The components of a list of pieces holding one piece.
proof fn lemma_segments_single(t: Seq<char>)
    ensures
        segments_components(seq![t]) == segment_component(t),
{
    assert(seq![t].drop_last() =~= Seq::<Seq<char>>::empty());
    assert(seq![t].last() == t);
    assert(segments_components(Seq::<Seq<char>>::empty()) =~= Seq::<Component>::empty());
    assert(Seq::<Component>::empty() + segment_component(t) =~= segment_component(t));
}

proof fn lemma_split_after_slash(a: Seq<char>, t: Seq<char>)
    requires
        no_slash(t),
    ensures
        split_slash(a.push('/') + t) == split_slash(a).push(t),
    decreases t.len(),
{
    let s = a.push('/') + t;
    if t.len() == 0 {
        assert(s =~= a.push('/'));
        assert(s.drop_last() =~= a);
        assert(s.last() == '/');
        assert(t =~= Seq::<char>::empty());
    } else {
        let d = t.drop_last();
        assert forall|i: int| 0 <= i < d.len() implies d[i] != '/' by {
            assert(d[i] == t[i]);
        }
        lemma_split_after_slash(a, d);
        assert(s.drop_last() =~= a.push('/') + t.drop_last());
        assert(t.last() != '/');
        assert(d.push(t.last()) =~= t);
        assert(s.last() == t.last());
        let r = split_slash(a).push(t.drop_last());
        assert(split_slash(s.drop_last()) == r);
        assert(split_slash(s) == r.update(r.len() - 1, r.last().push(s.last())));
        assert(r.update(r.len() - 1, r.last().push(t.last())) =~= split_slash(a).push(t));
    }
}

proof fn lemma_segments_push(segs: Seq<Seq<char>>, t: Seq<char>)
    ensures
        segments_components(segs.push(t)) == segments_components(segs) + segment_component(t),
{
    assert(segs.push(t).drop_last() =~= segs);
}

/// Appending `/` and a piece without `/` to a non-empty path adds that piece's component.
proof fn lemma_components_append(a: Seq<char>, t: Seq<char>)
    requires
        a.len() > 0,
        no_slash(t),
    ensures
        components(a.push('/') + t) == components(a) + segment_component(t),
{
    let s = a.push('/') + t;
    lemma_split_after_slash(a, t);
    crate::path::lemma_split_slash_nonempty(a);
    let segs = split_slash(a);
    assert(s[0] == a[0]);
    assert(segs.push(t)[0] == segs[0]);
    lemma_segments_push(segs, t);
    assert(segs.push(t).drop_first() =~= segs.drop_first().push(t));
    lemma_segments_push(segs.drop_first(), t);
}

/// The component a later component's text gives back.
proof fn lemma_later_text(c: Component)
    requires
        later_component(c),
    ensures
        no_slash(component_text(c)),
        component_text(c).len() > 0,
        component_text(c)[0] != '/',
        component_text(c).last() != '/',
        segment_component(component_text(c)) == seq![c],
{
    match c {
        Component::ParentDir => {
            assert(dot_dot().len() != dot().len());
            assert(dot_dot() != dot());
        },
        Component::Normal(n) => {
            assert(n[0] != '/');
            assert(n[n.len() - 1] != '/');
        },
        _ => {},
    }
}

/// How the rendering of a well-formed list ends: not empty, and ending with
/// `/` only for the root alone.
proof fn lemma_render_shape(cs: Seq<Component>)
    requires
        well_formed(cs),
        cs.len() > 0,
    ensures
        render(cs).len() > 0,
        render(cs).last() == '/' <==> cs == seq![Component::RootDir],
    decreases cs.len(),
{
    let pre = cs.drop_last();
    if cs.len() == 1 {
        assert(pre.len() == 0);
        assert(render(pre) == Seq::<char>::empty());
        match cs[0] {
            Component::RootDir => {
                assert(cs =~= seq![Component::RootDir]);
            },
            Component::CurDir => {},
            _ => {
                lemma_later_text(cs[0]);
            },
        }
    } else {
        assert(well_formed(pre)) by {
            assert forall|i: int| 1 <= i < pre.len() implies later_component(#[trigger] pre[i]) by {
                assert(pre[i] == cs[i]);
            }
        }
        lemma_render_shape(pre);
        let c = cs.last();
        assert(later_component(cs[cs.len() - 1]));
        lemma_later_text(c);
        let t = component_text(c);
        let r = render(pre);
        assert(render(cs) == push_path(r, t));
        if r.last() == '/' {
            assert(push_path(r, t) == r + t);
        } else {
            assert(push_path(r, t) == r.push('/') + t);
        }
        assert(cs != seq![Component::RootDir]);
    }
}

/// Rendering a well-formed component list and taking its components again
/// gives the same list back.
pub proof fn lemma_render_round_trip(cs: Seq<Component>)
    requires
        well_formed(cs),
    ensures
        components(render(cs)) == cs,
    decreases cs.len(),
{
    if cs.len() == 0 {
        assert(split_slash(Seq::<char>::empty()) == seq![Seq::<char>::empty()]);
        lemma_segments_single(Seq::<char>::empty());
    } else if cs.len() == 1 {
        let pre = cs.drop_last();
        assert(render(pre) == Seq::<char>::empty());
        match cs[0] {
            Component::RootDir => {
                let s = seq!['/'];
                assert(render(cs) == s);
                assert(s =~= Seq::<char>::empty().push('/') + Seq::<char>::empty());
                lemma_split_after_slash(Seq::<char>::empty(), Seq::<char>::empty());
                lemma_split_no_slash(Seq::<char>::empty());
                let segs = split_slash(s);
                assert(segs =~= seq![Seq::<char>::empty(), Seq::<char>::empty()]);
                assert(segs.drop_last() =~= seq![Seq::<char>::empty()]);
                lemma_segments_single(Seq::<char>::empty());
                assert(segments_components(segs) =~= Seq::<Component>::empty());
                assert(components(s) =~= cs);
            },
            Component::CurDir => {
                let s = dot();
                assert(render(cs) == s);
                assert(no_slash(s));
                lemma_split_no_slash(s);
                assert(split_slash(s).drop_first() =~= Seq::<Seq<char>>::empty());
                assert(components(s) =~= cs);
            },
            _ => {
                lemma_later_text(cs[0]);
                let s = component_text(cs[0]);
                assert(render(cs) == s);
                lemma_split_no_slash(s);
                lemma_segments_single(s);
                assert(s != dot()) by {
                    match cs[0] {
                        Component::ParentDir => {
                            assert(dot_dot()[1] == '.');
                        },
                        _ => {},
                    }
                }
                assert(components(s) =~= cs);
            },
        }
    } else {
        let pre = cs.drop_last();
        assert(well_formed(pre)) by {
            assert forall|i: int| 1 <= i < pre.len() implies later_component(#[trigger] pre[i]) by {
                assert(pre[i] == cs[i]);
            }
        }
        lemma_render_round_trip(pre);
        lemma_render_shape(pre);
        let c = cs.last();
        assert(later_component(cs[cs.len() - 1]));
        lemma_later_text(c);
        let t = component_text(c);
        let r = render(pre);
        if pre == seq![Component::RootDir] {
            assert(r.last() == '/');
            assert(r =~= seq!['/']);
            assert(push_path(r, t) =~= Seq::<char>::empty().push('/') + t);
            lemma_split_after_slash(Seq::<char>::empty(), t);
            lemma_split_no_slash(Seq::<char>::empty());
            let segs = split_slash(render(cs));
            assert(segs =~= seq![Seq::<char>::empty(), t]);
            assert(segs.drop_last() =~= seq![Seq::<char>::empty()]);
            lemma_segments_single(Seq::<char>::empty());
            assert(segments_components(segs) =~= segment_component(t));
            assert(cs =~= pre.push(c));
            assert(components(render(cs)) =~= cs);
        } else {
            assert(push_path(r, t) == r.push('/') + t);
            lemma_components_append(r, t);
            assert(cs =~= pre + seq![c]);
        }
    }
}

proof fn lemma_segments_later(segs: Seq<Seq<char>>)
    requires
        forall|i: int| 0 <= i < segs.len() ==> no_slash(#[trigger] segs[i]),
    ensures
        forall|i: int| 0 <= i < segments_components(segs).len() ==> later_component(
            #[trigger] segments_components(segs)[i],
        ),
    decreases segs.len(),
{
    if segs.len() > 0 {
        let pre = segs.drop_last();
        assert forall|i: int| 0 <= i < pre.len() implies no_slash(#[trigger] pre[i]) by {
            assert(pre[i] == segs[i]);
        }
        lemma_segments_later(pre);
        let t = segs.last();
        assert(no_slash(segs[segs.len() - 1]));
        let a = segments_components(pre);
        let b = segment_component(t);
        assert forall|i: int| 0 <= i < (a + b).len() implies later_component(#[trigger] (a + b)[i]) by {
            if i >= a.len() {
                if !(t.len() == 0 || t == dot()) && t != dot_dot() {
                    assert(valid_name(t));
                }
            }
        }
    }
}

proof fn lemma_split_pieces_no_slash(s: Seq<char>)
    ensures
        forall|i: int| 0 <= i < split_slash(s).len() ==> no_slash(#[trigger] split_slash(s)[i]),
    decreases s.len(),
{
    if s.len() > 0 {
        lemma_split_pieces_no_slash(s.drop_last());
        crate::path::lemma_split_slash_nonempty(s.drop_last());
        let r = split_slash(s.drop_last());
        if s.last() != '/' {
            let u = r.update(r.len() - 1, r.last().push(s.last()));
            assert forall|i: int| 0 <= i < u.len() implies no_slash(#[trigger] u[i]) by {
                if i == r.len() - 1 {
                    assert(no_slash(r[r.len() - 1]));
                    assert forall|j: int| 0 <= j < u[i].len() implies u[i][j] != '/' by {
                        if j < r.last().len() {
                            assert(u[i][j] == r.last()[j]);
                        }
                    }
                }
            }
        }
    }
}

/// The components of any path form a well-formed list.
pub proof fn lemma_components_well_formed(s: Seq<char>)
    ensures
        well_formed(components(s)),
{
    lemma_split_pieces_no_slash(s);
    crate::path::lemma_split_slash_nonempty(s);
    let segs = split_slash(s);
    lemma_segments_later(segs);
    assert forall|i: int| 0 <= i < segs.drop_first().len() implies no_slash(#[trigger] segs.drop_first()[i]) by {
        assert(segs.drop_first()[i] == segs[i + 1]);
    }
    lemma_segments_later(segs.drop_first());
    let c = components(s);
    if s.len() > 0 && s[0] == '/' {
        let t = segments_components(segs);
        assert forall|i: int| 1 <= i < c.len() implies later_component(#[trigger] c[i]) by {
            assert(c[i] == t[i - 1]);
        }
    } else if segs[0] == dot() {
        let t = segments_components(segs.drop_first());
        assert forall|i: int| 1 <= i < c.len() implies later_component(#[trigger] c[i]) by {
            assert(c[i] == t[i - 1]);
        }
    }
}

} // verus!
