use vstd::prelude::*;

use crate::path::{components, components_of, comps, Component, PathComponent};
use crate::tools::fs::grep::string_views;

verus! {

/// Lexicographic order on texts by code point (for UTF-8 text this is the
/// byte order `OsStr` compares by).
pub open spec fn chars_lt(a: Seq<char>, b: Seq<char>) -> bool
    decreases a.len(),
{
    if a.len() == 0 {
        b.len() > 0
    } else if b.len() == 0 {
        false
    } else if a[0] != b[0] {
        a[0] < b[0]
    } else {
        chars_lt(a.drop_first(), b.drop_first())
    }
}

/// The position of a component kind in `std::path::Component`'s order.
pub open spec fn rank(c: Component) -> int {
    match c {
        Component::RootDir => 0,
        Component::CurDir => 1,
        Component::ParentDir => 2,
        Component::Normal(_) => 3,
    }
}

/// `std::path::Component`'s order: by kind, then names by text.
pub open spec fn component_lt(a: Component, b: Component) -> bool {
    if rank(a) != rank(b) {
        rank(a) < rank(b)
    } else {
        match (a, b) {
            (Component::Normal(x), Component::Normal(y)) => chars_lt(x, y),
            _ => false,
        }
    }
}

/// Lexicographic order on component lists.
pub open spec fn components_lt(a: Seq<Component>, b: Seq<Component>) -> bool
    decreases a.len(),
{
    if a.len() == 0 {
        b.len() > 0
    } else if b.len() == 0 {
        false
    } else if a[0] != b[0] {
        component_lt(a[0], b[0])
    } else {
        components_lt(a.drop_first(), b.drop_first())
    }
}

/// `Path`'s order: paths compare by their components.
pub open spec fn path_lt(a: Seq<char>, b: Seq<char>) -> bool {
    components_lt(components(a), components(b))
}

/// No path comes before a later one: the list is sorted by `path_lt`.
pub open spec fn sorted_by_path(s: Seq<Seq<char>>) -> bool {
    forall|i: int, j: int| 0 <= i < j < s.len() ==> !path_lt(s[j], s[i])
}

pub proof fn lemma_chars_lt_irreflexive(a: Seq<char>)
    ensures
        !chars_lt(a, a),
    decreases a.len(),
{
    if a.len() > 0 {
        lemma_chars_lt_irreflexive(a.drop_first());
    }
}

pub proof fn lemma_chars_lt_transitive(a: Seq<char>, b: Seq<char>, c: Seq<char>)
    requires
        chars_lt(a, b),
        chars_lt(b, c),
    ensures
        chars_lt(a, c),
    decreases a.len(),
{
    if a.len() > 0 && b.len() > 0 && c.len() > 0 && a[0] == b[0] && b[0] == c[0] {
        lemma_chars_lt_transitive(a.drop_first(), b.drop_first(), c.drop_first());
    }
}

pub proof fn lemma_component_lt_irreflexive(a: Component)
    ensures
        !component_lt(a, a),
{
    match a {
        Component::Normal(x) => lemma_chars_lt_irreflexive(x),
        _ => {},
    }
}

pub proof fn lemma_component_lt_transitive(a: Component, b: Component, c: Component)
    requires
        component_lt(a, b),
        component_lt(b, c),
    ensures
        component_lt(a, c),
{
    match (a, b, c) {
        (Component::Normal(x), Component::Normal(y), Component::Normal(z)) => {
            lemma_chars_lt_transitive(x, y, z);
        },
        _ => {},
    }
}

pub proof fn lemma_components_lt_irreflexive(a: Seq<Component>)
    ensures
        !components_lt(a, a),
    decreases a.len(),
{
    if a.len() > 0 {
        lemma_components_lt_irreflexive(a.drop_first());
    }
}

pub proof fn lemma_components_lt_transitive(a: Seq<Component>, b: Seq<Component>, c: Seq<Component>)
    requires
        components_lt(a, b),
        components_lt(b, c),
    ensures
        components_lt(a, c),
    decreases a.len(),
{
    if a.len() > 0 && b.len() > 0 && c.len() > 0 {
        if a[0] == b[0] && b[0] == c[0] {
            lemma_components_lt_transitive(a.drop_first(), b.drop_first(), c.drop_first());
        } else if a[0] != b[0] && b[0] != c[0] {
            lemma_component_lt_transitive(a[0], b[0], c[0]);
            if a[0] == c[0] {
                lemma_component_lt_irreflexive(a[0]);
            }
        }
    }
}

/// `Path`'s order is a strict order: no path comes before itself, and it is transitive.
pub proof fn lemma_path_order_is_strict(a: Seq<char>, b: Seq<char>, c: Seq<char>)
    ensures
        !path_lt(a, a),
        path_lt(a, b) && path_lt(b, c) ==> path_lt(a, c),
{
    lemma_components_lt_irreflexive(components(a));
    if path_lt(a, b) && path_lt(b, c) {
        lemma_components_lt_transitive(components(a), components(b), components(c));
    }
}

fn chars_lt_exec(a: &Vec<char>, b: &Vec<char>) -> (r: bool)
    ensures
        r == chars_lt(a@, b@),
{
    let mut i: usize = 0;
    assert(a@.skip(0) =~= a@);
    assert(b@.skip(0) =~= b@);
    while i < a.len() && i < b.len() && a[i] == b[i]
        invariant
            i <= a@.len(),
            i <= b@.len(),
            chars_lt(a@, b@) == chars_lt(a@.skip(i as int), b@.skip(i as int)),
        decreases a@.len() - i,
    {
        assert(a@.skip(i as int).drop_first() =~= a@.skip(i + 1));
        assert(b@.skip(i as int).drop_first() =~= b@.skip(i + 1));
        i = i + 1;
    }
    if i == a.len() {
        i < b.len()
    } else if i == b.len() {
        false
    } else {
        assert(a@.skip(i as int)[0] == a@[i as int]);
        assert(b@.skip(i as int)[0] == b@[i as int]);
        a[i] < b[i]
    }
}

fn component_lt_exec(a: &PathComponent, b: &PathComponent) -> (r: bool)
    ensures
        r == component_lt(a@, b@),
{
    let ra: u8 = match a {
        PathComponent::RootDir => 0,
        PathComponent::CurDir => 1,
        PathComponent::ParentDir => 2,
        PathComponent::Normal(_) => 3,
    };
    let rb: u8 = match b {
        PathComponent::RootDir => 0,
        PathComponent::CurDir => 1,
        PathComponent::ParentDir => 2,
        PathComponent::Normal(_) => 3,
    };
    if ra != rb {
        return ra < rb;
    }
    match (a, b) {
        (PathComponent::Normal(x), PathComponent::Normal(y)) => chars_lt_exec(x, y),
        _ => false,
    }
}

fn components_lt_exec(a: &Vec<PathComponent>, b: &Vec<PathComponent>) -> (r: bool)
    ensures
        r == components_lt(comps(a@), comps(b@)),
{
    let ghost av = comps(a@);
    let ghost bv = comps(b@);
    let mut i: usize = 0;
    assert(av.skip(0) =~= av);
    assert(bv.skip(0) =~= bv);
    while i < a.len() && i < b.len() && crate::path::component_eq(&a[i], &b[i])
        invariant
            i <= a@.len(),
            i <= b@.len(),
            av == comps(a@),
            bv == comps(b@),
            components_lt(av, bv) == components_lt(av.skip(i as int), bv.skip(i as int)),
        decreases a@.len() - i,
    {
        assert(av.skip(i as int).drop_first() =~= av.skip(i + 1));
        assert(bv.skip(i as int).drop_first() =~= bv.skip(i + 1));
        assert(av.skip(i as int)[0] == av[i as int]);
        assert(bv.skip(i as int)[0] == bv[i as int]);
        i = i + 1;
    }
    if i == a.len() {
        i < b.len()
    } else if i == b.len() {
        false
    } else {
        assert(av.skip(i as int)[0] == av[i as int]);
        assert(bv.skip(i as int)[0] == bv[i as int]);
        component_lt_exec(&a[i], &b[i])
    }
}

/// Whether path `a` comes before path `b`, as `path_lt` states.
pub fn path_lt_exec(a: &str, b: &str) -> (r: bool)
    ensures
        r == path_lt(a@, b@),
{
    let ca = components_of(a);
    let cb = components_of(b);
    components_lt_exec(&ca, &cb)
}

/// The paths sorted by `Path`'s order (stable: equal paths keep their order).
pub fn sort_paths(files: Vec<String>) -> (r: Vec<String>)
    ensures
        string_views(r@).to_multiset() == string_views(files@).to_multiset(),
        sorted_by_path(string_views(r@)),
{
    let ghost fv = string_views(files@);
    let mut out: Vec<String> = Vec::new();
    let mut rest = files;
    let ghost done = Seq::<Seq<char>>::empty();
    let mut i: usize = 0;
    let n = rest.len();
    assert(string_views(out@) =~= Seq::<Seq<char>>::empty());
    assert(fv.take(0) =~= Seq::<Seq<char>>::empty());
    while i < n
        invariant
            i <= n == rest@.len(),
            fv == string_views(rest@),
            string_views(out@).to_multiset() == fv.take(i as int).to_multiset(),
            sorted_by_path(string_views(out@)),
        decreases n - i,
    {
        let x = rest[i].clone();
        let ghost ov = string_views(out@);
        let mut p: usize = 0;
        while p < out.len() && !path_lt_exec(x.as_str(), out[p].as_str())
            invariant
                p <= out@.len(),
                ov == string_views(out@),
                forall|k: int| 0 <= k < p ==> !path_lt(x@, #[trigger] ov[k]),
            decreases out@.len() - p,
        {
            p = p + 1;
        }
        out.insert(p, x);
        proof {
            let nv = string_views(out@);
            assert(nv =~= ov.insert(p as int, x@));
            vstd::seq_lib::to_multiset_insert(ov, p as int, x@);
            assert(fv.take(i + 1) =~= fv.take(i as int).push(x@));
            vstd::seq_lib::to_multiset_build(fv.take(i as int), x@);
            assert forall|a: int, b: int| 0 <= a < b < nv.len() implies !path_lt(nv[b], nv[a]) by {
                if a < p && b < p {
                    assert(nv[a] == ov[a] && nv[b] == ov[b]);
                } else if a < p && b == p {
                    assert(nv[a] == ov[a]);
                } else if a < p && b > p {
                    assert(nv[a] == ov[a] && nv[b] == ov[b - 1]);
                } else if a == p {
                    // nv[a] is x, nv[b] = ov[b - 1] with b - 1 >= p
                    assert(nv[b] == ov[b - 1]);
                    if path_lt(nv[b], x@) {
                        // ov[p] <= ov[b - 1] < x < ov[p] is impossible
                        assert(p < ov.len());
                        if b - 1 > p {
                            assert(!path_lt(ov[b - 1], ov[p as int]));
                        }
                        lemma_path_order_is_strict(ov[b - 1], x@, ov[p as int]);
                        lemma_path_order_is_strict(ov[p as int], ov[p as int], ov[p as int]);
                    }
                } else {
                    assert(nv[a] == ov[a - 1] && nv[b] == ov[b - 1]);
                }
            }
        }
        i = i + 1;
    }
    assert(fv.take(n as int) =~= fv);
    out
}

} // verus!
