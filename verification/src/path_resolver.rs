use vstd::prelude::*;

use crate::path::{
    components, components_of, comps, duplicate_all, render, render_string, Component,
    PathComponent,
};

verus! {

/// The text `~`, which stands for the home directory at the start of a path.
pub open spec fn tilde() -> Seq<char> {
    seq!['~']
}

/// The components of `a` joined with a path whose components are `b`: an
/// absolute `b` replaces `a`; a leading `.` of `b` disappears when `a` is not empty.
pub open spec fn join_components(a: Seq<Component>, b: Seq<Component>) -> Seq<Component> {
    if b.len() > 0 && b[0] == Component::RootDir {
        b
    } else if a.len() > 0 && b.len() > 0 && b[0] == Component::CurDir {
        a + b.drop_first()
    } else {
        a + b
    }
}

/// The components of `path` made absolute: a leading `~` component stands for
/// the home directory, an absolute path is kept, any other path is joined to
/// the current (workspace) directory.
pub open spec fn absolute_components(home: Seq<char>, current: Seq<char>, path: Seq<char>) -> Seq<
    Component,
> {
    let c = components(path);
    if c.len() > 0 && c[0] == Component::Normal(tilde()) {
        join_components(components(home), c.drop_first())
    } else if c.len() > 0 && c[0] == Component::RootDir {
        c
    } else {
        join_components(components(current), c)
    }
}

/// Why a resolver could not be built.
#[derive(Debug, Clone, Copy, PartialEq, Eq, Structural)]
pub enum ResolverError {
    HomeDirNotFound,
}

impl ResolverError {
    /// The message the error is reported with.
    pub fn message(&self) -> (r: String)
        ensures
            r@ == "home directory not found"@,
    {
        String::from_str("home directory not found")
    }
}

/// Resolves the paths a client names against a home directory and a current
/// (workspace) directory.
#[derive(Debug)]
pub struct PathResolver {
    pub home_dir: String,
    pub current_dir: String,
}

/// Appends the components of `b` to those of `a`, as `join_components` states.
fn join_exec(a: Vec<PathComponent>, b: Vec<PathComponent>) -> (r: Vec<PathComponent>)
    ensures
        comps(r@) == join_components(comps(a@), comps(b@)),
{
    if b.len() > 0 && b[0].is_root() {
        return b;
    }
    let mut out = a;
    let start: usize = if out.len() > 0 && b.len() > 0 && match &b[0] {
        PathComponent::CurDir => true,
        _ => false,
    } {
        1
    } else {
        0
    };
    let ghost base = comps(out@);
    let mut i: usize = start;
    while i < b.len()
        invariant
            start <= i <= b@.len(),
            comps(out@) == base + comps(b@).subrange(start as int, i as int),
        decreases b@.len() - i,
    {
        let c = b[i].duplicate();
        let ghost before = comps(out@);
        out.push(c);
        assert(comps(out@) =~= before.push(c@));
        assert(comps(b@).subrange(start as int, i + 1) =~= comps(b@).subrange(start as int, i as int).push(
            b@[i as int]@,
        ));
        i = i + 1;
    }
    proof {
        if start == 1 {
            assert(comps(b@).subrange(1, b@.len() as int) =~= comps(b@).drop_first());
        } else {
            assert(comps(b@).subrange(0, b@.len() as int) =~= comps(b@));
        }
    }
    out
}

impl PathResolver {
    /// A resolver for the given current directory; the home directory is the
    /// one the environment gave, and its absence is an error.
    pub fn new(current_dir: &str, home_dir: Option<String>) -> (r: Result<PathResolver, ResolverError>)
        ensures
            home_dir is None <==> r is Err,
            r matches Ok(p) ==> p.current_dir@ == current_dir@ && p.home_dir@ == home_dir->0@,
    {
        match home_dir {
            Some(h) => Ok(PathResolver { home_dir: h, current_dir: String::from_str(current_dir) }),
            None => Err(ResolverError::HomeDirNotFound),
        }
    }

    /// A copy of this resolver.
    pub fn duplicate(&self) -> (r: PathResolver)
        ensures
            r.home_dir@ == self.home_dir@,
            r.current_dir@ == self.current_dir@,
    {
        PathResolver { home_dir: self.home_dir.clone(), current_dir: self.current_dir.clone() }
    }

    /// The components of `path` made absolute, as `absolute_components` states.
    pub fn make_absolute(&self, path: &str) -> (r: Vec<PathComponent>)
        ensures
            comps(r@) == absolute_components(self.home_dir@, self.current_dir@, path@),
    {
        let c = components_of(path);
        if c.len() > 0 && match &c[0] {
            PathComponent::Normal(n) => n.len() == 1 && n[0] == '~',
            _ => false,
        } {
            proof {
                match c@[0] {
                    PathComponent::Normal(n) => {
                        assert(n@ =~= tilde());
                    },
                    _ => {},
                }
            }
            let mut rest: Vec<PathComponent> = Vec::new();
            let mut i: usize = 1;
            while i < c.len()
                invariant
                    1 <= i <= c@.len(),
                    comps(rest@) == comps(c@).subrange(1, i as int),
                decreases c@.len() - i,
            {
                let d = c[i].duplicate();
                let ghost before = comps(rest@);
                rest.push(d);
                assert(comps(rest@) =~= before.push(d@));
                assert(comps(c@).subrange(1, i + 1) =~= comps(c@).subrange(1, i as int).push(c@[i as int]@));
                i = i + 1;
            }
            assert(comps(c@).subrange(1, c@.len() as int) =~= comps(c@).drop_first());
            let home = components_of(self.home_dir.as_str());
            join_exec(home, rest)
        } else {
            proof {
                if c@.len() > 0 && comps(c@)[0] == Component::Normal(tilde()) {
                    match c@[0] {
                        PathComponent::Normal(n) => {
                            assert(n@ == tilde());
                            assert(n@.len() == 1 && n@[0] == '~');
                        },
                        _ => {},
                    }
                }
            }
            if c.len() > 0 && c[0].is_root() {
                c
            } else {
                let cur = components_of(self.current_dir.as_str());
                join_exec(cur, c)
            }
        }
    }

    /// Starts resolving `path`: it is made absolute, then its components are
    /// walked by `Resolution::step`.
    pub fn resolution(&self, path: &str) -> (r: Resolution)
        ensures
            comps(r.pending@) == absolute_components(self.home_dir@, self.current_dir@, path@),
            r.next == 0,
            comps(r.resolved@) == Seq::<Component>::empty(),
            r.candidate is None,
            r.lexical_so_far(),
    {
        let pending = self.make_absolute(path);
        let r = Resolution { pending, next: 0, resolved: Vec::new(), candidate: None };
        assert(comps(r.resolved@) =~= Seq::<Component>::empty());
        assert(comps(r.pending@).take(0) =~= Seq::<Component>::empty());
        r
    }
}

/// `PathBuf::pop` on components: the last component goes unless it is the root
/// (or there is none).
pub open spec fn pop_component(r: Seq<Component>) -> Seq<Component> {
    if r.len() > 0 && r.last() != Component::RootDir {
        r.drop_last()
    } else {
        r
    }
}

/// One step of resolution when nothing on disk is found for a name: the root
/// restarts the path, `.` is skipped, `..` pops, a name is appended.
pub open spec fn lexical_step(r: Seq<Component>, c: Component) -> Seq<Component> {
    match c {
        Component::RootDir => seq![Component::RootDir],
        Component::CurDir => r,
        Component::ParentDir => pop_component(r),
        Component::Normal(n) => r.push(Component::Normal(n)),
    }
}

/// Resolution of a component list when no name is found on disk.
pub open spec fn resolve_lexical(cs: Seq<Component>) -> Seq<Component>
    decreases cs.len(),
{
    if cs.len() == 0 {
        Seq::empty()
    } else {
        lexical_step(resolve_lexical(cs.drop_last()), cs.last())
    }
}

/// A resolved path: the root followed by names only.
pub open spec fn is_normal_form(r: Seq<Component>) -> bool {
    &&& r.len() >= 1
    &&& r[0] == Component::RootDir
    &&& forall|i: int| 1 <= i < r.len() ==> r[i] is Normal
}

/// What the resolver asks of its caller next.
#[derive(Debug)]
pub enum ResolveAction {
    /// Resolution is over; this is the resolved path.
    Done(String),
    /// A component was handled without the file system; call `step` again.
    Continue,
    /// Canonicalize this path on disk and hand the outcome to `feed`.
    Canonicalize(String),
}

/// The state of one path resolution: the absolute components still to walk and
/// the path resolved so far. Symbolic links are resolved by canonicalizing each
/// prefix that ends in a name; the caller does the file-system work.
#[derive(Debug)]
pub struct Resolution {
    pub pending: Vec<PathComponent>,
    pub next: usize,
    pub resolved: Vec<PathComponent>,
    pub candidate: Option<Vec<PathComponent>>,
}

/// Walking one more component without finding anything on disk extends the
/// lexical resolution by one `lexical_step`. So a whole resolution run in
/// which every canonicalization finds nothing (`feed(None)` each time) ends,
/// by `Resolution::step` and `Resolution::feed`, with
/// `render(resolve_lexical(..))` of the absolute components.
pub proof fn lemma_lexical_walk_step(cs: Seq<Component>, i: int)
    requires
        0 <= i < cs.len(),
    ensures
        resolve_lexical(cs.take(i + 1)) == lexical_step(resolve_lexical(cs.take(i)), cs[i]),
{
    assert(cs.take(i + 1).drop_last() =~= cs.take(i));
    assert(cs.take(i + 1).last() == cs[i]);
}

impl Resolution {
    /// The walk so far is the one in which nothing was found on disk: the path
    /// resolved so far is the lexical resolution of the components walked.
    pub open spec fn lexical_so_far(&self) -> bool {
        &&& self.next <= self.pending@.len()
        &&& comps(self.resolved@) == resolve_lexical(comps(self.pending@).take(self.next as int))
    }

    /// Handles the next pending component. A name yields the candidate path
    /// (resolved so far, plus the name) to canonicalize; the walk ends with the
    /// resolved path.
    pub fn step(&mut self) -> (r: ResolveAction)
        requires
            old(self).candidate is None,
            old(self).next <= old(self).pending@.len(),
        ensures
            final(self).pending@ == old(self).pending@,
            final(self).next <= final(self).pending@.len(),
            old(self).next == old(self).pending@.len() ==> {
                &&& r matches ResolveAction::Done(p) && p@ == render(comps(old(self).resolved@))
                &&& final(self).next == old(self).next
                &&& comps(final(self).resolved@) == comps(old(self).resolved@)
                &&& final(self).candidate is None
            },
            old(self).next < old(self).pending@.len() ==> {
                let c = old(self).pending@[old(self).next as int]@;
                &&& final(self).next == old(self).next + 1
                &&& (c is Normal ==> {
                    let cand = comps(old(self).resolved@).push(c);
                    &&& r matches ResolveAction::Canonicalize(p) && p@ == render(cand)
                    &&& final(self).candidate matches Some(v) && comps(v@) == cand
                    &&& comps(final(self).resolved@) == comps(old(self).resolved@)
                })
                &&& (!(c is Normal) ==> {
                    &&& r is Continue
                    &&& comps(final(self).resolved@) == lexical_step(comps(old(self).resolved@), c)
                    &&& final(self).candidate is None
                })
            },
            old(self).lexical_so_far() && old(self).next == old(self).pending@.len() ==> (r matches ResolveAction::Done(
                p,
            ) && p@ == render(resolve_lexical(comps(old(self).pending@)))),
            old(self).lexical_so_far() && old(self).next < old(self).pending@.len() && !(
            old(self).pending@[old(self).next as int]@ is Normal) ==> final(self).lexical_so_far(),
            old(self).lexical_so_far() && old(self).next < old(self).pending@.len() && old(
                self,
            ).pending@[old(self).next as int]@ is Normal ==> (final(self).candidate matches Some(v) && comps(v@)
                == resolve_lexical(comps(old(self).pending@).take(final(self).next as int))),
    {
        proof {
            if self.next < self.pending@.len() {
                lemma_lexical_walk_step(comps(self.pending@), self.next as int);
            } else {
                assert(comps(self.pending@).take(self.next as int) =~= comps(self.pending@));
            }
        }
        if self.next >= self.pending.len() {
            return ResolveAction::Done(render_string(&self.resolved));
        }
        let i = self.next;
        self.next = i + 1;
        match &self.pending[i] {
            PathComponent::RootDir => {
                let mut r: Vec<PathComponent> = Vec::new();
                r.push(PathComponent::RootDir);
                assert(comps(r@) =~= seq![Component::RootDir]);
                self.resolved = r;
                ResolveAction::Continue
            },
            PathComponent::CurDir => ResolveAction::Continue,
            PathComponent::ParentDir => {
                let n = self.resolved.len();
                if n > 0 && !self.resolved[n - 1].is_root() {
                    let ghost before = comps(self.resolved@);
                    self.resolved.pop();
                    assert(comps(self.resolved@) =~= before.drop_last());
                }
                ResolveAction::Continue
            },
            PathComponent::Normal(name) => {
                let mut cand = duplicate_all(&self.resolved);
                let ghost before = comps(cand@);
                cand.push(PathComponent::Normal(name.clone()));
                assert(comps(cand@) =~= before.push(self.pending@[i as int]@));
                let text = render_string(&cand);
                self.candidate = Some(cand);
                ResolveAction::Canonicalize(text)
            },
        }
    }

    /// Takes the outcome of canonicalizing the candidate: the canonical path
    /// when there was one, otherwise the candidate itself, becomes the path
    /// resolved so far.
    pub fn feed(&mut self, canonical: Option<&str>)
        requires
            old(self).candidate is Some,
        ensures
            final(self).pending@ == old(self).pending@,
            final(self).next == old(self).next,
            final(self).candidate is None,
            comps(final(self).resolved@) == match canonical {
                Some(p) => components(p@),
                None => comps(old(self).candidate->0@),
            },
            canonical is None && old(self).next <= old(self).pending@.len() && comps(old(self).candidate->0@)
                == resolve_lexical(comps(old(self).pending@).take(old(self).next as int))
                ==> final(self).lexical_so_far(),
    {
        let cand = self.candidate.take();
        match cand {
            Some(c) => {
                match canonical {
                    Some(p) => {
                        self.resolved = components_of(p);
                    },
                    None => {
                        self.resolved = c;
                    },
                }
            },
            None => {},
        }
    }
}

/// With nothing found on disk, resolving an absolute path (one that starts
/// at the root) gives the root followed by names only: no `.` or `..` is
/// left, and `..` never climbs above the root.
pub proof fn lemma_lexical_resolution_is_normal(cs: Seq<Component>)
    requires
        cs.len() >= 1,
        cs[0] == Component::RootDir,
    ensures
        is_normal_form(resolve_lexical(cs)),
    decreases cs.len(),
{
    if cs.len() == 1 {
        assert(cs.drop_last() =~= Seq::<Component>::empty());
        assert(resolve_lexical(cs) =~= seq![Component::RootDir]);
    } else {
        let prev = cs.drop_last();
        lemma_lexical_resolution_is_normal(prev);
        let r = resolve_lexical(prev);
        match cs.last() {
            Component::RootDir => {
                assert(resolve_lexical(cs) =~= seq![Component::RootDir]);
            },
            Component::CurDir => {},
            Component::ParentDir => {
                if r.len() > 0 && r.last() != Component::RootDir {
                    assert(r.len() >= 2);
                }
            },
            Component::Normal(n) => {
                assert(r.push(Component::Normal(n))[0] == Component::RootDir);
            },
        }
    }
}

} // verus!
