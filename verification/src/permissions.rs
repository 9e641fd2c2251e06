use vstd::prelude::*;

use crate::glob_pattern::{
    glob_pattern_check, glob_pattern_error, glob_pattern_match, glob_pattern_matches, has_glob_metachar, has_prefix, has_unclosed_bracket,
    is_subtree_pattern, subtree_base,
};
use crate::path::{component_text, components, components_of, comps, push_path, push_text, render, Component};
use crate::path_laws::{lemma_components_well_formed, lemma_render_round_trip, later_component, well_formed};
use crate::path_resolver::PathResolver;
use crate::text::{chars_of, path_debug_quoted, path_debug_text, push_str, string_of};

verus! {

/// Whether a rule grants or refuses access.
#[derive(Debug, Clone, Copy, PartialEq, Eq, Hash, Structural)]
pub enum PermissionsKind {
    Deny,
    Allow,
}

/// The kind of access a rule is about.
#[derive(Debug, Clone, Copy, PartialEq, Eq, Hash, Structural)]
pub enum PermissionsGroup {
    FsRead,
    FsWrite,
}

/// One registered rule: a group, a kind, and the glob pattern of the paths it covers.
#[derive(Debug)]
pub struct PermissionEntry {
    pub group: PermissionsGroup,
    pub kind: PermissionsKind,
    pub pattern: String,
}

/// A rule as the contracts see it.
pub type Rule = (PermissionsGroup, PermissionsKind, Seq<char>);

/// Whether a rule's pattern matches a path: a pattern without `*`, `?` or `[`
/// matches exactly the equal path; a pattern `Q**` (see `is_subtree_pattern`)
/// matches exactly the paths that start with `Q`; any other pattern matches as
/// `glob_pattern_matches` names it.
pub open spec fn pattern_matches(pattern: Seq<char>, path: Seq<char>) -> bool {
    if !has_glob_metachar(pattern) {
        pattern == path
    } else if is_subtree_pattern(pattern) {
        has_prefix(path, subtree_base(pattern))
    } else {
        glob_pattern_matches(pattern, path)
    }
}

/// Some rule of `group` and `kind` matches `path`.
pub open spec fn any_rule_matches(
    rules: Seq<Rule>,
    group: PermissionsGroup,
    kind: PermissionsKind,
    path: Seq<char>,
) -> bool {
    exists|i: int|
        0 <= i < rules.len() && rules[i].0 == group && rules[i].1 == kind && #[trigger] pattern_matches(
            rules[i].2,
            path,
        )
}

/// The decision on an access.
#[derive(Debug, Clone, Copy, PartialEq, Eq, Structural)]
pub enum Access {
    Granted,
    Denied,
    NotGranted,
}

/// The decision on accessing `path` for `group`: a matching deny rule refuses
/// it whatever else holds; otherwise a matching allow rule grants it; with
/// neither, it is not granted.
pub open spec fn access(rules: Seq<Rule>, group: PermissionsGroup, path: Seq<char>) -> Access {
    if any_rule_matches(rules, group, PermissionsKind::Deny, path) {
        Access::Denied
    } else if any_rule_matches(rules, group, PermissionsKind::Allow, path) {
        Access::Granted
    } else {
        Access::NotGranted
    }
}

/// A refused access, with the (resolved) path it was about.
#[derive(Debug)]
pub struct PermissionError {
    pub access: Access,
    pub path: String,
}

impl PermissionError {
    /// The message the refusal is reported with.
    pub fn message(&self) -> (r: String)
        ensures
            self.access == Access::Denied ==> r@ == "permission to file "@ + path_debug_text(self.path@)
                + " is denied"@,
            self.access != Access::Denied ==> r@ == "permission to file "@ + path_debug_text(
                self.path@,
            ) + " was not granted"@,
    {
        let mut m: Vec<char> = Vec::new();
        push_str(&mut m, "permission to file ");
        let q = path_debug_quoted(self.path.as_str());
        push_str(&mut m, q.as_str());
        match self.access {
            Access::Denied => push_str(&mut m, " is denied"),
            _ => push_str(&mut m, " was not granted"),
        }
        string_of(&m)
    }
}

/// Path-permission rules for file-system access, in registration order.
#[derive(Debug)]
pub struct Permissions {
    path_resolver: PathResolver,
    entries: Vec<PermissionEntry>,
}

/// The text a rule's glob pattern is compiled from: the resolved prefix, with
/// the wildcard suffix (if any) pushed onto it.
pub open spec fn pattern_text(resolved_prefix: Seq<char>, suffix: Seq<char>) -> Seq<char> {
    if suffix.len() == 0 {
        resolved_prefix
    } else {
        push_path(resolved_prefix, suffix)
    }
}

/// Whether a component's text holds `*`, `?` or `[`.
pub open spec fn is_wildcard_component(c: Component) -> bool {
    has_glob_metachar(component_text(c))
}

/// The index of the first component that holds a wildcard, or the number of
/// components when none does.
pub open spec fn first_wildcard(cs: Seq<Component>) -> nat
    decreases cs.len(),
{
    if cs.len() == 0 {
        0
    } else if is_wildcard_component(cs[0]) {
        0
    } else {
        1 + first_wildcard(cs.drop_first())
    }
}

proof fn lemma_first_wildcard(cs: Seq<Component>, k: int)
    requires
        0 <= k <= cs.len(),
        forall|j: int| 0 <= j < k ==> !is_wildcard_component(#[trigger] cs[j]),
        k < cs.len() ==> is_wildcard_component(cs[k]),
    ensures
        first_wildcard(cs) == k,
    decreases k,
{
    if k > 0 {
        assert(!is_wildcard_component(cs[0]));
        assert forall|j: int| 0 <= j < k - 1 implies !is_wildcard_component(
            #[trigger] cs.drop_first()[j],
        ) by {
            assert(cs.drop_first()[j] == cs[j + 1]);
        }
        if k - 1 < cs.drop_first().len() {
            assert(cs.drop_first()[k - 1] == cs[k]);
        }
        lemma_first_wildcard(cs.drop_first(), k - 1);
    }
}

fn has_metachar_exec(t: &Vec<char>) -> (r: bool)
    ensures
        r == has_glob_metachar(t@),
{
    let mut i: usize = 0;
    while i < t.len()
        invariant
            i <= t@.len(),
            forall|j: int| 0 <= j < i ==> !(t@[j] == '*' || t@[j] == '?' || t@[j] == '['),
        decreases t@.len() - i,
    {
        if t[i] == '*' || t[i] == '?' || t[i] == '[' {
            return true;
        }
        i = i + 1;
    }
    false
}

/// Splits a raw rule path into the part before its first wildcard component
/// and the rest, both rebuilt from their components (`./src/*.rs` gives `./src`
/// and `*.rs`).
pub open spec fn split_spec(raw: Seq<char>) -> (Seq<char>, Seq<char>) {
    let cs = components(raw);
    let k = first_wildcard(cs);
    (render(cs.take(k as int)), render(cs.skip(k as int)))
}

impl Permissions {
    /// The rules registered so far, in order.
    pub closed spec fn rules(&self) -> Seq<Rule> {
        self.entries@.map_values(|e: PermissionEntry| (e.group, e.kind, e.pattern@))
    }

    /// Every registered pattern compiles.
    #[verifier::type_invariant]
    closed spec fn patterns_compile(&self) -> bool {
        forall|i: int| 0 <= i < self.entries@.len() ==> glob_pattern_error(#[trigger] self.entries@[i].pattern@) is None
    }

    /// No rules yet.
    pub fn new(path_resolver: PathResolver) -> (r: Permissions)
        ensures
            r.rules() == Seq::<Rule>::empty(),
            r.resolver().home_dir@ == path_resolver.home_dir@,
            r.resolver().current_dir@ == path_resolver.current_dir@,
    {
        let r = Permissions { path_resolver: path_resolver.duplicate(), entries: Vec::new() };
        assert(r.rules() =~= Seq::<Rule>::empty());
        r
    }

    /// The resolver rule paths and checked paths are resolved with.
    pub closed spec fn resolver(&self) -> PathResolver {
        self.path_resolver
    }

    /// The resolver rule paths and checked paths are resolved with.
    pub fn path_resolver(&self) -> (r: &PathResolver)
        ensures
            r == self.resolver(),
    {
        &self.path_resolver
    }

    /// Splits a raw rule path at its first component holding `*`, `?` or `[`:
    /// the prefix is resolved on disk by the caller, the suffix is kept as a pattern.
    pub fn split_on_first_wildcard(raw: &str) -> (r: (String, String))
        ensures
            r.0@ == split_spec(raw@).0,
            r.1@ == split_spec(raw@).1,
    {
        let cs = components_of(raw);
        let ghost v = comps(cs@);
        let mut base: Vec<char> = Vec::new();
        let mut i: usize = 0;
        let mut found = false;
        while i < cs.len() && !found
            invariant
                i <= cs@.len(),
                v == comps(cs@),
                forall|j: int| 0 <= j < i ==> !is_wildcard_component(#[trigger] v[j]),
                found ==> i < cs@.len() && is_wildcard_component(v[i as int]),
                base@ == render(v.take(i as int)),
            decreases cs@.len() - i, (if found { 0int } else { 1int }),
        {
            let t = crate::path::component_text_exec(&cs[i]);
            if has_metachar_exec(&t) {
                found = true;
            } else {
                crate::path::push_component(&mut base, &cs[i]);
                let ghost w = v.take(i + 1);
                assert(w.drop_last() =~= v.take(i as int));
                assert(w.last() == v[i as int]);
                i = i + 1;
            }
        }
        proof {
            lemma_first_wildcard(v, i as int);
        }
        let mut tail: Vec<char> = Vec::new();
        let start = i;
        while i < cs.len()
            invariant
                start <= i <= cs@.len(),
                v == comps(cs@),
                tail@ == render(v.subrange(start as int, i as int)),
            decreases cs@.len() - i,
        {
            crate::path::push_component(&mut tail, &cs[i]);
            let ghost w = v.subrange(start as int, i + 1);
            assert(w.drop_last() =~= v.subrange(start as int, i as int));
            assert(w.last() == v[i as int]);
            i = i + 1;
        }
        assert(v.subrange(start as int, v.len() as int) =~= v.skip(start as int));
        (string_of(&base), string_of(&tail))
    }

    /// Registers a rule: the pattern is the resolved prefix with the wildcard
    /// suffix pushed onto it. A pattern that does not compile is refused with
    /// the compiler's message and nothing is registered.
    pub fn register_fs_entry(
        &mut self,
        group: PermissionsGroup,
        kind: PermissionsKind,
        resolved_prefix: &str,
        suffix: &str,
    ) -> (r: Result<(), String>)
        ensures
            r is Ok <==> glob_pattern_error(pattern_text(resolved_prefix@, suffix@)) is None,
            has_unclosed_bracket(pattern_text(resolved_prefix@, suffix@)) ==> r is Err,
            r is Ok ==> final(self).rules() == old(self).rules().push(
                (group, kind, pattern_text(resolved_prefix@, suffix@)),
            ),
            r matches Err(m) ==> glob_pattern_error(pattern_text(resolved_prefix@, suffix@)) == Some(m@)
                && final(self).rules() == old(self).rules(),
            final(self).resolver() == old(self).resolver(),
    {
        let mut text = chars_of(resolved_prefix);
        let s = chars_of(suffix);
        if s.len() > 0 {
            push_text(&mut text, &s);
        }
        let pattern = string_of(&text);
        match glob_pattern_check(pattern.as_str()) {
            Some(m) => Err(m),
            None => {
                let ghost before = self.rules();
                proof {
                    use_type_invariant(&*self);
                }
                let entry = PermissionEntry { group, kind, pattern };
                let mut entries: Vec<PermissionEntry> = Vec::new();
                std::mem::swap(&mut entries, &mut self.entries);
                entries.push(entry);
                std::mem::swap(&mut entries, &mut self.entries);
                assert(self.rules() =~= before.push((group, kind, pattern_text(resolved_prefix@, suffix@))));
                Ok(())
            },
        }
    }

    fn any_matches(&self, group: PermissionsGroup, kind: PermissionsKind, path: &str) -> (r: bool)
        ensures
            r == any_rule_matches(self.rules(), group, kind, path@),
    {
        proof {
            use_type_invariant(self);
        }
        let ghost rules = self.rules();
        let mut i: usize = 0;
        while i < self.entries.len()
            invariant
                i <= self.entries@.len(),
                rules == self.rules(),
                rules.len() == self.entries@.len(),
                forall|j: int| 0 <= j < self.entries@.len() ==> glob_pattern_error(#[trigger] self.entries@[j].pattern@) is None,
                forall|j: int|
                    0 <= j < i ==> !(rules[j].0 == group && rules[j].1 == kind && #[trigger] pattern_matches(
                        rules[j].2,
                        path@,
                    )),
            decreases self.entries@.len() - i,
        {
            let e = &self.entries[i];
            assert(rules[i as int] == (e.group, e.kind, e.pattern@));
            if e.group == group && e.kind == kind && glob_pattern_match(e.pattern.as_str(), path) {
                assert(pattern_matches(rules[i as int].2, path@));
                return true;
            }
            i = i + 1;
        }
        false
    }

    /// Decides an access to an already resolved path, as `access` states.
    pub fn check(&self, group: PermissionsGroup, resolved_path: &str) -> (r: Result<(), PermissionError>)
        ensures
            r is Ok <==> access(self.rules(), group, resolved_path@) == Access::Granted,
            r matches Err(e) ==> e.access == access(self.rules(), group, resolved_path@)
                && e.path@ == resolved_path@,
    {
        if self.any_matches(group, PermissionsKind::Deny, resolved_path) {
            return Err(PermissionError { access: Access::Denied, path: String::from_str(resolved_path) });
        }
        if self.any_matches(group, PermissionsKind::Allow, resolved_path) {
            return Ok(());
        }
        Err(PermissionError { access: Access::NotGranted, path: String::from_str(resolved_path) })
    }
}


proof fn lemma_first_wildcard_bound(cs: Seq<Component>)
    ensures
        first_wildcard(cs) <= cs.len(),
    decreases cs.len(),
{
    if cs.len() > 0 {
        lemma_first_wildcard_bound(cs.drop_first());
    }
}

/// Splitting a raw rule path loses nothing: the components of the part before
/// its first wildcard component, followed by those of the rest, are the
/// components of the raw path.
pub proof fn lemma_split_recomposes(raw: Seq<char>)
    ensures
        components(split_spec(raw).0) + components(split_spec(raw).1) == components(raw),
{
    let cs = components(raw);
    let k = first_wildcard(cs) as int;
    lemma_first_wildcard_bound(cs);
    lemma_components_well_formed(raw);
    let a = cs.take(k);
    let b = cs.skip(k);
    assert(well_formed(a)) by {
        assert forall|i: int| 1 <= i < a.len() implies later_component(#[trigger] a[i]) by {
            assert(a[i] == cs[i]);
        }
        if a.len() > 0 {
            assert(a[0] == cs[0]);
        }
    }
    assert(well_formed(b)) by {
        assert forall|i: int| 1 <= i < b.len() implies later_component(#[trigger] b[i]) by {
            assert(b[i] == cs[i + k]);
        }
        if b.len() > 0 {
            assert(b[0] == cs[k]);
        }
    }
    lemma_render_round_trip(a);
    lemma_render_round_trip(b);
    assert(a + b =~= cs);
}

/// A deny rule that matches a path refuses it, whatever was registered before.
pub proof fn lemma_deny_rule_refuses(rules: Seq<Rule>, group: PermissionsGroup, pattern: Seq<char>, path: Seq<char>)
    requires
        pattern_matches(pattern, path),
    ensures
        access(rules.push((group, PermissionsKind::Deny, pattern)), group, path) == Access::Denied,
{
    let r = rules.push((group, PermissionsKind::Deny, pattern));
    assert(r[rules.len() as int] == (group, PermissionsKind::Deny, pattern));
    assert(pattern_matches(r[rules.len() as int].2, path));
}

/// An allow rule that matches a path grants it, unless a deny rule refuses it.
pub proof fn lemma_allow_rule_grants(rules: Seq<Rule>, group: PermissionsGroup, pattern: Seq<char>, path: Seq<char>)
    requires
        pattern_matches(pattern, path),
        access(rules, group, path) != Access::Denied,
    ensures
        access(rules.push((group, PermissionsKind::Allow, pattern)), group, path) == Access::Granted,
{
    let r = rules.push((group, PermissionsKind::Allow, pattern));
    assert(r[rules.len() as int] == (group, PermissionsKind::Allow, pattern));
    assert(pattern_matches(r[rules.len() as int].2, path));
    if any_rule_matches(r, group, PermissionsKind::Deny, path) {
        let i = choose|i: int|
            0 <= i < r.len() && r[i].0 == group && r[i].1 == PermissionsKind::Deny
                && #[trigger] pattern_matches(r[i].2, path);
        assert(i < rules.len());
        assert(r[i] == rules[i]);
    }
}

/// Registering an allow rule never takes away an access that was granted.
pub proof fn lemma_allow_rule_never_refuses(rules: Seq<Rule>, rule: Rule, group: PermissionsGroup, path: Seq<char>)
    requires
        rule.1 == PermissionsKind::Allow,
        access(rules, group, path) == Access::Granted,
    ensures
        access(rules.push(rule), group, path) == Access::Granted,
{
    let r = rules.push(rule);
    let i = choose|i: int|
        0 <= i < rules.len() && rules[i].0 == group && rules[i].1 == PermissionsKind::Allow
            && #[trigger] pattern_matches(rules[i].2, path);
    assert(r[i] == rules[i]);
    if any_rule_matches(r, group, PermissionsKind::Deny, path) {
        let j = choose|j: int|
            0 <= j < r.len() && r[j].0 == group && r[j].1 == PermissionsKind::Deny
                && #[trigger] pattern_matches(r[j].2, path);
        assert(j < rules.len());
        assert(r[j] == rules[j]);
    }
}

/// Registering a deny rule never grants an access that was not granted.
pub proof fn lemma_deny_rule_never_grants(rules: Seq<Rule>, rule: Rule, group: PermissionsGroup, path: Seq<char>)
    requires
        rule.1 == PermissionsKind::Deny,
        access(rules, group, path) != Access::Granted,
    ensures
        access(rules.push(rule), group, path) != Access::Granted,
{
    let r = rules.push(rule);
    if any_rule_matches(rules, group, PermissionsKind::Deny, path) {
        let j = choose|j: int|
            0 <= j < rules.len() && rules[j].0 == group && rules[j].1 == PermissionsKind::Deny
                && #[trigger] pattern_matches(rules[j].2, path);
        assert(r[j] == rules[j]);
    } else if any_rule_matches(r, group, PermissionsKind::Allow, path) {
        let j = choose|j: int|
            0 <= j < r.len() && r[j].0 == group && r[j].1 == PermissionsKind::Allow
                && #[trigger] pattern_matches(r[j].2, path);
        assert(j < rules.len());
        assert(r[j] == rules[j]);
    }
}

/// A rule of one group has no bearing on the access decisions of the other.
pub proof fn lemma_other_group_is_irrelevant(rules: Seq<Rule>, rule: Rule, group: PermissionsGroup, path: Seq<char>)
    requires
        rule.0 != group,
    ensures
        access(rules.push(rule), group, path) == access(rules, group, path),
{
    let r = rules.push(rule);
    assert forall|k: PermissionsKind| any_rule_matches(r, group, k, path) == any_rule_matches(rules, group, k, path) by {
        if any_rule_matches(r, group, k, path) {
            let j = choose|j: int|
                0 <= j < r.len() && r[j].0 == group && r[j].1 == k
                    && #[trigger] pattern_matches(r[j].2, path);
            assert(j < rules.len());
            assert(r[j] == rules[j]);
        }
        if any_rule_matches(rules, group, k, path) {
            let j = choose|j: int|
                0 <= j < rules.len() && rules[j].0 == group && rules[j].1 == k
                    && #[trigger] pattern_matches(rules[j].2, path);
            assert(r[j] == rules[j]);
        }
    }
}

} // verus!
