//! Route resolution. Registered URL path patterns, named parameters
//! included, map to route targets; an incoming path resolves to at most
//! one target. The path trie itself is matchit's; the table around it
//! keeps every stored index pointing at a registered target.

use vstd::prelude::*;

verus! {

/// The most named parameters one pattern may hold: matchit aborts while
/// registering a pattern with more.
pub const MAX_NAMED_PARAMS: usize = 25;

/// One route's configuration: its pattern, the plugins it names, by
/// handle, in configuration order, and its optional deadline.
#[derive(Clone, Debug)]
pub struct RouteTarget {
    pub pattern: String,
    pub plugin_ids: Vec<u64>,
    pub timeout_millis: Option<u64>,
}

/// matchit's path trie, declared so a route table can hold one.
#[verifier::external_type_specification]
#[verifier::external_body]
#[verifier::reject_recursive_types(T)]
pub struct ExMatchitRouter<T>(matchit::Router<T>);

/// The pattern-to-value map a matchit router holds.
pub uninterp spec fn router_entries(r: matchit::Router<usize>) -> Map<Seq<char>, usize>;

/// Whether matchit accepts a new pattern into a route set: the pattern is
/// well formed by matchit's grammar and conflicts with no registered
/// route. Acceptance is a function of the registered pattern set and the
/// new pattern alone.
pub uninterp spec fn insert_accepted(entries: Map<Seq<char>, usize>, pattern: Seq<char>) -> bool;

/// The match, if any, that matchit resolves a path to, given the
/// registered pattern map: the matched pattern together with the captured
/// path parameters, as name/value pairs in pattern order. The resolution
/// is a function of the registered patterns and the path alone: longest
/// literal prefix first, parameters after, exact trailing-slash
/// discipline.
pub uninterp spec fn spec_route_match(
    entries: Map<Seq<char>, usize>,
    path: Seq<char>,
) -> Option<(Seq<char>, Seq<(Seq<char>, Seq<char>)>)>;

/// The views of a captured parameter list.
pub open spec fn param_views(ps: Seq<(String, String)>) -> Seq<(Seq<char>, Seq<char>)> {
    ps.map_values(|p: (String, String)| (p.0@, p.1@))
}

/// Occurrences of the parameter marker character in a pattern. Every
/// named parameter starts with one, so this bounds the parameter count.
pub open spec fn spec_colon_count(s: Seq<char>) -> int
    decreases s.len(),
{
    if s.len() == 0 {
        0
    } else {
        spec_colon_count(s.drop_last()) + if s.last() == ':' {
            1int
        } else {
            0int
        }
    }
}

/// Counts the parameter marker characters of a pattern.
fn colon_count(s: &str) -> (n: usize)
    ensures
        n == spec_colon_count(s@),
{
    let len: usize = s.unicode_len();
    let mut n: usize = 0;
    let mut i: usize = 0;
    while i < len
        invariant
            0 <= i <= len,
            len == s@.len(),
            n <= i,
            n == spec_colon_count(s@.take(i as int)),
        decreases len - i,
    {
        proof {
            assert(s@.take(i + 1).drop_last() =~= s@.take(i as int));
            assert(s@.take(i + 1).last() == s@[i as int]);
        }
        if s.get_char(i) == ':' {
            n += 1;
        }
        i += 1;
    }
    proof {
        assert(s@.take(s@.len() as int) =~= s@);
    }
    n
}

/// Relies on matchit::Router::new: a fresh router holds no routes.
#[verifier::external_body]
fn matchit_new() -> (fresh: matchit::Router<usize>)
    ensures
        router_entries(fresh).dom() == Set::<Seq<char>>::empty(),
{
    matchit::Router::new()
}

/// Relies on matchit::Router::insert: it succeeds exactly when the
/// pattern is acceptable into the registered set, and then stores the
/// value under the pattern, which was not registered before; a refused
/// insert (conflicting or malformed pattern) may split trie nodes but
/// neither adds nor drops a route. matchit aborts on a pattern with more
/// named parameters than its name alphabet, so such patterns are kept
/// out.
#[verifier::external_body]
fn matchit_insert(r: &mut matchit::Router<usize>, pattern: &String, value: usize) -> (ok: bool)
    requires
        spec_colon_count(pattern@) <= MAX_NAMED_PARAMS,
    ensures
        ok == insert_accepted(router_entries(*old(r)), pattern@),
        ok ==> !router_entries(*old(r)).contains_key(pattern@),
        ok ==> router_entries(*final(r)) == router_entries(*old(r)).insert(pattern@, value),
        !ok ==> router_entries(*final(r)) == router_entries(*old(r)),
{
    r.insert(pattern.as_str(), value).is_ok()
}

/// Relies on matchit::Router::at: a successful match returns the value
/// stored under the pattern that matchit's resolution picks for this
/// path, together with exactly the captured parameters of that
/// resolution; no match is reported exactly when the resolution finds no
/// pattern.
#[verifier::external_body]
fn matchit_at(r: &matchit::Router<usize>, path: &String) -> (res: Option<
    (usize, Vec<(String, String)>),
>)
    ensures
        match res {
            Some(hit) => {
                &&& spec_route_match(router_entries(*r), path@) is Some
                &&& router_entries(*r).contains_key(
                    spec_route_match(router_entries(*r), path@).unwrap().0,
                )
                &&& router_entries(*r)[spec_route_match(router_entries(*r), path@).unwrap().0]
                    == hit.0
                &&& param_views(hit.1@) == spec_route_match(router_entries(*r), path@).unwrap().1
            },
            None => spec_route_match(router_entries(*r), path@) is None,
        },
{
    match r.at(path.as_str()) {
        Ok(m) => {
            let mut params: Vec<(String, String)> = Vec::new();
            for (k, v) in m.params.iter() {
                params.push((k.to_string(), v.to_string()));
            }
            Some((*m.value, params))
        },
        Err(_) => None,
    }
}

/// The route table: a path trie over the registered patterns, each
/// pointing at one of the registered targets.
pub struct RouteTable {
    trie: matchit::Router<usize>,
    targets: Vec<RouteTarget>,
}

impl RouteTable {
    /// The registered targets, in registration order.
    pub closed spec fn spec_targets(&self) -> Seq<RouteTarget> {
        self.targets@
    }

    /// The registered pattern map: each pattern names a target by index.
    pub closed spec fn spec_entries(&self) -> Map<Seq<char>, usize> {
        router_entries(self.trie)
    }

    /// Every registered pattern points at a registered target.
    pub closed spec fn wf(&self) -> bool {
        forall|p: Seq<char>| #[trigger]
            self.spec_entries().contains_key(p) ==> self.spec_entries()[p]
                < self.spec_targets().len()
    }

    /// Builds an empty route table.
    pub fn new() -> (t: RouteTable)
        ensures
            t.wf(),
            t.spec_entries() == Map::<Seq<char>, usize>::empty(),
            t.spec_targets() == Seq::<RouteTarget>::empty(),
    {
        let t = RouteTable { trie: matchit_new(), targets: Vec::new() };
        proof {
            assert(t.spec_targets() =~= Seq::<RouteTarget>::empty());
            assert(t.spec_entries() =~= Map::<Seq<char>, usize>::empty());
        }
        t
    }

    /// Registers one route. The insert succeeds exactly when the pattern
    /// is non-empty, stays within matchit's parameter limit, and matchit
    /// accepts it into the registered set; a duplicate of a registered
    /// pattern is never accepted. A refused insert leaves the table as it
    /// was.
    pub fn insert(&mut self, pattern: &String, target: RouteTarget) -> (ok: bool)
        requires
            old(self).wf(),
        ensures
            final(self).wf(),
            ok == (pattern@.len() > 0 && spec_colon_count(pattern@) <= MAX_NAMED_PARAMS
                && insert_accepted(old(self).spec_entries(), pattern@)),
            ok ==> !old(self).spec_entries().contains_key(pattern@),
            ok ==> final(self).spec_entries() == old(self).spec_entries().insert(
                pattern@,
                old(self).spec_targets().len() as usize,
            ),
            ok ==> final(self).spec_targets() == old(self).spec_targets().push(target),
            !ok ==> final(self).spec_entries() == old(self).spec_entries(),
            !ok ==> final(self).spec_targets() == old(self).spec_targets(),
    {
        if pattern.as_str().unicode_len() == 0 {
            return false;
        }
        if colon_count(pattern.as_str()) > MAX_NAMED_PARAMS {
            return false;
        }
        let idx = self.targets.len();
        let ok = matchit_insert(&mut self.trie, pattern, idx);
        if ok {
            self.targets.push(target);
        }
        proof {
            if ok {
                assert forall|p: Seq<char>| #[trigger]
                    self.spec_entries().contains_key(p) implies self.spec_entries()[p]
                    < self.spec_targets().len() by {
                    if p != pattern@ {
                        assert(old(self).spec_entries().contains_key(p));
                    }
                }
            } else {
                assert forall|p: Seq<char>| #[trigger]
                    self.spec_entries().contains_key(p) implies self.spec_entries()[p]
                    < self.spec_targets().len() by {
                    assert(old(self).spec_entries().contains_key(p));
                }
            }
            assert(self.wf());
        }
        ok
    }

    /// Resolves a path to its route target and the captured path
    /// parameters; no route means the transaction passes untouched.
    pub fn lookup(&self, path: &String) -> (r: Option<(&RouteTarget, Vec<(String, String)>)>)
        requires
            self.wf(),
        ensures
            match r {
                Some(hit) => {
                    &&& spec_route_match(self.spec_entries(), path@) is Some
                    &&& self.spec_entries().contains_key(
                        spec_route_match(self.spec_entries(), path@).unwrap().0,
                    )
                    &&& *hit.0 == self.spec_targets()[self.spec_entries()[spec_route_match(
                        self.spec_entries(),
                        path@,
                    ).unwrap().0] as int]
                    &&& param_views(hit.1@) == spec_route_match(
                        self.spec_entries(),
                        path@,
                    ).unwrap().1
                },
                None => spec_route_match(self.spec_entries(), path@) is None,
            },
    {
        match matchit_at(&self.trie, path) {
            Some((idx, params)) => Some((&self.targets[idx], params)),
            None => None,
        }
    }
}

}
