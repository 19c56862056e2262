//! The routes a shared HTTP listener dispatches to: which consumer a request for a path and
//! a method reaches, which registrations clash, and which methods a path allows.
use crate::publisher::{debug_quoted, debug_text};
use crate::text::{concat2, lemma_seq_less_total, lemma_seq_less_trans, seq_less, str_eq, str_less};
use vstd::prelude::*;

verus! {

/// What a route answers: a path (any path when `None`) and a method (any method when
/// `None`).
#[derive(Debug)]
pub struct HttpRoute {
    pub path: Option<String>,
    pub method: Option<String>,
}

/// A route as text: its path and its method, each absent where the route takes any.
pub type RouteKey = (Option<Seq<char>>, Option<Seq<char>>);

pub open spec fn opt_text(o: Option<String>) -> Option<Seq<char>> {
    match o {
        Some(s) => Some(s@),
        None => None,
    }
}

impl View for HttpRoute {
    type V = RouteKey;

    open spec fn view(&self) -> RouteKey {
        (opt_text(self.path), opt_text(self.method))
    }
}

/// Two routes clash when they share a path and either share a method or one of them takes
/// every method.
pub open spec fn keys_conflict(l: RouteKey, r: RouteKey) -> bool {
    l.0 == r.0 && (l.1 == r.1 || l.1 is None || r.1 is None)
}

pub open spec fn key_matches_path(k: RouteKey, path: Seq<char>) -> bool {
    match k.0 {
        Some(p) => p == path,
        None => true,
    }
}

pub open spec fn key_matches_method(k: RouteKey, method: Seq<char>) -> bool {
    match k.1 {
        Some(m) => m == method,
        None => true,
    }
}

/// How specific a route is: a fixed path counts above a fixed method.
pub open spec fn key_rank(k: RouteKey) -> int {
    (if k.0 is Some { 2int } else { 0int }) + (if k.1 is Some { 1int } else { 0int })
}

fn opt_str_eq(a: &Option<String>, b: &Option<String>) -> (r: bool)
    ensures
        r == (opt_text(*a) == opt_text(*b)),
{
    match (a, b) {
        (Some(x), Some(y)) => str_eq(x.as_str(), y.as_str()),
        (None, None) => true,
        _ => false,
    }
}

/// Whether two routes may not be registered together.
pub fn routes_conflict(left: &HttpRoute, right: &HttpRoute) -> (r: bool)
    ensures
        r == keys_conflict(left@, right@),
{
    opt_str_eq(&left.path, &right.path) && (opt_str_eq(&left.method, &right.method)
        || left.method.is_none() || right.method.is_none())
}

/// Whether a route answers requests for `path`.
pub fn route_matches_path(route: &HttpRoute, path: &str) -> (r: bool)
    ensures
        r == key_matches_path(route@, path@),
{
    match &route.path {
        Some(p) => str_eq(p.as_str(), path),
        None => true,
    }
}

/// Whether a route answers requests made with `method`.
pub fn route_matches_method(route: &HttpRoute, method: &str) -> (r: bool)
    ensures
        r == key_matches_method(route@, method@),
{
    match &route.method {
        Some(m) => str_eq(m.as_str(), method),
        None => true,
    }
}

/// How specific a route is, compared as a pair: whether it fixes its path, then whether it
/// fixes its method.
pub fn route_specificity(route: &HttpRoute) -> (r: (u8, u8))
    ensures
        r.0 == (if route.path is Some { 1u8 } else { 0u8 }),
        r.1 == (if route.method is Some { 1u8 } else { 0u8 }),
        2 * r.0 + r.1 == key_rank(route@),
{
    let p: u8 = if route.path.is_some() { 1 } else { 0 };
    let m: u8 = if route.method.is_some() { 1 } else { 0 };
    (p, m)
}

/// The routes as ids and keys.
pub open spec fn entry_keys(s: Seq<(u64, HttpRoute)>) -> Seq<(u64, RouteKey)> {
    s.map_values(|e: (u64, HttpRoute)| (e.0, e.1@))
}

/// No two routes of a table clash.
pub open spec fn clash_free(s: Seq<(u64, RouteKey)>) -> bool {
    forall|i: int, j: int| 0 <= i < j < s.len() ==> !keys_conflict(#[trigger] s[i].1, #[trigger] s[j].1)
}

/// The entries of `s` whose id is not `id`, in their order.
pub open spec fn without_id(s: Seq<(u64, RouteKey)>, id: u64) -> Seq<(u64, RouteKey)>
    decreases s.len(),
{
    if s.len() == 0 {
        s
    } else {
        let rest = without_id(s.drop_last(), id);
        if s.last().0 == id {
            rest
        } else {
            rest.push(s.last())
        }
    }
}

/// What is left of a table without one id still holds only entries of the table, and stays
/// clash free.
pub proof fn lemma_without_id(s: Seq<(u64, RouteKey)>, id: u64)
    ensures
        forall|k: int| 0 <= k < without_id(s, id).len() ==> s.contains(#[trigger] without_id(s, id)[k]),
        forall|k: int| 0 <= k < without_id(s, id).len() ==> (#[trigger] without_id(s, id)[k]).0 != id,
        clash_free(s) ==> clash_free(without_id(s, id)),
        without_id(s, id).len() <= s.len(),
    decreases s.len(),
{
    if s.len() > 0 {
        let d = s.drop_last();
        lemma_without_id(d, id);
        let rest = without_id(d, id);
        assert forall|k: int| 0 <= k < rest.len() implies s.contains(#[trigger] rest[k]) by {
            let w = choose|w: int| 0 <= w < d.len() && d[w] == rest[k];
            assert(s[w] == rest[k]);
        }
        assert(s[s.len() - 1] == s.last());
        if clash_free(s) && s.last().0 != id {
            let t = rest.push(s.last());
            assert forall|i: int, j: int| 0 <= i < j < t.len() implies !keys_conflict(
                #[trigger] t[i].1,
                #[trigger] t[j].1,
            ) by {
                if j == t.len() - 1 {
                    assert(t[i] == rest[i]);
                    let w = choose|w: int| 0 <= w < d.len() && d[w] == rest[i];
                    assert(s[w] == rest[i]);
                    assert(t[j] == s[s.len() - 1]);
                } else {
                    assert(t[i] == rest[i] && t[j] == rest[j]);
                    assert(clash_free(d)) by {
                        assert forall|a: int, b: int| 0 <= a < b < d.len() implies !keys_conflict(
                            #[trigger] d[a].1,
                            #[trigger] d[b].1,
                        ) by {
                            assert(d[a] == s[a] && d[b] == s[b]);
                        }
                    }
                }
            }
        }
        if clash_free(s) && s.last().0 == id {
            assert(clash_free(d)) by {
                assert forall|a: int, b: int| 0 <= a < b < d.len() implies !keys_conflict(
                    #[trigger] d[a].1,
                    #[trigger] d[b].1,
                ) by {
                    assert(d[a] == s[a] && d[b] == s[b]);
                }
            }
        }
    }
}

/// In a table where no two routes clash, a route that fixes both its path and its method is
/// the one a request for that path and method reaches, whatever else is registered.
pub proof fn lemma_exact_route_wins(s: Seq<(u64, RouteKey)>, i: int, path: Seq<char>, method: Seq<char>)
    requires
        clash_free(s),
        0 <= i < s.len(),
        s[i].1 == (Some(path), Some(method)),
    ensures
        best_hit(s, path, method, i),
        forall|j: int| #[trigger] best_hit(s, path, method, j) ==> j == i,
{
    assert forall|j: int| #[trigger] hit(s, path, method, j) && j != i implies key_rank(s[j].1) < 3 by {
        if key_rank(s[j].1) == 3 {
            if j < i {
                assert(!keys_conflict(s[j].1, s[i].1));
            } else {
                assert(!keys_conflict(s[i].1, s[j].1));
            }
        }
    }
    assert(hit(s, path, method, i));
}

/// Taking away the id a route was just registered under, where no other route had it,
/// gives back the table as it was.
pub proof fn lemma_unregister_undoes_register(s: Seq<(u64, RouteKey)>, id: u64, key: RouteKey)
    requires
        forall|i: int| 0 <= i < s.len() ==> (#[trigger] s[i]).0 != id,
    ensures
        without_id(s.push((id, key)), id) == s,
{
    assert(s.push((id, key)).drop_last() =~= s);
    lemma_without_absent_id(s, id);
}

proof fn lemma_without_absent_id(s: Seq<(u64, RouteKey)>, id: u64)
    requires
        forall|i: int| 0 <= i < s.len() ==> (#[trigger] s[i]).0 != id,
    ensures
        without_id(s, id) == s,
    decreases s.len(),
{
    if s.len() > 0 {
        let d = s.drop_last();
        assert forall|i: int| 0 <= i < d.len() implies (#[trigger] d[i]).0 != id by {
            assert(d[i] == s[i]);
        }
        lemma_without_absent_id(d, id);
        assert(s[s.len() - 1] == s.last());
        assert(d.push(s.last()) =~= s);
    }
}

/// Why a route could not be registered: it clashes with one already there.
#[derive(Debug)]
pub struct RouteConflict {
    pub path: Option<String>,
    pub method: Option<String>,
}

/// What `{:?}` writes for an optional path: `None`, or the path quoted inside `Some(..)`.
pub open spec fn debug_opt_path(o: Option<Seq<char>>) -> Seq<char> {
    match o {
        Some(p) => "Some("@ + debug_text(p) + ")"@,
        None => "None"@,
    }
}

/// What `{:?}` writes for an optional method: `None`, or the method's name, unquoted,
/// inside `Some(..)`.
pub open spec fn debug_opt_method(o: Option<Seq<char>>) -> Seq<char> {
    match o {
        Some(m) => "Some("@ + m + ")"@,
        None => "None"@,
    }
}

/// The text a clashing registration is refused with.
pub open spec fn conflict_text(path: Option<Seq<char>>, method: Option<Seq<char>>) -> Seq<char> {
    "Conflicting HTTP consumer registration for path "@ + debug_opt_path(path) + " and method "@
        + debug_opt_method(method)
}

/// Wraps `inner` in `Some(..)`.
fn some_text(inner: &str) -> (r: String)
    ensures
        r@ == "Some("@ + inner@ + ")"@,
{
    let a = concat2("Some(", inner);
    concat2(a.as_str(), ")")
}

impl RouteConflict {
    /// The text the refusal is reported with, naming the clashing path and method.
    pub fn message(&self) -> (r: String)
        ensures
            r@ == conflict_text(opt_text(self.path), opt_text(self.method)),
    {
        let path = match &self.path {
            Some(p) => {
                let q = debug_quoted(p.as_str());
                some_text(q.as_str())
            },
            None => String::from_str("None"),
        };
        let method = match &self.method {
            Some(m) => some_text(m.as_str()),
            None => String::from_str("None"),
        };
        let a = concat2("Conflicting HTTP consumer registration for path ", path.as_str());
        let b = concat2(a.as_str(), " and method ");
        concat2(b.as_str(), method.as_str())
    }
}

/// The answer to a request: the id of the route it reaches, the methods its path allows
/// where none of them was used, or nothing for a path no route answers.
#[derive(Debug)]
pub enum RouteMatch {
    Matched(u64),
    MethodNotAllowed(Vec<String>),
    NotFound,
}

/// Each text of `s` comes strictly before the next.
pub open spec fn strictly_sorted(s: Seq<Seq<char>>) -> bool {
    forall|i: int, j: int| 0 <= i < j < s.len() ==> seq_less(#[trigger] s[i], #[trigger] s[j])
}

pub open spec fn method_views(v: Seq<String>) -> Seq<Seq<char>> {
    v.map_values(|s: String| s@)
}

/// The method that entry `i` of `s` fixes, where it answers `path`.
pub open spec fn allowed_method_at(s: Seq<(u64, RouteKey)>, path: Seq<char>, i: int, m: Seq<char>) -> bool {
    0 <= i < s.len() && key_matches_path(s[i].1, path) && s[i].1.1 == Some(m)
}

/// Entry `i` answers a request for `path` made with `method`.
pub open spec fn hit(s: Seq<(u64, RouteKey)>, path: Seq<char>, method: Seq<char>, i: int) -> bool {
    0 <= i < s.len() && key_matches_path(s[i].1, path) && key_matches_method(s[i].1, method)
}

/// Entry `i` is the first of the most specific entries that answer the request.
pub open spec fn best_hit(s: Seq<(u64, RouteKey)>, path: Seq<char>, method: Seq<char>, i: int) -> bool {
    &&& hit(s, path, method, i)
    &&& forall|j: int| #[trigger] hit(s, path, method, j) ==> key_rank(s[j].1) <= key_rank(s[i].1)
    &&& forall|j: int| #[trigger] hit(s, path, method, j) && j < i ==> key_rank(s[j].1) < key_rank(
        s[i].1,
    )
}

/// Adds `m` to a strictly sorted list of texts, where it is not there yet.
fn insert_sorted(v: &mut Vec<String>, m: String)
    requires
        strictly_sorted(method_views(old(v)@)),
    ensures
        strictly_sorted(method_views(final(v)@)),
        forall|x: Seq<char>| #[trigger] method_views(final(v)@).contains(x) <==> (method_views(
            old(v)@,
        ).contains(x) || x == m@),
{
    let ghost ov = method_views(v@);
    let n = v.len();
    let mut i: usize = 0;
    while i < n && str_less(v[i].as_str(), m.as_str())
        invariant
            n == v.len(),
            i <= n,
            ov == method_views(v@),
            forall|k: int| 0 <= k < i ==> seq_less(#[trigger] ov[k], m@),
        decreases n - i,
    {
        assert(ov[i as int] == v@[i as int]@);
        i = i + 1;
    }
    if i < n && str_eq(v[i].as_str(), m.as_str()) {
        assert(ov[i as int] == m@);
        assert(ov.contains(m@));
        return ;
    }
    proof {
        if i < n {
            assert(ov[i as int] == v@[i as int]@);
            lemma_seq_less_total(ov[i as int], m@);
            assert(seq_less(m@, ov[i as int]));
        }
    }
    v.insert(i, m);
    let ghost nv = method_views(v@);
    assert(nv =~= ov.insert(i as int, m@));
    assert forall|a: int, b: int| 0 <= a < b < nv.len() implies seq_less(#[trigger] nv[a], #[trigger] nv[b]) by {
        if b == i {
            assert(nv[a] == ov[a]);
        } else if a == i {
            assert(nv[b] == ov[b - 1]);
            if b - 1 > i {
                lemma_seq_less_trans(m@, ov[i as int], ov[b - 1]);
            }
        } else if a < i && b > i {
            assert(nv[a] == ov[a] && nv[b] == ov[b - 1]);
        } else if a < i {
            assert(nv[a] == ov[a] && nv[b] == ov[b]);
        } else {
            assert(nv[a] == ov[a - 1] && nv[b] == ov[b - 1]);
        }
    }
    assert forall|x: Seq<char>| #[trigger] nv.contains(x) <==> (ov.contains(x) || x == m@) by {
        if nv.contains(x) {
            let k = choose|k: int| 0 <= k < nv.len() && nv[k] == x;
            if k < i {
                assert(ov[k] == x);
            } else if k > i {
                assert(ov[k - 1] == x);
            }
        }
        if ov.contains(x) {
            let k = choose|k: int| 0 <= k < ov.len() && ov[k] == x;
            if k < i {
                assert(nv[k] == x);
            } else {
                assert(nv[k + 1] == x);
            }
        }
        if x == m@ {
            assert(nv[i as int] == x);
        }
    }
}

/// The routes registered on one listener, no two of which clash.
pub struct RouteTable {
    routes: Vec<(u64, HttpRoute)>,
}

impl View for RouteTable {
    type V = Seq<(u64, RouteKey)>;

    closed spec fn view(&self) -> Seq<(u64, RouteKey)> {
        entry_keys(self.routes@)
    }
}

impl RouteTable {
    #[verifier::type_invariant]
    closed spec fn no_clash(&self) -> bool {
        clash_free(entry_keys(self.routes@))
    }

    /// An empty table.
    pub fn new() -> (r: Self)
        ensures
            r@ == Seq::<(u64, RouteKey)>::empty(),
            clash_free(r@),
    {
        let r = RouteTable { routes: Vec::new() };
        assert(r@ =~= Seq::<(u64, RouteKey)>::empty());
        r
    }

    /// The number of routes.
    pub fn len(&self) -> (r: usize)
        ensures
            r == self@.len(),
    {
        self.routes.len()
    }

    /// Adds a route under `route_id`, unless it clashes with one already there; then the
    /// table is left as it was.
    pub fn register_route(&mut self, route_id: u64, route: HttpRoute) -> (r: Result<(), RouteConflict>)
        ensures
            r is Ok <==> forall|i: int| 0 <= i < old(self)@.len() ==> !keys_conflict(
                #[trigger] old(self)@[i].1,
                route@,
            ),
            r is Ok ==> final(self)@ == old(self)@.push((route_id, route@)),
            clash_free(final(self)@),
            r matches Err(e) ==> final(self)@ == old(self)@ && opt_text(e.path) == route@.0 && opt_text(
                e.method,
            ) == route@.1,
    {
        proof {
            use_type_invariant(&*self);
        }
        let n = self.routes.len();
        let mut i: usize = 0;
        while i < n
            invariant
                n == self.routes.len(),
                i <= n,
                self@ == old(self)@,
                clash_free(self@),
                forall|k: int| 0 <= k < i ==> !keys_conflict(#[trigger] self@[k].1, route@),
            decreases n - i,
        {
            assert(self@[i as int] == (self.routes@[i as int].0, self.routes@[i as int].1@));
            if routes_conflict(&self.routes[i].1, &route) {
                assert(keys_conflict(old(self)@[i as int].1, route@));
                return Err(RouteConflict { path: route.path, method: route.method });
            }
            i = i + 1;
        }
        let ghost old_view = self@;
        let mut routes = Vec::new();
        std::mem::swap(&mut routes, &mut self.routes);
        assert(entry_keys(routes@) == old_view);
        routes.push((route_id, route));
        assert(entry_keys(routes@) =~= old_view.push((route_id, route@)));
        assert(clash_free(entry_keys(routes@))) by {
            let t = entry_keys(routes@);
            assert forall|a: int, b: int| 0 <= a < b < t.len() implies !keys_conflict(
                #[trigger] t[a].1,
                #[trigger] t[b].1,
            ) by {
                assert(t[a] == old_view[a]);
                if b < old_view.len() {
                    assert(t[b] == old_view[b]);
                } else {
                    assert(t[b] == (route_id, route@));
                }
            }
        }
        self.routes = routes;
        Ok(())
    }

    /// Drops every route registered under `route_id`, and says whether none is left.
    pub fn unregister_route(&mut self, route_id: u64) -> (r: bool)
        ensures
            final(self)@ == without_id(old(self)@, route_id),
            r == (final(self)@.len() == 0),
            clash_free(final(self)@),
    {
        proof {
            use_type_invariant(&*self);
        }
        let ghost old_view = self@;
        let mut routes = Vec::new();
        std::mem::swap(&mut routes, &mut self.routes);
        let n = routes.len();
        let mut k: usize = 0;
        let mut i: usize = 0;
        assert(old_view.take(0) =~= Seq::<(u64, RouteKey)>::empty());
        assert(entry_keys(routes@) =~= without_id(old_view.take(0), route_id) + old_view.skip(0));
        while k < n
            invariant
                n == old_view.len(),
                k <= n,
                i == without_id(old_view.take(k as int), route_id).len(),
                entry_keys(routes@) == without_id(old_view.take(k as int), route_id) + old_view.skip(
                    k as int,
                ),
            decreases n - k,
        {
            let ghost pre = without_id(old_view.take(k as int), route_id);
            assert(old_view.take(k + 1).drop_last() =~= old_view.take(k as int));
            assert(old_view.take(k + 1).last() == old_view[k as int]);
            proof {
                lemma_without_id(old_view.take(k as int), route_id);
            }
            assert(entry_keys(routes@).len() == routes@.len());
            assert(entry_keys(routes@)[i as int] == old_view[k as int]);
            assert(entry_keys(routes@)[i as int] == (routes@[i as int].0, routes@[i as int].1@));
            if routes[i].0 == route_id {
                let ghost ek = entry_keys(routes@);
                routes.remove(i);
                assert(entry_keys(routes@) =~= ek.remove(i as int));
                assert(ek.remove(i as int) =~= pre + old_view.skip(k + 1));
            } else {
                assert(pre.push(old_view[k as int]) + old_view.skip(k + 1) =~= pre + old_view.skip(
                    k as int,
                ));
                i = i + 1;
            }
            k = k + 1;
        }
        assert(old_view.take(n as int) =~= old_view);
        assert(entry_keys(routes@) =~= without_id(old_view, route_id));
        proof {
            lemma_without_id(old_view, route_id);
        }
        let empty = routes.len() == 0;
        self.routes = routes;
        empty
    }

    /// The route a request for `path` made with `method` reaches: the first of the most
    /// specific routes that answer it. Where routes answer the path but none the method,
    /// the methods they fix, sorted and each once.
    pub fn match_route(&self, path: &str, method: &str) -> (r: RouteMatch)
        ensures
            r is Matched <==> exists|i: int| hit(self@, path@, method@, i),
            r matches RouteMatch::Matched(id) ==> exists|i: int|
                best_hit(self@, path@, method@, i) && self@[i].0 == id,
            r is NotFound <==> forall|i: int| 0 <= i < self@.len() ==> !key_matches_path(
                #[trigger] self@[i].1,
                path@,
            ),
            r matches RouteMatch::MethodNotAllowed(ms) ==> {
                &&& strictly_sorted(method_views(ms@))
                &&& forall|m: Seq<char>| #[trigger] method_views(ms@).contains(m) <==> exists|i: int|
                    allowed_method_at(self@, path@, i, m)
            },
    {
        let ghost s = self@;
        let n = self.routes.len();
        let mut matched_path = false;
        let mut best: Option<usize> = None;
        let mut best_rank: u8 = 0;
        let mut i: usize = 0;
        while i < n
            invariant
                n == s.len(),
                s == self@,
                i <= n,
                matched_path <==> exists|k: int| 0 <= k < i && key_matches_path(#[trigger] s[k].1, path@),
                best is None <==> forall|k: int| 0 <= k < i ==> !#[trigger] hit(s, path@, method@, k),
                best matches Some(b) ==> {
                    &&& b < i
                    &&& hit(s, path@, method@, b as int)
                    &&& best_rank == key_rank(s[b as int].1)
                    &&& forall|j: int| #[trigger] hit(s, path@, method@, j) && j < i ==> key_rank(s[j].1) <= best_rank
                    &&& forall|j: int| #[trigger] hit(s, path@, method@, j) && j < b ==> key_rank(s[j].1) < best_rank
                },
            decreases n - i,
        {
            let route = &self.routes[i].1;
            assert(s[i as int] == (self.routes@[i as int].0, route@));
            let pm = route_matches_path(route, path);
            let mm = route_matches_method(route, method);
            assert(hit(s, path@, method@, i as int) == (pm && mm));
            proof {
                if pm {
                    assert(key_matches_path(s[i as int].1, path@));
                }
            }
            if pm {
                matched_path = true;
                if mm {
                    let (p, m) = route_specificity(route);
                    let rank: u8 = 2 * p + m;
                    if best.is_none() || rank > best_rank {
                        best_rank = rank;
                        best = Some(i);
                    }
                }
            }
            i = i + 1;
        }
        if let Some(b) = best {
            assert(best_hit(s, path@, method@, b as int));
            return RouteMatch::Matched(self.routes[b].0);
        }
        if !matched_path {
            return RouteMatch::NotFound;
        }
        let mut methods: Vec<String> = Vec::new();
        let mut j: usize = 0;
        assert(method_views(methods@) =~= Seq::<Seq<char>>::empty());
        while j < n
            invariant
                n == s.len(),
                s == self@,
                j <= n,
                strictly_sorted(method_views(methods@)),
                forall|m: Seq<char>| #[trigger] method_views(methods@).contains(m) <==> exists|k: int|
                    0 <= k < j && allowed_method_at(s, path@, k, m),
            decreases n - j,
        {
            let route = &self.routes[j].1;
            assert(s[j as int] == (self.routes@[j as int].0, route@));
            let ghost before = method_views(methods@);
            if route_matches_path(route, path) {
                if let Some(m) = &route.method {
                    insert_sorted(&mut methods, m.clone());
                }
            }
            assert forall|m: Seq<char>| #[trigger] method_views(methods@).contains(m) <==> exists|k: int|
                0 <= k < j + 1 && allowed_method_at(s, path@, k, m) by {
                if exists|k: int| 0 <= k < j + 1 && allowed_method_at(s, path@, k, m) {
                    let k = choose|k: int| 0 <= k < j + 1 && allowed_method_at(s, path@, k, m);
                    if k < j {
                        assert(before.contains(m));
                    }
                }
                if before.contains(m) {
                    let k = choose|k: int| 0 <= k < j && allowed_method_at(s, path@, k, m);
                    assert(0 <= k < j + 1 && allowed_method_at(s, path@, k, m));
                }
                if method_views(methods@).contains(m) && !before.contains(m) {
                    assert(allowed_method_at(s, path@, j as int, m));
                }
            }
            j = j + 1;
        }
        RouteMatch::MethodNotAllowed(methods)
    }
}

} // verus!
