//! The route table and its dispatch rule.
//!
//! A table maps route prefixes to handlers; registering an existing prefix
//! overwrites its handler, so prefixes stay unique. Dispatch scans the
//! entries in registration order and selects the first whose prefix starts
//! the URL. A hashed table would leave that scan order unspecified; here it
//! is pinned to registration order, so overlapping prefixes resolve
//! deterministically to the earliest-registered match.

use vstd::prelude::*;

use crate::request::spec_url;
use crate::request::Request;

verus! {

/// The index of the first entry at or after `i` whose prefix starts `url`,
/// or `routes.len()` if none does.
pub open spec fn first_match_from<H>(routes: Seq<(Seq<char>, H)>, url: Seq<char>, i: int) -> int
    recommends
        0 <= i <= routes.len(),
    decreases routes.len() - i,
{
    if i < 0 || i >= routes.len() {
        routes.len() as int
    } else if routes[i].0.is_prefix_of(url) {
        i
    } else {
        first_match_from(routes, url, i + 1)
    }
}

/// The index of the first entry at or after `i` whose prefix is exactly
/// `key`, or `routes.len()` if the key is not registered.
pub open spec fn find_route_from<H>(routes: Seq<(Seq<char>, H)>, key: Seq<char>, i: int) -> int
    recommends
        0 <= i <= routes.len(),
    decreases routes.len() - i,
{
    if i < 0 || i >= routes.len() {
        routes.len() as int
    } else if routes[i].0 == key {
        i
    } else {
        find_route_from(routes, key, i + 1)
    }
}

/// The index of the entry registered for `key`, or `routes.len()`.
pub open spec fn find_route<H>(routes: Seq<(Seq<char>, H)>, key: Seq<char>) -> int {
    find_route_from(routes, key, 0)
}

/// The index dispatch selects for `url`, or `routes.len()` when no prefix
/// matches and the not-found fallback answers instead.
pub open spec fn first_match<H>(routes: Seq<(Seq<char>, H)>, url: Seq<char>) -> int {
    first_match_from(routes, url, 0)
}

proof fn lemma_find_route_from<H>(routes: Seq<(Seq<char>, H)>, key: Seq<char>, i: int)
    requires
        0 <= i <= routes.len(),
    ensures
        ({
            let k = find_route_from(routes, key, i);
            &&& i <= k <= routes.len()
            &&& (k < routes.len() ==> routes[k].0 == key)
            &&& (forall|j: int| i <= j < k ==> routes[j].0 != key)
        }),
    decreases routes.len() - i,
{
    if i < routes.len() && routes[i].0 != key {
        lemma_find_route_from(routes, key, i + 1);
    }
}

proof fn lemma_first_match_from<H>(routes: Seq<(Seq<char>, H)>, url: Seq<char>, i: int)
    requires
        0 <= i <= routes.len(),
    ensures
        ({
            let k = first_match_from(routes, url, i);
            &&& i <= k <= routes.len()
            &&& (k < routes.len() ==> routes[k].0.is_prefix_of(url))
            &&& (forall|j: int| i <= j < k ==> !routes[j].0.is_prefix_of(url))
        }),
    decreases routes.len() - i,
{
    if i < routes.len() && !routes[i].0.is_prefix_of(url) {
        lemma_first_match_from(routes, url, i + 1);
    }
}

/// Law: for every table and URL, the index `first_match` selects is the
/// earliest entry whose prefix starts the URL — that entry matches, every
/// earlier entry does not — and when it equals the table's length, no
/// registered prefix starts the URL at all.
pub proof fn lemma_dispatch_picks_first_match<H>(routes: Seq<(Seq<char>, H)>, url: Seq<char>)
    ensures
        ({
            let k = first_match(routes, url);
            &&& 0 <= k <= routes.len()
            &&& (k < routes.len() ==> routes[k].0.is_prefix_of(url))
            &&& (forall|j: int| 0 <= j < k ==> !routes[j].0.is_prefix_of(url))
            &&& (k == routes.len() ==> forall|j: int|
                0 <= j < routes.len() ==> !routes[j].0.is_prefix_of(url))
        }),
{
    lemma_first_match_from(routes, url, 0);
}

/// Law: registering a route makes it visible to the next dispatch — after
/// `add_route` turns the table's contents `pre` into `post`, some entry of
/// `post` holds exactly the registered prefix and its handler, whether the
/// registration overwrote an existing entry or appended a new one.
pub proof fn lemma_added_route_is_visible<H>(
    pre: Seq<(Seq<char>, H)>,
    post: Seq<(Seq<char>, H)>,
    route: Seq<char>,
    handler: H,
)
    requires
        post == (if find_route(pre, route) < pre.len() {
            pre.update(find_route(pre, route), (route, handler))
        } else {
            pre.push((route, handler))
        }),
    ensures
        exists|i: int| 0 <= i < post.len() && post[i] == (route, handler),
{
    let k = find_route(pre, route);
    lemma_find_route_from(pre, route, 0);
    if k < pre.len() {
        assert(post[k] == (route, handler));
    } else {
        assert(post[pre.len() as int] == (route, handler));
    }
}

/// A mapping from route prefix to handler, scanned in registration order.
/// `H` is the handler representation; the table only stores and returns
/// handlers, it never calls them.
pub struct RouteTable<H> {
    entries: Vec<(String, H)>,
}

/// The mathematical contents of an entry list: each prefix as its
/// character sequence, beside its handler.
pub open spec fn routes_view<H>(entries: Seq<(String, H)>) -> Seq<(Seq<char>, H)> {
    entries.map_values(|e: (String, H)| (e.0@, e.1))
}

impl<H> View for RouteTable<H> {
    type V = Seq<(Seq<char>, H)>;

    closed spec fn view(&self) -> Seq<(Seq<char>, H)> {
        routes_view(self.entries@)
    }
}

impl<H> RouteTable<H> {
    /// Registered prefixes are pairwise distinct, so each route has one
    /// handler.
    #[verifier::type_invariant]
    closed spec fn wf(self) -> bool {
        forall|i: int, j: int| 0 <= i < j < self@.len() ==> self@[i].0 != self@[j].0
    }

    /// An empty table: every dispatch falls back to not-found.
    pub fn new() -> (r: Self)
        ensures
            r@ == Seq::<(Seq<char>, H)>::empty(),
    {
        let r = RouteTable { entries: Vec::new() };
        proof {
            assert(r@ =~= Seq::<(Seq<char>, H)>::empty());
        }
        r
    }

    /// Registers `handler` for `route`: overwrites the entry already
    /// holding that prefix, or appends a new one.
    pub fn add_route(&mut self, route: &str, handler: H)
        ensures
            ({
                let k = find_route(old(self)@, route@);
                if k < old(self)@.len() {
                    final(self)@ == old(self)@.update(k, (route@, handler))
                } else {
                    final(self)@ == old(self)@.push((route@, handler))
                }
            }),
    {
        proof {
            use_type_invariant(&*self);
            lemma_find_route_from(old(self)@, route@, 0);
        }
        let ghost orig = self@;
        let mut entries: Vec<(String, H)> = Vec::new();
        std::mem::swap(&mut entries, &mut self.entries);
        let key = route.to_owned();
        let idx = find_key_index(&entries, &key);
        if idx < entries.len() {
            entries.set(idx, (key, handler));
        } else {
            entries.push((key, handler));
        }
        proof {
            let k = find_route(orig, route@);
            if k < orig.len() {
                assert(routes_view(entries@) =~= orig.update(k, (route@, handler)));
                assert(forall|p: int| 0 <= p < orig.len() ==>
                    #[trigger] routes_view(entries@)[p].0 == orig[p].0);
            } else {
                assert(routes_view(entries@) =~= orig.push((route@, handler)));
                assert(forall|j: int| 0 <= j < orig.len() ==> orig[j].0 != route@);
            }
        }
        std::mem::swap(&mut entries, &mut self.entries);
    }

    /// The decision taken for one connection: selects the handler for the
    /// URL parsed out of the request's first line, and `None` when no
    /// registered prefix starts it, which a caller answers with the
    /// not-found fallback.
    pub fn dispatch_request<'a>(&'a self, request: &Request) -> (r: Option<&'a H>)
        ensures
            ({
                let k = first_match(self@, spec_url(request@));
                match r {
                    Some(h) => k < self@.len() && *h == self@[k].1,
                    None => k == self@.len(),
                }
            }),
    {
        self.dispatch(request.url())
    }

    /// Selects the handler for `url`: the one registered for the first
    /// prefix, in registration order, that starts the URL; `None` when no
    /// registered prefix does.
    pub fn dispatch(&self, url: &str) -> (r: Option<&H>)
        ensures
            ({
                let k = first_match(self@, url@);
                match r {
                    Some(h) => k < self@.len() && *h == self@[k].1,
                    None => k == self@.len(),
                }
            }),
    {
        let n = self.entries.len();
        let mut i: usize = 0;
        while i < n
            invariant
                i <= n,
                n == self.entries.len(),
                first_match(self@, url@) == first_match_from(self@, url@, i as int),
            decreases n - i,
        {
            proof {
                assert(self@[i as int] == (self.entries@[i as int].0@, self.entries@[i as int].1));
            }
            if str_has_prefix(url, self.entries[i].0.as_str()) {
                return Some(&self.entries[i].1);
            }
            i = i + 1;
        }
        None
    }
}

/// The position of the entry whose prefix equals `key`, or the length of
/// the list when `key` is not registered.
fn find_key_index<H>(entries: &Vec<(String, H)>, key: &String) -> (r: usize)
    ensures
        r as int == find_route(routes_view(entries@), key@),
        r <= entries@.len(),
{
    let n = entries.len();
    let mut i: usize = 0;
    while i < n
        invariant
            i <= n,
            n == entries.len(),
            find_route(routes_view(entries@), key@)
                == find_route_from(routes_view(entries@), key@, i as int),
        decreases n - i,
    {
        proof {
            assert(routes_view(entries@)[i as int].0 == entries@[i as int].0@);
        }
        if entries[i].0 == *key {
            return i;
        }
        i = i + 1;
    }
    i
}

/// Whether `p`'s characters start `s`: the route-matching test.
fn str_has_prefix(s: &str, p: &str) -> (r: bool)
    ensures
        r == p@.is_prefix_of(s@),
{
    let np = p.unicode_len();
    let ns = s.unicode_len();
    if np > ns {
        return false;
    }
    let mut i: usize = 0;
    while i < np
        invariant
            i <= np,
            np <= ns,
            np == p@.len(),
            ns == s@.len(),
            forall|j: int| 0 <= j < i ==> p@[j] == s@[j],
        decreases np - i,
    {
        if p.get_char(i) != s.get_char(i) {
            proof {
                if p@.is_prefix_of(s@) {
                    assert(p@[i as int] == s@.subrange(0, p@.len() as int)[i as int]);
                }
            }
            return false;
        }
        i = i + 1;
    }
    proof {
        assert(p@ =~= s@.subrange(0, p@.len() as int));
    }
    true
}

} // verus!
