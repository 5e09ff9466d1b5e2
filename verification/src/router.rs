//! The routing tree and its resolution algorithm. A `Router` maps one path
//! segment to either a handler leaf or a nested `Router`; resolving a path
//! consumes one segment per level and succeeds as soon as a segment hits a
//! leaf, even when unconsumed segments remain (greedy first-prefix match,
//! kept deliberately). The handler payload type `H` is chosen by the caller:
//! the dispatcher never looks inside a handler, it only routes to one.

use vstd::prelude::*;

use crate::path::{seg_views, spec_segments, split_path, str_eq};
use crate::status::Status;

verus! {

/// A handler leaf. A `Static` handler is invoked in-line on the dispatching
/// task; a `Dynamic` handler is launched as an independent concurrently
/// scheduled unit of work whose outcome the dispatcher never observes.
/// The payload stands for the callable, which the surrounding program wires
/// to each leaf.
pub enum Service<H> {
    Static(H),
    Dynamic(H),
}

/// A node of the routing tree: a handler leaf or a nested router.
pub enum Storable<H> {
    Svc(Service<H>),
    Router(Router<H>),
}

/// One `key -> node` binding at a tree level.
struct RouteEntry<H> {
    key: String,
    node: Storable<H>,
}

/// A routing tree level: a table from path segment to node. Re-registering
/// a key overwrites the previous binding; insertion order never affects
/// resolution.
pub struct Router<H> {
    table: Vec<RouteEntry<H>>,
}

/// The mapping a table holds, newest binding first: an entry shadows any
/// older entry with the same key.
spec fn table_view<H>(entries: Seq<RouteEntry<H>>) -> Map<Seq<char>, Storable<H>>
    decreases entries.len(),
{
    if entries.len() == 0 {
        Map::empty()
    } else {
        table_view(entries.skip(1)).insert(entries[0].key@, entries[0].node)
    }
}

impl<H> View for Router<H> {
    type V = Map<Seq<char>, Storable<H>>;

    closed spec fn view(&self) -> Map<Seq<char>, Storable<H>> {
        table_view(self.table@)
    }
}

/// Resolve a segment sequence against a router: consume one segment per
/// level; fail when no segment is left or the next segment is unbound; stop
/// with the handler as soon as a segment hits a leaf, whatever segments
/// remain.
pub open spec fn spec_resolve<H>(r: Router<H>, segs: Seq<Seq<char>>) -> Option<Service<H>>
    decreases segs.len(),
{
    if segs.len() == 0 {
        None
    } else if !r@.contains_key(segs[0]) {
        None
    } else {
        match r@[segs[0]] {
            Storable::Svc(s) => Some(s),
            Storable::Router(sub) => spec_resolve(sub, segs.skip(1)),
        }
    }
}

impl<H> Router<H> {
    /// An empty routing tree.
    pub fn new() -> (r: Self)
        ensures
            r@ == Map::<Seq<char>, Storable<H>>::empty(),
    {
        Router { table: Vec::new() }
    }

    /// Register a handler leaf under `key` at this level, overwriting any
    /// previous binding; returns the router for builder chaining.
    pub fn route(self, key: String, svc: Service<H>) -> (r: Self)
        ensures
            r@ == self@.insert(key@, Storable::Svc(svc)),
    {
        self.route_node(key, Storable::Svc(svc))
    }

    /// Register a nested router under `key` at this level, overwriting any
    /// previous binding; returns the router for builder chaining.
    pub fn route_router(self, key: String, sub: Router<H>) -> (r: Self)
        ensures
            r@ == self@.insert(key@, Storable::Router(sub)),
    {
        self.route_node(key, Storable::Router(sub))
    }

    /// Bind `node` under `key` at this level. The newest binding stands in
    /// front of the table, shadowing an older one with the same key.
    fn route_node(self, key: String, node: Storable<H>) -> (r: Self)
        ensures
            r@ == self@.insert(key@, node),
    {
        let ghost old_entries = self.table@;
        let ghost gkey = key@;
        let ghost gnode = node;
        let mut table = self.table;
        table.insert(0, RouteEntry { key, node });
        proof {
            assert(table@.skip(1) =~= old_entries);
            assert(table_view(table@) =~= table_view(old_entries).insert(gkey, gnode));
        }
        Router { table }
    }

    /// Look up one segment in this level's table.
    fn lookup<'a>(&'a self, key: &String) -> (r: Option<&'a Storable<H>>)
        ensures
            match r {
                Some(node) => self@.contains_key(key@) && *node == self@[key@],
                None => !self@.contains_key(key@),
            },
    {
        let ghost k = key@;
        proof {
            assert(self.table@.skip(0) =~= self.table@);
        }
        let mut j: usize = 0;
        while j < self.table.len()
            invariant
                j <= self.table@.len(),
                k == key@,
                self@.contains_key(k) == table_view(self.table@.skip(j as int)).contains_key(k),
                self@.contains_key(k) ==> self@[k] == table_view(
                    self.table@.skip(j as int),
                )[k],
            decreases self.table@.len() - j,
        {
            proof {
                assert(self.table@.skip(j as int).skip(1) =~= self.table@.skip(j as int + 1));
                assert(self.table@.skip(j as int)[0] == self.table@[j as int]);
                assert(table_view(self.table@.skip(j as int)) == table_view(
                    self.table@.skip(j as int + 1),
                ).insert(self.table@[j as int].key@, self.table@[j as int].node));
            }
            let entry = &self.table[j];
            if str_eq(entry.key.as_str(), key.as_str()) {
                return Some(&entry.node);
            }
            j += 1;
        }
        proof {
            assert(self.table@.skip(self.table@.len() as int) =~= Seq::<RouteEntry<H>>::empty());
        }
        None
    }

    /// Resolve an already-split path against this router.
    pub fn resolve_segments<'a>(&'a self, segs: &Vec<String>) -> (r: Option<&'a Service<H>>)
        ensures
            match r {
                Some(s) => spec_resolve(*self, seg_views(segs@)) == Some(*s),
                None => spec_resolve(*self, seg_views(segs@)) is None,
            },
    {
        let ghost gsegs = seg_views(segs@);
        proof {
            assert(gsegs.skip(0) =~= gsegs);
        }
        let mut cur: &Router<H> = self;
        let mut i: usize = 0;
        while i < segs.len()
            invariant
                i <= segs@.len(),
                gsegs == seg_views(segs@),
                gsegs.len() == segs@.len(),
                spec_resolve(*self, gsegs) == spec_resolve(*cur, gsegs.skip(i as int)),
            decreases segs@.len() - i,
        {
            proof {
                assert(gsegs.skip(i as int)[0] == gsegs[i as int]);
            }
            match cur.lookup(&segs[i]) {
                None => {
                    return None;
                },
                Some(node) => match node {
                    Storable::Svc(s) => {
                        return Some(s);
                    },
                    Storable::Router(sub) => {
                        proof {
                            assert(gsegs.skip(i as int).skip(1) =~= gsegs.skip(i as int + 1));
                        }
                        cur = sub;
                        i += 1;
                    },
                },
            }
        }
        proof {
            assert(gsegs.skip(i as int).len() == 0);
        }
        None
    }

    /// Resolve a requested path string: split it into segments, then walk
    /// the tree.
    pub fn resolve_path<'a>(&'a self, path: &str) -> (r: Option<&'a Service<H>>)
        ensures
            match r {
                Some(s) => spec_resolve(*self, spec_segments(path@)) == Some(*s),
                None => spec_resolve(*self, spec_segments(path@)) is None,
            },
    {
        let segs = split_path(path);
        self.resolve_segments(&segs)
    }

    /// The per-connection dispatch decision: for a path announced by the
    /// peer, the status to reply with and the matched handler. The reply is
    /// `Found` exactly when a handler was matched; the caller sends the
    /// reply over the channel and, on `Found`, hands the channel to the
    /// handler.
    pub fn dispatch<'a>(&'a self, path: &str) -> (r: (Status, Option<&'a Service<H>>))
        ensures
            r.0 is Found <==> r.1 is Some,
            match r.1 {
                Some(s) => spec_resolve(*self, spec_segments(path@)) == Some(*s),
                None => spec_resolve(*self, spec_segments(path@)) is None,
            },
    {
        match self.resolve_path(path) {
            Some(s) => (Status::Found, Some(s)),
            None => (Status::NotFound, None),
        }
    }
}

impl<H> Default for Router<H> {
    /// An empty routing tree, as `new` gives.
    fn default() -> (r: Self)
        ensures
            r@ == Map::<Seq<char>, Storable<H>>::empty(),
    {
        Router::new()
    }
}

/// For every router, a key bound to a handler leaf resolves as the exact
/// single-segment path made of that key, yielding that handler.
pub proof fn lemma_resolve_single_key<H>(r: Router<H>, k: Seq<char>, s: Service<H>)
    requires
        r@.contains_key(k),
        r@[k] == Storable::Svc(s),
    ensures
        spec_resolve(r, seq![k]) == Some(s),
{
}

/// A path whose first segment has no binding at the top level resolves to
/// nothing, whatever segments remain.
pub proof fn lemma_resolve_unregistered<H>(r: Router<H>, segs: Seq<Seq<char>>)
    requires
        segs.len() > 0,
        !r@.contains_key(segs[0]),
    ensures
        spec_resolve(r, segs) is None,
{
}

/// Nested registration: a sub-router bound under `a` whose own table binds
/// `b` to a handler makes the path `a / b` resolve to that handler, while
/// the path `a` alone resolves to nothing: there is no handler at that
/// exact node.
pub proof fn lemma_resolve_nested<H>(
    r: Router<H>,
    a: Seq<char>,
    b: Seq<char>,
    sub: Router<H>,
    s: Service<H>,
)
    requires
        r@.contains_key(a),
        r@[a] == Storable::Router(sub),
        sub@.contains_key(b),
        sub@[b] == Storable::Svc(s),
    ensures
        spec_resolve(r, seq![a, b]) == Some(s),
        spec_resolve(r, seq![a]) is None,
{
    assert(seq![a, b].skip(1) =~= seq![b]);
    assert(seq![a].skip(1) =~= Seq::<Seq<char>>::empty());
    assert(spec_resolve(sub, seq![b]) == Some(s));
    assert(spec_resolve(sub, Seq::<Seq<char>>::empty()) is None);
}

/// Greedy match: a key bound to a handler leaf matches any path that
/// starts with it, trailing segments and all, exactly as it matches the
/// single-segment path alone.
pub proof fn lemma_resolve_greedy<H>(
    r: Router<H>,
    k: Seq<char>,
    s: Service<H>,
    rest: Seq<Seq<char>>,
)
    requires
        r@.contains_key(k),
        r@[k] == Storable::Svc(s),
    ensures
        spec_resolve(r, seq![k] + rest) == Some(s),
        spec_resolve(r, seq![k] + rest) == spec_resolve(r, seq![k]),
{
    assert((seq![k] + rest)[0] == k);
}

/// Registrations do not interfere: binding one key changes the resolution
/// of no path that starts with a different key. With
/// `lemma_resolve_single_key`, registering distinct keys therefore gives
/// each key its own handler, with no cross-talk.
pub proof fn lemma_route_independent<H>(
    r: Router<H>,
    r2: Router<H>,
    k: Seq<char>,
    node: Storable<H>,
    segs: Seq<Seq<char>>,
)
    requires
        r2@ == r@.insert(k, node),
        segs.len() > 0,
        segs[0] != k,
    ensures
        spec_resolve(r2, segs) == spec_resolve(r, segs),
{
}

} // verus!
