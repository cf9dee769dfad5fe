use vstd::prelude::*;

use crate::cfg_model::StationSpec;
use crate::rt_model::dag::{
    dag_add_edge, dag_add_node, dag_edge_count, dag_new, dag_parents, dag_parents_of, edge_total,
    is_acyclic, is_station_dag, is_walk, parents_in_bounds, reaches, StationGraph,
};
use crate::rt_model::StationRtId;

verus! {

/// Error returned when adding an edge would make the station graph cycle.
#[derive(Clone, Copy, Debug, PartialEq, Eq, Structural)]
pub struct WouldCycleError;

/// Prepending one parent to node `b` adds one edge.
proof fn lemma_edge_total_prepend(g: Seq<Seq<usize>>, b: int, a: usize)
    requires
        0 <= b < g.len(),
    ensures
        edge_total(g.update(b, seq![a] + g[b])) == edge_total(g) + 1,
    decreases g.len(),
{
    let h = g.update(b, seq![a] + g[b]);
    if b == g.len() - 1 {
        assert(h.drop_last() =~= g.drop_last());
    } else {
        lemma_edge_total_prepend(g.drop_last(), b, a);
        assert(h.drop_last() =~= g.drop_last().update(b, seq![a] + g.drop_last()[b]));
    }
}

/// A walk followed by an edge is a walk.
pub(crate) proof fn lemma_reaches_extend(g: Seq<Seq<usize>>, x: usize, y: usize, z: usize)
    requires
        reaches(g, x, y),
        (z as int) < g.len(),
        g[z as int].contains(y),
    ensures
        reaches(g, x, z),
{
    let path = choose|path: Seq<usize>| is_walk(g, path) && path[0] == x && path.last() == y;
    let longer = path.push(z);
    assert(longer[longer.len() - 2] == y);
    assert(longer[0] == x);
    assert(longer.last() == z);
    assert(is_walk(g, longer));
}

/// A node reaches itself.
pub(crate) proof fn lemma_reaches_self(g: Seq<Seq<usize>>, x: usize)
    requires
        (x as int) < g.len(),
    ensures
        reaches(g, x, x),
{
    let path = seq![x];
    assert(path[0] == x && path.last() == x);
    assert(is_walk(g, path));
}

/// Reaching is transitive.
pub(crate) proof fn lemma_reaches_trans(g: Seq<Seq<usize>>, x: usize, y: usize, z: usize)
    requires
        reaches(g, x, y),
        reaches(g, y, z),
    ensures
        reaches(g, x, z),
{
    let p = choose|p: Seq<usize>| is_walk(g, p) && p[0] == x && p.last() == y;
    let q = choose|q: Seq<usize>| is_walk(g, q) && q[0] == y && q.last() == z;
    let r = p + q.drop_first();
    assert forall|i: int| 0 <= i < r.len() - 1 implies g[r[i + 1] as int].contains(#[trigger] r[i]) by {
        if i < p.len() - 1 {
        } else if i == p.len() - 1 {
            assert(r[i] == q[0]);
            assert(r[i + 1] == q[1]);
        } else {
            assert(r[i] == q[i - p.len() + 1]);
            assert(r[i + 1] == q[i - p.len() + 2]);
        }
    }
    if q.len() == 1 {
        assert(r =~= p);
    } else {
        assert(r.last() == q.last());
    }
    assert(r[0] == x);
    assert(r.last() == z);
    assert(is_walk(g, r));
}

/// A walk after one more node without parents was added does not visit the
/// new node unless it starts there.
proof fn lemma_walk_after_push(g: Seq<Seq<usize>>, path: Seq<usize>)
    requires
        parents_in_bounds(g),
        is_walk(g.push(Seq::<usize>::empty()), path),
        path[0] != g.len(),
    ensures
        is_walk(g, path),
    decreases path.len(),
{
    let h = g.push(Seq::<usize>::empty());
    if path.len() > 1 {
        let front = path.drop_last();
        assert forall|i: int| 0 <= i < front.len() - 1 implies h[front[i + 1] as int].contains(
            #[trigger] front[i],
        ) by {
            assert(front[i] == path[i] && front[i + 1] == path[i + 1]);
        }
        lemma_walk_after_push(g, front);
        let last = path.last();
        let prev = path[path.len() - 2];
        assert(h[last as int].contains(prev));
        assert((last as int) != g.len());
        assert forall|i: int| 0 <= i < path.len() implies #[trigger] path[i] < g.len() by {
            if i < path.len() - 1 {
                assert(path[i] == front[i]);
            }
        }
    }
}

/// Adding a node without parents keeps a station graph acyclic.
proof fn lemma_push_keeps_dag(g: Seq<Seq<usize>>)
    requires
        is_station_dag(g),
        g.len() < usize::MAX,
    ensures
        is_station_dag(g.push(Seq::<usize>::empty())),
{
    let h = g.push(Seq::<usize>::empty());
    assert forall|k: int, j: int| 0 <= k < h.len() && 0 <= j < h[k].len() implies !reaches(
        h,
        k as usize,
        #[trigger] h[k][j],
    ) by {
        assert(k < g.len());
        assert(k <= usize::MAX);
        if reaches(h, k as usize, h[k][j]) {
            let path = choose|path: Seq<usize>|
                is_walk(h, path) && path[0] == k as usize && path.last() == h[k][j];
            lemma_walk_after_push(g, path);
            assert(reaches(g, k as usize, g[k][j]));
        }
    }
}

/// A walk after the edge `a -> b` was added either was a walk before, or
/// passes through the new edge.
proof fn lemma_walk_after_edge(g: Seq<Seq<usize>>, a: usize, b: usize, path: Seq<usize>)
    requires
        (a as int) < g.len(),
        (b as int) < g.len(),
        is_walk(g.update(b as int, seq![a] + g[b as int]), path),
    ensures
        reaches(g, path[0], path.last()) || (reaches(g, path[0], a) && reaches(g, b, path.last())),
    decreases path.len(),
{
    let h = g.update(b as int, seq![a] + g[b as int]);
    if path.len() == 1 {
        lemma_reaches_self(g, path[0]);
    } else {
        let front = path.drop_last();
        assert forall|i: int| 0 <= i < front.len() - 1 implies h[front[i + 1] as int].contains(
            #[trigger] front[i],
        ) by {
            assert(front[i] == path[i] && front[i + 1] == path[i + 1]);
        }
        lemma_walk_after_edge(g, a, b, front);
        let y = path[path.len() - 2];
        let z = path.last();
        assert(front.last() == y);
        assert(h[z as int].contains(y));
        lemma_reaches_self(g, b);
        if z == b && y == a {
            if reaches(g, path[0], y) {
            }
        } else {
            if z == b {
                let i = choose|i: int| 0 <= i < h[z as int].len() && h[z as int][i] == y;
                assert(i > 0);
                assert(g[z as int][i - 1] == y);
            }
            assert(g[z as int].contains(y));
            if reaches(g, path[0], y) {
                lemma_reaches_extend(g, path[0], y, z);
            } else {
                lemma_reaches_extend(g, b, y, z);
            }
        }
    }
}

/// Adding the edge `a -> b` where `b` does not reach `a` keeps a station
/// graph acyclic.
proof fn lemma_edge_keeps_dag(g: Seq<Seq<usize>>, a: usize, b: usize)
    requires
        is_station_dag(g),
        (a as int) < g.len(),
        (b as int) < g.len(),
        !reaches(g, b, a),
    ensures
        is_station_dag(g.update(b as int, seq![a] + g[b as int])),
{
    let h = g.update(b as int, seq![a] + g[b as int]);
    assert forall|k: int, j: int| 0 <= k < h.len() && 0 <= j < h[k].len() implies (#[trigger] h[k][j]
        as int) < h.len() by {
        if k == b as int && j > 0 {
            assert(h[k][j] == g[k][j - 1]);
        }
    }
    assert forall|k: int, j: int| 0 <= k < h.len() && 0 <= j < h[k].len() implies !reaches(
        h,
        k as usize,
        #[trigger] h[k][j],
    ) by {
        let p = h[k][j];
        assert(k <= usize::MAX);
        if reaches(h, k as usize, p) {
            let path = choose|path: Seq<usize>| is_walk(h, path) && path[0] == k as usize && path.last() == p;
            lemma_walk_after_edge(g, a, b, path);
            let new_edge = k == b as int && j == 0;
            if new_edge {
                assert(p == a);
                if reaches(g, k as usize, a) {
                } else {
                    lemma_reaches_trans(g, b, b, a);
                }
            } else {
                let jj = if k == b as int { j - 1 } else { j };
                assert(g[k][jj] == p);
                if reaches(g, k as usize, p) {
                    assert(!reaches(g, k as usize, g[k][jj]));
                } else {
                    // b reaches p, p is a parent of k, and k reaches a.
                    lemma_reaches_extend(g, b, p, k as usize);
                    lemma_reaches_trans(g, b, k as usize, a);
                }
            }
        }
    }
}

/// Directed acyclic graph of [`StationSpec`]s.
///
/// Station `i` of the graph is the `i`-th station that was added; its
/// runtime identifier is `i`.
#[derive(Debug)]
pub struct StationSpecs<C, V> {
    graph: StationGraph,
    specs: Vec<StationSpec<C, V>>,
}

/// Directed acyclic graph of [`StationSpec`]s.
pub type Stations<C, V> = StationSpecs<C, V>;

impl<C, V> StationSpecs<C, V> {
    /// The graph has one node per station spec.
    #[verifier::type_invariant]
    spec fn inv(self) -> bool {
        &&& dag_parents(self.graph).len() == self.specs@.len()
        &&& is_station_dag(dag_parents(self.graph))
    }

    /// The station specs, indexed by runtime identifier.
    pub closed spec fn specs(&self) -> Seq<StationSpec<C, V>> {
        self.specs@
    }

    /// The parents of each station, indexed by runtime identifier, in the
    /// order in which they are visited.
    pub closed spec fn parents(&self) -> Seq<Seq<usize>> {
        dag_parents(self.graph)
    }

    /// Returns an empty graph of station specs.
    pub fn new() -> (specs: Self)
        ensures
            specs.specs() == Seq::<StationSpec<C, V>>::empty(),
            specs.parents() == Seq::<Seq<usize>>::empty(),
            is_station_dag(specs.parents()),
    {
        StationSpecs { graph: dag_new(), specs: Vec::new() }
    }

    /// Returns the number of stations.
    pub fn node_count(&self) -> (n: usize)
        ensures
            n == self.specs().len(),
            n == self.parents().len(),
            is_station_dag(self.parents()),
    {
        proof {
            use_type_invariant(self);
        }
        self.specs.len()
    }

    /// Returns the number of edges.
    pub fn edge_count(&self) -> (n: usize)
        ensures
            n == edge_total(self.parents()),
    {
        dag_edge_count(&self.graph)
    }

    /// Adds a station spec and returns its runtime identifier, which is the
    /// number of stations before the call.
    pub fn add_node(&mut self, spec: StationSpec<C, V>) -> (rt_id: StationRtId)
        requires
            old(self).specs().len() < u32::MAX,
        ensures
            rt_id == old(self).specs().len(),
            final(self).specs() == old(self).specs().push(spec),
            final(self).parents() == old(self).parents().push(Seq::<usize>::empty()),
            is_station_dag(final(self).parents()),
    {
        proof {
            use_type_invariant(&*self);
        }
        let mut taken = StationSpecs::new();
        std::mem::swap(&mut taken, self);
        let StationSpecs { mut graph, mut specs } = taken;
        proof {
            lemma_push_keeps_dag(dag_parents(graph));
        }
        let rt_id = dag_add_node(&mut graph);
        specs.push(spec);
        *self = StationSpecs { graph, specs };
        rt_id
    }

    /// Adds the dependency edge `a -> b`: station `b` may only be visited
    /// after station `a`.
    ///
    /// Returns `Err(WouldCycleError)` and leaves the graph unchanged exactly when
    /// `b` already reaches `a` (including `a == b`); otherwise `a` becomes
    /// the first parent of `b`.
    pub fn add_edge(&mut self, a: StationRtId, b: StationRtId) -> (res: Result<(), WouldCycleError>)
        requires
            a < old(self).specs().len(),
            b < old(self).specs().len(),
            edge_total(old(self).parents()) < u32::MAX,
        ensures
            res is Err <==> reaches(old(self).parents(), b, a),
            res is Ok ==> final(self).parents() == old(self).parents().update(
                b as int,
                seq![a] + old(self).parents()[b as int],
            ),
            res is Ok ==> edge_total(final(self).parents()) == edge_total(old(self).parents()) + 1,
            res is Err ==> final(self).parents() == old(self).parents(),
            final(self).specs() == old(self).specs(),
            is_station_dag(final(self).parents()),
    {
        proof {
            use_type_invariant(&*self);
        }
        let mut taken = StationSpecs::new();
        std::mem::swap(&mut taken, self);
        let StationSpecs { mut graph, specs } = taken;
        let ghost before = dag_parents(graph);
        let added = dag_add_edge(&mut graph, a, b);
        proof {
            if added is Ok {
                lemma_edge_total_prepend(before, b as int, a);
                lemma_edge_keeps_dag(before, a, b);
            }
        }
        *self = StationSpecs { graph, specs };
        match added {
            Ok(()) => Ok(()),
            Err(_) => Err(WouldCycleError),
        }
    }

    /// Returns the parents of station `rt_id`, in the order in which they
    /// are visited (most recently added edge first).
    pub fn parents_of(&self, rt_id: StationRtId) -> (parents: Vec<StationRtId>)
        requires
            rt_id < self.parents().len(),
        ensures
            parents@ == self.parents()[rt_id as int],
    {
        proof {
            use_type_invariant(self);
        }
        dag_parents_of(&self.graph, rt_id)
    }

    /// Returns the station spec with runtime identifier `rt_id`, if any.
    pub fn get(&self, rt_id: StationRtId) -> (spec: Option<&StationSpec<C, V>>)
        ensures
            rt_id < self.specs().len() ==> spec == Some(&self.specs()[rt_id as int]),
            rt_id >= self.specs().len() ==> spec is None,
    {
        if rt_id < self.specs.len() {
            Some(&self.specs[rt_id])
        } else {
            None
        }
    }

    /// Returns each station spec with its runtime identifier, in order of
    /// the runtime identifiers.
    pub fn iter_with_indices(&self) -> (specs: Vec<(StationRtId, &StationSpec<C, V>)>)
        ensures
            specs@.len() == self.specs().len(),
            forall|i: int|
                0 <= i < specs@.len() ==> (#[trigger] specs@[i]).0 == i && *specs@[i].1
                    == self.specs()[i],
    {
        let mut specs: Vec<(StationRtId, &StationSpec<C, V>)> = Vec::new();
        let mut i: usize = 0;
        while i < self.specs.len()
            invariant
                i <= self.specs@.len(),
                specs@.len() == i,
                forall|a: int|
                    0 <= a < i ==> (#[trigger] specs@[a]).0 == a && *specs@[a].1 == self.specs()[a],
            decreases self.specs@.len() - i,
        {
            specs.push((i, &self.specs[i]));
            i += 1;
        }
        specs
    }

    /// Returns the station specs in order of their runtime identifiers.
    pub fn iter(&self) -> (specs: &[StationSpec<C, V>])
        ensures
            specs@ == self.specs(),
    {
        self.specs.as_slice()
    }
}

} // verus!
