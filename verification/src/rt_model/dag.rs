//! The graph of stations is a `daggy::Dag`, held in [`StationGraph`]. Its
//! structure is described by the parents of each node, in the order in which
//! `daggy` walks them.

use daggy::{NodeIndex, Walker};
use vstd::prelude::*;

verus! {

/// The directed acyclic graph of stations: a `daggy::Dag` whose node `i`
/// stands for station `i`. Edges carry no weight.
#[verifier::external_body]
#[derive(Debug)]
pub struct StationGraph {
    dag: daggy::Dag<(), ()>,
}

#[verifier::external_type_specification]
#[verifier::external_body]
#[verifier::reject_recursive_types(E)]
pub struct ExWouldCycle<E>(daggy::WouldCycle<E>);

/// The parents of every node of `graph`: entry `i` lists the sources of the
/// edges that end at node `i`, most recently added edge first. Its length is
/// the number of nodes.
pub uninterp spec fn dag_parents(graph: StationGraph) -> Seq<Seq<usize>>;

/// The number of edges of a graph given by its parents lists.
pub open spec fn edge_total(g: Seq<Seq<usize>>) -> nat
    decreases g.len(),
{
    if g.len() == 0 {
        0
    } else {
        edge_total(g.drop_last()) + g.last().len()
    }
}

/// Whether `path` is a walk along the edges of `g`: each node is a parent of
/// the next one.
pub open spec fn is_walk(g: Seq<Seq<usize>>, path: Seq<usize>) -> bool {
    &&& path.len() >= 1
    &&& forall|i: int| 0 <= i < path.len() ==> #[trigger] path[i] < g.len()
    &&& forall|i: int| 0 <= i < path.len() - 1 ==> g[path[i + 1] as int].contains(#[trigger] path[i])
}

/// Whether node `to` can be reached from node `from` by following edges of
/// `g` (a node reaches itself).
pub open spec fn reaches(g: Seq<Seq<usize>>, from: usize, to: usize) -> bool {
    exists|path: Seq<usize>| is_walk(g, path) && path[0] == from && path.last() == to
}

/// Whether every parent index of `g` names a node of `g`.
pub open spec fn parents_in_bounds(g: Seq<Seq<usize>>) -> bool {
    forall|k: int, j: int| 0 <= k < g.len() && 0 <= j < g[k].len() ==> (#[trigger] g[k][j] as int) < g.len()
}

/// Whether `g` has no cycle: no node reaches any of its parents.
pub open spec fn is_acyclic(g: Seq<Seq<usize>>) -> bool {
    forall|k: int, j: int|
        0 <= k < g.len() && 0 <= j < g[k].len() ==> !reaches(g, k as usize, #[trigger] g[k][j])
}

/// Whether `g` is the structure of a station graph: acyclic, with parent
/// indices that name nodes, and no more nodes than `usize` can count.
pub open spec fn is_station_dag(g: Seq<Seq<usize>>) -> bool {
    g.len() <= usize::MAX && parents_in_bounds(g) && is_acyclic(g)
}

/// Calls `daggy::Dag::new`: the new graph has no nodes.
#[verifier::external_body]
pub(crate) fn dag_new() -> (graph: StationGraph)
    ensures
        dag_parents(graph) == Seq::<Seq<usize>>::empty(),
{
    StationGraph { dag: daggy::Dag::new() }
}

/// Calls `daggy::Dag::edge_count`: the number of edges.
#[verifier::external_body]
pub(crate) fn dag_edge_count(graph: &StationGraph) -> (n: usize)
    ensures
        n == edge_total(dag_parents(*graph)),
{
    graph.dag.edge_count()
}

/// Calls `daggy::Dag::add_node`: the new node gets the next index and has no
/// parents. `daggy` panics once the `u32` node indices are used up, so the
/// call requires room for one more.
#[verifier::external_body]
pub(crate) fn dag_add_node(graph: &mut StationGraph) -> (idx: usize)
    requires
        dag_parents(*old(graph)).len() < u32::MAX,
    ensures
        idx == dag_parents(*old(graph)).len(),
        dag_parents(*final(graph)) == dag_parents(*old(graph)).push(Seq::<usize>::empty()),
{
    graph.dag.add_node(()).index()
}

/// Calls `daggy::Dag::add_edge` for the edge `a -> b`.
///
/// The edge is refused (`WouldCycle`) exactly when `b` already reaches `a`,
/// which includes `a == b`; the graph is then unchanged. Otherwise `a` becomes
/// the first parent of `b` (`petgraph` lists the most recent edge first).
/// Apart from `a == b`, `daggy` checks for a path only when `a` has parents,
/// `b` has children and the edge is new; on an acyclic graph, which `daggy` maintains, no path
/// from `b` to `a` exists in the other cases, so the refusal is stated for
/// acyclic graphs. `daggy` panics on nodes that do not exist and once the
/// `u32` edge indices are used up, so the call requires both nodes and room
/// for one more edge.
#[verifier::external_body]
pub(crate) fn dag_add_edge(graph: &mut StationGraph, a: usize, b: usize) -> (res: Result<
    (),
    daggy::WouldCycle<()>,
>)
    requires
        is_station_dag(dag_parents(*old(graph))),
        a < dag_parents(*old(graph)).len(),
        b < dag_parents(*old(graph)).len(),
        edge_total(dag_parents(*old(graph))) < u32::MAX,
    ensures
        res is Err <==> reaches(dag_parents(*old(graph)), b, a),
        res is Ok ==> dag_parents(*final(graph)) == dag_parents(*old(graph)).update(
            b as int,
            seq![a] + dag_parents(*old(graph))[b as int],
        ),
        res is Err ==> dag_parents(*final(graph)) == dag_parents(*old(graph)),
{
    match graph.dag.add_edge(NodeIndex::new(a), NodeIndex::new(b), ()) {
        Ok(_) => Ok(()),
        Err(e) => Err(e),
    }
}

/// Calls `daggy::Dag::parents` and walks it: the parents of node `b`, in the
/// order of the walk.
#[verifier::external_body]
pub(crate) fn dag_parents_of(graph: &StationGraph, b: usize) -> (parents: Vec<usize>)
    requires
        b < dag_parents(*graph).len(),
    ensures
        parents@ == dag_parents(*graph)[b as int],
{
    graph.dag.parents(NodeIndex::new(b)).iter(&graph.dag).map(|(_, n)| n.index()).collect()
}

} // verus!
