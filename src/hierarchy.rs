//! The directed "is-parent-of" graph handed to petgraph for a topological
//! sort, and what the library relies on of petgraph for it.
use petgraph::algo::Cycle;
use petgraph::graph::{Graph, NodeIndex};
use petgraph::Directed;
use vstd::prelude::*;

verus! {

/// petgraph's adjacency-list graph, opaque here: what it holds is named by
/// `graph_node_count` and `graph_edges`.
#[verifier::external_type_specification]
#[verifier::external_body]
#[verifier::reject_recursive_types(N)]
#[verifier::reject_recursive_types(E)]
#[verifier::reject_recursive_types(Ty)]
#[verifier::reject_recursive_types(Ix)]
pub struct ExGraph<N, E, Ty, Ix>(Graph<N, E, Ty, Ix>);

/// petgraph's marker for directed edges.
#[verifier::external_type_specification]
#[verifier::external_body]
pub struct ExDirected(Directed);

/// petgraph's node index.
#[verifier::external_type_specification]
#[verifier::external_body]
#[verifier::reject_recursive_types(Ix)]
pub struct ExNodeIndex<Ix>(NodeIndex<Ix>);

/// The error petgraph's topological sort returns on a cyclic graph.
#[verifier::external_type_specification]
#[verifier::external_body]
#[verifier::reject_recursive_types(N)]
pub struct ExCycle<N>(Cycle<N>);

/// A directed graph without weights, indexed by `usize` so that no index
/// bound applies.
pub type DiGraph = Graph<(), (), Directed, usize>;

/// How many nodes the graph holds; they are numbered from zero.
pub uninterp spec fn graph_node_count(g: DiGraph) -> nat;

/// The graph's edges as (source, target) pairs, in the order they were added.
pub uninterp spec fn graph_edges(g: DiGraph) -> Seq<(nat, nat)>;

/// `s` lists every node of a graph with `n` nodes exactly once, and the
/// source of each edge comes before its target.
pub open spec fn is_graph_topo_order(s: Seq<nat>, n: nat, edges: Seq<(nat, nat)>) -> bool {
    &&& s.len() == n
    &&& s.no_duplicates()
    &&& forall|i: int| 0 <= i < s.len() ==> #[trigger] s[i] < n
    &&& forall|h: nat| h < n ==> #[trigger] s.contains(h)
    &&& forall|k: int, i: int, j: int|
        #![trigger edges[k], s[i], s[j]]
        0 <= k < edges.len() && 0 <= i < s.len() && 0 <= j < s.len() && s[i] == edges[k].0
            && s[j] == edges[k].1 ==> i < j
}

/// Relies on petgraph's `Graph::with_capacity`: the new graph has no nodes
/// and no edges.
#[verifier::external_body]
pub fn graph_with_capacity(nodes: usize, edges: usize) -> (g: DiGraph)
    ensures
        graph_node_count(g) == 0,
        graph_edges(g) == Seq::<(nat, nat)>::empty(),
{
    Graph::with_capacity(nodes, edges)
}

/// Relies on petgraph's `Graph::add_node`: the node gets the next index and
/// no edge changes. With `usize` indices it has no capacity check.
#[verifier::external_body]
pub fn graph_add_node(g: &mut DiGraph) -> (r: usize)
    ensures
        r == graph_node_count(*old(g)),
        graph_node_count(*final(g)) == graph_node_count(*old(g)) + 1,
        graph_edges(*final(g)) == graph_edges(*old(g)),
{
    g.add_node(()).index()
}

/// Relies on petgraph's `Graph::add_edge`: the edge is appended to the edge
/// list; it panics unless both ends are nodes of the graph.
#[verifier::external_body]
pub fn graph_add_edge(g: &mut DiGraph, a: usize, b: usize)
    requires
        a < graph_node_count(*old(g)),
        b < graph_node_count(*old(g)),
    ensures
        graph_node_count(*final(g)) == graph_node_count(*old(g)),
        graph_edges(*final(g)) == graph_edges(*old(g)).push((a as nat, b as nat)),
{
    g.add_edge(NodeIndex::new(a), NodeIndex::new(b), ());
}

/// Relies on petgraph's `algo::toposort`: on an acyclic graph it returns
/// every node in an order where each node comes before its successors;
/// otherwise (self loops included) it returns a `Cycle`. An acyclic graph is
/// exactly one that has such an order.
#[verifier::external_body]
pub fn graph_toposort(g: &DiGraph) -> (r: Result<Vec<usize>, Cycle<NodeIndex<usize>>>)
    ensures
        r is Ok <==> exists|s: Seq<nat>|
            is_graph_topo_order(s, graph_node_count(*g), graph_edges(*g)),
        r is Ok ==> is_graph_topo_order(
            r->Ok_0@.map_values(|x: usize| x as nat),
            graph_node_count(*g),
            graph_edges(*g),
        ),
{
    petgraph::algo::toposort(g, None).map(|v| v.into_iter().map(|n| n.index()).collect())
}

} // verus!
