//! The directed graph that holds the dependency structure, kept in
//! petgraph behind trusted wrappers. The graph's contents are named by two
//! uninterpreted functions: its node count (indices are dense, in insertion
//! order, with no removals) and its edge multiset over indices.

use vstd::prelude::*;

verus! {

use vstd::multiset::Multiset;
use petgraph::visit::EdgeRef;

#[verifier::external_type_specification]
#[verifier::external_body]
#[verifier::reject_recursive_types(N)]
#[verifier::reject_recursive_types(E)]
#[verifier::reject_recursive_types(Ty)]
#[verifier::reject_recursive_types(Ix)]
pub struct ExGraph<N, E, Ty, Ix>(petgraph::graph::Graph<N, E, Ty, Ix>);

#[verifier::external_type_specification]
#[verifier::external_body]
pub struct ExDirected(petgraph::Directed);

/// The number of nodes the graph holds; `add_node` hands out the indices
/// `0, 1, 2, …` in order and nothing removes one.
pub uninterp spec fn graph_node_count(g: petgraph::graph::Graph<(), (), petgraph::Directed, u32>) -> nat;

/// The edges the graph holds, as a multiset of (source, target) index pairs.
pub uninterp spec fn graph_edges(g: petgraph::graph::Graph<(), (), petgraph::Directed, u32>) -> Multiset<(usize, usize)>;

/// A topological order of `n` nodes under `edges`: every index once, and
/// every edge's source placed before its target.
pub open spec fn valid_topo(v: Seq<usize>, n: nat, edges: Multiset<(usize, usize)>) -> bool {
    &&& v.len() == n
    &&& (forall|i: int| 0 <= i < v.len() ==> (#[trigger] v[i]) < n)
    &&& (forall|i: int, j: int| 0 <= i < j < v.len() ==> v[i] != v[j])
    &&& (forall|i: int, j: int|
        0 <= i < v.len() && 0 <= j < v.len() && edges.count((v[j], v[i])) > 0 ==> j < i)
}

/// Relies on petgraph `Graph::new`: an empty directed graph.
#[verifier::external_body]
pub fn pg_new() -> (g: petgraph::graph::Graph<(), (), petgraph::Directed, u32>)
    ensures
        graph_node_count(g) == 0,
        graph_edges(g) == Multiset::<(usize, usize)>::empty(),
{
    petgraph::graph::Graph::new()
}

/// Relies on petgraph `Graph::edge_count`.
#[verifier::external_body]
pub fn pg_edge_count(g: &petgraph::graph::Graph<(), (), petgraph::Directed, u32>) -> (r: usize)
    ensures
        r == graph_edges(*g).len(),
{
    g.edge_count()
}

/// Relies on petgraph `Graph::add_node`: appends a node and returns its
/// index, which equals the old node count.
#[verifier::external_body]
pub fn pg_add_node(g: &mut petgraph::graph::Graph<(), (), petgraph::Directed, u32>) -> (idx: usize)
    requires
        graph_node_count(*old(g)) < 0xffff_ffff,
    ensures
        graph_node_count(*final(g)) == graph_node_count(*old(g)) + 1,
        graph_edges(*final(g)) == graph_edges(*old(g)),
        idx == graph_node_count(*old(g)),
{
    g.add_node(()).index()
}

/// Relies on petgraph `Graph::add_edge`: appends one (possibly parallel)
/// edge between existing nodes.
#[verifier::external_body]
pub fn pg_add_edge(
    g: &mut petgraph::graph::Graph<(), (), petgraph::Directed, u32>,
    a: usize,
    b: usize,
)
    requires
        a < graph_node_count(*old(g)),
        b < graph_node_count(*old(g)),
        graph_edges(*old(g)).len() < 0xffff_ffff,
    ensures
        graph_node_count(*final(g)) == graph_node_count(*old(g)),
        graph_edges(*final(g)) == graph_edges(*old(g)).insert((a, b)),
{
    g.add_edge(
        petgraph::graph::NodeIndex::new(a),
        petgraph::graph::NodeIndex::new(b),
        (),
    );
}

/// Relies on petgraph `Graph::edges_directed` with the incoming direction:
/// the sources of the edges into `idx`, each edge once.
#[verifier::external_body]
pub fn pg_incoming_sources(
    g: &petgraph::graph::Graph<(), (), petgraph::Directed, u32>,
    idx: usize,
) -> (r: Vec<usize>)
    ensures
        forall|a: usize| r@.to_multiset().count(a) == graph_edges(*g).count((a, idx)),
{
    g.edges_directed(petgraph::graph::NodeIndex::new(idx), petgraph::Direction::Incoming)
        .map(|e| e.source().index())
        .collect()
}

/// Relies on petgraph `algo::toposort`: succeeds exactly on acyclic graphs
/// (equivalently, when some topological order exists) and returns each node
/// before its successors.
#[verifier::external_body]
pub fn pg_toposort(g: &petgraph::graph::Graph<(), (), petgraph::Directed, u32>) -> (r: Result<
    Vec<usize>,
    (),
>)
    ensures
        match r {
            Ok(v) => valid_topo(v@, graph_node_count(*g), graph_edges(*g)),
            Err(_) => !(exists|v: Seq<usize>|
                valid_topo(v, graph_node_count(*g), graph_edges(*g))),
        },
{
    match petgraph::algo::toposort(&*g, None) {
        Ok(v) => Ok(v.into_iter().map(|i| i.index()).collect()),
        Err(_) => Err(()),
    }
}

} // verus!
