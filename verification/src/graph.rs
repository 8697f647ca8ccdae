//! The dependency graph: a directed graph of nodes keyed by canonical path,
//! with recursive admission of dependency trees, topological ordering, and
//! the incoming-edge query the exporter uses to build each symlink farm.

use vstd::prelude::*;

verus! {

use vstd::multiset::Multiset;
use crate::errors::YarpError;

broadcast use vstd::multiset::group_multiset_axioms;

use crate::node::Node;
use crate::deps::Deps;
use crate::deps::spec_deps_found;
use crate::strmap::StrMap;
use crate::strutil::str_eq;
use crate::paths::spec_normalize;
use crate::paths::strs_view;
use crate::pgwrap::graph_node_count;
use crate::pgwrap::graph_edges;
use crate::pgwrap::valid_topo;
use crate::pgwrap::pg_new;
use crate::pgwrap::pg_add_node;
use crate::pgwrap::pg_add_edge;
use crate::pgwrap::pg_edge_count;
use crate::pgwrap::pg_incoming_sources;
use crate::pgwrap::pg_toposort;

/// Builds the nodes the graph admits during recursive resolution.
/// Implementations decide, per path, whether to build a node, skip the path
/// altogether, or fail; a built node carries the path in canonical form.
pub trait Factory: Sized {
    /// Which paths this factory refuses to admit; a factory that admits
    /// everything leaves this as it is.
    open spec fn skips(&self, path: Seq<char>) -> bool {
        false
    }

    /// A node for `path`, or nothing when the path is skipped.
    fn make(
        &self,
        path: &String,
        known_libs: &StrMap,
        extra_search_paths: &Vec<String>,
    ) -> (r: Result<Option<Node>, YarpError>)
        ensures
            r matches Ok(o) ==> ((o is None <==> self.skips(path@)) && (o matches Some(n)
                ==> n.path@ == spec_normalize(path@))),
    ;

    /// A node for a user-declared load-time library carrying extra symlink
    /// names.
    fn make_with_symlinks(
        &self,
        path: &String,
        symlinks: &Vec<String>,
        known_libs: &StrMap,
        extra_search_paths: &Vec<String>,
    ) -> (r: Result<Option<Node>, YarpError>)
        ensures
            r matches Ok(o) ==> ((o is None <==> self.skips(path@)) && (o matches Some(n)
                ==> n.path@ == spec_normalize(path@))),
    ;

    /// The node for the interpreter executable itself: it keeps the given
    /// path and is placed as the executable.
    fn make_py_executable(&self, path: &String) -> (r: Result<Node, YarpError>)
        ensures
            r matches Ok(n) ==> n.path@ == path@ && n.pkg is Executable,
    ;
}


/// Some node of the sequence carries the path `p`.
pub open spec fn spec_nodes_has(nodes: Seq<Node>, p: Seq<char>) -> bool {
    exists|i: int| 0 <= i < nodes.len() && (#[trigger] nodes[i].path@) == p
}

/// The index of the node carrying `p`; with distinct paths there is at most
/// one.
pub open spec fn spec_path_index(nodes: Seq<Node>, p: Seq<char>) -> int {
    choose|i: int| 0 <= i < nodes.len() && (#[trigger] nodes[i].path@) == p
}

/// Where `add_node` puts a node: the existing index of its path, or the
/// end.
pub open spec fn spec_admitted_index(nodes: Seq<Node>, n: Node) -> int {
    if spec_nodes_has(nodes, n.path@) {
        spec_path_index(nodes, n.path@)
    } else {
        nodes.len() as int
    }
}

/// The node store after admitting `n`: replaced in place, left alone, or
/// appended.
pub open spec fn spec_admitted_nodes(nodes: Seq<Node>, n: Node, replace: bool) -> Seq<Node> {
    if spec_nodes_has(nodes, n.path@) {
        if replace {
            nodes.update(spec_path_index(nodes, n.path@), n)
        } else {
            nodes
        }
    } else {
        nodes.push(n)
    }
}

/// The indices the present dependencies resolve to, in dependency order;
/// an absent (skipped) dependency contributes nothing.
pub open spec fn spec_dep_srcs(nodes: Seq<Node>, ds: Seq<Seq<char>>) -> Seq<usize>
    decreases ds.len(),
{
    if ds.len() == 0 {
        Seq::empty()
    } else {
        let pre = spec_dep_srcs(nodes, ds.drop_last());
        if spec_nodes_has(nodes, ds.last()) {
            pre.push(spec_path_index(nodes, ds.last()) as usize)
        } else {
            pre
        }
    }
}

/// One edge into `idx` per source, as a multiset.
pub open spec fn srcs_to_edges(srcs: Seq<usize>, idx: usize) -> Multiset<(usize, usize)>
    decreases srcs.len(),
{
    if srcs.len() == 0 {
        Multiset::empty()
    } else {
        srcs_to_edges(srcs.drop_last(), idx).insert((srcs.last(), idx))
    }
}

proof fn lemma_dep_srcs_len(nodes: Seq<Node>, ds: Seq<Seq<char>>)
    ensures
        spec_dep_srcs(nodes, ds).len() <= ds.len(),
    decreases ds.len(),
{
    if ds.len() > 0 {
        lemma_dep_srcs_len(nodes, ds.drop_last());
    }
}

proof fn lemma_srcs_to_edges_len(srcs: Seq<usize>, idx: usize)
    ensures
        srcs_to_edges(srcs, idx).len() == srcs.len(),
    decreases srcs.len(),
{
    if srcs.len() > 0 {
        lemma_srcs_to_edges_len(srcs.drop_last(), idx);
    }
}

/// One pending admission of `add_tree`: a node whose dependencies are being
/// settled before it is inserted.
struct Frame {
    node: Node,
    replace: bool,
    search: Vec<String>,
    deps: Vec<String>,
    next_dep: usize,
    parents: Vec<usize>,
}

/// The graph of files, keyed by canonical path.
pub struct FileGraph<T: Factory> {
    /// The edge structure; indices are positions in `nodes`.
    pub inner: petgraph::graph::Graph<(), (), petgraph::Directed, u32>,
    /// The nodes, in insertion order; position is graph index.
    pub nodes: Vec<Node>,
    /// The factory that builds nodes for discovered dependencies.
    pub factory: T,
}

impl<T: Factory> FileGraph<T> {
    /// The structure is consistent: the edge store has exactly one vertex
    /// per node, paths are unique, and every edge joins valid indices.
    pub open spec fn wf(&self) -> bool {
        &&& graph_node_count(self.inner) == self.nodes@.len()
        &&& (forall|i: int, j: int|
            0 <= i < j < self.nodes@.len() ==> (#[trigger] self.nodes@[i].path@) != (
            #[trigger] self.nodes@[j].path@))
        &&& (forall|e: (usize, usize)|
            #[trigger] graph_edges(self.inner).count(e) > 0 ==> e.0 < self.nodes@.len() && e.1
                < self.nodes@.len())
    }

    /// Some node carries the path `p`.
    pub open spec fn has_path(&self, p: Seq<char>) -> bool {
        exists|i: int| 0 <= i < self.nodes@.len() && (#[trigger] self.nodes@[i].path@) == p
    }

    /// The edges, as a multiset of (dependency index, dependent index).
    pub open spec fn edges(&self) -> Multiset<(usize, usize)> {
        graph_edges(self.inner)
    }

    /// A dependency path is settled when a node carries it (raw or
    /// canonicalized), or the factory skips it.
    pub open spec fn dep_settled(&self, d: Seq<char>) -> bool {
        self.has_path(d) || self.has_path(spec_normalize(d)) || self.factory.skips(d)
    }

    /// Settledness survives growth: whatever is settled stays settled when
    /// paths are only added and the factory is unchanged.
    pub proof fn lemma_settled_monotone(g1: FileGraph<T>, g2: FileGraph<T>, d: Seq<char>)
        requires
            forall|p: Seq<char>| g1.has_path(p) ==> g2.has_path(p),
            g1.factory == g2.factory,
            g1.dep_settled(d),
        ensures
            g2.dep_settled(d),
    {
    }

    /// Every dependency path is already a node, or is skipped by the
    /// factory: admission then builds no new node.
    pub open spec fn input_settled(&self, ds: Seq<Seq<char>>) -> bool {
        forall|j: int|
            0 <= j < ds.len() ==> self.has_path(#[trigger] ds[j]) || self.factory.skips(ds[j])
    }

    /// Every dependency path is already a node, as given.
    pub open spec fn all_present(&self, ds: Seq<Seq<char>>) -> bool {
        forall|j: int| 0 <= j < ds.len() ==> self.has_path(#[trigger] ds[j])
    }

    /// The dependency `d` of the node at `idx` is accounted for: skipped by
    /// the factory, or some node carries it (raw or canonicalized) with an
    /// edge from that node to `idx`.
    pub open spec fn dep_edge_settled(&self, d: Seq<char>, idx: usize) -> bool {
        self.factory.skips(d) || exists|a: usize|
            a < self.nodes@.len() && ((#[trigger] self.nodes@[a as int].path@) == d
                || self.nodes@[a as int].path@ == spec_normalize(d)) && self.edges().count(
                (a, idx),
            ) >= 1
    }

    /// The closure property: every dependency of every node in the graph is
    /// settled.
    pub open spec fn closed(&self) -> bool {
        forall|i: int, j: int|
            0 <= i < self.nodes@.len() && 0 <= j < spec_deps_found(
                &(#[trigger] self.nodes@[i]).deps,
            ).len() ==> self.dep_settled(#[trigger] spec_deps_found(&self.nodes@[i].deps)[j])
    }

    /// An empty graph around a factory.
    pub fn new(factory: T) -> (r: FileGraph<T>)
        ensures
            r.wf(),
            r.nodes@.len() == 0,
            r.edges() == Multiset::<(usize, usize)>::empty(),
            r.factory == factory,
            r.closed(),
    {
        FileGraph { inner: pg_new(), nodes: Vec::new(), factory }
    }

    /// How many nodes the graph holds.
    pub fn len(&self) -> (r: usize)
        ensures
            r == self.nodes@.len(),
    {
        self.nodes.len()
    }

    /// The nodes, in insertion order; the position of a node is its index.
    pub fn iter_nodes(&self) -> (r: &Vec<Node>)
        ensures
            r == &self.nodes,
    {
        &self.nodes
    }

    fn index_of_path(&self, p: &str) -> (r: Option<usize>)
        ensures
            match r {
                Some(i) => i < self.nodes@.len() && self.nodes@[i as int].path@ == p@,
                None => !self.has_path(p@),
            },
    {
        let mut i: usize = 0;
        while i < self.nodes.len()
            invariant
                i <= self.nodes@.len(),
                forall|j: int| 0 <= j < i ==> (#[trigger] self.nodes@[j].path@) != p@,
            decreases self.nodes@.len() - i,
        {
            if str_eq(self.nodes[i].path.as_str(), p) {
                return Some(i);
            }
            i = i + 1;
        }
        None
    }

    /// The node carrying `path`, if any.
    pub fn get_node_by_path(&self, path: &str) -> (r: Option<&Node>)
        ensures
            match r {
                Some(n) => self.has_path(path@) && n.path@ == path@ && (exists|i: int|
                    0 <= i < self.nodes@.len() && self.nodes@[i] == *n),
                None => !self.has_path(path@),
            },
    {
        match self.index_of_path(path) {
            Some(i) => Some(&self.nodes[i]),
            None => None,
        }
    }

    /// Inserts `node` if its path is new, returning its index; an existing
    /// path keeps its index and, with `replace`, has its stored node
    /// overwritten. No edges change.
    pub fn add_node(&mut self, node: Node, replace: bool) -> (idx: usize)
        requires
            old(self).wf(),
            old(self).nodes@.len() < 0xffff_ffff,
        ensures
            final(self).wf(),
            final(self).factory == old(self).factory,
            final(self).edges() == old(self).edges(),
            idx < final(self).nodes@.len(),
            final(self).nodes@[idx as int].path@ == node.path@,
            old(self).has_path(node.path@) ==> (idx < old(self).nodes@.len()
                && old(self).nodes@[idx as int].path@ == node.path@
                && final(self).nodes@ == (if replace {
                old(self).nodes@.update(idx as int, node)
            } else {
                old(self).nodes@
            })),
            !old(self).has_path(node.path@) ==> (idx == old(self).nodes@.len()
                && final(self).nodes@ == old(self).nodes@.push(node)),
    {
        match self.index_of_path(node.path.as_str()) {
            Some(i) => {
                if replace {
                    let ghost oldnodes = self.nodes@;
                    self.nodes[i] = node;
                    proof {
                        assert(self.nodes@ =~= oldnodes.update(i as int, node));
                    }
                }
                i
            },
            None => {
                let idx: usize = pg_add_node(&mut self.inner);
                self.nodes.push(node);
                idx
            },
        }
    }

    /// Admits `node` and, recursively, every dependency the factory builds
    /// for it: each dependency path is either already present, or a node is
    /// built and admitted for it first; an edge runs from each dependency
    /// to its dependent. Skipped dependencies are dropped. The closure
    /// property is preserved, and nothing already present is lost.
    #[verifier::rlimit(100)]
    pub fn add_tree(
        &mut self,
        node: Node,
        known_libs: &StrMap,
        replace: bool,
        search_paths: &Vec<String>,
    ) -> (r: Result<usize, YarpError>)
        requires
            old(self).wf(),
        ensures
            final(self).wf(),
            final(self).factory == old(self).factory,
            forall|p: Seq<char>| old(self).has_path(p) ==> final(self).has_path(p),
            old(self).closed() ==> final(self).closed(),
            old(self).nodes@.len() <= final(self).nodes@.len(),
            forall|i: int|
                0 <= i < old(self).nodes@.len() ==> (#[trigger] final(self).nodes@[i]).path@
                    == old(self).nodes@[i].path@,
            forall|e: (usize, usize)|
                old(self).edges().count(e) <= #[trigger] final(self).edges().count(e),
            r matches Ok(idx) ==> idx < final(self).nodes@.len()
                && final(self).nodes@[idx as int].path@ == node.path@,
            r matches Ok(idx) ==> forall|j: int|
                0 <= j < spec_deps_found(&node.deps).len() ==> final(self).dep_edge_settled(
                    #[trigger] spec_deps_found(&node.deps)[j],
                    idx,
                ),
            r matches Ok(idx) ==> (old(self).input_settled(spec_deps_found(&node.deps)) ==> (
            final(self).nodes@ == spec_admitted_nodes(old(self).nodes@, node, replace) && idx
                == spec_admitted_index(old(self).nodes@, node) && final(self).edges() == old(
                self,
            ).edges().add(
                srcs_to_edges(
                    spec_dep_srcs(old(self).nodes@, spec_deps_found(&node.deps)),
                    idx,
                ),
            ))),
            (old(self).all_present(spec_deps_found(&node.deps)) && old(self).nodes@.len()
                < 0xffff_fffe && old(self).edges().len() + spec_deps_found(&node.deps).len()
                < 0xffff_fffe) ==> r is Ok,
    {
        let ghost root_path = node.path@;
        let ghost root_node = node;
        let deps0: Vec<String> = match node.deps.find() {
            Ok(v) => v,
            Err(e) => {
                return Err(e);
            },
        };
        let mut search0: Vec<String> = search_paths.clone();
        let mut extra0: Vec<String> = node.deps.paths_to_add_for_next_search();
        search0.append(&mut extra0);
        let ghost node_deps = spec_deps_found(&node.deps);
        let mut stack: Vec<Frame> = Vec::new();
        stack.push(
            Frame { node, replace, search: search0, deps: deps0, next_dep: 0, parents: Vec::new() },
        );
        let mut fuel: usize = 0xffff_ffff;
        let ghost old_self = *old(self);
        let ghost sm = old_self.input_settled(node_deps);
        let ghost ap = old_self.all_present(node_deps) && old_self.nodes@.len() < 0xffff_fffe
            && old_self.edges().len() + node_deps.len() < 0xffff_fffe;
        proof {
            assert(node_deps.take(0) =~= Seq::<Seq<char>>::empty());
        }
        while stack.len() > 0
            invariant
                old_self == *old(self),
                root_path == node.path@,
                root_node == node,
                node_deps == spec_deps_found(&node.deps),
                sm == old_self.input_settled(node_deps),
                ap == (old_self.all_present(node_deps) && old_self.nodes@.len() < 0xffff_fffe
                    && old_self.edges().len() + node_deps.len() < 0xffff_fffe),
                ap ==> sm,
                self.wf(),
                self.factory == old_self.factory,
                forall|p: Seq<char>| old_self.has_path(p) ==> self.has_path(p),
                old_self.closed() ==> self.closed(),
                old_self.nodes@.len() <= self.nodes@.len(),
                forall|i: int|
                    0 <= i < old_self.nodes@.len() ==> (#[trigger] self.nodes@[i]).path@
                        == old_self.nodes@[i].path@,
                forall|e: (usize, usize)|
                    old_self.edges().count(e) <= #[trigger] self.edges().count(e),
                stack@.len() > 0 ==> stack@[0].node.path@ == root_path,
                stack@.len() > 0 ==> strs_view(stack@[0].deps@) == node_deps,
                forall|f: int|
                    0 <= f < stack@.len() ==> (#[trigger] stack@[f].next_dep)
                        <= stack@[f].deps@.len(),
                forall|f: int, j: int|
                    0 <= f < stack@.len() && 0 <= j < stack@[f].next_dep ==> self.dep_settled(
                        (#[trigger] stack@[f].deps@[j])@,
                    ),
                forall|f: int, k: int|
                    0 <= f < stack@.len() && 0 <= k < stack@[f].parents@.len() ==> (
                    #[trigger] stack@[f].parents@[k]) < self.nodes@.len(),
                forall|f: int, j: int|
                    0 <= f < stack@.len() && 0 <= j < stack@[f].next_dep
                        ==> self.factory.skips((#[trigger] stack@[f].deps@[j])@) || (exists|
                        k: int,
                    |
                        0 <= k < stack@[f].parents@.len() && (#[trigger] stack@[f].parents@[k])
                            < self.nodes@.len() && (self.nodes@[stack@[f].parents@[k] as int].path@
                            == stack@[f].deps@[j]@ || self.nodes@[stack@[f].parents@[k] as int].path@
                            == spec_normalize(stack@[f].deps@[j]@))),
                forall|f: int|
                    0 <= f < stack@.len() ==> strs_view((#[trigger] stack@[f]).deps@)
                        == spec_deps_found(&stack@[f].node.deps),
                forall|f: int|
                    1 <= f < stack@.len() ==> stack@[f - 1].next_dep < stack@[f - 1].deps@.len()
                        && (#[trigger] stack@[f]).node.path@ == spec_normalize(
                        stack@[f - 1].deps@[stack@[f - 1].next_dep as int]@,
                    ),
                sm ==> stack@.len() == 1,
                sm ==> *self == old_self,
                sm ==> stack@[0].node == root_node && stack@[0].replace == replace,
                sm ==> stack@[0].parents@ == spec_dep_srcs(
                    old_self.nodes@,
                    node_deps.take(stack@[0].next_dep as int),
                ),
                ap ==> fuel == 0xffff_ffff - stack@[0].next_dep,
            decreases fuel,
        {
            if fuel == 0 {
                proof {
                    if ap {
                        assert(node_deps.len() < 0xffff_fffe);
                        assert(stack@[0].next_dep <= node_deps.len());
                        assert(false);
                    }
                }
                return Err(YarpError::NoProgress(Vec::new()));
            }
            fuel = fuel - 1;
            let ghost stack0 = stack@;
            let mut top: Frame = match stack.pop() {
                Some(f) => f,
                None => {
                    proof {
                        assert(false);
                    }
                    return Err(YarpError::NoProgress(Vec::new()));
                },
            };
            if top.next_dep < top.deps.len() {
                let d: String = top.deps[top.next_dep].clone();
                let ghost nd = top.next_dep;
                match self.index_of_path(d.as_str()) {
                    Some(i) => {
                        let ghost old_parents = top.parents@;
                        top.parents.push(i);
                        top.next_dep = top.next_dep + 1;
                        stack.push(top);
                        proof {
                            assert forall|f: int, j: int|
                                0 <= f < stack@.len() && 0 <= j < stack@[f].next_dep
                                    implies self.factory.skips(
                                (#[trigger] stack@[f].deps@[j])@,
                            ) || (exists|k: int|
                                0 <= k < stack@[f].parents@.len() && (
                                #[trigger] stack@[f].parents@[k]) < self.nodes@.len() && (
                                self.nodes@[stack@[f].parents@[k] as int].path@
                                    == stack@[f].deps@[j]@
                                    || self.nodes@[stack@[f].parents@[k] as int].path@
                                    == spec_normalize(stack@[f].deps@[j]@))) by {
                                if f == stack@.len() - 1 {
                                    if j == nd {
                                        let k = stack@[f].parents@.len() - 1;
                                        assert(stack@[f].parents@[k] == i);
                                        assert(self.nodes@[i as int].path@ == d@);
                                        assert(stack@[f].deps@[j]@ == d@);
                                    } else {
                                        if !self.factory.skips(stack0.last().deps@[j]@) {
                                            let k = choose|k: int|
                                                0 <= k < old_parents.len() && (
                                                #[trigger] old_parents[k]) < self.nodes@.len()
                                                    && (self.nodes@[old_parents[k] as int].path@
                                                    == stack0.last().deps@[j]@
                                                    || self.nodes@[old_parents[k] as int].path@
                                                    == spec_normalize(
                                                    stack0.last().deps@[j]@,
                                                ));
                                            assert(stack@[f].parents@[k] == old_parents[k]);
                                        }
                                    }
                                } else {
                                    assert(stack@[f] == stack0[f]);
                                }
                            }
                            if sm {
                                assert(stack@[0].node == root_node);
                                assert(d@ == node_deps[nd as int]);
                                assert(spec_nodes_has(old_self.nodes@, d@));
                                assert(self.nodes@[i as int].path@ == d@);
                                let pi = spec_path_index(old_self.nodes@, d@);
                                assert(0 <= pi < old_self.nodes@.len()
                                    && old_self.nodes@[pi].path@ == d@);
                                assert(pi == i as int);
                                assert(node_deps.take(nd + 1).drop_last() =~= node_deps.take(
                                    nd as int,
                                ));
                                assert(node_deps.take(nd + 1).last() == node_deps[nd as int]);
                                assert(stack@[0].parents@ =~= spec_dep_srcs(
                                    old_self.nodes@,
                                    node_deps.take(nd + 1),
                                ));
                            }
                        }
                    },
                    None => {
                        proof {
                            if ap {
                                assert(d@ == node_deps[nd as int]);
                                assert(old_self.has_path(d@));
                                assert(self.has_path(d@));
                                assert(false);
                            }
                        }
                        match self.factory.make(&d, known_libs, &top.search) {
                            Err(e) => {
                                return Err(e);
                            },
                            Ok(None) => {
                                let ghost old_parents = top.parents@;
                                top.next_dep = top.next_dep + 1;
                                stack.push(top);
                                proof {
                                    assert forall|f: int, j: int|
                                        0 <= f < stack@.len() && 0 <= j < stack@[f].next_dep
                                            implies self.factory.skips(
                                        (#[trigger] stack@[f].deps@[j])@,
                                    ) || (exists|k: int|
                                        0 <= k < stack@[f].parents@.len() && (
                                        #[trigger] stack@[f].parents@[k]) < self.nodes@.len() && (
                                        self.nodes@[stack@[f].parents@[k] as int].path@
                                            == stack@[f].deps@[j]@
                                            || self.nodes@[stack@[f].parents@[k] as int].path@
                                            == spec_normalize(stack@[f].deps@[j]@))) by {
                                        if f == stack@.len() - 1 {
                                            if j == nd {
                                                assert(stack@[f].deps@[j]@ == d@);
                                                assert(self.factory.skips(d@));
                                            }
                                        } else {
                                            assert(stack@[f] == stack0[f]);
                                        }
                                    }
                                    if sm {
                                        assert(d@ == node_deps[nd as int]);
                                        assert(!self.has_path(d@));
                                        assert(!spec_nodes_has(old_self.nodes@, d@)) by {
                                            if spec_nodes_has(old_self.nodes@, d@) {
                                                assert(old_self.has_path(d@));
                                            }
                                        }
                                        assert(node_deps.take(nd + 1).drop_last()
                                            =~= node_deps.take(nd as int));
                                        assert(node_deps.take(nd + 1).last()
                                            == node_deps[nd as int]);
                                        assert(stack@[0].parents@ =~= spec_dep_srcs(
                                            old_self.nodes@,
                                            node_deps.take(nd + 1),
                                        ));
                                    }
                                }
                            },
                            Ok(Some(child)) => {
                                proof {
                                    if sm {
                                        assert(d@ == node_deps[nd as int]);
                                        assert(!self.has_path(d@));
                                        assert(!old_self.has_path(d@));
                                        assert(self.factory.skips(d@));
                                        assert(false);
                                    }
                                }
                                let cdeps: Vec<String> = match child.deps.find() {
                                    Ok(v) => v,
                                    Err(e) => {
                                        return Err(e);
                                    },
                                };
                                let mut csearch: Vec<String> = top.search.clone();
                                let mut cextra: Vec<String> =
                                    child.deps.paths_to_add_for_next_search();
                                csearch.append(&mut cextra);
                                stack.push(top);
                                stack.push(
                                    Frame {
                                        node: child,
                                        replace: false,
                                        search: csearch,
                                        deps: cdeps,
                                        next_dep: 0,
                                        parents: Vec::new(),
                                    },
                                );
                            },
                        }
                    },
                }
            } else {
                if self.nodes.len() >= 0xffff_fffe {
                    proof {
                        if ap {
                            assert(false);
                        }
                    }
                    return Err(YarpError::NoProgress(Vec::new()));
                }
                let ghost s1 = *self;
                let ghost tn = top.node;
                let idx: usize = self.add_node(top.node, top.replace);
                proof {
                    assert forall|p: Seq<char>| s1.has_path(p) implies self.has_path(p) by {
                        let i = choose|i: int|
                            0 <= i < s1.nodes@.len() && (#[trigger] s1.nodes@[i].path@) == p;
                        assert(self.nodes@[i].path@ == p);
                    }
                    assert forall|d: Seq<char>| s1.dep_settled(d) implies self.dep_settled(
                        d,
                    ) by {}
                    assert(forall|a: int|
                        0 <= a < s1.nodes@.len() ==> (#[trigger] self.nodes@[a]).path@
                            == s1.nodes@[a].path@);
                    if old_self.closed() {
                        assert(s1.closed());
                        assert forall|i: int, j: int|
                            0 <= i < self.nodes@.len() && 0 <= j < spec_deps_found(
                                &(#[trigger] self.nodes@[i]).deps,
                            ).len() implies self.dep_settled(
                            #[trigger] spec_deps_found(&self.nodes@[i].deps)[j],
                        ) by {
                            if i < s1.nodes@.len() && self.nodes@[i] == s1.nodes@[i] {
                                assert(s1.dep_settled(spec_deps_found(&s1.nodes@[i].deps)[j]));
                            } else {
                                assert(self.nodes@[i] == tn);
                                assert(spec_deps_found(&tn.deps)[j] == strs_view(top.deps@)[j]);
                                assert(s1.dep_settled(top.deps@[j]@));
                            }
                        }
                        assert(self.closed());
                    }
                    if sm {
                        assert(tn == root_node);
                        assert(node_deps.take(top.next_dep as int) =~= node_deps);
                        assert(spec_nodes_has(old_self.nodes@, root_path) == old_self.has_path(
                            root_path,
                        ));
                        if old_self.has_path(root_path) {
                            let pi = spec_path_index(old_self.nodes@, root_path);
                            assert(0 <= pi < old_self.nodes@.len() && old_self.nodes@[pi].path@
                                == root_path);
                            assert(pi == idx as int);
                        }
                        assert(self.nodes@ == spec_admitted_nodes(
                            old_self.nodes@,
                            root_node,
                            replace,
                        ));
                        assert(idx as int == spec_admitted_index(old_self.nodes@, root_node));
                    }
                }
                let ghost nodes2 = self.nodes@;
                let ghost parents_v = top.parents@;
                let mut k: usize = 0;
                proof {
                    assert(parents_v.take(0) =~= Seq::<usize>::empty());
                    if sm {
                        assert(node_deps.take(top.next_dep as int) =~= node_deps);
                        assert(parents_v == spec_dep_srcs(old_self.nodes@, node_deps));
                        lemma_dep_srcs_len(old_self.nodes@, node_deps);
                        assert(parents_v.len() <= node_deps.len());
                        assert(graph_edges(self.inner) =~= old_self.edges().add(
                            srcs_to_edges(parents_v.take(0), idx),
                        ));
                        assert(graph_edges(self.inner).len() == old_self.edges().len());
                    }
                }
                while k < top.parents.len()
                    invariant
                        old_self == *old(self),
                        node_deps == spec_deps_found(&node.deps),
                        sm == old_self.input_settled(node_deps),
                        ap == (old_self.all_present(node_deps) && old_self.nodes@.len()
                            < 0xffff_fffe && old_self.edges().len() + node_deps.len()
                            < 0xffff_fffe),
                        ap ==> sm,
                        self.wf(),
                        self.nodes@ == nodes2,
                        parents_v == top.parents@,
                        self.factory == old_self.factory,
                        forall|p: Seq<char>| old_self.has_path(p) ==> self.has_path(p),
                        old_self.closed() ==> self.closed(),
                        forall|i: int|
                            0 <= i < old_self.nodes@.len() ==> (#[trigger] self.nodes@[i]).path@
                                == old_self.nodes@[i].path@,
                        old_self.nodes@.len() <= self.nodes@.len(),
                        forall|e: (usize, usize)|
                            old_self.edges().count(e) <= #[trigger] self.edges().count(e),
                        idx < self.nodes@.len(),
                        forall|kk: int|
                            0 <= kk < top.parents@.len() ==> (#[trigger] top.parents@[kk])
                                < self.nodes@.len(),
                        k <= top.parents@.len(),
                        forall|kk: int|
                            0 <= kk < k ==> self.edges().count(
                                ((#[trigger] parents_v[kk]), idx),
                            ) >= 1,
                        sm ==> graph_edges(self.inner) == old_self.edges().add(
                            srcs_to_edges(parents_v.take(k as int), idx),
                        ),
                        ap ==> graph_edges(self.inner).len() <= old_self.edges().len() + k,
                        ap ==> parents_v.len() <= node_deps.len(),
                    decreases top.parents@.len() - k,
                {
                    if pg_edge_count(&self.inner) >= 0xffff_fffe {
                        proof {
                            if ap {
                                assert(k <= parents_v.len());
                                assert(parents_v.len() <= node_deps.len());
                                assert(graph_edges(self.inner).len() <= old_self.edges().len()
                                    + k);
                                assert(graph_edges(self.inner).len() <= old_self.edges().len()
                                    + node_deps.len());
                                assert(false);
                            }
                        }
                        return Err(YarpError::NoProgress(Vec::new()));
                    }
                    let ghost olde = graph_edges(self.inner);
                    proof {
                        assert forall|e: (usize, usize)|
                            old_self.edges().count(e) <= #[trigger] olde.count(e) by {
                            assert(olde.count(e) == self.edges().count(e));
                        }
                    }
                    pg_add_edge(&mut self.inner, top.parents[k], idx);
                    proof {
                        assert forall|e: (usize, usize)|
                            #[trigger] graph_edges(self.inner).count(e) > 0 implies e.0
                            < self.nodes@.len() && e.1 < self.nodes@.len() by {
                            if e != (top.parents@[k as int], idx) {
                                assert(olde.count(e) > 0);
                            }
                        }
                        assert forall|e: (usize, usize)|
                            old_self.edges().count(e) <= #[trigger] graph_edges(
                            self.inner,
                        ).count(e) by {
                            assert(graph_edges(self.inner).count(e) >= olde.count(e));
                        }
                        if ap {
                            assert(graph_edges(self.inner).len() == olde.len() + 1);
                        }
                        if sm {
                            assert(parents_v.take(k + 1).drop_last() =~= parents_v.take(
                                k as int,
                            ));
                            assert(parents_v.take(k + 1).last() == parents_v[k as int]);
                            assert(graph_edges(self.inner) =~= old_self.edges().add(
                                srcs_to_edges(parents_v.take(k + 1), idx),
                            ));
                        }
                    }
                    k = k + 1;
                }
                proof {
                    if sm {
                        assert(parents_v.take(parents_v.len() as int) =~= parents_v);
                    }
                }
                if stack.len() == 0 {
                    proof {
                        assert(top == stack0.last());
                        assert(stack0.len() == 1);
                        assert(tn.path@ == root_path);
                        assert(self.nodes@ == nodes2);
                        assert(idx < self.nodes@.len());
                        assert(self.nodes@[idx as int].path@ == tn.path@);
                        assert(self.nodes@[idx as int].path@ == node.path@);
                        assert(strs_view(top.deps@) == node_deps);
                        assert forall|j: int|
                            0 <= j < node_deps.len() implies self.dep_edge_settled(
                            #[trigger] node_deps[j],
                            idx,
                        ) by {
                            assert(top.deps@[j]@ == node_deps[j]);
                            if !self.factory.skips(node_deps[j]) {
                                let kk = choose|kk: int|
                                    0 <= kk < top.parents@.len() && (
                                    #[trigger] top.parents@[kk]) < self.nodes@.len() && (
                                    self.nodes@[top.parents@[kk] as int].path@ == top.deps@[j]@
                                        || self.nodes@[top.parents@[kk] as int].path@
                                        == spec_normalize(top.deps@[j]@));
                                let a = top.parents@[kk];
                                assert(self.edges().count((a, idx)) >= 1);
                            }
                        }
                    }
                    return Ok(idx);
                }
                proof {
                    if sm {
                        assert(stack0.len() == 1);
                        assert(stack@.len() == 0);
                        assert(false);
                    }
                }
                let mut parent: Frame = match stack.pop() {
                    Some(f) => f,
                    None => {
                        proof {
                            assert(false);
                        }
                        return Err(YarpError::NoProgress(Vec::new()));
                    },
                };
                proof {
                    assert(stack0.len() >= 2);
                    assert(top == stack0.last());
                    assert(parent == stack0[stack0.len() - 2]);
                    assert(stack0[stack0.len() - 2].next_dep < stack0[stack0.len()
                        - 2].deps@.len());
                    assert(tn.path@ == spec_normalize(
                        parent.deps@[parent.next_dep as int]@,
                    ));
                    assert(self.nodes@ == nodes2);
                    assert(self.nodes@[idx as int].path@ == tn.path@);
                    assert(self.has_path(spec_normalize(parent.deps@[parent.next_dep as int]@)));
                }
                let ghost pold = parent.parents@;
                let ghost pnd = parent.next_dep;
                parent.parents.push(idx);
                let pdlen: usize = parent.deps.len();
                proof {
                    assert(parent.next_dep < pdlen);
                }
                parent.next_dep = parent.next_dep + 1;
                stack.push(parent);
                proof {
                    assert forall|f: int, j: int|
                        0 <= f < stack@.len() && 0 <= j < stack@[f].next_dep
                            implies self.factory.skips((#[trigger] stack@[f].deps@[j])@) || (
                    exists|k: int|
                        0 <= k < stack@[f].parents@.len() && (#[trigger] stack@[f].parents@[k])
                            < self.nodes@.len() && (self.nodes@[stack@[f].parents@[k] as int].path@
                            == stack@[f].deps@[j]@
                            || self.nodes@[stack@[f].parents@[k] as int].path@ == spec_normalize(
                            stack@[f].deps@[j]@,
                        ))) by {
                        if f == stack@.len() - 1 {
                            if j == pnd {
                                let k = stack@[f].parents@.len() - 1;
                                assert(stack@[f].parents@[k] == idx);
                                assert(self.nodes@[idx as int].path@ == spec_normalize(
                                    stack@[f].deps@[j]@,
                                ));
                            } else {
                                if !self.factory.skips(stack0[f].deps@[j]@) {
                                    let k = choose|k: int|
                                        0 <= k < pold.len() && (#[trigger] pold[k])
                                            < s1.nodes@.len() && (s1.nodes@[pold[k] as int].path@
                                            == stack0[f].deps@[j]@
                                            || s1.nodes@[pold[k] as int].path@ == spec_normalize(
                                            stack0[f].deps@[j]@,
                                        ));
                                    assert(stack@[f].parents@[k] == pold[k]);
                                    assert(self.nodes@[pold[k] as int].path@
                                        == s1.nodes@[pold[k] as int].path@);
                                }
                            }
                        } else {
                            assert(stack@[f] == stack0[f]);
                            if !self.factory.skips(stack0[f].deps@[j]@) {
                                let k = choose|k: int|
                                    0 <= k < stack0[f].parents@.len() && (
                                    #[trigger] stack0[f].parents@[k]) < s1.nodes@.len() && (
                                    s1.nodes@[stack0[f].parents@[k] as int].path@
                                        == stack0[f].deps@[j]@
                                        || s1.nodes@[stack0[f].parents@[k] as int].path@
                                        == spec_normalize(stack0[f].deps@[j]@));
                                assert(self.nodes@[stack0[f].parents@[k] as int].path@
                                    == s1.nodes@[stack0[f].parents@[k] as int].path@);
                            }
                        }
                    }
                }
            }
        }
        proof {
            if sm {
                assert(false);
            }
        }
        Err(YarpError::NoProgress(Vec::new()))
    }

    /// A topological order of the whole graph: dependencies come before
    /// their dependents; it exists exactly when the graph is acyclic.
    pub fn toposort(&self) -> (r: Result<Vec<Node>, YarpError>)
        requires
            self.wf(),
        ensures
            match r {
                Ok(v) => exists|ord: Seq<usize>|
                    valid_topo(ord, self.nodes@.len() as nat, self.edges()) && v@.len()
                        == ord.len() && (forall|k: int|
                        0 <= k < v@.len() ==> (#[trigger] v@[k])@ == self.nodes@[ord[k] as int]@),
                Err(_) => !(exists|ord: Seq<usize>|
                    valid_topo(ord, self.nodes@.len() as nat, self.edges())),
            },
    {
        match pg_toposort(&self.inner) {
            Err(_) => Err(YarpError::Cycle),
            Ok(order) => {
                let ghost ord = order@;
                let mut out: Vec<Node> = Vec::new();
                let mut k: usize = 0;
                while k < order.len()
                    invariant
                        k <= order@.len(),
                        ord == order@,
                        valid_topo(ord, self.nodes@.len() as nat, self.edges()),
                        out@.len() == k,
                        forall|j: int| 0 <= j < k ==> (#[trigger] out@[j])@ == self.nodes@[ord[j] as int]@,
                    decreases order@.len() - k,
                {
                    let i: usize = order[k];
                    out.push(self.nodes[i].duplicate());
                    k = k + 1;
                }
                Ok(out)
            },
        }
    }

    /// The direct dependencies of `node`: the nodes at the sources of its
    /// incoming edges. Every edge source is reported, and nothing else.
    pub fn get_node_dependencies(&self, node: &Node) -> (r: Vec<Node>)
        requires
            self.wf(),
        ensures
            !self.has_path(node.path@) ==> r@.len() == 0,
            self.has_path(node.path@) ==> exists|i: int|
                0 <= i < self.nodes@.len() && (#[trigger] self.nodes@[i].path@) == node.path@ && (
                forall|k: int|
                    0 <= k < r@.len() ==> exists|a: usize|
                        a < self.nodes@.len() && ((#[trigger] r@[k])@ == self.nodes@[a as int]@)
                            && self.edges().count((a, i as usize)) > 0) && (forall|a: usize|
                    #[trigger] self.edges().count((a, i as usize)) > 0 ==> exists|k: int|
                        0 <= k < r@.len() && ((#[trigger] r@[k])@ == self.nodes@[a as int]@)),
    {
        let i: usize = match self.index_of_path(node.path.as_str()) {
            None => {
                return Vec::new();
            },
            Some(i) => i,
        };
        let srcs: Vec<usize> = pg_incoming_sources(&self.inner, i);
        proof {
            srcs@.to_multiset_ensures();
        }
        let mut out: Vec<Node> = Vec::new();
        let mut k: usize = 0;
        while k < srcs.len()
            invariant
                self.wf(),
                k <= srcs@.len(),
                i < self.nodes@.len(),
                self.nodes@[i as int].path@ == node.path@,
                forall|a: usize| srcs@.to_multiset().count(a) == self.edges().count((a, i)),
                forall|j: int|
                    0 <= j < srcs@.len() ==> srcs@.to_multiset().count(#[trigger] srcs@[j]) > 0,
                out@.len() == k,
                forall|j: int|
                    0 <= j < k ==> ((#[trigger] out@[j])@ == self.nodes@[srcs@[j] as int]@),
            decreases srcs@.len() - k,
        {
            let a: usize = srcs[k];
            proof {
                assert(srcs@.to_multiset().count(a) > 0);
                assert(self.edges().count((a, i)) > 0);
            }
            out.push(self.nodes[a].duplicate());
            k = k + 1;
        }
        proof {
            assert forall|a: usize| self.edges().count((a, i)) > 0 implies exists|k: int|
                0 <= k < out@.len() && ((#[trigger] out@[k])@ == self.nodes@[a as int]@) by {
                assert(srcs@.to_multiset().count(a) > 0);
                assert(srcs@.contains(a));
                let j = choose|j: int| 0 <= j < srcs@.len() && srcs@[j] == a;
                assert(out@[j]@ == self.nodes@[a as int]@);
            }
        }
        out
    }
}

} // verus!
