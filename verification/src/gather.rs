//! The gather orchestrator: seeds the graph with the interpreter and the
//! declared loads, admits the prescribed file trees, and retries failed
//! paths until a fixed point — once every binary of the distribution is in
//! the graph, the known-libs index resolves the references that failed the
//! first time. Monotone progress guarantees termination.

use vstd::prelude::*;

verus! {

use crate::errors::YarpError;
use crate::graph::FileGraph;
use crate::graph::Factory;
use crate::factory::NodeFactory;
use crate::host::Host;
use crate::manifest::YarpManifest;
use crate::manifest::Load;
use crate::manifest::LoadKind;
use crate::manifest::Skip;
use crate::node::Node;
use crate::paths::spec_basename;
use crate::paths::spec_path_starts_with;
use crate::paths::basename;
use crate::paths::path_starts_with;
use crate::strmap::StrMap;
use crate::strutil::str_eq;
use crate::site_pkgs::SitePkgs;
use crate::site_pkgs::comps::PythonPathComponent;

/// The known-libs entry a node contributes: its file name and its path.
pub fn get_lib_from_node(node: &Node) -> (r: Result<(String, String), YarpError>)
    ensures
        match r {
            Ok(p) => spec_basename(node.path@) == Some(p.0@) && p.1@ == node.path@,
            Err(_) => spec_basename(node.path@) is None,
        },
{
    match basename(node.path.as_str()) {
        Some(name) => Ok((name, node.path.clone())),
        None => Err(YarpError::NoFileName(node.path.clone())),
    }
}

/// The index a set of nodes induces: every node binds its file name to its
/// path, later nodes shadowing earlier ones. Defined only over nodes that
/// all have a file name.
pub open spec fn spec_scanned_libs(nodes: Seq<Node>) -> Map<Seq<char>, Seq<char>>
    decreases nodes.len(),
{
    if nodes.len() == 0 {
        Map::empty()
    } else {
        spec_scanned_libs(nodes.drop_last()).insert(
            spec_basename(nodes.last().path@)->Some_0,
            nodes.last().path@,
        )
    }
}

/// The known-libs index of a set of nodes: file name to canonical path,
/// later nodes shadowing earlier ones; an error exactly when some node has
/// no usable file name.
pub fn get_libs_scanned_in_nodes(nodes: &Vec<Node>) -> (r: Result<StrMap, YarpError>)
    ensures
        match r {
            Ok(m) => (forall|i: int|
                0 <= i < nodes@.len() ==> spec_basename((#[trigger] nodes@[i]).path@) is Some)
                && m@ == spec_scanned_libs(nodes@),
            Err(_) => exists|i: int|
                0 <= i < nodes@.len() && spec_basename((#[trigger] nodes@[i]).path@) is None,
        },
{
    let mut out: StrMap = StrMap::new();
    let mut i: usize = 0;
    proof {
        assert(nodes@.take(0) =~= Seq::<Node>::empty());
        assert(out@ =~= spec_scanned_libs(nodes@.take(0)));
    }
    while i < nodes.len()
        invariant
            i <= nodes@.len(),
            forall|j: int|
                0 <= j < i ==> spec_basename((#[trigger] nodes@[j]).path@) is Some,
            out@ == spec_scanned_libs(nodes@.take(i as int)),
        decreases nodes@.len() - i,
    {
        proof {
            assert(nodes@.take(i + 1).drop_last() =~= nodes@.take(i as int));
            assert(nodes@.take(i + 1).last() == nodes@[i as int]);
        }
        let (name, path) = match get_lib_from_node(&nodes[i]) {
            Ok(p) => p,
            Err(e) => {
                return Err(e);
            },
        };
        out.insert(name, path);
        i = i + 1;
    }
    proof {
        assert(nodes@.take(nodes@.len() as int) =~= nodes@);
    }
    Ok(out)
}

/// The index a graph's binary nodes induce: file name to canonical path,
/// later nodes shadowing earlier ones; a node without a file name, or a
/// plain node, contributes nothing.
pub open spec fn spec_known_libs(nodes: Seq<Node>) -> Map<Seq<char>, Seq<char>>
    decreases nodes.len(),
{
    if nodes.len() == 0 {
        Map::empty()
    } else {
        let pre = spec_known_libs(nodes.drop_last());
        if nodes.last().deps is Binary && spec_basename(nodes.last().path@) is Some {
            pre.insert(spec_basename(nodes.last().path@)->Some_0, nodes.last().path@)
        } else {
            pre
        }
    }
}

/// The known-libs index of a graph: every binary node registers its file
/// name; a node without one is passed over.
pub fn get_libs_from_graph<T: Factory>(g: &FileGraph<T>) -> (r: StrMap)
    ensures
        r@ == spec_known_libs(g.nodes@),
{
    let mut out: StrMap = StrMap::new();
    let nodes: &Vec<Node> = g.iter_nodes();
    let mut i: usize = 0;
    proof {
        assert(nodes@.take(0) =~= Seq::<Node>::empty());
        assert(out@ =~= spec_known_libs(nodes@.take(0)));
    }
    while i < nodes.len()
        invariant
            i <= nodes@.len(),
            nodes == &g.nodes,
            out@ == spec_known_libs(nodes@.take(i as int)),
        decreases nodes@.len() - i,
    {
        proof {
            assert(nodes@.take(i + 1).drop_last() =~= nodes@.take(i as int));
            assert(nodes@.take(i + 1).last() == nodes@[i as int]);
        }
        if nodes[i].deps.is_shared_library() {
            match basename(nodes[i].path.as_str()) {
                Some(name) => {
                    out.insert(name, nodes[i].path.clone());
                },
                None => {},
            }
        }
        i = i + 1;
    }
    proof {
        assert(nodes@.take(nodes@.len() as int) =~= nodes@);
    }
    out
}

/// Whether a path lies under one of the manifest's skip prefixes.
pub fn should_skip(path: &str, skip: &Skip) -> (r: bool)
    ensures
        r == exists|i: int|
            0 <= i < skip.prefixes@.len() && spec_path_starts_with(
                path@,
                (#[trigger] skip.prefixes@[i])@,
            ),
{
    let mut i: usize = 0;
    while i < skip.prefixes.len()
        invariant
            i <= skip.prefixes@.len(),
            forall|k: int|
                0 <= k < i ==> !spec_path_starts_with(path@, (#[trigger] skip.prefixes@[k])@),
        decreases skip.prefixes@.len() - i,
    {
        if path_starts_with(path, skip.prefixes[i].as_str()) {
            return true;
        }
        i = i + 1;
    }
    false
}

fn add_to_graph_if_some<T: Factory>(
    g: &mut FileGraph<T>,
    maybe_node: Option<Node>,
    known_libs: &StrMap,
    replace: bool,
    extra_search_paths: &Vec<String>,
) -> (r: Result<(), YarpError>)
    requires
        old(g).wf(),
    ensures
        final(g).wf(),
        final(g).factory == old(g).factory,
        forall|p: Seq<char>| old(g).has_path(p) ==> final(g).has_path(p),
        old(g).closed() ==> final(g).closed(),
        maybe_node matches Some(n) ==> (r is Ok ==> final(g).has_path(n.path@)),
{
    match maybe_node {
        Some(node) => {
            let ghost np = node.path@;
            match g.add_tree(node, known_libs, replace, extra_search_paths) {
                Ok(idx) => {
                    proof {
                        assert(g.nodes@[idx as int].path@ == np);
                        assert(g.has_path(np));
                    }
                    Ok(())
                },
                Err(e) => Err(e),
            }
        },
        None => Ok(()),
    }
}

/// Admits every file of a walked directory tree: afterwards each path is
/// settled — skipped by the factory, present (raw or canonicalized), or
/// recorded in `failures` for the retry pass. Entries already in
/// `failures` are kept.
fn add_nodes_recursive<T: Factory>(
    g: &mut FileGraph<T>,
    failures: &mut Vec<String>,
    paths: &Vec<String>,
    known_libs: &StrMap,
    replace: bool,
    extra_search_paths: &Vec<String>,
) -> (r: Result<(), YarpError>)
    requires
        old(g).wf(),
    ensures
        final(g).wf(),
        final(g).factory == old(g).factory,
        forall|p: Seq<char>| old(g).has_path(p) ==> final(g).has_path(p),
        old(g).closed() ==> final(g).closed(),
        old(failures)@.len() <= final(failures)@.len(),
        forall|k: int|
            0 <= k < old(failures)@.len() ==> final(failures)@[k] == old(failures)@[k],
        r is Ok ==> forall|j: int|
            0 <= j < paths@.len() ==> final(g).dep_settled((#[trigger] paths@[j])@) || (exists|
                k: int,
            |
                0 <= k < final(failures)@.len() && (#[trigger] final(failures)@[k])@
                    == paths@[j]@),
{
    let mut i: usize = 0;
    while i < paths.len()
        invariant
            i <= paths@.len(),
            g.wf(),
            g.factory == old(g).factory,
            forall|p: Seq<char>| old(g).has_path(p) ==> g.has_path(p),
            old(g).closed() ==> g.closed(),
            old(failures)@.len() <= failures@.len(),
            forall|k: int|
                0 <= k < old(failures)@.len() ==> failures@[k] == old(failures)@[k],
            forall|j: int|
                0 <= j < i ==> g.dep_settled((#[trigger] paths@[j])@) || (exists|k: int|
                    0 <= k < failures@.len() && (#[trigger] failures@[k])@ == paths@[j]@),
        decreases paths@.len() - i,
    {
        let ghost g0 = *g;
        let ghost fails0 = failures@;
        if !replace && g.get_node_by_path(paths[i].as_str()).is_some() {
            proof {
                assert(g.dep_settled(paths@[i as int]@));
            }
            i = i + 1;
            continue ;
        }
        let made: Result<Option<Node>, YarpError> = g.factory.make(
            &paths[i],
            known_libs,
            extra_search_paths,
        );
        let res: Result<(), YarpError> = match made {
            Ok(n) => add_to_graph_if_some(g, n, known_libs, replace, extra_search_paths),
            Err(e) => Err(e),
        };
        if res.is_err() {
            if g.get_node_by_path(paths[i].as_str()).is_none() {
                failures.push(paths[i].clone());
                proof {
                    assert(failures@[failures@.len() - 1]@ == paths@[i as int]@);
                }
            } else {
                proof {
                    assert(g.dep_settled(paths@[i as int]@));
                }
            }
        } else {
            proof {
                assert(g.dep_settled(paths@[i as int]@));
            }
        }
        proof {
            assert(fails0.len() <= failures@.len());
            assert(forall|k: int| 0 <= k < fails0.len() ==> failures@[k] == fails0[k]);
            assert forall|j: int| 0 <= j < i implies g.dep_settled((#[trigger] paths@[j])@) || (
            exists|k: int|
                0 <= k < failures@.len() && (#[trigger] failures@[k])@ == paths@[j]@) by {
                if g0.dep_settled(paths@[j]@) {
                    FileGraph::<T>::lemma_settled_monotone(g0, *g, paths@[j]@);
                } else {
                    let k = choose|k: int|
                        0 <= k < fails0.len() && (#[trigger] fails0[k])@ == paths@[j]@;
                    assert(failures@[k]@ == paths@[j]@);
                }
            }
        }
        i = i + 1;
    }
    Ok(())
}

/// Retries the failed paths until every one is admitted: each pass rebuilds
/// the known-libs index from the graph, so names that were unresolvable
/// become resolvable once their libraries are nodes; a pass that makes no
/// progress aborts with the remaining paths. On success every given path is
/// settled: skipped, or present raw or canonicalized.
fn add_failures<T: Factory>(
    g: &mut FileGraph<T>,
    failures: Vec<String>,
    extra_search_paths: &Vec<String>,
) -> (r: Result<(), YarpError>)
    requires
        old(g).wf(),
    ensures
        final(g).wf(),
        final(g).factory == old(g).factory,
        forall|p: Seq<char>| old(g).has_path(p) ==> final(g).has_path(p),
        old(g).closed() ==> final(g).closed(),
        r is Ok ==> forall|j: int|
            0 <= j < failures@.len() ==> final(g).dep_settled((#[trigger] failures@[j])@),
{
    let ghost f0 = failures@;
    let mut prev: Vec<String> = failures;
    while prev.len() > 0
        invariant
            g.wf(),
            g.factory == old(g).factory,
            forall|p: Seq<char>| old(g).has_path(p) ==> g.has_path(p),
            old(g).closed() ==> g.closed(),
            forall|j: int|
                0 <= j < f0.len() ==> g.dep_settled((#[trigger] f0[j])@) || (exists|k: int|
                    0 <= k < prev@.len() && (#[trigger] prev@[k])@ == f0[j]@),
        decreases prev@.len(),
    {
        let known_libs: StrMap = get_libs_from_graph(g);
        let mut fresh: Vec<String> = Vec::new();
        let mut i: usize = 0;
        while i < prev.len()
            invariant
                i <= prev@.len(),
                fresh@.len() <= i,
                g.wf(),
                g.factory == old(g).factory,
                forall|p: Seq<char>| old(g).has_path(p) ==> g.has_path(p),
                old(g).closed() ==> g.closed(),
                forall|j: int|
                    0 <= j < f0.len() ==> g.dep_settled((#[trigger] f0[j])@) || (exists|k: int|
                        0 <= k < prev@.len() && (#[trigger] prev@[k])@ == f0[j]@),
                forall|j: int|
                    0 <= j < i ==> g.dep_settled((#[trigger] prev@[j])@) || (exists|k: int|
                        0 <= k < fresh@.len() && (#[trigger] fresh@[k])@ == prev@[j]@),
            decreases prev@.len() - i,
        {
            let ghost g0 = *g;
            let ghost fresh0 = fresh@;
            let made: Result<Option<Node>, YarpError> = g.factory.make(
                &prev[i],
                &known_libs,
                extra_search_paths,
            );
            let res: Result<(), YarpError> = match made {
                Ok(n) => add_to_graph_if_some(g, n, &known_libs, false, extra_search_paths),
                Err(e) => Err(e),
            };
            if res.is_err() {
                fresh.push(prev[i].clone());
                proof {
                    assert(fresh@[fresh@.len() - 1]@ == prev@[i as int]@);
                }
            } else {
                proof {
                    assert(g.dep_settled(prev@[i as int]@));
                }
            }
            proof {
                assert(fresh0.len() <= fresh@.len());
                assert(forall|k: int| 0 <= k < fresh0.len() ==> fresh@[k] == fresh0[k]);
                assert forall|j: int|
                    0 <= j < f0.len() implies g.dep_settled((#[trigger] f0[j])@) || (exists|
                    k: int,
                |
                    0 <= k < prev@.len() && (#[trigger] prev@[k])@ == f0[j]@) by {
                    if g0.dep_settled(f0[j]@) {
                        FileGraph::<T>::lemma_settled_monotone(g0, *g, f0[j]@);
                    }
                }
                assert forall|j: int|
                    0 <= j < i implies g.dep_settled((#[trigger] prev@[j])@) || (exists|k: int|
                    0 <= k < fresh@.len() && (#[trigger] fresh@[k])@ == prev@[j]@) by {
                    if g0.dep_settled(prev@[j]@) {
                        FileGraph::<T>::lemma_settled_monotone(g0, *g, prev@[j]@);
                    } else {
                        let k = choose|k: int|
                            0 <= k < fresh0.len() && (#[trigger] fresh0[k])@ == prev@[j]@;
                        assert(fresh@[k]@ == prev@[j]@);
                    }
                }
            }
            i = i + 1;
        }
        if fresh.len() >= prev.len() {
            return Err(YarpError::NoProgress(fresh));
        }
        proof {
            assert forall|j: int|
                0 <= j < f0.len() implies g.dep_settled((#[trigger] f0[j])@) || (exists|k: int|
                0 <= k < fresh@.len() && (#[trigger] fresh@[k])@ == f0[j]@) by {
                if !g.dep_settled(f0[j]@) {
                    let k = choose|k: int|
                        0 <= k < prev@.len() && (#[trigger] prev@[k])@ == f0[j]@;
                    assert(g.dep_settled(prev@[k]@) || (exists|k2: int|
                        0 <= k2 < fresh@.len() && (#[trigger] fresh@[k2])@ == prev@[k]@));
                }
            }
        }
        prev = fresh;
    }
    Ok(())
}

/// Builds the whole graph: the interpreter first (its embedded rpaths are
/// the search context of everything after it), then the declared loads,
/// then the prescribed file trees, then the retry pass. On success the
/// graph is well formed and closed: every dependency of every node is a
/// node or is skipped.
pub fn build_graph<T: Factory>(
    factory: T,
    executable_path: &String,
    loads: &Vec<Load>,
    lib_dynload_files: &Vec<String>,
    stdlib_files: &Vec<String>,
    site_files: &Vec<Vec<String>>,
) -> (r: Result<FileGraph<T>, YarpError>)
    ensures
        r matches Ok(g) ==> g.wf() && g.closed() && g.has_path(executable_path@) && (forall|
            i: int,
        |
            0 <= i < loads@.len() ==> g.dep_settled((#[trigger] loads@[i]).path@)) && (forall|
            j: int,
        |
            0 <= j < lib_dynload_files@.len() ==> g.dep_settled(
                (#[trigger] lib_dynload_files@[j])@,
            )) && (forall|j: int|
            0 <= j < stdlib_files@.len() ==> g.dep_settled((#[trigger] stdlib_files@[j])@)) && (
        forall|s: int, j: int|
            0 <= s < site_files@.len() && 0 <= j < site_files@[s]@.len() ==> g.dep_settled(
                (#[trigger] site_files@[s]@[j])@,
            )),
{
    let mut g: FileGraph<T> = FileGraph::new(factory);
    let exe_node: Node = match g.factory.make_py_executable(executable_path) {
        Ok(n) => n,
        Err(e) => {
            return Err(e);
        },
    };
    let empty_known: StrMap = StrMap::new();
    let no_paths: Vec<String> = Vec::new();
    let ghost exe_path = executable_path@;
    match g.add_tree(exe_node, &empty_known, true, &no_paths) {
        Ok(idx) => {
            proof {
                assert(g.nodes@[idx as int].path@ == exe_path);
                assert(g.has_path(exe_path));
            }
        },
        Err(e) => {
            return Err(e);
        },
    }
    let extra: Vec<String> = match g.get_node_by_path(executable_path.as_str()) {
        Some(n) => n.deps.paths_to_add_for_next_search(),
        None => {
            // The executable was inserted just above, so its path is in the
            // graph; this arm cannot be reached.
            proof {
                assert(false);
            }
            return Err(YarpError::MissingFile(executable_path.clone()));
        },
    };
    let mut i: usize = 0;
    while i < loads.len()
        invariant
            i <= loads@.len(),
            g.wf(),
            g.closed(),
            g.has_path(exe_path),
            forall|i2: int| 0 <= i2 < i ==> g.dep_settled((#[trigger] loads@[i2]).path@),
        decreases loads@.len() - i,
    {
        let ghost g0 = g;
        let l: &Load = &loads[i];
        let made: Result<Option<Node>, YarpError> = match l.kind {
            LoadKind::Dlopen => g.factory.make_with_symlinks(
                &l.path,
                &l.symlinks,
                &empty_known,
                &extra,
            ),
            LoadKind::Extension => g.factory.make(&l.path, &empty_known, &extra),
        };
        match made {
            Err(e) => {
                return Err(e);
            },
            Ok(n) => {
                match add_to_graph_if_some(&mut g, n, &empty_known, true, &extra) {
                    Ok(_) => {},
                    Err(e) => {
                        return Err(e);
                    },
                }
            },
        }
        proof {
            assert(g.dep_settled(loads@[i as int].path@));
            assert forall|i2: int|
                0 <= i2 < i implies g.dep_settled((#[trigger] loads@[i2]).path@) by {
                FileGraph::<T>::lemma_settled_monotone(g0, g, loads@[i2].path@);
            }
        }
        i = i + 1;
    }
    let mut failures: Vec<String> = Vec::new();
    let ghost g_a = g;
    match add_nodes_recursive(&mut g, &mut failures, lib_dynload_files, &empty_known, true, &extra) {
        Ok(_) => {},
        Err(e) => {
            return Err(e);
        },
    }
    proof {
        assert forall|i2: int|
            0 <= i2 < loads@.len() implies g.dep_settled((#[trigger] loads@[i2]).path@) by {
            FileGraph::<T>::lemma_settled_monotone(g_a, g, loads@[i2].path@);
        }
    }
    let ghost g_b = g;
    let ghost fails_b = failures@;
    match add_nodes_recursive(&mut g, &mut failures, stdlib_files, &empty_known, true, &extra) {
        Ok(_) => {},
        Err(e) => {
            return Err(e);
        },
    }
    proof {
        assert forall|i2: int|
            0 <= i2 < loads@.len() implies g.dep_settled((#[trigger] loads@[i2]).path@) by {
            FileGraph::<T>::lemma_settled_monotone(g_b, g, loads@[i2].path@);
        }
        assert forall|j: int|
            0 <= j < lib_dynload_files@.len() implies g.dep_settled(
            (#[trigger] lib_dynload_files@[j])@,
        ) || (exists|k: int|
            0 <= k < failures@.len() && (#[trigger] failures@[k])@
                == lib_dynload_files@[j]@) by {
            if g_b.dep_settled(lib_dynload_files@[j]@) {
                FileGraph::<T>::lemma_settled_monotone(g_b, g, lib_dynload_files@[j]@);
            } else {
                let k = choose|k: int|
                    0 <= k < fails_b.len() && (#[trigger] fails_b[k])@
                        == lib_dynload_files@[j]@;
                assert(failures@[k]@ == lib_dynload_files@[j]@);
            }
        }
    }
    let mut s: usize = 0;
    while s < site_files.len()
        invariant
            s <= site_files@.len(),
            g.wf(),
            g.closed(),
            g.has_path(exe_path),
            forall|i2: int| 0 <= i2 < loads@.len() ==> g.dep_settled(
                (#[trigger] loads@[i2]).path@,
            ),
            forall|j: int|
                0 <= j < lib_dynload_files@.len() ==> g.dep_settled(
                    (#[trigger] lib_dynload_files@[j])@,
                ) || (exists|k: int|
                    0 <= k < failures@.len() && (#[trigger] failures@[k])@
                        == lib_dynload_files@[j]@),
            forall|j: int|
                0 <= j < stdlib_files@.len() ==> g.dep_settled((#[trigger] stdlib_files@[j])@)
                    || (exists|k: int|
                    0 <= k < failures@.len() && (#[trigger] failures@[k])@ == stdlib_files@[j]@),
            forall|s2: int, j: int|
                0 <= s2 < s && 0 <= j < site_files@[s2]@.len() ==> g.dep_settled(
                    (#[trigger] site_files@[s2]@[j])@,
                ) || (exists|k: int|
                    0 <= k < failures@.len() && (#[trigger] failures@[k])@
                        == site_files@[s2]@[j]@),
        decreases site_files@.len() - s,
    {
        let ghost g0 = g;
        let ghost fails0 = failures@;
        match add_nodes_recursive(&mut g, &mut failures, &site_files[s], &empty_known, true, &extra) {
            Ok(_) => {},
            Err(e) => {
                return Err(e);
            },
        }
        proof {
            assert forall|i2: int|
                0 <= i2 < loads@.len() implies g.dep_settled((#[trigger] loads@[i2]).path@) by {
                FileGraph::<T>::lemma_settled_monotone(g0, g, loads@[i2].path@);
            }
            assert forall|j: int|
                0 <= j < lib_dynload_files@.len() implies g.dep_settled(
                (#[trigger] lib_dynload_files@[j])@,
            ) || (exists|k: int|
                0 <= k < failures@.len() && (#[trigger] failures@[k])@
                    == lib_dynload_files@[j]@) by {
                if g0.dep_settled(lib_dynload_files@[j]@) {
                    FileGraph::<T>::lemma_settled_monotone(g0, g, lib_dynload_files@[j]@);
                } else {
                    let k = choose|k: int|
                        0 <= k < fails0.len() && (#[trigger] fails0[k])@
                            == lib_dynload_files@[j]@;
                    assert(failures@[k]@ == lib_dynload_files@[j]@);
                }
            }
            assert forall|j: int|
                0 <= j < stdlib_files@.len() implies g.dep_settled(
                (#[trigger] stdlib_files@[j])@,
            ) || (exists|k: int|
                0 <= k < failures@.len() && (#[trigger] failures@[k])@ == stdlib_files@[j]@) by {
                if g0.dep_settled(stdlib_files@[j]@) {
                    FileGraph::<T>::lemma_settled_monotone(g0, g, stdlib_files@[j]@);
                } else {
                    let k = choose|k: int|
                        0 <= k < fails0.len() && (#[trigger] fails0[k])@ == stdlib_files@[j]@;
                    assert(failures@[k]@ == stdlib_files@[j]@);
                }
            }
            assert forall|s2: int, j: int|
                0 <= s2 < s + 1 && 0 <= j < site_files@[s2]@.len() implies g.dep_settled(
                (#[trigger] site_files@[s2]@[j])@,
            ) || (exists|k: int|
                0 <= k < failures@.len() && (#[trigger] failures@[k])@
                    == site_files@[s2]@[j]@) by {
                if s2 < s {
                    if g0.dep_settled(site_files@[s2]@[j]@) {
                        FileGraph::<T>::lemma_settled_monotone(g0, g, site_files@[s2]@[j]@);
                    } else {
                        let k = choose|k: int|
                            0 <= k < fails0.len() && (#[trigger] fails0[k])@
                                == site_files@[s2]@[j]@;
                        assert(failures@[k]@ == site_files@[s2]@[j]@);
                    }
                }
            }
        }
        s = s + 1;
    }
    let ghost g_c = g;
    let ghost fails_c = failures@;
    match add_failures(&mut g, failures, &extra) {
        Ok(_) => {},
        Err(e) => {
            return Err(e);
        },
    }
    proof {
        assert forall|i2: int|
            0 <= i2 < loads@.len() implies g.dep_settled((#[trigger] loads@[i2]).path@) by {
            FileGraph::<T>::lemma_settled_monotone(g_c, g, loads@[i2].path@);
        }
        assert forall|j: int|
            0 <= j < lib_dynload_files@.len() implies g.dep_settled(
            (#[trigger] lib_dynload_files@[j])@,
        ) by {
            if g_c.dep_settled(lib_dynload_files@[j]@) {
                FileGraph::<T>::lemma_settled_monotone(g_c, g, lib_dynload_files@[j]@);
            } else {
                let k = choose|k: int|
                    0 <= k < fails_c.len() && (#[trigger] fails_c[k])@
                        == lib_dynload_files@[j]@;
            }
        }
        assert forall|j: int|
            0 <= j < stdlib_files@.len() implies g.dep_settled(
            (#[trigger] stdlib_files@[j])@,
        ) by {
            if g_c.dep_settled(stdlib_files@[j]@) {
                FileGraph::<T>::lemma_settled_monotone(g_c, g, stdlib_files@[j]@);
            } else {
                let k = choose|k: int|
                    0 <= k < fails_c.len() && (#[trigger] fails_c[k])@ == stdlib_files@[j]@;
            }
        }
        assert forall|s2: int, j: int|
            0 <= s2 < site_files@.len() && 0 <= j < site_files@[s2]@.len() implies g.dep_settled(
            (#[trigger] site_files@[s2]@[j])@,
        ) by {
            if g_c.dep_settled(site_files@[s2]@[j]@) {
                FileGraph::<T>::lemma_settled_monotone(g_c, g, site_files@[s2]@[j]@);
            } else {
                let k = choose|k: int|
                    0 <= k < fails_c.len() && (#[trigger] fails_c[k])@ == site_files@[s2]@[j]@;
            }
        }
    }
    Ok(g)
}

/// Builds the graph and the launcher components a manifest induces. The
/// walked file trees arrive as values: the files under the dynamic-modules
/// directory, under the standard library, and under each search-path root
/// (keyed by root).
pub fn build_graph_from_manifest(
    manifest: &YarpManifest,
    host: Host,
    lib_dynload_files: &Vec<String>,
    stdlib_files: &Vec<String>,
    site_files_by_root: &Vec<(String, Vec<String>)>,
) -> (r: Result<(FileGraph<NodeFactory>, Vec<PythonPathComponent>), YarpError>)
    ensures
        r matches Ok(p) ==> p.0.wf() && p.0.closed() && p.0.has_path(
            manifest.python.sys.executable@,
        ) && (forall|i: int|
            0 <= i < manifest.loads@.len() ==> p.0.dep_settled(
                (#[trigger] manifest.loads@[i]).path@,
            )) && (forall|j: int|
            0 <= j < lib_dynload_files@.len() ==> p.0.dep_settled(
                (#[trigger] lib_dynload_files@[j])@,
            )) && (forall|j: int|
            0 <= j < stdlib_files@.len() ==> p.0.dep_settled((#[trigger] stdlib_files@[j])@)),
{
    let site_pkgs: SitePkgs = match SitePkgs::from_manifest(manifest) {
        Ok(s) => s,
        Err(e) => {
            return Err(e);
        },
    };
    let mut site_files: Vec<Vec<String>> = Vec::new();
    let roots: Vec<String> = site_pkgs.site_pkg_by_alias.keys();
    let mut i: usize = 0;
    while i < roots.len()
        invariant
            i <= roots@.len(),
        decreases roots@.len() - i,
    {
        let mut j: usize = 0;
        while j < site_files_by_root.len()
            invariant
                j <= site_files_by_root@.len(),
                i < roots@.len(),
            decreases site_files_by_root@.len() - j,
        {
            if str_eq(site_files_by_root[j].0.as_str(), roots[i].as_str()) {
                site_files.push(crate::binary::dup_strs(&site_files_by_root[j].1));
            }
            j = j + 1;
        }
        i = i + 1;
    }
    let comps: Vec<PythonPathComponent> = clone_comps(&site_pkgs.comps);
    let factory: NodeFactory = NodeFactory::new(
        site_pkgs,
        manifest.python.sys.version.duplicate(),
        host,
        Skip {
            prefixes: crate::binary::dup_strs(&manifest.skip.prefixes),
            libs: crate::binary::dup_strs(&manifest.skip.libs),
        },
    );
    let g: FileGraph<NodeFactory> = match build_graph(
        factory,
        &manifest.python.sys.executable,
        &manifest.loads,
        lib_dynload_files,
        stdlib_files,
        &site_files,
    ) {
        Ok(g) => g,
        Err(e) => {
            return Err(e);
        },
    };
    Ok((g, comps))
}

fn clone_comps(cs: &Vec<PythonPathComponent>) -> (r: Vec<PythonPathComponent>)
    ensures
        r@.len() == cs@.len(),
        forall|i: int| 0 <= i < r@.len() ==> (#[trigger] r@[i])@ == cs@[i]@,
{
    let mut out: Vec<PythonPathComponent> = Vec::new();
    let mut i: usize = 0;
    while i < cs.len()
        invariant
            i <= cs@.len(),
            out@.len() == i,
            forall|j: int| 0 <= j < i ==> (#[trigger] out@[j])@ == cs@[j]@,
        decreases cs@.len() - i,
    {
        let c: PythonPathComponent = match &cs[i] {
            PythonPathComponent::RelativeToLibDynLoad { rel_path } => {
                PythonPathComponent::RelativeToLibDynLoad { rel_path: rel_path.clone() }
            },
            PythonPathComponent::RelativeToStdlib { rel_path } => {
                PythonPathComponent::RelativeToStdlib { rel_path: rel_path.clone() }
            },
            PythonPathComponent::TopLevel { alias } => {
                PythonPathComponent::TopLevel { alias: alias.clone() }
            },
            PythonPathComponent::RelativeToSitePkg { top_level_alias, rel_path } => {
                PythonPathComponent::RelativeToSitePkg {
                    top_level_alias: top_level_alias.clone(),
                    rel_path: rel_path.clone(),
                }
            },
        };
        out.push(c);
        i = i + 1;
    }
    out
}

} // verus!
