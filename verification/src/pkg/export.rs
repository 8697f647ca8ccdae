//! The export planner: for one node, in dependency order, the filesystem
//! actions that materialize its reals entry, build its symlink farm, rewrite
//! the reified copy and place its destination. The planner only computes;
//! the driver performs the actions.

use vstd::prelude::*;

verus! {

use crate::errors::YarpError;
use crate::node::Node;
use crate::node::Pkg;
use crate::paths::spec_dirname;
use crate::paths::spec_basename;
use crate::paths::rel_path_of;
use crate::paths::dirname;
use crate::paths::basename;
use crate::paths::diff_paths_str;
use crate::paths::spec_join_path;
use crate::paths::join_path;
use crate::paths::strs_view;
use crate::pkg::paths::spec_reals;
use crate::pkg::paths::spec_farm;
use crate::pkg::paths::spec_destination;
use crate::pkg::paths::ExportedFileTree;
use crate::pkg::patch::ToolCmd;
use crate::pkg::patch::ToolCmdView;
use crate::pkg::patch::cmds_view;
use crate::pkg::patch::spec_deps_patch;
use crate::pkg::patch::spec_deps_patch_dest;
use crate::pkg::patch::spec_patch_macho;
use crate::pkg::patch::spec_patch_elf;
use crate::pkg::patch::spec_patch_for_destination;
use crate::binary::Binary;
use crate::deps::Deps;

/// One filesystem action of the export phase.
pub enum Action {
    /// Create a directory and its parents.
    MkDirAll { path: String },
    /// Copy a file.
    CopyFile { from: String, to: String },
    /// Create a symbolic link at `link` whose target is the relative path
    /// `target`.
    Symlink { target: String, link: String },
    /// Run one external patch tool.
    Tool(ToolCmd),
}

/// The mathematical content of an action.
pub enum ActionView {
    MkDirAll { path: Seq<char> },
    CopyFile { from: Seq<char>, to: Seq<char> },
    Symlink { target: Seq<char>, link: Seq<char> },
    Tool(ToolCmdView),
}

impl View for Action {
    type V = ActionView;

    open spec fn view(&self) -> ActionView {
        match self {
            Action::MkDirAll { path } => ActionView::MkDirAll { path: path@ },
            Action::CopyFile { from, to } => ActionView::CopyFile { from: from@, to: to@ },
            Action::Symlink { target, link } => ActionView::Symlink {
                target: target@,
                link: link@,
            },
            Action::Tool(c) => ActionView::Tool(c@),
        }
    }
}

/// The views of an action plan.
pub open spec fn acts_view(v: Seq<Action>) -> Seq<ActionView> {
    v.map_values(|a: Action| a@)
}

/// The actions that materialize a node's reals entry: make the parent
/// directory and copy the source file to its content-addressed name.
pub open spec fn spec_reals_actions(node: Node, dist: Seq<char>) -> Seq<ActionView> {
    match spec_reals(node.pkg, node.path@, dist) {
        None => Seq::empty(),
        Some(rp) => match spec_dirname(rp) {
            Some(d) => seq![
                ActionView::MkDirAll { path: d },
                ActionView::CopyFile { from: node.path@, to: rp },
            ],
            None => seq![ActionView::CopyFile { from: node.path@, to: rp }],
        },
    }
}

/// One farm link per dependency that has a reals entry: a relative symlink
/// named by the dependency's basename. A dependency without a usable file
/// name, or with no relative path to its reals entry, fails the plan.
pub open spec fn spec_farm_links(
    deps: Seq<Node>,
    farm: Seq<char>,
    dist: Seq<char>,
) -> Result<Seq<ActionView>, ()>
    decreases deps.len(),
{
    if deps.len() == 0 {
        Ok(Seq::empty())
    } else {
        match spec_farm_links(deps.drop_last(), farm, dist) {
            Err(()) => Err(()),
            Ok(pre) => {
                let dep = deps.last();
                match spec_reals(dep.pkg, dep.path@, dist) {
                    None => Ok(pre),
                    Some(drp) => match spec_basename(dep.path@) {
                        None => Err(()),
                        Some(name) => match rel_path_of(drp, farm) {
                            None => Err(()),
                            Some(rel) => Ok(
                                pre.push(
                                    ActionView::Symlink {
                                        target: rel,
                                        link: spec_join_path(farm, name),
                                    },
                                ),
                            ),
                        },
                    },
                }
            },
        }
    }
}

/// The basenames the farm will hold: one per dependency with a reals entry.
pub open spec fn spec_farm_names(deps: Seq<Node>, dist: Seq<char>) -> Seq<Seq<char>>
    decreases deps.len(),
{
    if deps.len() == 0 {
        Seq::empty()
    } else {
        let pre = spec_farm_names(deps.drop_last(), dist);
        let dep = deps.last();
        match spec_reals(dep.pkg, dep.path@, dist) {
            None => pre,
            Some(_) => match spec_basename(dep.path@) {
                None => pre,
                Some(name) => pre.push(name),
            },
        }
    }
}

/// The patch plan of the node's reified copy, when it has both a reals
/// entry and a farm.
pub open spec fn spec_patch_actions(
    node: Node,
    deps: Seq<Node>,
    dist: Seq<char>,
) -> Result<Seq<ActionView>, ()> {
    match (spec_reals(node.pkg, node.path@, dist), spec_farm(node.pkg, node.path@, dist)) {
        (Some(rp), Some(fd)) => match spec_deps_patch(node.deps, rp, fd, spec_farm_names(deps, dist)) {
            Err(()) => Err(()),
            Ok(cs) => Ok(cs.map_values(|c: ToolCmdView| ActionView::Tool(c))),
        },
        _ => Ok(Seq::empty()),
    }
}

/// The actions that place the node's destination: plain files and the
/// executable are copied from their source (they have no reals entry);
/// reified binaries become a relative symlink from the destination to the
/// reals entry, and a load-path library additionally gets its user-declared
/// alias symlinks beside it. A destination that escapes the dist fails.
pub open spec fn spec_dest_actions(
    node: Node,
    dist: Seq<char>,
) -> Result<Seq<ActionView>, ()> {
    match spec_destination(node.pkg, node.path@, dist) {
        None => Ok(Seq::empty()),
        Some(dest) => match spec_dirname(dest) {
            None => Err(()),
            Some(destdir) => {
                let mk = seq![ActionView::MkDirAll { path: destdir }];
                match node.pkg {
                    Pkg::SitePackagesPlain { .. } => Ok(
                        mk.push(ActionView::CopyFile { from: node.path@, to: dest }),
                    ),
                    Pkg::Plain => Ok(mk.push(ActionView::CopyFile { from: node.path@, to: dest })),
                    Pkg::Executable => Ok(
                        mk.push(ActionView::CopyFile { from: node.path@, to: dest }),
                    ),
                    Pkg::ExecPrefixPlain(_) => Ok(
                        mk.push(ActionView::CopyFile { from: node.path@, to: dest }),
                    ),
                    Pkg::PrefixPlain(_) => Ok(
                        mk.push(ActionView::CopyFile { from: node.path@, to: dest }),
                    ),
                    Pkg::BinaryInLDPath { symlinks, sha: _ } => {
                        match spec_reals(node.pkg, node.path@, dist) {
                            None => Err(()),
                            Some(rp) => match rel_path_of(rp, destdir) {
                                None => Err(()),
                                Some(rel) => Ok(
                                    mk.push(ActionView::Symlink { target: rel, link: dest })
                                        + strs_view(symlinks@).map_values(
                                        |s: Seq<char>| ActionView::Symlink {
                                            target: rel,
                                            link: spec_join_path(destdir, s),
                                        },
                                    ),
                                ),
                            },
                        }
                    },
                    _ => {
                        match spec_reals(node.pkg, node.path@, dist) {
                            None => Err(()),
                            Some(rp) => match rel_path_of(rp, destdir) {
                                None => Err(()),
                                Some(rel) => Ok(
                                    mk.push(ActionView::Symlink { target: rel, link: dest }),
                                ),
                            },
                        }
                    },
                }
            },
        },
    }
}

/// The destination-level patch: an ELF object with a distinct destination
/// gets one more rpath so `$ORIGIN` resolves through the destination.
pub open spec fn spec_dest_patch_actions(
    node: Node,
    dist: Seq<char>,
) -> Result<Seq<ActionView>, ()> {
    match (
        spec_destination(node.pkg, node.path@, dist),
        spec_reals(node.pkg, node.path@, dist),
        spec_farm(node.pkg, node.path@, dist),
    ) {
        (Some(dest), Some(rp), Some(fd)) => match spec_deps_patch_dest(node.deps, dest, rp, fd) {
            Err(()) => Err(()),
            Ok(cs) => Ok(cs.map_values(|c: ToolCmdView| ActionView::Tool(c))),
        },
        _ => Ok(Seq::empty()),
    }
}

/// The whole export plan of one node: reals, farm, patch, destination, and
/// the destination-level patch, in that order.
pub open spec fn spec_move_plan(
    node: Node,
    deps: Seq<Node>,
    dist: Seq<char>,
) -> Result<Seq<ActionView>, ()> {
    let reals_acts = spec_reals_actions(node, dist);
    match spec_farm(node.pkg, node.path@, dist) {
        None => match spec_dest_actions(node, dist) {
            Err(()) => Err(()),
            Ok(dest_acts) => Ok(reals_acts + dest_acts),
        },
        Some(fd) => match spec_farm_links(deps, fd, dist) {
            Err(()) => Err(()),
            Ok(links) => match spec_patch_actions(node, deps, dist) {
                Err(()) => Err(()),
                Ok(patches) => match spec_dest_actions(node, dist) {
                    Err(()) => Err(()),
                    Ok(dest_acts) => match spec_dest_patch_actions(node, dist) {
                        Err(()) => Err(()),
                        Ok(dp) => Ok(
                            reals_acts + seq![ActionView::MkDirAll { path: fd }] + links + patches
                                + dest_acts + dp,
                        ),
                    },
                },
            },
        },
    }
}

/// Export is a function of the graph alone: the same node, dependencies and
/// dist root always yield the same plan, so running the exporter twice
/// writes byte-identical trees.
pub proof fn lemma_export_deterministic(
    node: Node,
    deps: Seq<Node>,
    dist: Seq<char>,
    r1: Result<Seq<ActionView>, ()>,
    r2: Result<Seq<ActionView>, ()>,
)
    requires
        r1 == spec_move_plan(node, deps, dist),
        r2 == spec_move_plan(node, deps, dist),
    ensures
        r1 == r2,
{
}

/// A reified node with a destination places a symlink at that destination
/// whose target resolves to its reals entry: the plan holds it.
pub proof fn lemma_destination_symlink_reaches_reals(node: Node, deps: Seq<Node>, dist: Seq<char>)
    requires
        spec_reals(node.pkg, node.path@, dist) is Some,
        spec_destination(node.pkg, node.path@, dist) is Some,
        spec_move_plan(node, deps, dist) is Ok,
    ensures
        exists|i: int|
            0 <= i < spec_move_plan(node, deps, dist)->Ok_0.len() && (#[trigger] spec_move_plan(
                node,
                deps,
                dist,
            )->Ok_0[i]) == (ActionView::Symlink {
                target: rel_path_of(
                    spec_reals(node.pkg, node.path@, dist)->Some_0,
                    spec_dirname(spec_destination(node.pkg, node.path@, dist)->Some_0)->Some_0,
                )->Some_0,
                link: spec_destination(node.pkg, node.path@, dist)->Some_0,
            }),
{
    let dest = spec_destination(node.pkg, node.path@, dist)->Some_0;
    let rp = spec_reals(node.pkg, node.path@, dist)->Some_0;
    let plan = spec_move_plan(node, deps, dist)->Ok_0;
    let dest_acts = spec_dest_actions(node, dist)->Ok_0;
    let destdir = spec_dirname(dest)->Some_0;
    let rel = rel_path_of(rp, destdir)->Some_0;
    let want = ActionView::Symlink { target: rel, link: dest };
    assert(spec_dest_actions(node, dist) is Ok);
    match node.pkg {
        Pkg::SitePackagesBinary { .. } => {
            assert(dest_acts[1] == want);
        },
        Pkg::ExecPrefixBinary(_) => {
            assert(dest_acts[1] == want);
        },
        Pkg::PrefixBinary(_) => {
            assert(dest_acts[1] == want);
        },
        Pkg::BinaryInLDPath { symlinks, sha: _ } => {
            assert(dest_acts[1] == want);
        },
        _ => {
            assert(false);
        },
    }
    match spec_farm(node.pkg, node.path@, dist) {
        None => {
            let reals_acts = spec_reals_actions(node, dist);
            assert(plan == reals_acts + dest_acts);
            assert(plan[reals_acts.len() as int + 1] == want);
        },
        Some(fd) => {
            let reals_acts = spec_reals_actions(node, dist);
            let links = spec_farm_links(deps, fd, dist)->Ok_0;
            let patches = spec_patch_actions(node, deps, dist)->Ok_0;
            let dp = spec_dest_patch_actions(node, dist)->Ok_0;
            assert(plan == reals_acts + seq![ActionView::MkDirAll { path: fd }] + links + patches
                + dest_acts + dp);
            let off: int = reals_acts.len() as int + 1 + links.len() as int + patches.len() as int;
            assert(plan[off + 1] == want);
        },
    }
}

/// Plans the export of one node whose dependencies are already exported.
#[verifier::rlimit(60)]
pub fn move_to_dist(node: &Node, deps: &Vec<Node>, dist: &str) -> (r: Result<
    Vec<Action>,
    YarpError,
>)
    ensures
        match r {
            Ok(acts) => spec_move_plan(*node, deps@, dist@) == Ok::<_, ()>(acts_view(acts@)),
            Err(_) => spec_move_plan(*node, deps@, dist@) is Err,
        },
{
    let mut out: Vec<Action> = Vec::new();
    let reals_path: Option<String> = node.pkg.reals(node, dist);
    match &reals_path {
        Some(rp) => {
            match dirname(rp.as_str()) {
                Some(d) => {
                    out.push(Action::MkDirAll { path: d });
                    out.push(Action::CopyFile { from: node.path.clone(), to: rp.clone() });
                },
                None => {
                    out.push(Action::CopyFile { from: node.path.clone(), to: rp.clone() });
                },
            }
        },
        None => {},
    }
    proof {
        assert(acts_view(out@) =~= spec_reals_actions(*node, dist@));
    }
    let ghost seg_reals = spec_reals_actions(*node, dist@);
    let ghost mut seg_farm: Seq<ActionView> = Seq::empty();
    let ghost mut seg_patch: Seq<ActionView> = Seq::empty();
    let ghost mut seg_dest: Seq<ActionView> = Seq::empty();
    let ghost mut seg_dp: Seq<ActionView> = Seq::empty();
    let farm: Option<String> = node.pkg.symlink_farm(node.path.as_str(), dist);
    let mut farm_names: Vec<String> = Vec::new();
    match &farm {
        None => {},
        Some(fd) => {
            out.push(Action::MkDirAll { path: fd.clone() });
            let ghost head = acts_view(out@);
            let mut i: usize = 0;
            proof {
                assert(deps@.take(0) =~= Seq::<Node>::empty());
                assert(spec_farm_links(deps@.take(0), fd@, dist@) == Ok::<_, ()>(
                    Seq::<ActionView>::empty(),
                ));
                assert(head + spec_farm_links(deps@.take(0), fd@, dist@)->Ok_0 =~= acts_view(
                    out@,
                ));
                assert(strs_view(farm_names@) =~= spec_farm_names(deps@.take(0), dist@));
            }
            while i < deps.len()
                invariant
                    i <= deps@.len(),
                    spec_farm(node.pkg, node.path@, dist@) == Some(fd@),
                    spec_farm_links(deps@.take(i as int), fd@, dist@) matches Ok(links)
                        && acts_view(out@) == head + links,
                    strs_view(farm_names@) == spec_farm_names(deps@.take(i as int), dist@),
                decreases deps@.len() - i,
            {
                proof {
                    assert(deps@.take(i + 1).drop_last() =~= deps@.take(i as int));
                    assert(deps@.take(i + 1).last() == deps@[i as int]);
                }
                let dep: &Node = &deps[i];
                let drp: Option<String> = dep.pkg.reals(dep, dist);
                match drp {
                    None => {},
                    Some(drp) => {
                        let name: String = match basename(dep.path.as_str()) {
                            Some(n) => n,
                            None => {
                                proof {
                                    lemma_farm_links_err_mono(deps@, fd@, dist@, i + 1);
                                }
                                return Err(YarpError::NoFileName(dep.path.clone()));
                            },
                        };
                        let rel: String = match diff_paths_str(drp.as_str(), fd.as_str()) {
                            Some(p) => p,
                            None => {
                                proof {
                                    lemma_farm_links_err_mono(deps@, fd@, dist@, i + 1);
                                }
                                return Err(YarpError::NoRelativePath {
                                    path: drp,
                                    base: fd.clone(),
                                });
                            },
                        };
                        let link: String = join_path(fd.as_str(), name.as_str());
                        let ghost prevacts = acts_view(out@);
                        let ghost prevnames = strs_view(farm_names@);
                        out.push(Action::Symlink { target: rel, link });
                        farm_names.push(name);
                        proof {
                            assert(acts_view(out@) =~= prevacts.push(
                                ActionView::Symlink {
                                    target: rel_path_of(
                                        spec_reals(
                                            deps@[i as int].pkg,
                                            deps@[i as int].path@,
                                            dist@,
                                        )->Some_0,
                                        fd@,
                                    )->Some_0,
                                    link: spec_join_path(
                                        fd@,
                                        spec_basename(deps@[i as int].path@)->Some_0,
                                    ),
                                },
                            ));
                            assert(strs_view(farm_names@) =~= prevnames.push(
                                spec_basename(deps@[i as int].path@)->Some_0,
                            ));
                        }
                    },
                }
                i = i + 1;
            }
            proof {
                assert(deps@.take(deps@.len() as int) =~= deps@);
                seg_farm = seq![ActionView::MkDirAll { path: fd@ }] + spec_farm_links(
                    deps@,
                    fd@,
                    dist@,
                )->Ok_0;
                assert(acts_view(out@) =~= seg_reals + seg_farm);
                assert(strs_view(farm_names@) == spec_farm_names(deps@, dist@));
            }
        },
    }
    match (&reals_path, &farm) {
        (Some(rp), Some(fd)) => {
            let cmds: Vec<ToolCmd> = match node.deps.patch(rp.as_str(), fd.as_str(), &farm_names) {
                Ok(cs) => cs,
                Err(e) => {
                    return Err(e);
                },
            };
            let ghost prevacts = acts_view(out@);
            let mut k: usize = 0;
            let ghost cv = cmds_view(cmds@);
            while k < cmds.len()
                invariant
                    k <= cmds@.len(),
                    cv == cmds_view(cmds@),
                    acts_view(out@) == prevacts + cv.take(k as int).map_values(
                        |c: ToolCmdView| ActionView::Tool(c),
                    ),
                decreases cmds@.len() - k,
            {
                let c: ToolCmd = clone_tool_cmd(&cmds[k]);
                let ghost pa = acts_view(out@);
                out.push(Action::Tool(c));
                proof {
                    assert(acts_view(out@) =~= pa.push(ActionView::Tool(cv[k as int])));
                    assert(cv.take(k + 1).map_values(|c: ToolCmdView| ActionView::Tool(c))
                        =~= cv.take(k as int).map_values(
                        |c: ToolCmdView| ActionView::Tool(c),
                    ).push(ActionView::Tool(cv[k as int])));
                }
                k = k + 1;
            }
            proof {
                assert(cv.take(cmds@.len() as int) =~= cv);
                seg_patch = cv.map_values(|c: ToolCmdView| ActionView::Tool(c));
                assert(acts_view(out@) =~= seg_reals + seg_farm + seg_patch);
            }
        },
        _ => {},
    }
    let dest: Option<String> = node.pkg.destination(node.path.as_str(), dist);
    let ghost mark_dest = acts_view(out@);
    match &dest {
        None => {},
        Some(d) => {
            let destdir: String = match dirname(d.as_str()) {
                Some(dd) => dd,
                None => {
                    return Err(YarpError::NoFileName(d.clone()));
                },
            };
            out.push(Action::MkDirAll { path: destdir.clone() });
            match &node.pkg {
                Pkg::SitePackagesPlain { .. } | Pkg::Plain | Pkg::Executable
                    | Pkg::ExecPrefixPlain(_) | Pkg::PrefixPlain(_) => {
                    out.push(Action::CopyFile { from: node.path.clone(), to: d.clone() });
                },
                Pkg::BinaryInLDPath { symlinks, sha: _ } => {
                    let rp: &String = match &reals_path {
                        Some(rp) => rp,
                        None => {
                            return Err(YarpError::MissingFile(node.path.clone()));
                        },
                    };
                    let rel: String = match diff_paths_str(rp.as_str(), destdir.as_str()) {
                        Some(p) => p,
                        None => {
                            return Err(YarpError::NoRelativePath {
                                path: rp.clone(),
                                base: destdir,
                            });
                        },
                    };
                    out.push(Action::Symlink { target: rel.clone(), link: d.clone() });
                    let ghost symhead = acts_view(out@);
                    let ghost sv = strs_view(symlinks@);
                    let mut j: usize = 0;
                    proof {
                        assert(symhead + sv.take(0).map_values(
                            |s: Seq<char>| ActionView::Symlink {
                                target: rel@,
                                link: spec_join_path(destdir@, s),
                            },
                        ) =~= acts_view(out@));
                    }
                    while j < symlinks.len()
                        invariant
                            j <= symlinks@.len(),
                            sv == strs_view(symlinks@),
                            rel@ == rel_path_of(
                                spec_reals(node.pkg, node.path@, dist@)->Some_0,
                                destdir@,
                            )->Some_0,
                            acts_view(out@) == symhead + sv.take(j as int).map_values(
                                |s: Seq<char>| ActionView::Symlink {
                                    target: rel@,
                                    link: spec_join_path(destdir@, s),
                                },
                            ),
                        decreases symlinks@.len() - j,
                    {
                        proof {
                            assert(sv[j as int] == symlinks@[j as int]@);
                        }
                        let slink: String = join_path(destdir.as_str(), symlinks[j].as_str());
                        let ghost pa = acts_view(out@);
                        out.push(Action::Symlink { target: rel.clone(), link: slink });
                        proof {
                            assert(acts_view(out@) =~= pa.push(
                                ActionView::Symlink {
                                    target: rel@,
                                    link: spec_join_path(destdir@, sv[j as int]),
                                },
                            ));
                            assert(sv.take(j + 1).map_values(
                                |s: Seq<char>| ActionView::Symlink {
                                    target: rel@,
                                    link: spec_join_path(destdir@, s),
                                },
                            ) =~= sv.take(j as int).map_values(
                                |s: Seq<char>| ActionView::Symlink {
                                    target: rel@,
                                    link: spec_join_path(destdir@, s),
                                },
                            ).push(
                                ActionView::Symlink {
                                    target: rel@,
                                    link: spec_join_path(destdir@, sv[j as int]),
                                },
                            ));
                        }
                        j = j + 1;
                    }
                    proof {
                        assert(sv.take(symlinks@.len() as int) =~= sv);
                    }
                },
                _ => {
                    let rp: &String = match &reals_path {
                        Some(rp) => rp,
                        None => {
                            return Err(YarpError::MissingFile(node.path.clone()));
                        },
                    };
                    let rel: String = match diff_paths_str(rp.as_str(), destdir.as_str()) {
                        Some(p) => p,
                        None => {
                            return Err(YarpError::NoRelativePath {
                                path: rp.clone(),
                                base: destdir,
                            });
                        },
                    };
                    out.push(Action::Symlink { target: rel, link: d.clone() });
                },
            }
        },
    }
    proof {
        seg_dest = acts_view(out@).subrange(mark_dest.len() as int, acts_view(out@).len() as int);
        assert(acts_view(out@) =~= mark_dest + seg_dest);
        assert(spec_dest_actions(*node, dist@) == Ok::<_, ()>(seg_dest)) by {
            match spec_destination(node.pkg, node.path@, dist@) {
                None => {
                    assert(seg_dest =~= Seq::<ActionView>::empty());
                },
                Some(ds) => {
                    assert(spec_dest_actions(*node, dist@)->Ok_0 =~= seg_dest);
                },
            }
        }
    }
    match (&dest, &reals_path, &farm) {
        (Some(d), Some(rp), Some(fd)) => {
            let cmds: Vec<ToolCmd> = match node.deps.patch_for_destination(
                d.as_str(),
                rp.as_str(),
                fd.as_str(),
            ) {
                Ok(cs) => cs,
                Err(e) => {
                    return Err(e);
                },
            };
            let ghost prevacts = acts_view(out@);
            let ghost cv = cmds_view(cmds@);
            let mut k: usize = 0;
            while k < cmds.len()
                invariant
                    k <= cmds@.len(),
                    cv == cmds_view(cmds@),
                    acts_view(out@) == prevacts + cv.take(k as int).map_values(
                        |c: ToolCmdView| ActionView::Tool(c),
                    ),
                decreases cmds@.len() - k,
            {
                let c: ToolCmd = clone_tool_cmd(&cmds[k]);
                let ghost pa = acts_view(out@);
                out.push(Action::Tool(c));
                proof {
                    assert(acts_view(out@) =~= pa.push(ActionView::Tool(cv[k as int])));
                    assert(cv.take(k + 1).map_values(|c: ToolCmdView| ActionView::Tool(c))
                        =~= cv.take(k as int).map_values(
                        |c: ToolCmdView| ActionView::Tool(c),
                    ).push(ActionView::Tool(cv[k as int])));
                }
                k = k + 1;
            }
            proof {
                assert(cv.take(cmds@.len() as int) =~= cv);
                seg_dp = cv.map_values(|c: ToolCmdView| ActionView::Tool(c));
                assert(acts_view(out@) =~= prevacts + seg_dp);
            }
        },
        _ => {},
    }
    proof {
        assert(acts_view(out@) =~= seg_reals + seg_farm + seg_patch + seg_dest + seg_dp);
        match spec_farm(node.pkg, node.path@, dist@) {
            None => {
                assert(seg_farm =~= Seq::<ActionView>::empty());
                assert(seg_patch =~= Seq::<ActionView>::empty());
                assert(seg_dp =~= Seq::<ActionView>::empty());
                assert(spec_move_plan(*node, deps@, dist@)->Ok_0 =~= acts_view(out@));
            },
            Some(fdv) => {
                assert(spec_move_plan(*node, deps@, dist@)->Ok_0 =~= acts_view(out@));
            },
        }
    }
    Ok(out)
}

proof fn lemma_farm_links_err_mono(deps: Seq<Node>, farm: Seq<char>, dist: Seq<char>, j: int)
    requires
        0 <= j <= deps.len(),
        spec_farm_links(deps.take(j), farm, dist) is Err,
    ensures
        spec_farm_links(deps, farm, dist) is Err,
    decreases deps.len() - j,
{
    if j == deps.len() {
        assert(deps.take(j) =~= deps);
    } else {
        assert(deps.take(j + 1).drop_last() =~= deps.take(j));
        lemma_farm_links_err_mono(deps, farm, dist, j + 1);
    }
}

/// A copy of a tool command with the same content.
fn clone_tool_cmd(c: &ToolCmd) -> (r: ToolCmd)
    ensures
        r@ == c@,
{
    match c {
        ToolCmd::DeleteRpath { rpath, file } => ToolCmd::DeleteRpath {
            rpath: rpath.clone(),
            file: file.clone(),
        },
        ToolCmd::AddRpath { rpath, file } => ToolCmd::AddRpath {
            rpath: rpath.clone(),
            file: file.clone(),
        },
        ToolCmd::ChangeLoadCmd { old, new, file } => ToolCmd::ChangeLoadCmd {
            old: old.clone(),
            new: new.clone(),
            file: file.clone(),
        },
        ToolCmd::SetDylibId { id, file } => ToolCmd::SetDylibId {
            id: id.clone(),
            file: file.clone(),
        },
        ToolCmd::Codesign { file } => ToolCmd::Codesign { file: file.clone() },
        ToolCmd::ElfRemoveRpath { file } => ToolCmd::ElfRemoveRpath { file: file.clone() },
        ToolCmd::ElfAddRpath { rpath, file } => ToolCmd::ElfAddRpath {
            rpath: rpath.clone(),
            file: file.clone(),
        },
        ToolCmd::ElfReplaceNeeded { old, new, file } => ToolCmd::ElfReplaceNeeded {
            old: old.clone(),
            new: new.clone(),
            file: file.clone(),
        },
    }
}

/// Creates the parent directories a destination needs; the plan's
/// `MkDirAll` actions carry the directory itself.
pub fn mk_parent_dirs(dest: &str) -> (r: Option<Action>)
    ensures
        match spec_dirname(dest@) {
            Some(d) => r matches Some(a) && a@ == (ActionView::MkDirAll { path: d }),
            None => r is None,
        },
{
    match dirname(dest) {
        Some(d) => Some(Action::MkDirAll { path: d }),
        None => None,
    }
}

} // verus!
