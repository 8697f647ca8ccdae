//! The node factory: classifies an absolute path into its placement in the
//! dist (interpreter prefix, dynamic modules, site-packages, bare binary)
//! and builds the node with its parsed dependencies. A path under a skip
//! prefix, or a shared library with a skipped basename, is refused.

use vstd::prelude::*;

verus! {

use crate::errors::YarpError;
use crate::deps::Deps;
use crate::deps::create_deps;
use crate::host::Host;
use crate::graph::Factory;
use crate::manifest::Skip;
use crate::manifest::Version;
use crate::node::Node;
use crate::node::Pkg;
use crate::node::PrefixPlain;
use crate::node::PrefixBinary;
use crate::paths::spec_normalize;
use crate::paths::spec_path_starts_with;
use crate::paths::spec_basename;
use crate::paths::spec_is_shared_library;
use crate::paths::rel_path_of;
use crate::paths::diff_paths_str;
use crate::paths::normalize_path;
use crate::paths::path_starts_with;
use crate::paths::basename;
use crate::paths::is_shared_library;
use crate::paths::strs_view;
use crate::strmap::StrMap;
use crate::strutil::spec_trim;
use crate::strutil::trim;
use crate::strutil::str_eq;
use crate::site_pkgs::SitePkgs;

/// The placement of a file under a prefix root: the relative location, the
/// version, and (for a shared object) the recorded digest.
pub fn get_exec_prefix_pkg(
    path: &str,
    original_prefix: &str,
    version: &Version,
    shared: bool,
    sha: Option<String>,
) -> (r: Result<Pkg, YarpError>)
    requires
        shared ==> sha is Some,
    ensures
        match r {
            Ok(p) => rel_path_of(path@, original_prefix@) is Some && (if shared {
                p matches Pkg::ExecPrefixBinary(pb) && pb.original_prefix@ == original_prefix@
                    && Some(pb.rel_path@) == rel_path_of(path@, original_prefix@) && pb.version@
                    == version@ && Some(pb.sha@) == (match sha {
                    Some(s) => Some::<Seq<char>>(s@),
                    None => None,
                })
            } else {
                p matches Pkg::ExecPrefixPlain(pp) && pp.original_prefix@ == original_prefix@
                    && Some(pp.rel_path@) == rel_path_of(path@, original_prefix@) && pp.version@
                    == version@
            }),
            Err(_) => rel_path_of(path@, original_prefix@) is None,
        },
{
    let rel_path: String = match diff_paths_str(path, original_prefix) {
        Some(p) => p,
        None => {
            return Err(YarpError::NoRelativePath {
                path: path.to_owned(),
                base: original_prefix.to_owned(),
            });
        },
    };
    if shared {
        let s: String = match sha {
            Some(s) => s,
            None => {
                return Err(YarpError::MissingFile(path.to_owned()));
            },
        };
        Ok(
            Pkg::ExecPrefixBinary(
                PrefixBinary {
                    original_prefix: original_prefix.to_owned(),
                    rel_path,
                    version: version.duplicate(),
                    sha: s,
                },
            ),
        )
    } else {
        Ok(
            Pkg::ExecPrefixPlain(
                PrefixPlain {
                    original_prefix: original_prefix.to_owned(),
                    rel_path,
                    version: version.duplicate(),
                },
            ),
        )
    }
}

/// The placement of a file under the standard-library prefix.
pub fn get_prefix_pkg(
    path: &str,
    original_prefix: &str,
    version: &Version,
    shared: bool,
    sha: Option<String>,
) -> (r: Result<Pkg, YarpError>)
    requires
        shared ==> sha is Some,
    ensures
        match r {
            Ok(p) => rel_path_of(path@, original_prefix@) is Some && (if shared {
                p matches Pkg::PrefixBinary(pb) && pb.original_prefix@ == original_prefix@
                    && Some(pb.rel_path@) == rel_path_of(path@, original_prefix@) && pb.version@
                    == version@ && Some(pb.sha@) == (match sha {
                    Some(s) => Some::<Seq<char>>(s@),
                    None => None,
                })
            } else {
                p matches Pkg::PrefixPlain(pp) && pp.original_prefix@ == original_prefix@
                    && Some(pp.rel_path@) == rel_path_of(path@, original_prefix@) && pp.version@
                    == version@
            }),
            Err(_) => rel_path_of(path@, original_prefix@) is None,
        },
{
    let rel_path: String = match diff_paths_str(path, original_prefix) {
        Some(p) => p,
        None => {
            return Err(YarpError::NoRelativePath {
                path: path.to_owned(),
                base: original_prefix.to_owned(),
            });
        },
    };
    if shared {
        let s: String = match sha {
            Some(s) => s,
            None => {
                return Err(YarpError::MissingFile(path.to_owned()));
            },
        };
        Ok(
            Pkg::PrefixBinary(
                PrefixBinary {
                    original_prefix: original_prefix.to_owned(),
                    rel_path,
                    version: version.duplicate(),
                    sha: s,
                },
            ),
        )
    } else {
        Ok(
            Pkg::PrefixPlain(
                PrefixPlain {
                    original_prefix: original_prefix.to_owned(),
                    rel_path,
                    version: version.duplicate(),
                },
            ),
        )
    }
}

/// The placement of a file under a site-packages root, by alias.
pub fn get_site_packages_pkg(
    path: &str,
    site_pkg_path: &str,
    alias: &str,
    shared: bool,
    sha: Option<String>,
) -> (r: Result<Pkg, YarpError>)
    requires
        shared ==> sha is Some,
    ensures
        match r {
            Ok(p) => rel_path_of(path@, site_pkg_path@) is Some && (if shared {
                p matches Pkg::SitePackagesBinary { site_packages, alias: a, rel_path, sha: s }
                    && site_packages@ == site_pkg_path@ && a@ == alias@ && Some(rel_path@)
                    == rel_path_of(path@, site_pkg_path@) && Some(s@) == (match sha {
                    Some(s0) => Some::<Seq<char>>(s0@),
                    None => None,
                })
            } else {
                p matches Pkg::SitePackagesPlain { site_packages, alias: a, rel_path }
                    && site_packages@ == site_pkg_path@ && a@ == alias@ && Some(rel_path@)
                    == rel_path_of(path@, site_pkg_path@)
            }),
            Err(_) => rel_path_of(path@, site_pkg_path@) is None,
        },
{
    let rel_path: String = match diff_paths_str(path, site_pkg_path) {
        Some(p) => p,
        None => {
            return Err(YarpError::NoRelativePath {
                path: path.to_owned(),
                base: site_pkg_path.to_owned(),
            });
        },
    };
    if shared {
        let s: String = match sha {
            Some(s) => s,
            None => {
                return Err(YarpError::MissingFile(path.to_owned()));
            },
        };
        Ok(
            Pkg::SitePackagesBinary {
                site_packages: site_pkg_path.to_owned(),
                alias: alias.to_owned(),
                rel_path,
                sha: s,
            },
        )
    } else {
        Ok(
            Pkg::SitePackagesPlain {
                site_packages: site_pkg_path.to_owned(),
                alias: alias.to_owned(),
                rel_path,
            },
        )
    }
}

/// Whether the user asked to leave a path out: it lies under a skip prefix,
/// or it is a shared library whose basename is a skipped library name
/// (skip-list entries are compared trimmed).
pub open spec fn spec_should_skip(skip: Skip, p: Seq<char>, shared: bool) -> bool {
    (exists|i: int|
        0 <= i < skip.prefixes@.len() && spec_path_starts_with(
            p,
            (#[trigger] skip.prefixes@[i])@,
        )) || (shared && (exists|j: int|
        0 <= j < skip.libs@.len() && Some(spec_trim((#[trigger] skip.libs@[j])@))
            == spec_basename(p)))
}

/// The factory that builds graph nodes on the real host.
pub struct NodeFactory {
    /// The search-path topology.
    pub site_pkgs: SitePkgs,
    /// The interpreter version.
    pub version: Version,
    /// The host as the packer sees it.
    pub host: Host,
    /// What the user asked to leave out.
    pub skip: Skip,
}

impl NodeFactory {
    /// A factory over the given topology and host.
    pub fn new(site_pkgs: SitePkgs, version: Version, host: Host, skip: Skip) -> (r: NodeFactory)
        ensures
            r == (NodeFactory { site_pkgs, version, host, skip }),
    {
        NodeFactory { site_pkgs, version, host, skip }
    }

    /// Whether a shared library's basename is on the skip list.
    pub fn is_path_in_skipped_shared_libs(&self, path: &str) -> (r: bool)
        ensures
            r == exists|j: int|
                0 <= j < self.skip.libs@.len() && Some(
                    spec_trim((#[trigger] self.skip.libs@[j])@),
                ) == spec_basename(path@),
    {
        let name: String = match basename(path) {
            Some(n) => n,
            None => {
                proof {
                    assert(forall|j: int|
                        0 <= j < self.skip.libs@.len() ==> Some(
                            spec_trim((#[trigger] self.skip.libs@[j])@),
                        ) != spec_basename(path@));
                }
                return false;
            },
        };
        let mut j: usize = 0;
        while j < self.skip.libs.len()
            invariant
                j <= self.skip.libs@.len(),
                spec_basename(path@) == Some(name@),
                forall|k: int|
                    0 <= k < j ==> Some(spec_trim((#[trigger] self.skip.libs@[k])@))
                        != spec_basename(path@),
            decreases self.skip.libs@.len() - j,
        {
            let t: String = trim(self.skip.libs[j].as_str());
            if str_eq(t.as_str(), name.as_str()) {
                return true;
            }
            j = j + 1;
        }
        false
    }

    /// Whether a path is left out of the build.
    pub fn should_skip(&self, path: &str, shared: bool) -> (r: bool)
        ensures
            r == spec_should_skip(self.skip, path@, shared),
    {
        let mut i: usize = 0;
        while i < self.skip.prefixes.len()
            invariant
                i <= self.skip.prefixes@.len(),
                forall|k: int|
                    0 <= k < i ==> !spec_path_starts_with(
                        path@,
                        (#[trigger] self.skip.prefixes@[k])@,
                    ),
            decreases self.skip.prefixes@.len() - i,
        {
            if path_starts_with(path, self.skip.prefixes[i].as_str()) {
                return true;
            }
            i = i + 1;
        }
        if shared && self.is_path_in_skipped_shared_libs(path) {
            return true;
        }
        false
    }

    /// The parsed dependencies of a path on this host.
    pub fn create_deps(
        &self,
        path: &str,
        known_libs: &StrMap,
        extra_search_paths: &Vec<String>,
    ) -> (r: Result<Deps, YarpError>)
        ensures
            match r {
                Ok(d) => match crate::deps::spec_create_deps(
                    path@,
                    self.host,
                    known_libs@,
                    strs_view(extra_search_paths@),
                ) {
                    Ok(crate::deps::DepsOutcome::Binary(bv)) => d@
                        == crate::deps::DepsView::Binary(bv),
                    Ok(crate::deps::DepsOutcome::Plain) => d@ == crate::deps::DepsView::Plain,
                    Ok(crate::deps::DepsOutcome::Fatal) => false,
                    Err(()) => false,
                },
                Err(_) => crate::deps::spec_create_deps(
                    path@,
                    self.host,
                    known_libs@,
                    strs_view(extra_search_paths@),
                ) is Err || crate::deps::spec_create_deps(
                    path@,
                    self.host,
                    known_libs@,
                    strs_view(extra_search_paths@),
                ) == Ok::<crate::deps::DepsOutcome, ()>(crate::deps::DepsOutcome::Fatal),
            },
    {
        create_deps(path, &self.host, known_libs, extra_search_paths)
    }

    /// The first site-packages root that contains the path, with its alias.
    fn find_site_root(&self, p: &str) -> (r: Option<(String, String)>)
        ensures
            match r {
                Some(pair) => spec_site_match(self.site_pkgs.site_pkg_by_alias.pairs@, p@)
                    == Some((pair.0@, pair.1@)),
                None => spec_site_match(self.site_pkgs.site_pkg_by_alias.pairs@, p@) is None,
            },
    {
        let pairs: &Vec<(String, String)> = &self.site_pkgs.site_pkg_by_alias.pairs;
        let ghost pv = pairs@;
        proof {
            assert(pv.subrange(0, pv.len() as int) =~= pv);
        }
        let mut i: usize = 0;
        while i < pairs.len()
            invariant
                i <= pairs@.len(),
                pairs == &self.site_pkgs.site_pkg_by_alias.pairs,
                pv == pairs@,
                spec_site_match(pv, p@) == spec_site_match(
                    pv.subrange(i as int, pv.len() as int),
                    p@,
                ),
            decreases pairs@.len() - i,
        {
            let ghost rest = pv.subrange(i as int, pv.len() as int);
            proof {
                assert(rest[0] == pv[i as int]);
                assert(rest.subrange(1, rest.len() as int) =~= pv.subrange(
                    i + 1,
                    pv.len() as int,
                ));
            }
            if path_starts_with(p, pairs[i].0.as_str()) {
                return Some((pairs[i].0.clone(), pairs[i].1.clone()));
            }
            i = i + 1;
        }
        proof {
            assert(pv.subrange(pv.len() as int, pv.len() as int) =~= Seq::<(String, String)>::empty());
        }
        None
    }

    /// The classification of one path: canonicalize, honor the skip rules,
    /// parse the dependencies, and place the node by the configured roots —
    /// the dynamic-modules tree first, then the standard library, then the
    /// first matching site-packages root; a path outside every root must be
    /// a shared library and becomes a reals-only binary named by its
    /// recorded digest.
    pub fn make_node(
        &self,
        path: &String,
        known_libs: &StrMap,
        extra_search_paths: &Vec<String>,
    ) -> (r: Result<Option<Node>, YarpError>)
        ensures
            self.skips(path@) ==> (r matches Ok(o) && o is None),
            r matches Ok(o) ==> ((o is None <==> self.skips(path@)) && (o matches Some(n)
                ==> n.path@ == spec_normalize(path@) && spec_classified(*self, n))),
            !self.skips(path@) ==> (r is Err <==> spec_make_fails(
                *self,
                spec_normalize(path@),
                known_libs@,
                strs_view(extra_search_paths@),
            )),
    {
        let p: String = normalize_path(path.as_str());
        if self.should_skip(p.as_str(), is_shared_library(p.as_str())) {
            return Ok(None);
        }
        if !self.host.fs.path_exists(p.as_str()) {
            return Err(YarpError::MissingFile(p));
        }
        let deps: Deps = match self.create_deps(p.as_str(), known_libs, extra_search_paths) {
            Ok(d) => d,
            Err(e) => {
                return Err(e);
            },
        };
        let shared: bool = deps.is_shared_library();
        let sha: Option<String> = if shared {
            match self.host.sha_of(p.as_str()) {
                Ok(s) => Some(s),
                Err(e) => {
                    return Err(e);
                },
            }
        } else {
            None
        };
        if path_starts_with(p.as_str(), self.site_pkgs.lib_dynload.as_str()) {
            let pkg: Pkg = match get_exec_prefix_pkg(
                p.as_str(),
                self.site_pkgs.lib_dynload.as_str(),
                &self.version,
                shared,
                sha,
            ) {
                Ok(pk) => pk,
                Err(e) => {
                    return Err(e);
                },
            };
            return match Node::new(p, pkg, deps) {
                Ok(n) => Ok(Some(n)),
                Err(e) => Err(e),
            };
        }
        if path_starts_with(p.as_str(), self.site_pkgs.stdlib.as_str()) {
            let pkg: Pkg = match get_prefix_pkg(
                p.as_str(),
                self.site_pkgs.stdlib.as_str(),
                &self.version,
                shared,
                sha,
            ) {
                Ok(pk) => pk,
                Err(e) => {
                    return Err(e);
                },
            };
            return match Node::new(p, pkg, deps) {
                Ok(n) => Ok(Some(n)),
                Err(e) => Err(e),
            };
        }
        if let Some((site, alias)) = self.find_site_root(p.as_str()) {
            let pkg: Pkg = match get_site_packages_pkg(
                p.as_str(),
                site.as_str(),
                alias.as_str(),
                shared,
                sha,
            ) {
                Ok(pk) => pk,
                Err(e) => {
                    return Err(e);
                },
            };
            return match Node::new(p, pkg, deps) {
                Ok(n) => Ok(Some(n)),
                Err(e) => Err(e),
            };
        }
        if !shared {
            return Err(YarpError::OutsideRoots(p));
        }
        let s: String = match sha {
            Some(s) => s,
            None => {
                return Err(YarpError::MissingFile(p));
            },
        };
        match Node::new(p, Pkg::Binary { sha: s }, deps) {
            Ok(n) => Ok(Some(n)),
            Err(e) => Err(e),
        }
    }
}

/// The first site-packages pair whose root contains the path.
pub open spec fn spec_site_match(pairs: Seq<(String, String)>, p: Seq<char>) -> Option<
    (Seq<char>, Seq<char>),
>
    decreases pairs.len(),
{
    if pairs.len() == 0 {
        None
    } else if spec_path_starts_with(p, pairs[0].0@) {
        Some((pairs[0].0@, pairs[0].1@))
    } else {
        spec_site_match(pairs.subrange(1, pairs.len() as int), p)
    }
}

/// The conditions under which building a node for the canonical,
/// unskipped path `np` fails: the path does not exist; its dependencies
/// cannot be built (an unreadable object or an unresolvable reference); it
/// is a shared object with no recorded digest; its matched root admits no
/// relative path; or it lies outside every root and is not a shared
/// object.
pub open spec fn spec_make_fails(
    f: NodeFactory,
    np: Seq<char>,
    known: Map<Seq<char>, Seq<char>>,
    extra: Seq<Seq<char>>,
) -> bool {
    let dres = crate::deps::spec_create_deps(np, f.host, known, extra);
    let shared = dres matches Ok(crate::deps::DepsOutcome::Binary(_));
    ||| !f.host.fs.has_entry(np)
    ||| dres is Err
    ||| dres == Ok::<crate::deps::DepsOutcome, ()>(crate::deps::DepsOutcome::Fatal)
    ||| (shared && !f.host.shas@.contains_key(np))
    ||| (spec_path_starts_with(np, f.site_pkgs.lib_dynload@) && rel_path_of(
        np,
        f.site_pkgs.lib_dynload@,
    ) is None)
    ||| (!spec_path_starts_with(np, f.site_pkgs.lib_dynload@) && spec_path_starts_with(
        np,
        f.site_pkgs.stdlib@,
    ) && rel_path_of(np, f.site_pkgs.stdlib@) is None)
    ||| (!spec_path_starts_with(np, f.site_pkgs.lib_dynload@) && !spec_path_starts_with(
        np,
        f.site_pkgs.stdlib@,
    ) && (match spec_site_match(f.site_pkgs.site_pkg_by_alias.pairs@, np) {
        Some(pair) => rel_path_of(np, pair.0) is None,
        None => !shared,
    }))
}

/// A built node is placed where its canonical path lies: under the
/// dynamic-modules tree, under the standard library, under the first
/// matching site-packages root, or — outside every root — as a reals-only
/// binary; binary and plain placements follow the parsed deps, the
/// relative location is the path difference against the root, and every
/// reified placement carries the digest the host recorded.
pub open spec fn spec_classified(f: NodeFactory, n: Node) -> bool {
    let np = n.path@;
    let shared = n.deps is Binary;
    let sha_ok = f.host.shas@.contains_key(np) && n.pkg.spec_sha() == Some(f.host.shas@[np]);
    if spec_path_starts_with(np, f.site_pkgs.lib_dynload@) {
        if shared {
            &&& n.pkg matches Pkg::ExecPrefixBinary(pb)
            &&& n.pkg->ExecPrefixBinary_0.original_prefix@ == f.site_pkgs.lib_dynload@
            &&& Some(n.pkg->ExecPrefixBinary_0.rel_path@) == rel_path_of(
                np,
                f.site_pkgs.lib_dynload@,
            )
            &&& n.pkg->ExecPrefixBinary_0.version@ == f.version@
            &&& sha_ok
        } else {
            &&& n.pkg matches Pkg::ExecPrefixPlain(pp)
            &&& n.pkg->ExecPrefixPlain_0.original_prefix@ == f.site_pkgs.lib_dynload@
            &&& Some(n.pkg->ExecPrefixPlain_0.rel_path@) == rel_path_of(
                np,
                f.site_pkgs.lib_dynload@,
            )
            &&& n.pkg->ExecPrefixPlain_0.version@ == f.version@
        }
    } else if spec_path_starts_with(np, f.site_pkgs.stdlib@) {
        if shared {
            &&& n.pkg matches Pkg::PrefixBinary(pb)
            &&& n.pkg->PrefixBinary_0.original_prefix@ == f.site_pkgs.stdlib@
            &&& Some(n.pkg->PrefixBinary_0.rel_path@) == rel_path_of(np, f.site_pkgs.stdlib@)
            &&& n.pkg->PrefixBinary_0.version@ == f.version@
            &&& sha_ok
        } else {
            &&& n.pkg matches Pkg::PrefixPlain(pp)
            &&& n.pkg->PrefixPlain_0.original_prefix@ == f.site_pkgs.stdlib@
            &&& Some(n.pkg->PrefixPlain_0.rel_path@) == rel_path_of(np, f.site_pkgs.stdlib@)
            &&& n.pkg->PrefixPlain_0.version@ == f.version@
        }
    } else {
        match spec_site_match(f.site_pkgs.site_pkg_by_alias.pairs@, np) {
            Some(pair) => if shared {
                &&& n.pkg matches Pkg::SitePackagesBinary { site_packages, alias, rel_path, sha }
                &&& n.pkg->SitePackagesBinary_site_packages@ == pair.0
                &&& n.pkg->SitePackagesBinary_alias@ == pair.1
                &&& Some(n.pkg->SitePackagesBinary_rel_path@) == rel_path_of(np, pair.0)
                &&& sha_ok
            } else {
                &&& n.pkg matches Pkg::SitePackagesPlain { site_packages, alias, rel_path }
                &&& n.pkg->SitePackagesPlain_site_packages@ == pair.0
                &&& n.pkg->SitePackagesPlain_alias@ == pair.1
                &&& Some(n.pkg->SitePackagesPlain_rel_path@) == rel_path_of(np, pair.0)
            },
            None => {
                &&& shared
                &&& n.pkg matches Pkg::Binary { sha }
                &&& sha_ok
            },
        }
    }
}

impl NodeFactory {
    /// The node for the interpreter executable: it keeps the given path, is
    /// placed as the executable, and carries the dependencies parsed on
    /// this host with an empty known-libs index and no inherited search
    /// paths.
    pub fn executable_node(&self, path: &String) -> (r: Result<Node, YarpError>)
        ensures
            r matches Ok(n) ==> n.path@ == path@ && n.pkg is Executable && (match
                crate::deps::spec_create_deps(
                path@,
                self.host,
                crate::strmap::map_of(Seq::empty()),
                Seq::empty(),
            ) {
                Ok(crate::deps::DepsOutcome::Binary(bv)) => n.deps@
                    == crate::deps::DepsView::Binary(bv),
                Ok(crate::deps::DepsOutcome::Plain) => n.deps@ == crate::deps::DepsView::Plain,
                _ => false,
            }),
    {
        let known: StrMap = StrMap::new();
        let extra: Vec<String> = Vec::new();
        proof {
            assert(strs_view(extra@) =~= Seq::<Seq<char>>::empty());
        }
        let deps: Deps = match self.create_deps(path.as_str(), &known, &extra) {
            Ok(d) => d,
            Err(e) => {
                return Err(e);
            },
        };
        Node::new(path.clone(), Pkg::Executable, deps)
    }
}

impl Factory for NodeFactory {
    /// The paths this factory refuses: the skip rules, applied to the
    /// canonical form of the path.
    open spec fn skips(&self, path: Seq<char>) -> bool {
        spec_should_skip(
            self.skip,
            spec_normalize(path),
            spec_is_shared_library(spec_normalize(path)),
        )
    }

    /// Builds the node for a path; the classification itself is stated and
    /// proved on `make_node`.
    fn make(
        &self,
        path: &String,
        known_libs: &StrMap,
        extra_search_paths: &Vec<String>,
    ) -> (r: Result<Option<Node>, YarpError>)
    {
        self.make_node(path, known_libs, extra_search_paths)
    }

    /// Builds the node for a user-declared load-time library: it must be a
    /// shared object; it lands in the dist's load path with its extra
    /// symlink names.
    fn make_with_symlinks(
        &self,
        path: &String,
        symlinks: &Vec<String>,
        known_libs: &StrMap,
        extra_search_paths: &Vec<String>,
    ) -> (r: Result<Option<Node>, YarpError>)
    {
        let p: String = normalize_path(path.as_str());
        let deps: Deps = match self.create_deps(p.as_str(), known_libs, extra_search_paths) {
            Ok(d) => d,
            Err(e) => {
                return Err(e);
            },
        };
        if !deps.is_shared_library() {
            return Err(YarpError::NotASharedLibrary(p));
        }
        if self.should_skip(p.as_str(), is_shared_library(p.as_str())) {
            return Ok(None);
        }
        let sha: String = match self.host.sha_of(p.as_str()) {
            Ok(s) => s,
            Err(e) => {
                return Err(e);
            },
        };
        let links: Vec<String> = crate::binary::dup_strs(symlinks);
        match Node::new(p, Pkg::BinaryInLDPath { symlinks: links, sha }, deps) {
            Ok(n) => Ok(Some(n)),
            Err(e) => Err(e),
        }
    }

    /// The node for the interpreter executable itself; the classification
    /// is stated on `executable_node`.
    fn make_py_executable(&self, path: &String) -> (r: Result<Node, YarpError>) {
        self.executable_node(path)
    }
}

} // verus!
