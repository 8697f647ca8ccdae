//! A node of the dependency graph: a file, its placement in the dist
//! (`Pkg`), and its load-time needs (`Deps`). Node identity is the
//! canonical path alone.

use vstd::prelude::*;

verus! {

use crate::deps::Deps;
use crate::digest::make_digest;
use crate::digest::blake3_hex_of;
use crate::errors::YarpError;
use crate::manifest::Version;
use crate::paths::spec_is_shared_library;
use crate::paths::is_shared_library;

/// A plain file under an interpreter prefix.
#[derive(Clone)]
pub struct PrefixPlain {
    /// The prefix the file was found under.
    pub original_prefix: String,
    /// The file's path relative to that prefix.
    pub rel_path: String,
    /// The interpreter version the prefix belongs to.
    pub version: Version,
}

/// A shared object under an interpreter prefix.
#[derive(Clone)]
pub struct PrefixBinary {
    /// The prefix the file was found under.
    pub original_prefix: String,
    /// The file's path relative to that prefix.
    pub rel_path: String,
    /// The interpreter version the prefix belongs to.
    pub version: Version,
    /// The content digest naming the reals entry.
    pub sha: String,
}

/// How a node is placed in the dist.
#[derive(Clone)]
pub enum Pkg {
    /// A plain file under a site-packages root, kept under the root's alias.
    SitePackagesPlain { site_packages: String, alias: String, rel_path: String },
    /// A shared object under a site-packages root.
    SitePackagesBinary { site_packages: String, alias: String, rel_path: String, sha: String },
    /// A plain file under the dynamic-modules subtree.
    ExecPrefixPlain(PrefixPlain),
    /// A shared object under the dynamic-modules subtree.
    ExecPrefixBinary(PrefixBinary),
    /// A plain file under the standard-library prefix.
    PrefixPlain(PrefixPlain),
    /// A shared object under the standard-library prefix.
    PrefixBinary(PrefixBinary),
    /// The interpreter executable itself.
    Executable,
    /// A depended-on library that lives nowhere else: reals only.
    Binary { sha: String },
    /// A user-declared load-time library, placed in the dist's load path
    /// with extra symlink names beside it.
    BinaryInLDPath { symlinks: Vec<String>, sha: String },
    /// A plain file with no destination of its own.
    Plain,
}

impl Pkg {
    /// Classifies a bare path from its extension alone: shared-library
    /// extensions make a reals-only binary named by the digest of `data`,
    /// anything else is plain.
    pub fn from_path(path: &str, data: &[u8]) -> (r: Pkg)
        ensures
            spec_is_shared_library(path@) ==> (r matches Pkg::Binary { sha } && sha@
                == blake3_hex_of(data@)),
            !spec_is_shared_library(path@) ==> r is Plain,
    {
        if is_shared_library(path) {
            Pkg::Binary { sha: make_digest(data) }
        } else {
            Pkg::Plain
        }
    }

    /// The digest naming this node's reals entry, for the placements that
    /// have one: every binary placement, and nothing else.
    pub open spec fn spec_sha(&self) -> Option<Seq<char>> {
        match self {
            Pkg::SitePackagesBinary { sha, .. } => Some(sha@),
            Pkg::ExecPrefixBinary(p) => Some(p.sha@),
            Pkg::PrefixBinary(p) => Some(p.sha@),
            Pkg::Binary { sha } => Some(sha@),
            Pkg::BinaryInLDPath { sha, .. } => Some(sha@),
            _ => None,
        }
    }
}

/// The mathematical content of a prefix placement.
pub struct PrefixView {
    pub original_prefix: Seq<char>,
    pub rel_path: Seq<char>,
    pub version: crate::manifest::VersionView,
    pub sha: Option<Seq<char>>,
}

/// The mathematical content of a placement.
pub enum PkgView {
    SitePackagesPlain { site_packages: Seq<char>, alias: Seq<char>, rel_path: Seq<char> },
    SitePackagesBinary {
        site_packages: Seq<char>,
        alias: Seq<char>,
        rel_path: Seq<char>,
        sha: Seq<char>,
    },
    ExecPrefixPlain(PrefixView),
    ExecPrefixBinary(PrefixView),
    PrefixPlain(PrefixView),
    PrefixBinary(PrefixView),
    Executable,
    Binary { sha: Seq<char> },
    BinaryInLDPath { symlinks: Seq<Seq<char>>, sha: Seq<char> },
    Plain,
}

impl View for PrefixPlain {
    type V = PrefixView;

    open spec fn view(&self) -> PrefixView {
        PrefixView {
            original_prefix: self.original_prefix@,
            rel_path: self.rel_path@,
            version: self.version@,
            sha: None,
        }
    }
}

impl View for PrefixBinary {
    type V = PrefixView;

    open spec fn view(&self) -> PrefixView {
        PrefixView {
            original_prefix: self.original_prefix@,
            rel_path: self.rel_path@,
            version: self.version@,
            sha: Some(self.sha@),
        }
    }
}

impl View for Pkg {
    type V = PkgView;

    open spec fn view(&self) -> PkgView {
        match self {
            Pkg::SitePackagesPlain { site_packages, alias, rel_path } => PkgView::SitePackagesPlain {
                site_packages: site_packages@,
                alias: alias@,
                rel_path: rel_path@,
            },
            Pkg::SitePackagesBinary { site_packages, alias, rel_path, sha } => PkgView::SitePackagesBinary {
                site_packages: site_packages@,
                alias: alias@,
                rel_path: rel_path@,
                sha: sha@,
            },
            Pkg::ExecPrefixPlain(p) => PkgView::ExecPrefixPlain(p@),
            Pkg::ExecPrefixBinary(p) => PkgView::ExecPrefixBinary(p@),
            Pkg::PrefixPlain(p) => PkgView::PrefixPlain(p@),
            Pkg::PrefixBinary(p) => PkgView::PrefixBinary(p@),
            Pkg::Executable => PkgView::Executable,
            Pkg::Binary { sha } => PkgView::Binary { sha: sha@ },
            Pkg::BinaryInLDPath { symlinks, sha } => PkgView::BinaryInLDPath {
                symlinks: crate::paths::strs_view(symlinks@),
                sha: sha@,
            },
            Pkg::Plain => PkgView::Plain,
        }
    }
}

impl PrefixPlain {
    /// A copy with the same content.
    pub fn duplicate(&self) -> (r: PrefixPlain)
        ensures
            r@ == self@,
    {
        let r = PrefixPlain {
            original_prefix: self.original_prefix.clone(),
            rel_path: self.rel_path.clone(),
            version: self.version.duplicate(),
        };
        proof {
            assert(r@.original_prefix == self@.original_prefix);
            assert(r@.rel_path == self@.rel_path);
            assert(r@.version == self@.version);
        }
        r
    }
}

impl PrefixBinary {
    /// A copy with the same content.
    pub fn duplicate(&self) -> (r: PrefixBinary)
        ensures
            r@ == self@,
    {
        let r = PrefixBinary {
            original_prefix: self.original_prefix.clone(),
            rel_path: self.rel_path.clone(),
            version: self.version.duplicate(),
            sha: self.sha.clone(),
        };
        proof {
            assert(r@.original_prefix == self@.original_prefix);
            assert(r@.rel_path == self@.rel_path);
            assert(r@.version == self@.version);
            assert(r@.sha == self@.sha);
        }
        r
    }
}

impl Pkg {
    /// A copy with the same content.
    pub fn duplicate(&self) -> (r: Pkg)
        ensures
            r@ == self@,
    {
        match self {
            Pkg::SitePackagesPlain { site_packages, alias, rel_path } => {
                let r = Pkg::SitePackagesPlain {
                    site_packages: site_packages.clone(),
                    alias: alias.clone(),
                    rel_path: rel_path.clone(),
                };
                proof {
                    assert(r@ == self@);
                }
                r
            },
            Pkg::SitePackagesBinary { site_packages, alias, rel_path, sha } => {
                let r = Pkg::SitePackagesBinary {
                    site_packages: site_packages.clone(),
                    alias: alias.clone(),
                    rel_path: rel_path.clone(),
                    sha: sha.clone(),
                };
                proof {
                    assert(r@ == self@);
                }
                r
            },
            Pkg::ExecPrefixPlain(p) => Pkg::ExecPrefixPlain(p.duplicate()),
            Pkg::ExecPrefixBinary(p) => Pkg::ExecPrefixBinary(p.duplicate()),
            Pkg::PrefixPlain(p) => Pkg::PrefixPlain(p.duplicate()),
            Pkg::PrefixBinary(p) => Pkg::PrefixBinary(p.duplicate()),
            Pkg::Executable => Pkg::Executable,
            Pkg::Binary { sha } => Pkg::Binary { sha: sha.clone() },
            Pkg::BinaryInLDPath { symlinks, sha } => {
                let r = Pkg::BinaryInLDPath {
                    symlinks: crate::binary::dup_strs(symlinks),
                    sha: sha.clone(),
                };
                proof {
                    assert(r@ == self@);
                }
                r
            },
            Pkg::Plain => Pkg::Plain,
        }
    }
}

/// One file of the closure.
#[derive(Clone)]
pub struct Node {
    /// The canonical path: the node's identity.
    pub path: String,
    /// The node's load-time needs.
    pub deps: Deps,
    /// The node's placement in the dist.
    pub pkg: Pkg,
}

/// The mathematical content of a node.
pub struct NodeView {
    pub path: Seq<char>,
    pub deps: crate::deps::DepsView,
    pub pkg: PkgView,
}

impl View for Node {
    type V = NodeView;

    open spec fn view(&self) -> NodeView {
        NodeView { path: self.path@, deps: self.deps@, pkg: self.pkg@ }
    }
}

impl PartialEq for Node {
    /// Nodes are compared by path alone.
    fn eq(&self, other: &Self) -> (r: bool) {
        crate::strutil::str_eq(self.path.as_str(), other.path.as_str())
    }
}

impl vstd::std_specs::cmp::PartialEqSpecImpl for Node {
    open spec fn obeys_eq_spec() -> bool {
        true
    }

    open spec fn eq_spec(&self, other: &Node) -> bool {
        self.path@ == other.path@
    }
}

impl Node {
    /// A copy with the same content.
    pub fn duplicate(&self) -> (r: Node)
        ensures
            r@ == self@,
    {
        let r = Node {
            path: self.path.clone(),
            deps: self.deps.duplicate(),
            pkg: self.pkg.duplicate(),
        };
        proof {
            assert(r@.path == self@.path);
            assert(r@.deps == self@.deps);
            assert(r@.pkg == self@.pkg);
        }
        r
    }

    /// A node from its parts.
    pub fn new(path: String, pkg: Pkg, deps: Deps) -> (r: Result<Node, YarpError>)
        ensures
            r matches Ok(n) ==> n.path == path && n.pkg == pkg && n.deps == deps,
            r is Ok,
    {
        Ok(Node { path, deps, pkg })
    }

    /// A stand-in node with fixed dependency paths, placed as a bare
    /// binary whose digest is taken over the path text.
    pub fn mock(path: String, deps: Vec<String>) -> (r: Result<Node, YarpError>)
        ensures
            r matches Ok(n) ==> n.path == path && n.deps == (Deps::Mock { paths: deps }),
            r is Ok,
    {
        let sha: String = make_digest(path.as_str().as_bytes());
        Ok(Node { path, deps: Deps::Mock { paths: deps }, pkg: Pkg::Binary { sha } })
    }
}

} // verus!
