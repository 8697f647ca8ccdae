//! The dist layout: where each placement's reals entry, symlink farm and
//! logical destination live inside the dist tree.

use vstd::prelude::*;

verus! {

use crate::manifest::Version;
use crate::manifest::spec_interp_dir;
use crate::node::Node;
use crate::node::Pkg;
use crate::paths::spec_join_path;
use crate::paths::spec_basename;
use crate::paths::spec_extension;
use crate::paths::join_path;
use crate::paths::basename;
use crate::paths::extension;
use crate::strutil::concat_str;
use crate::strutil::push_char;

/// The per-alias site-packages directory, relative to the dist root.
pub open spec fn spec_site_pkgs_rel(alias: Seq<char>) -> Seq<char> {
    spec_join_path("site_packages"@, alias)
}

/// The site-packages directory of an alias, relative to the dist root.
pub fn site_pkgs_relative_path(alias: &str) -> (r: String)
    ensures
        r@ == spec_site_pkgs_rel(alias@),
{
    join_path("site_packages", alias)
}

/// The standard-library tree, relative to the dist root.
pub open spec fn spec_stdlib_rel(version: Version) -> Seq<char> {
    spec_join_path(spec_join_path("interp"@, "lib"@), spec_interp_dir(version))
}

/// The standard-library tree of the dist.
pub fn stdlib_relative_path(version: &Version) -> (r: String)
    ensures
        r@ == spec_stdlib_rel(*version),
{
    let a: String = join_path("interp", "lib");
    let v: String = version.get_python_version();
    join_path(a.as_str(), v.as_str())
}

/// The dynamic-modules tree, relative to the dist root.
pub open spec fn spec_lib_dynload_rel(version: Version) -> Seq<char> {
    spec_join_path(spec_stdlib_rel(version), "lib-dynload"@)
}

/// The dynamic-modules tree of the dist.
pub fn lib_dynload_relative_path(version: &Version) -> (r: String)
    ensures
        r@ == spec_lib_dynload_rel(*version),
{
    let a: String = stdlib_relative_path(version);
    join_path(a.as_str(), "lib-dynload")
}

/// The reals entry of a digest: `<dist>/reals/r/<sha>[.<ext>]`, the
/// extension taken from the source path.
pub open spec fn spec_reals_path(sha: Seq<char>, path: Seq<char>, dist: Seq<char>) -> Seq<char> {
    let fname = match spec_extension(path) {
        Some(ext) => sha + "."@ + ext,
        None => sha,
    };
    spec_join_path(spec_join_path(spec_join_path(dist, "reals"@), "r"@), fname)
}

/// The reals entry a digest names inside the dist.
pub fn reals_path_for_sha(sha: &str, path: &str, dist: &str) -> (r: Option<String>)
    ensures
        r matches Some(p) && p@ == spec_reals_path(sha@, path@, dist@),
{
    let fname: String = match extension(path) {
        Some(ext) => {
            let mut s: String = sha.to_owned();
            push_char(&mut s, '.');
            proof {
                reveal_strlit(".");
                assert("."@ =~= seq!['.']);
                assert(s@ =~= sha@ + "."@);
            }
            concat_str(s, ext.as_str())
        },
        None => sha.to_owned(),
    };
    let a: String = join_path(dist, "reals");
    let b: String = join_path(a.as_str(), "r");
    Some(join_path(b.as_str(), fname.as_str()))
}

/// Two reified files with the same basename share a reals entry exactly
/// when their content digests are equal.
pub proof fn lemma_shared_reals_iff_equal_digest(
    sha1: Seq<char>,
    sha2: Seq<char>,
    p1: Seq<char>,
    p2: Seq<char>,
    dist: Seq<char>,
)
    requires
        spec_basename(p1) == spec_basename(p2),
        sha1.len() == sha2.len(),
    ensures
        spec_reals_path(sha1, p1, dist) == spec_reals_path(sha2, p2, dist) <==> sha1 == sha2,
{
    assert(spec_extension(p1) == spec_extension(p2));
    let f1 = match spec_extension(p1) {
        Some(ext) => sha1 + "."@ + ext,
        None => sha1,
    };
    let f2 = match spec_extension(p2) {
        Some(ext) => sha2 + "."@ + ext,
        None => sha2,
    };
    if spec_reals_path(sha1, p1, dist) == spec_reals_path(sha2, p2, dist) {
        let base = spec_join_path(spec_join_path(dist, "reals"@), "r"@);
        assert(spec_join_path(base, f1) == spec_join_path(base, f2));
        assert(f1.len() == f2.len());
        lemma_join_suffix(base, f1);
        lemma_join_suffix(base, f2);
        let j1 = spec_join_path(base, f1);
        let j2 = spec_join_path(base, f2);
        assert(j1.len() == j2.len()) by {
            lemma_join_len(base, f1);
            lemma_join_len(base, f2);
        }
        assert(f1 =~= f2) by {
            assert(forall|k: int|
                0 <= k < f1.len() ==> (#[trigger] f1[k]) == j1[j1.len() - f1.len() + k]);
            assert(forall|k: int|
                0 <= k < f2.len() ==> (#[trigger] f2[k]) == j2[j2.len() - f2.len() + k]);
        }
        assert(sha1 =~= sha2) by {
            assert(forall|k: int| 0 <= k < sha1.len() ==> (#[trigger] sha1[k]) == f1[k]);
            assert(forall|k: int| 0 <= k < sha2.len() ==> (#[trigger] sha2[k]) == f2[k]);
        }
    }
    if sha1 == sha2 {
        assert(f1 == f2);
    }
}

proof fn lemma_join_suffix(d: Seq<char>, n: Seq<char>)
    ensures
        spec_join_path(d, n).len() >= n.len(),
        forall|k: int|
            0 <= k < n.len() ==> #[trigger] spec_join_path(d, n)[spec_join_path(d, n).len()
                - n.len() + k] == n[k],
{
    let j = spec_join_path(d, n);
    if crate::paths::spec_is_abs(n) {
        assert(j == n);
    } else if d.len() > 0 && d[d.len() - 1] == '/' {
        assert(j == d + n);
    } else if d.len() == 0 {
        assert(j == n);
    } else {
        assert(j == d + seq!['/'] + n);
        assert(forall|k: int| 0 <= k < n.len() ==> #[trigger] j[j.len() - n.len() + k] == n[k]);
    }
}

proof fn lemma_join_len(d: Seq<char>, n: Seq<char>)
    ensures
        spec_join_path(d, n).len() == if crate::paths::spec_is_abs(n) {
            n.len()
        } else if d.len() > 0 && d[d.len() - 1] == '/' {
            d.len() + n.len()
        } else if d.len() == 0 {
            n.len()
        } else {
            d.len() + 1 + n.len()
        },
{
}

/// The symlink-farm directory of a source path: `<dist>/symlinks/<basename>`.
pub open spec fn spec_farm_path(path: Seq<char>, dist: Seq<char>) -> Option<Seq<char>> {
    match spec_basename(path) {
        None => None,
        Some(name) => Some(spec_join_path(spec_join_path(dist, "symlinks"@), name)),
    }
}

/// The symlink-farm directory of a source path inside the dist.
pub fn symlink_farm_path(path: &str, dist: &str) -> (r: Option<String>)
    ensures
        match r {
            Some(p) => spec_farm_path(path@, dist@) == Some(p@),
            None => spec_farm_path(path@, dist@) is None,
        },
{
    match basename(path) {
        None => None,
        Some(name) => {
            let a: String = join_path(dist, "symlinks");
            Some(join_path(a.as_str(), name.as_str()))
        },
    }
}

/// Where each placement lands in the dist.
pub trait ExportedFileTree {
    /// The logical destination, when the placement has one.
    fn destination(&self, path: &str, dist: &str) -> Option<String>;

    /// The reals entry, for the placements that are reified.
    fn reals(&self, node: &Node, dist: &str) -> Option<String>;

    /// The symlink-farm directory, for the placements that get one.
    fn symlink_farm(&self, path: &str, dist: &str) -> Option<String>;
}

/// The destination of a placement: site-packages under the alias, prefix
/// trees mirrored under the interp directories, the executable at its
/// well-known path, load-path libraries under `lib/l`, and none for plain
/// or reals-only nodes.
pub open spec fn spec_destination(pkg: Pkg, path: Seq<char>, dist: Seq<char>) -> Option<
    Seq<char>,
> {
    match pkg {
        Pkg::SitePackagesPlain { site_packages: _, alias, rel_path } => Some(
            spec_join_path(spec_join_path(dist, spec_site_pkgs_rel(alias@)), rel_path@),
        ),
        Pkg::SitePackagesBinary { site_packages: _, alias, rel_path, sha: _ } => Some(
            spec_join_path(spec_join_path(dist, spec_site_pkgs_rel(alias@)), rel_path@),
        ),
        Pkg::ExecPrefixPlain(p) => Some(
            spec_join_path(spec_join_path(dist, spec_lib_dynload_rel(p.version)), p.rel_path@),
        ),
        Pkg::ExecPrefixBinary(p) => Some(
            spec_join_path(spec_join_path(dist, spec_lib_dynload_rel(p.version)), p.rel_path@),
        ),
        Pkg::PrefixPlain(p) => Some(
            spec_join_path(spec_join_path(dist, spec_stdlib_rel(p.version)), p.rel_path@),
        ),
        Pkg::PrefixBinary(p) => Some(
            spec_join_path(spec_join_path(dist, spec_stdlib_rel(p.version)), p.rel_path@),
        ),
        Pkg::Plain => None,
        Pkg::BinaryInLDPath { symlinks: _, sha: _ } => match spec_basename(path) {
            None => None,
            Some(name) => Some(
                spec_join_path(spec_join_path(spec_join_path(dist, "lib"@), "l"@), name),
            ),
        },
        Pkg::Binary { sha: _ } => None,
        Pkg::Executable => Some(
            spec_join_path(spec_join_path(spec_join_path(dist, "interp"@), "bin"@), "interp"@),
        ),
    }
}

/// The reals entry of a placement: binary placements are reified under
/// their digest, everything else is not.
pub open spec fn spec_reals(pkg: Pkg, path: Seq<char>, dist: Seq<char>) -> Option<Seq<char>> {
    match pkg.spec_sha() {
        Some(sha) => Some(spec_reals_path(sha, path, dist)),
        None => None,
    }
}

/// The farm of a placement: every binary placement and the executable get
/// one; plain placements do not.
pub open spec fn spec_farm(pkg: Pkg, path: Seq<char>, dist: Seq<char>) -> Option<Seq<char>> {
    match pkg {
        Pkg::SitePackagesPlain { .. } => None,
        Pkg::Plain => None,
        Pkg::ExecPrefixPlain(_) => None,
        Pkg::PrefixPlain(_) => None,
        _ => spec_farm_path(path, dist),
    }
}

impl ExportedFileTree for Pkg {
    fn destination(&self, path: &str, dist: &str) -> (r: Option<String>)
        ensures
            match r {
                Some(d) => spec_destination(*self, path@, dist@) == Some(d@),
                None => spec_destination(*self, path@, dist@) is None,
            },
    {
        match self {
            Pkg::SitePackagesPlain { site_packages: _, alias, rel_path } => {
                let a: String = site_pkgs_relative_path(alias.as_str());
                let b: String = join_path(dist, a.as_str());
                Some(join_path(b.as_str(), rel_path.as_str()))
            },
            Pkg::SitePackagesBinary { site_packages: _, alias, rel_path, sha: _ } => {
                let a: String = site_pkgs_relative_path(alias.as_str());
                let b: String = join_path(dist, a.as_str());
                Some(join_path(b.as_str(), rel_path.as_str()))
            },
            Pkg::ExecPrefixPlain(p) => {
                let a: String = lib_dynload_relative_path(&p.version);
                let b: String = join_path(dist, a.as_str());
                Some(join_path(b.as_str(), p.rel_path.as_str()))
            },
            Pkg::ExecPrefixBinary(p) => {
                let a: String = lib_dynload_relative_path(&p.version);
                let b: String = join_path(dist, a.as_str());
                Some(join_path(b.as_str(), p.rel_path.as_str()))
            },
            Pkg::PrefixPlain(p) => {
                let a: String = stdlib_relative_path(&p.version);
                let b: String = join_path(dist, a.as_str());
                Some(join_path(b.as_str(), p.rel_path.as_str()))
            },
            Pkg::PrefixBinary(p) => {
                let a: String = stdlib_relative_path(&p.version);
                let b: String = join_path(dist, a.as_str());
                Some(join_path(b.as_str(), p.rel_path.as_str()))
            },
            Pkg::Plain => None,
            Pkg::BinaryInLDPath { symlinks: _, sha: _ } => {
                match basename(path) {
                    None => None,
                    Some(name) => {
                        let a: String = join_path(dist, "lib");
                        let b: String = join_path(a.as_str(), "l");
                        Some(join_path(b.as_str(), name.as_str()))
                    },
                }
            },
            Pkg::Binary { sha: _ } => None,
            Pkg::Executable => {
                let a: String = join_path(dist, "interp");
                let b: String = join_path(a.as_str(), "bin");
                Some(join_path(b.as_str(), "interp"))
            },
        }
    }

    fn reals(&self, node: &Node, dist: &str) -> (r: Option<String>)
        ensures
            match r {
                Some(p) => spec_reals(*self, node.path@, dist@) == Some(p@),
                None => spec_reals(*self, node.path@, dist@) is None,
            },
    {
        match self {
            Pkg::SitePackagesBinary { site_packages: _, alias: _, rel_path: _, sha } => {
                reals_path_for_sha(sha.as_str(), node.path.as_str(), dist)
            },
            Pkg::ExecPrefixBinary(p) => {
                reals_path_for_sha(p.sha.as_str(), node.path.as_str(), dist)
            },
            Pkg::PrefixBinary(p) => reals_path_for_sha(p.sha.as_str(), node.path.as_str(), dist),
            Pkg::Binary { sha } => reals_path_for_sha(sha.as_str(), node.path.as_str(), dist),
            Pkg::BinaryInLDPath { symlinks: _, sha } => {
                reals_path_for_sha(sha.as_str(), node.path.as_str(), dist)
            },
            _ => None,
        }
    }

    fn symlink_farm(&self, path: &str, dist: &str) -> (r: Option<String>)
        ensures
            match r {
                Some(p) => spec_farm(*self, path@, dist@) == Some(p@),
                None => spec_farm(*self, path@, dist@) is None,
            },
    {
        match self {
            Pkg::SitePackagesPlain { .. } => None,
            Pkg::Plain => None,
            Pkg::ExecPrefixPlain(_) => None,
            Pkg::PrefixPlain(_) => None,
            _ => symlink_farm_path(path, dist),
        }
    }
}

/// A shared-library file by extension; the farm and reals decisions follow
/// the parsed deps, this is the lexical pre-check.
pub fn is_shared_library(path: &str) -> (r: bool)
    ensures
        r == crate::paths::spec_is_shared_library(path@),
{
    crate::paths::is_shared_library(path)
}

} // verus!
