//! Site-packages topology: which manifest search paths stand on their own,
//! the short stable alias each top-level root receives, and the launcher
//! components they induce.

use vstd::prelude::*;

pub mod comps;

verus! {

use crate::manifest::Sys;
use crate::manifest::YarpManifest;
use crate::manifest::spec_interp_dir;
use crate::paths::spec_join_path;
use crate::paths::spec_path_starts_with;
use crate::paths::join_path;
use crate::paths::path_starts_with;
use crate::paths::strs_view;
use crate::strmap::StrMap;
use crate::strutil::str_eq;
use crate::site_pkgs::comps::PythonPathComponent;
use crate::site_pkgs::comps::get_python_path_mapping;
use crate::site_pkgs::comps::spec_path_component;

/// The search-path topology the manifest induces.
pub struct SitePkgs {
    /// Every manifest search path.
    pub resolved: Vec<String>,
    /// The alias of each top-level site-packages root.
    pub site_pkg_by_alias: StrMap,
    /// The dynamic-modules directory.
    pub lib_dynload: String,
    /// The standard-library directory.
    pub stdlib: String,
    /// The launcher components, in manifest order.
    pub comps: Vec<PythonPathComponent>,
}

/// The standard-library directory of an installation:
/// `<prefix>/<platlibdir>/<interp-dir>`.
pub open spec fn spec_stdlib_loc(sys: Sys) -> Seq<char> {
    spec_join_path(
        spec_join_path(sys.prefix@, sys.platlibdir@),
        spec_interp_dir(sys.version),
    )
}

/// The dynamic-modules directory: the standard-library layout under the
/// exec prefix, plus `lib-dynload`.
pub open spec fn spec_lib_dynload_loc(sys: Sys) -> Seq<char> {
    spec_join_path(
        spec_join_path(spec_join_path(sys.exec_prefix@, sys.platlibdir@), spec_interp_dir(sys.version)),
        "lib-dynload"@,
    )
}

/// The standard-library directory of the installation.
pub fn get_stdlib_loc(sys: &Sys) -> (r: String)
    ensures
        r@ == spec_stdlib_loc(*sys),
{
    let a: String = join_path(sys.prefix.as_str(), sys.platlibdir.as_str());
    let v: String = sys.version.get_python_version();
    join_path(a.as_str(), v.as_str())
}

/// The dynamic-modules directory of the installation.
pub fn get_lib_dynload_loc(sys: &Sys) -> (r: String)
    ensures
        r@ == spec_lib_dynload_loc(*sys),
{
    let a: String = join_path(sys.exec_prefix.as_str(), sys.platlibdir.as_str());
    let v: String = sys.version.get_python_version();
    let b: String = join_path(a.as_str(), v.as_str());
    join_path(b.as_str(), "lib-dynload")
}

/// The manifest search paths that are neither interpreter root.
pub open spec fn spec_without_prefixes(
    ps: Seq<Seq<char>>,
    lib_dynload: Seq<char>,
    stdlib: Seq<char>,
) -> Seq<Seq<char>>
    decreases ps.len(),
{
    if ps.len() == 0 {
        Seq::empty()
    } else {
        let pre = spec_without_prefixes(ps.drop_last(), lib_dynload, stdlib);
        if ps.last() != lib_dynload && ps.last() != stdlib {
            pre.push(ps.last())
        } else {
            pre
        }
    }
}

/// Drops the interpreter's own roots from the search paths.
pub fn get_site_pkgs_without_prefixes(
    site_pkgs: &Vec<String>,
    lib_dynload: &String,
    stdlib: &String,
) -> (r: Vec<String>)
    ensures
        strs_view(r@) == spec_without_prefixes(strs_view(site_pkgs@), lib_dynload@, stdlib@),
{
    let ghost pv = strs_view(site_pkgs@);
    let mut out: Vec<String> = Vec::new();
    let mut i: usize = 0;
    proof {
        assert(pv.take(0) =~= Seq::<Seq<char>>::empty());
        assert(strs_view(out@) =~= spec_without_prefixes(pv.take(0), lib_dynload@, stdlib@));
    }
    while i < site_pkgs.len()
        invariant
            i <= site_pkgs@.len(),
            pv == strs_view(site_pkgs@),
            strs_view(out@) == spec_without_prefixes(pv.take(i as int), lib_dynload@, stdlib@),
        decreases site_pkgs@.len() - i,
    {
        proof {
            assert(pv.take(i + 1).drop_last() =~= pv.take(i as int));
            assert(pv.take(i + 1).last() == pv[i as int]);
            assert(pv[i as int] == site_pkgs@[i as int]@);
        }
        if !str_eq(site_pkgs[i].as_str(), lib_dynload.as_str()) && !str_eq(
            site_pkgs[i].as_str(),
            stdlib.as_str(),
        ) {
            let c: String = site_pkgs[i].clone();
            let ghost prev = strs_view(out@);
            out.push(c);
            proof {
                assert(strs_view(out@) =~= prev.push(pv[i as int]));
            }
        }
        i = i + 1;
    }
    proof {
        assert(pv.take(site_pkgs@.len() as int) =~= pv);
    }
    out
}

/// Whether `p` lies strictly below some other path of the set.
pub open spec fn spec_is_nested(p: Seq<char>, others: Seq<Seq<char>>) -> bool {
    exists|i: int|
        0 <= i < others.len() && p != (#[trigger] others[i]) && spec_path_starts_with(p, others[i])
}

/// Whether `p` is a nested path of some other candidate root.
pub fn is_sub_path_of_other_pkgs(p: &String, sys_path: &Vec<String>) -> (r: bool)
    ensures
        r == spec_is_nested(p@, strs_view(sys_path@)),
{
    let ghost sv = strs_view(sys_path@);
    let mut i: usize = 0;
    while i < sys_path.len()
        invariant
            i <= sys_path@.len(),
            sv == strs_view(sys_path@),
            forall|j: int|
                0 <= j < i ==> !(p@ != (#[trigger] sv[j]) && spec_path_starts_with(p@, sv[j])),
        decreases sys_path@.len() - i,
    {
        if !str_eq(p.as_str(), sys_path[i].as_str()) && path_starts_with(
            p.as_str(),
            sys_path[i].as_str(),
        ) {
            assert(sv[i as int] == sys_path@[i as int]@);
            return true;
        }
        proof {
            assert(sv[i as int] == sys_path@[i as int]@);
        }
        i = i + 1;
    }
    false
}

/// The candidate roots that are not nested below another candidate or
/// below an interpreter root.
pub open spec fn spec_top_level(
    ps: Seq<Seq<char>>,
    all: Seq<Seq<char>>,
) -> Seq<Seq<char>>
    decreases ps.len(),
{
    if ps.len() == 0 {
        Seq::empty()
    } else {
        let pre = spec_top_level(ps.drop_last(), all);
        if !spec_is_nested(ps.last(), all) {
            pre.push(ps.last())
        } else {
            pre
        }
    }
}

/// Keeps only the top-level site-packages roots: one nested inside another
/// root (or inside an interpreter root) is attributed to its enclosing
/// root instead.
pub fn only_top_level_site_pkgs(
    sys_path: &Vec<String>,
    lib_dynload: &String,
    stdlib: &String,
) -> (r: Vec<String>)
    ensures
        strs_view(r@) == spec_top_level(
            strs_view(sys_path@),
            strs_view(sys_path@).push(lib_dynload@).push(stdlib@),
        ),
{
    let mut all: Vec<String> = Vec::new();
    let mut i: usize = 0;
    while i < sys_path.len()
        invariant
            i <= sys_path@.len(),
            strs_view(all@) == strs_view(sys_path@).take(i as int),
        decreases sys_path@.len() - i,
    {
        let c: String = sys_path[i].clone();
        let ghost prev = strs_view(all@);
        all.push(c);
        proof {
            assert(strs_view(all@) =~= prev.push(sys_path@[i as int]@));
            assert(strs_view(sys_path@).take(i + 1) =~= strs_view(sys_path@).take(i as int).push(
                sys_path@[i as int]@,
            ));
        }
        i = i + 1;
    }
    proof {
        assert(strs_view(sys_path@).take(sys_path@.len() as int) =~= strs_view(sys_path@));
    }
    all.push(lib_dynload.clone());
    all.push(stdlib.clone());
    let ghost allv = strs_view(sys_path@).push(lib_dynload@).push(stdlib@);
    proof {
        assert(strs_view(all@) =~= allv);
    }
    let ghost pv = strs_view(sys_path@);
    let mut out: Vec<String> = Vec::new();
    let mut k: usize = 0;
    proof {
        assert(pv.take(0) =~= Seq::<Seq<char>>::empty());
        assert(strs_view(out@) =~= spec_top_level(pv.take(0), allv));
    }
    while k < sys_path.len()
        invariant
            k <= sys_path@.len(),
            pv == strs_view(sys_path@),
            allv == strs_view(sys_path@).push(lib_dynload@).push(stdlib@),
            strs_view(all@) == allv,
            strs_view(out@) == spec_top_level(pv.take(k as int), allv),
        decreases sys_path@.len() - k,
    {
        proof {
            assert(pv.take(k + 1).drop_last() =~= pv.take(k as int));
            assert(pv.take(k + 1).last() == pv[k as int]);
            assert(pv[k as int] == sys_path@[k as int]@);
        }
        if !is_sub_path_of_other_pkgs(&sys_path[k], &all) {
            let c: String = sys_path[k].clone();
            let ghost prev = strs_view(out@);
            out.push(c);
            proof {
                assert(strs_view(out@) =~= prev.push(pv[k as int]));
            }
        }
        k = k + 1;
    }
    proof {
        assert(pv.take(sys_path@.len() as int) =~= pv);
    }
    out
}

/// An alias: at least ten lowercase letters.
pub open spec fn spec_is_alias(s: Seq<char>) -> bool {
    s.len() >= 10 && forall|i: int| 0 <= i < s.len() ==> 'a' <= #[trigger] s[i] <= 'z'
}

/// Relies on `rand::rng` and `Rng::random_range`: a value below the bound;
/// nothing more is promised of it.
#[verifier::external_body]
fn rand_below(n: u32) -> (r: u32)
    requires
        n > 0,
    ensures
        r < n,
{
    rand::Rng::random_range(&mut rand::rng(), 0..n)
}

/// Ten fresh random lowercase letters.
pub fn random_string() -> (r: String)
    ensures
        r@.len() == 10,
        forall|i: int| 0 <= i < r@.len() ==> 'a' <= #[trigger] r@[i] <= 'z',
{
    let mut out: String = String::new();
    let mut i: usize = 0;
    while i < 10
        invariant
            i <= 10,
            out@.len() == i,
            forall|j: int| 0 <= j < out@.len() ==> 'a' <= #[trigger] out@[j] <= 'z',
        decreases 10 - i,
    {
        let d: u32 = rand_below(26);
        let b: u8 = 97 + (d as u8);
        let c: char = b as char;
        proof {
            assert('a' <= c <= 'z');
        }
        crate::strutil::push_char(&mut out, c);
        i = i + 1;
    }
    out
}

/// Gives each top-level root a fresh alias: ten random letters, with one
/// more trailing letter per earlier root, so the aliases of distinct roots
/// differ in length and dist subtrees cannot collide even when the random
/// draws do.
pub fn create_site_pkgs_alias(site_pkgs: &Vec<String>) -> (r: StrMap)
    ensures
        forall|p: Seq<char>|
            r@.contains_key(p) <==> exists|i: int|
                0 <= i < site_pkgs@.len() && (#[trigger] site_pkgs@[i])@ == p,
        forall|p: Seq<char>| r@.contains_key(p) ==> spec_is_alias(r@[p]),
        r.pairs@.len() == site_pkgs@.len(),
        forall|i: int|
            0 <= i < site_pkgs@.len() ==> r.pairs_view()[i].0 == (#[trigger] site_pkgs@[i])@,
        forall|i: int|
            0 <= i < site_pkgs@.len() ==> (#[trigger] r.pairs_view()[i]).1.len() == 10 + i,
        forall|i: int, j: int|
            0 <= i < j < site_pkgs@.len() ==> (#[trigger] r.pairs_view()[i]).1 != (
            #[trigger] r.pairs_view()[j]).1,
    {
    let mut out: StrMap = StrMap::new();
    let mut i: usize = 0;
    while i < site_pkgs.len()
        invariant
            i <= site_pkgs@.len(),
            out.pairs@.len() == i,
            forall|j: int|
                0 <= j < i ==> out.pairs_view()[j].0 == (#[trigger] site_pkgs@[j])@,
            forall|p: Seq<char>|
                out@.contains_key(p) <==> exists|j: int|
                    0 <= j < i && (#[trigger] site_pkgs@[j])@ == p,
            forall|p: Seq<char>| out@.contains_key(p) ==> spec_is_alias(out@[p]),
            forall|j: int| 0 <= j < i ==> (#[trigger] out.pairs_view()[j]).1.len() == 10 + j,
        decreases site_pkgs@.len() - i,
    {
        let mut alias: String = random_string();
        let mut j: usize = 0;
        while j < i
            invariant
                j <= i,
                alias@.len() == 10 + j,
                forall|k: int| 0 <= k < alias@.len() ==> 'a' <= #[trigger] alias@[k] <= 'z',
            decreases i - j,
        {
            crate::strutil::push_char(&mut alias, 'a');
            j = j + 1;
        }
        let key: String = site_pkgs[i].clone();
        out.insert(key, alias);
        i = i + 1;
    }
    proof {
        assert forall|i: int, j: int|
            0 <= i < j < site_pkgs@.len() implies (#[trigger] out.pairs_view()[i]).1 != (
        #[trigger] out.pairs_view()[j]).1 by {
            assert(out.pairs_view()[i].1.len() == 10 + i);
            assert(out.pairs_view()[j].1.len() == 10 + j);
        }
    }
    out
}

/// The top-level roots a manifest's search paths induce: the entries that
/// are neither interpreter root, kept only when not nested under another
/// candidate or under an interpreter root.
pub open spec fn spec_top_level_roots(sys: Sys) -> Seq<Seq<char>> {
    let w = spec_without_prefixes(
        strs_view(sys.path@),
        spec_lib_dynload_loc(sys),
        spec_stdlib_loc(sys),
    );
    spec_top_level(w, w.push(spec_lib_dynload_loc(sys)).push(spec_stdlib_loc(sys)))
}

impl SitePkgs {
    /// The topology a manifest induces: the interpreter roots; the
    /// top-level roots, each under a fresh alias, distinct roots under
    /// distinct aliases; the launcher components, in search-path order; an
    /// error exactly when some search path is attributable to no base.
    pub fn from_manifest(manifest: &YarpManifest) -> (r: Result<SitePkgs, crate::errors::YarpError>)
        ensures
            r is Err <==> exists|i: int|
                0 <= i < manifest.python.sys.path@.len() && (
                #[trigger] manifest.python.sys.path@[i])@ != spec_lib_dynload_loc(
                    manifest.python.sys,
                ) && manifest.python.sys.path@[i]@ != spec_stdlib_loc(manifest.python.sys)
                    && !crate::site_pkgs::comps::spec_attributable(
                    manifest.python.sys.path@[i]@,
                    spec_stdlib_loc(manifest.python.sys),
                    spec_lib_dynload_loc(manifest.python.sys),
                    spec_top_level_roots(manifest.python.sys),
                ),
            r matches Ok(s) ==> s.stdlib@ == spec_stdlib_loc(manifest.python.sys)
                && s.lib_dynload@ == spec_lib_dynload_loc(manifest.python.sys) && (forall|
                p: Seq<char>,
            |
                s.site_pkg_by_alias@.contains_key(p) ==> spec_is_alias(
                    #[trigger] s.site_pkg_by_alias@[p],
                )) && s.site_pkg_by_alias.pairs_view().len() == spec_top_level_roots(
                manifest.python.sys,
            ).len() && (forall|i: int|
                0 <= i < s.site_pkg_by_alias.pairs_view().len() ==> (
                #[trigger] s.site_pkg_by_alias.pairs_view()[i]).0 == spec_top_level_roots(
                    manifest.python.sys,
                )[i]) && (forall|i: int, j: int|
                0 <= i < j < s.site_pkg_by_alias.pairs_view().len() ==> (
                #[trigger] s.site_pkg_by_alias.pairs_view()[i]).1 != (
                #[trigger] s.site_pkg_by_alias.pairs_view()[j]).1) && s.resolved@.len()
                == manifest.python.sys.path@.len() && (forall|i: int|
                0 <= i < s.resolved@.len() ==> (#[trigger] s.resolved@[i])@
                    == manifest.python.sys.path@[i]@) && s.comps@.len()
                == crate::site_pkgs::comps::spec_mapping(
                manifest.python.sys.path@,
                spec_stdlib_loc(manifest.python.sys),
                spec_lib_dynload_loc(manifest.python.sys),
                s.site_pkg_by_alias@,
                strs_view(s.site_pkg_by_alias.keys_seq()),
            ).len() && (forall|k: int|
                0 <= k < s.comps@.len() ==> (#[trigger] s.comps@[k])@
                    == crate::site_pkgs::comps::spec_mapping(
                    manifest.python.sys.path@,
                    spec_stdlib_loc(manifest.python.sys),
                    spec_lib_dynload_loc(manifest.python.sys),
                    s.site_pkg_by_alias@,
                    strs_view(s.site_pkg_by_alias.keys_seq()),
                )[k]),
    {
        let sys: &Sys = &manifest.python.sys;
        let stdlib_path: String = get_stdlib_loc(sys);
        let lib_dynload_path: String = get_lib_dynload_loc(sys);
        let site_pkgs0: Vec<String> = get_site_pkgs_without_prefixes(
            &sys.path,
            &lib_dynload_path,
            &stdlib_path,
        );
        let site_pkgs1: Vec<String> = only_top_level_site_pkgs(
            &site_pkgs0,
            &lib_dynload_path,
            &stdlib_path,
        );
        let site_pkg_by_alias: StrMap = create_site_pkgs_alias(&site_pkgs1);
        let ghost topseq = spec_top_level_roots(manifest.python.sys);
        proof {
            assert(strs_view(site_pkgs1@) =~= topseq);
            assert forall|q: Seq<char>|
                site_pkg_by_alias@.contains_key(q) <==> topseq.contains(q) by {
                if site_pkg_by_alias@.contains_key(q) {
                    let i = choose|i: int|
                        0 <= i < site_pkgs1@.len() && (#[trigger] site_pkgs1@[i])@ == q;
                    assert(topseq[i] == q);
                }
                if topseq.contains(q) {
                    let i = choose|i: int| 0 <= i < topseq.len() && topseq[i] == q;
                    assert(site_pkgs1@[i]@ == q);
                }
            }
        }
        let tops: Vec<String> = site_pkg_by_alias.keys();
        let mut attributable: bool = true;
        let mut i: usize = 0;
        while i < sys.path.len()
            invariant
                i <= sys.path@.len(),
                sys == &manifest.python.sys,
                stdlib_path@ == spec_stdlib_loc(manifest.python.sys),
                lib_dynload_path@ == spec_lib_dynload_loc(manifest.python.sys),
                topseq == spec_top_level_roots(manifest.python.sys),
                strs_view(tops@) == strs_view(site_pkg_by_alias.keys_seq()),
                forall|j: int|
                    0 <= j < tops@.len() ==> site_pkg_by_alias@.contains_key(
                        (#[trigger] tops@[j])@,
                    ),
                forall|q: Seq<char>|
                    site_pkg_by_alias@.contains_key(q) <==> topseq.contains(q),
                attributable <==> forall|j: int|
                    0 <= j < i ==> ((#[trigger] sys.path@[j])@ == lib_dynload_path@
                        || sys.path@[j]@ == stdlib_path@ || spec_path_component(
                        sys.path@[j]@,
                        stdlib_path@,
                        lib_dynload_path@,
                        site_pkg_by_alias@,
                        strs_view(site_pkg_by_alias.keys_seq()),
                    ) is Some),
            decreases sys.path@.len() - i,
        {
            if !str_eq(sys.path[i].as_str(), lib_dynload_path.as_str()) && !str_eq(
                sys.path[i].as_str(),
                stdlib_path.as_str(),
            ) && !site_pkg_by_alias.contains_key(sys.path[i].as_str()) {
                match crate::site_pkgs::comps::get_nested_pkg_component(
                    sys.path[i].as_str(),
                    stdlib_path.as_str(),
                    lib_dynload_path.as_str(),
                    &site_pkg_by_alias,
                    &tops,
                ) {
                    Some(_) => {},
                    None => {
                        attributable = false;
                        proof {
                            assert(!(sys.path@[i as int]@ == lib_dynload_path@
                                || sys.path@[i as int]@ == stdlib_path@ || spec_path_component(
                                sys.path@[i as int]@,
                                stdlib_path@,
                                lib_dynload_path@,
                                site_pkg_by_alias@,
                                strs_view(site_pkg_by_alias.keys_seq()),
                            ) is Some));
                        }
                    },
                }
            } else {
                proof {
                    if !(sys.path@[i as int]@ == lib_dynload_path@ || sys.path@[i as int]@
                        == stdlib_path@) {
                        assert(site_pkg_by_alias@.contains_key(sys.path@[i as int]@));
                    }
                }
            }
            i = i + 1;
        }
        if !attributable {
            proof {
                let j = choose|j: int|
                    0 <= j < sys.path@.len() && !((#[trigger] sys.path@[j])@ == lib_dynload_path@
                        || sys.path@[j]@ == stdlib_path@ || spec_path_component(
                        sys.path@[j]@,
                        stdlib_path@,
                        lib_dynload_path@,
                        site_pkg_by_alias@,
                        strs_view(site_pkg_by_alias.keys_seq()),
                    ) is Some);
                crate::site_pkgs::comps::lemma_component_some_iff_attributable(
                    sys.path@[j]@,
                    stdlib_path@,
                    lib_dynload_path@,
                    site_pkg_by_alias@,
                    topseq,
                );
                assert(strs_view(site_pkg_by_alias.keys_seq()) =~= topseq);
            }
            return Err(crate::errors::YarpError::OutsideRoots(String::new()));
        }
        proof {
            assert(strs_view(site_pkg_by_alias.keys_seq()) =~= topseq);
            assert forall|j: int|
                0 <= j < manifest.python.sys.path@.len() implies !((
            #[trigger] manifest.python.sys.path@[j])@ != spec_lib_dynload_loc(manifest.python.sys)
                && manifest.python.sys.path@[j]@ != spec_stdlib_loc(manifest.python.sys)
                && !crate::site_pkgs::comps::spec_attributable(
                manifest.python.sys.path@[j]@,
                spec_stdlib_loc(manifest.python.sys),
                spec_lib_dynload_loc(manifest.python.sys),
                spec_top_level_roots(manifest.python.sys),
            )) by {
                assert(manifest.python.sys.path@[j]@ == sys.path@[j]@);
                crate::site_pkgs::comps::lemma_component_some_iff_attributable(
                    sys.path@[j]@,
                    stdlib_path@,
                    lib_dynload_path@,
                    site_pkg_by_alias@,
                    topseq,
                );
            }
            assert(!(exists|i: int|
                0 <= i < manifest.python.sys.path@.len() && (
                #[trigger] manifest.python.sys.path@[i])@ != spec_lib_dynload_loc(
                    manifest.python.sys,
                ) && manifest.python.sys.path@[i]@ != spec_stdlib_loc(manifest.python.sys)
                    && !crate::site_pkgs::comps::spec_attributable(
                    manifest.python.sys.path@[i]@,
                    spec_stdlib_loc(manifest.python.sys),
                    spec_lib_dynload_loc(manifest.python.sys),
                    spec_top_level_roots(manifest.python.sys),
                )));
        }
        let comps: Vec<PythonPathComponent> = get_python_path_mapping(
            &site_pkg_by_alias,
            &stdlib_path,
            &lib_dynload_path,
            &sys.path,
        );
        let resolved: Vec<String> = crate::binary::dup_strs(&sys.path);
        let sp = SitePkgs {
            resolved,
            site_pkg_by_alias,
            lib_dynload: lib_dynload_path,
            stdlib: stdlib_path,
            comps,
        };
        proof {
            assert(sp.stdlib@ == spec_stdlib_loc(manifest.python.sys));
            assert(sp.lib_dynload@ == spec_lib_dynload_loc(manifest.python.sys));
            assert(forall|p: Seq<char>|
                sp.site_pkg_by_alias@.contains_key(p) ==> spec_is_alias(
                    #[trigger] sp.site_pkg_by_alias@[p],
                ));
            assert(sp.site_pkg_by_alias.pairs_view().len() == spec_top_level_roots(
                manifest.python.sys,
            ).len());
            assert(forall|i: int|
                0 <= i < sp.site_pkg_by_alias.pairs_view().len() ==> (
                #[trigger] sp.site_pkg_by_alias.pairs_view()[i]).0 == spec_top_level_roots(
                    manifest.python.sys,
                )[i]);
            assert(forall|i: int, j: int|
                0 <= i < j < sp.site_pkg_by_alias.pairs_view().len() ==> (
                #[trigger] sp.site_pkg_by_alias.pairs_view()[i]).1 != (
                #[trigger] sp.site_pkg_by_alias.pairs_view()[j]).1);
            assert(strs_view(sp.resolved@) == strs_view(manifest.python.sys.path@));
            assert(strs_view(sp.resolved@).len() == sp.resolved@.len());
            assert(strs_view(manifest.python.sys.path@).len()
                == manifest.python.sys.path@.len());
            assert(sp.resolved@.len() == manifest.python.sys.path@.len());
            assert forall|i: int|
                0 <= i < sp.resolved@.len() implies (#[trigger] sp.resolved@[i])@
                == manifest.python.sys.path@[i]@ by {
                assert(strs_view(sp.resolved@)[i] == sp.resolved@[i]@);
                assert(strs_view(manifest.python.sys.path@)[i]
                    == manifest.python.sys.path@[i]@);
            }
            assert(sp.comps@.len() == crate::site_pkgs::comps::spec_mapping(
                manifest.python.sys.path@,
                spec_stdlib_loc(manifest.python.sys),
                spec_lib_dynload_loc(manifest.python.sys),
                sp.site_pkg_by_alias@,
                strs_view(sp.site_pkg_by_alias.keys_seq()),
            ).len());
            assert(forall|k: int|
                0 <= k < sp.comps@.len() ==> (#[trigger] sp.comps@[k])@
                    == crate::site_pkgs::comps::spec_mapping(
                    manifest.python.sys.path@,
                    spec_stdlib_loc(manifest.python.sys),
                    spec_lib_dynload_loc(manifest.python.sys),
                    sp.site_pkg_by_alias@,
                    strs_view(sp.site_pkg_by_alias.keys_seq()),
                )[k]);
        }
        Ok(sp)
    }
}

} // verus!
