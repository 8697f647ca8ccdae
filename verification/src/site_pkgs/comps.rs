//! The module-search-path components the launcher exports: each manifest
//! search path becomes a path relative to the standard library, to the
//! dynamic-modules tree, or to a top-level site-packages alias.

use vstd::prelude::*;

verus! {

use crate::strmap::StrMap;
use crate::paths::spec_strip_prefix;
use crate::paths::strip_prefix_path;
use crate::paths::strs_view;

/// One component of the module search path the launcher exports.
#[derive(Clone)]
pub enum PythonPathComponent {
    /// A path inside the dynamic-modules tree.
    RelativeToLibDynLoad { rel_path: String },
    /// A path inside the standard-library tree.
    RelativeToStdlib { rel_path: String },
    /// A top-level site-packages root, by its alias.
    TopLevel { alias: String },
    /// A path inside a top-level site-packages root.
    RelativeToSitePkg { top_level_alias: String, rel_path: String },
}

/// The mathematical content of a component.
pub enum CompView {
    RelativeToLibDynLoad { rel_path: Seq<char> },
    RelativeToStdlib { rel_path: Seq<char> },
    TopLevel { alias: Seq<char> },
    RelativeToSitePkg { top_level_alias: Seq<char>, rel_path: Seq<char> },
}

impl View for PythonPathComponent {
    type V = CompView;

    open spec fn view(&self) -> CompView {
        match self {
            PythonPathComponent::RelativeToLibDynLoad { rel_path } => CompView::RelativeToLibDynLoad {
                rel_path: rel_path@,
            },
            PythonPathComponent::RelativeToStdlib { rel_path } => CompView::RelativeToStdlib {
                rel_path: rel_path@,
            },
            PythonPathComponent::TopLevel { alias } => CompView::TopLevel { alias: alias@ },
            PythonPathComponent::RelativeToSitePkg { top_level_alias, rel_path } => CompView::RelativeToSitePkg {
                top_level_alias: top_level_alias@,
                rel_path: rel_path@,
            },
        }
    }
}

/// The relative location of a search path inside a base root, when it lies
/// there.
pub fn get_relative_site_pkg_from(site_pkg: &str, base: &str) -> (r: Option<String>)
    ensures
        match r {
            Some(rel) => spec_strip_prefix(site_pkg@, base@) == Some(rel@),
            None => spec_strip_prefix(site_pkg@, base@) is None,
        },
{
    strip_prefix_path(site_pkg, base)
}

/// The first top-level root that contains `site_pkg`, with the relative
/// remainder.
pub open spec fn spec_rel_from_top(
    site_pkg: Seq<char>,
    alias_map: Map<Seq<char>, Seq<char>>,
    tops: Seq<Seq<char>>,
) -> Option<CompView>
    decreases tops.len(),
{
    if tops.len() == 0 {
        None
    } else {
        match spec_strip_prefix(site_pkg, tops[0]) {
            Some(rel) => Some(
                CompView::RelativeToSitePkg { top_level_alias: alias_map[tops[0]], rel_path: rel },
            ),
            None => spec_rel_from_top(site_pkg, alias_map, tops.subrange(1, tops.len() as int)),
        }
    }
}

/// The attribution of one manifest search path: the standard library and
/// dynamic-modules roots contribute nothing of their own; a top-level root
/// stands under its alias; a nested path is attributed to the deepest
/// enclosing root that admits it.
pub open spec fn spec_path_component(
    p: Seq<char>,
    stdlib: Seq<char>,
    lib_dynload: Seq<char>,
    alias_map: Map<Seq<char>, Seq<char>>,
    tops: Seq<Seq<char>>,
) -> Option<CompView> {
    if alias_map.contains_key(p) {
        Some(CompView::TopLevel { alias: alias_map[p] })
    } else {
        match spec_strip_prefix(p, stdlib) {
            Some(rel) => Some(CompView::RelativeToStdlib { rel_path: rel }),
            None => match spec_strip_prefix(p, lib_dynload) {
                Some(rel) => Some(CompView::RelativeToLibDynLoad { rel_path: rel }),
                None => spec_rel_from_top(p, alias_map, tops),
            },
        }
    }
}

fn rel_from_top(
    site_pkg: &str,
    alias_map: &StrMap,
    tops: &Vec<String>,
) -> (r: Option<PythonPathComponent>)
    requires
        forall|i: int| 0 <= i < tops@.len() ==> alias_map@.contains_key((#[trigger] tops@[i])@),
    ensures
        match r {
            Some(c) => spec_rel_from_top(site_pkg@, alias_map@, strs_view(tops@)) == Some(c@),
            None => spec_rel_from_top(site_pkg@, alias_map@, strs_view(tops@)) is None,
        },
{
    let ghost tv = strs_view(tops@);
    proof {
        assert(tv.subrange(0, tv.len() as int) =~= tv);
    }
    let mut i: usize = 0;
    while i < tops.len()
        invariant
            i <= tops@.len(),
            tv == strs_view(tops@),
            forall|j: int| 0 <= j < tops@.len() ==> alias_map@.contains_key(
                (#[trigger] tops@[j])@,
            ),
            spec_rel_from_top(site_pkg@, alias_map@, tv) == spec_rel_from_top(
                site_pkg@,
                alias_map@,
                tv.subrange(i as int, tv.len() as int),
            ),
        decreases tops@.len() - i,
    {
        let ghost rest = tv.subrange(i as int, tv.len() as int);
        proof {
            assert(rest[0] == tv[i as int]);
            assert(tv[i as int] == tops@[i as int]@);
            assert(rest.subrange(1, rest.len() as int) =~= tv.subrange(i + 1, tv.len() as int));
        }
        match strip_prefix_path(site_pkg, tops[i].as_str()) {
            Some(rel) => {
                let alias: String = match alias_map.get(tops[i].as_str()) {
                    Some(a) => a.clone(),
                    None => {
                        proof {
                            assert(false);
                        }
                        return None;
                    },
                };
                return Some(
                    PythonPathComponent::RelativeToSitePkg { top_level_alias: alias, rel_path: rel },
                );
            },
            None => {},
        }
        i = i + 1;
    }
    proof {
        assert(tv.subrange(tv.len() as int, tv.len() as int) =~= Seq::<Seq<char>>::empty());
    }
    None
}

/// The component one nested search path contributes.
pub fn get_nested_pkg_component(
    site_pkg: &str,
    stdlib: &str,
    lib_dynload: &str,
    alias_map: &StrMap,
    tops: &Vec<String>,
) -> (r: Option<PythonPathComponent>)
    requires
        forall|i: int| 0 <= i < tops@.len() ==> alias_map@.contains_key((#[trigger] tops@[i])@),
        !alias_map@.contains_key(site_pkg@),
    ensures
        match r {
            Some(c) => spec_path_component(site_pkg@, stdlib@, lib_dynload@, alias_map@, strs_view(tops@))
                == Some(c@),
            None => spec_path_component(site_pkg@, stdlib@, lib_dynload@, alias_map@, strs_view(tops@))
                is None,
        },
{
    match strip_prefix_path(site_pkg, stdlib) {
        Some(rel) => Some(PythonPathComponent::RelativeToStdlib { rel_path: rel }),
        None => {
            match strip_prefix_path(site_pkg, lib_dynload) {
                Some(rel) => Some(PythonPathComponent::RelativeToLibDynLoad { rel_path: rel }),
                None => rel_from_top(site_pkg, alias_map, tops),
            }
        },
    }
}

/// A nested search path is attributable when some base admits it: a
/// top-level root (by identity or as a prefix), the standard library, or
/// the dynamic-modules tree.
pub open spec fn spec_attributable(
    p: Seq<char>,
    stdlib: Seq<char>,
    lib_dynload: Seq<char>,
    tops: Seq<Seq<char>>,
) -> bool {
    ||| tops.contains(p)
    ||| spec_strip_prefix(p, stdlib) is Some
    ||| spec_strip_prefix(p, lib_dynload) is Some
    ||| exists|i: int| 0 <= i < tops.len() && spec_strip_prefix(p, #[trigger] tops[i]) is Some
}

proof fn lemma_rel_from_top_some_iff(
    p: Seq<char>,
    alias_map: Map<Seq<char>, Seq<char>>,
    tops: Seq<Seq<char>>,
)
    ensures
        spec_rel_from_top(p, alias_map, tops) is Some <==> exists|i: int|
            0 <= i < tops.len() && spec_strip_prefix(p, #[trigger] tops[i]) is Some,
    decreases tops.len(),
{
    if tops.len() > 0 {
        let rest = tops.subrange(1, tops.len() as int);
        lemma_rel_from_top_some_iff(p, alias_map, rest);
        assert(forall|i: int| 0 <= i < rest.len() ==> rest[i] == tops[i + 1]);
        if spec_strip_prefix(p, tops[0]) is None {
            if exists|i: int|
                0 <= i < tops.len() && spec_strip_prefix(p, #[trigger] tops[i]) is Some {
                let i = choose|i: int|
                    0 <= i < tops.len() && spec_strip_prefix(p, #[trigger] tops[i]) is Some;
                assert(i >= 1);
                assert(rest[i - 1] == tops[i]);
            }
        }
    }
}

/// Under a map whose keys are exactly `tops`, a path has a component
/// exactly when it is attributable.
pub proof fn lemma_component_some_iff_attributable(
    p: Seq<char>,
    stdlib: Seq<char>,
    lib_dynload: Seq<char>,
    alias_map: Map<Seq<char>, Seq<char>>,
    tops: Seq<Seq<char>>,
)
    requires
        forall|q: Seq<char>| alias_map.contains_key(q) <==> tops.contains(q),
    ensures
        spec_path_component(p, stdlib, lib_dynload, alias_map, tops) is Some <==> spec_attributable(
            p,
            stdlib,
            lib_dynload,
            tops,
        ),
{
    lemma_rel_from_top_some_iff(p, alias_map, tops);
}

/// The components the search paths induce, in order: the two interpreter
/// roots contribute nothing, every other path contributes its attribution
/// when it has one.
pub open spec fn spec_mapping(
    all: Seq<String>,
    stdlib: Seq<char>,
    lib_dynload: Seq<char>,
    alias_map: Map<Seq<char>, Seq<char>>,
    tops: Seq<Seq<char>>,
) -> Seq<CompView>
    decreases all.len(),
{
    if all.len() == 0 {
        Seq::empty()
    } else {
        let pre = spec_mapping(all.drop_last(), stdlib, lib_dynload, alias_map, tops);
        let p = all.last()@;
        if p == lib_dynload || p == stdlib {
            pre
        } else {
            match spec_path_component(p, stdlib, lib_dynload, alias_map, tops) {
                Some(c) => pre.push(c),
                None => pre,
            }
        }
    }
}

/// The component every manifest search path contributes, in order; the two
/// interpreter roots are dropped. Every path the manifest declares must be
/// attributable.
pub fn get_python_path_mapping(
    site_pkg_by_alias: &StrMap,
    stdlib: &String,
    lib_dynload: &String,
    all_site_pkgs: &Vec<String>,
) -> (r: Vec<PythonPathComponent>)
    requires
        forall|p: Seq<char>|
            (exists|i: int| 0 <= i < all_site_pkgs@.len() && (#[trigger] all_site_pkgs@[i])@ == p)
                && p != stdlib@ && p != lib_dynload@ ==> spec_path_component(
                p,
                stdlib@,
                lib_dynload@,
                site_pkg_by_alias@,
                strs_view(site_pkg_by_alias.keys_seq()),
            ) is Some,
    ensures
        r@.len() == spec_mapping(
            all_site_pkgs@,
            stdlib@,
            lib_dynload@,
            site_pkg_by_alias@,
            strs_view(site_pkg_by_alias.keys_seq()),
        ).len(),
        forall|k: int|
            0 <= k < r@.len() ==> (#[trigger] r@[k])@ == spec_mapping(
                all_site_pkgs@,
                stdlib@,
                lib_dynload@,
                site_pkg_by_alias@,
                strs_view(site_pkg_by_alias.keys_seq()),
            )[k],
{
    let ghost smap = spec_mapping(
        all_site_pkgs@,
        stdlib@,
        lib_dynload@,
        site_pkg_by_alias@,
        strs_view(site_pkg_by_alias.keys_seq()),
    );
    let tops: Vec<String> = site_pkg_by_alias.keys();
    proof {
        assert(strs_view(tops@) =~= strs_view(site_pkg_by_alias.keys_seq()));
    }
    let mut out: Vec<PythonPathComponent> = Vec::new();
    let mut i: usize = 0;
    proof {
        assert(all_site_pkgs@.take(0) =~= Seq::<String>::empty());
    }
    while i < all_site_pkgs.len()
        invariant
            i <= all_site_pkgs@.len(),
            strs_view(tops@) == strs_view(site_pkg_by_alias.keys_seq()),
            forall|j: int| 0 <= j < tops@.len() ==> site_pkg_by_alias@.contains_key(
                (#[trigger] tops@[j])@,
            ),
            forall|p: Seq<char>|
                (exists|ii: int|
                    0 <= ii < all_site_pkgs@.len() && (#[trigger] all_site_pkgs@[ii])@ == p) && p
                    != stdlib@ && p != lib_dynload@ ==> spec_path_component(
                    p,
                    stdlib@,
                    lib_dynload@,
                    site_pkg_by_alias@,
                    strs_view(site_pkg_by_alias.keys_seq()),
                ) is Some,
            out@.len() == spec_mapping(
                all_site_pkgs@.take(i as int),
                stdlib@,
                lib_dynload@,
                site_pkg_by_alias@,
                strs_view(site_pkg_by_alias.keys_seq()),
            ).len(),
            forall|k: int|
                0 <= k < out@.len() ==> (#[trigger] out@[k])@ == spec_mapping(
                    all_site_pkgs@.take(i as int),
                    stdlib@,
                    lib_dynload@,
                    site_pkg_by_alias@,
                    strs_view(site_pkg_by_alias.keys_seq()),
                )[k],
        decreases all_site_pkgs@.len() - i,
    {
        proof {
            assert(all_site_pkgs@.take(i + 1).drop_last() =~= all_site_pkgs@.take(i as int));
            assert(all_site_pkgs@.take(i + 1).last() == all_site_pkgs@[i as int]);
        }
        let p: &String = &all_site_pkgs[i];
        if crate::strutil::str_eq(p.as_str(), lib_dynload.as_str()) {
        } else if crate::strutil::str_eq(p.as_str(), stdlib.as_str()) {
        } else {
            if let Some(alias) = site_pkg_by_alias.get(p.as_str()) {
                let c = PythonPathComponent::TopLevel { alias: alias.clone() };
                out.push(c);
                proof {
                    assert(out@.last()@ == spec_path_component(
                        all_site_pkgs@[i as int]@,
                        stdlib@,
                        lib_dynload@,
                        site_pkg_by_alias@,
                        strs_view(site_pkg_by_alias.keys_seq()),
                    )->Some_0);
                }
            } else {
                match get_nested_pkg_component(
                    p.as_str(),
                    stdlib.as_str(),
                    lib_dynload.as_str(),
                    site_pkg_by_alias,
                    &tops,
                ) {
                    Some(c) => {
                        out.push(c);
                    },
                    None => {
                        proof {
                            assert(false);
                        }
                    },
                }
            }
        }
        i = i + 1;
    }
    proof {
        assert(all_site_pkgs@.take(all_site_pkgs@.len() as int) =~= all_site_pkgs@);
    }
    out
}

} // verus!
