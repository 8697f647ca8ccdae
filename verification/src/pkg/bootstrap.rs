//! The launcher script: a small shell script that prepends the dist's
//! load-path directory to the platform's library-search variable, exports
//! the module-search variable from the computed components, and execs the
//! relocated interpreter.

use vstd::prelude::*;

verus! {

use crate::errors::YarpError;
use crate::manifest::Version;
use crate::site_pkgs::comps::PythonPathComponent;
use crate::pkg::paths::spec_stdlib_rel;
use crate::pkg::paths::spec_lib_dynload_rel;
use crate::pkg::paths::spec_site_pkgs_rel;
use crate::pkg::paths::stdlib_relative_path;
use crate::pkg::paths::lib_dynload_relative_path;
use crate::pkg::paths::site_pkgs_relative_path;
use crate::strutil::push_char;
use crate::strutil::concat_str;
use crate::strutil::concat2;

/// The dist-relative search path one launcher component renders to.
pub open spec fn spec_component_path(c: PythonPathComponent, version: Version) -> Seq<char> {
    match c {
        PythonPathComponent::RelativeToLibDynLoad { rel_path } => spec_lib_dynload_rel(version)
            + "/"@ + rel_path@,
        PythonPathComponent::RelativeToStdlib { rel_path } => spec_stdlib_rel(version) + "/"@
            + rel_path@,
        PythonPathComponent::TopLevel { alias } => spec_site_pkgs_rel(alias@),
        PythonPathComponent::RelativeToSitePkg { top_level_alias, rel_path } => spec_site_pkgs_rel(
            top_level_alias@,
        ) + "/"@ + rel_path@,
    }
}

/// The rendered components as a quoted shell array: `("a" "b" …)`.
pub open spec fn spec_components_array(cs: Seq<PythonPathComponent>, version: Version) -> Seq<
    char,
>
    decreases cs.len(),
{
    if cs.len() == 0 {
        seq!['(', ')']
    } else {
        let pre = spec_components_array(cs.drop_last(), version);
        let quoted = seq!['"'] + spec_component_path(cs.last(), version) + seq!['"'];
        if cs.len() == 1 {
            seq!['('] + quoted + seq![')']
        } else {
            pre.drop_last() + seq![' '] + quoted + seq![')']
        }
    }
}

/// Renders the module-search components as a shell array.
pub fn python_path_from_components(comps: &Vec<PythonPathComponent>, version: &Version) -> (r:
    String)
    ensures
        r@ == spec_components_array(comps@, *version),
{
    let mut body: String = String::new();
    push_char(&mut body, '(');
    let mut i: usize = 0;
    proof {
        assert(comps@.take(0) =~= Seq::<PythonPathComponent>::empty());
        assert(body@ =~= spec_components_array(comps@.take(0), *version).drop_last());
    }
    while i < comps.len()
        invariant
            i <= comps@.len(),
            body@ == spec_components_array(comps@.take(i as int), *version).drop_last(),
        decreases comps@.len() - i,
    {
        proof {
            assert(comps@.take(i + 1).drop_last() =~= comps@.take(i as int));
            assert(comps@.take(i + 1).last() == comps@[i as int]);
        }
        if i > 0 {
            push_char(&mut body, ' ');
        }
        push_char(&mut body, '"');
        let p: String = component_path(&comps[i], version);
        body = concat_str(body, p.as_str());
        push_char(&mut body, '"');
        proof {
            assert(body@ =~= spec_components_array(comps@.take(i + 1), *version).drop_last());
        }
        i = i + 1;
    }
    proof {
        assert(comps@.take(comps@.len() as int) =~= comps@);
    }
    push_char(&mut body, ')');
    proof {
        assert(body@ =~= spec_components_array(comps@, *version));
    }
    body
}

fn component_path(c: &PythonPathComponent, version: &Version) -> (r: String)
    ensures
        r@ == spec_component_path(*c, *version),
{
    match c {
        PythonPathComponent::RelativeToLibDynLoad { rel_path } => {
            let mut a: String = lib_dynload_relative_path(version);
            push_char(&mut a, '/');
            proof {
                reveal_strlit("/");
                assert("/"@ =~= seq!['/']);
            }
            concat_str(a, rel_path.as_str())
        },
        PythonPathComponent::RelativeToStdlib { rel_path } => {
            let mut a: String = stdlib_relative_path(version);
            push_char(&mut a, '/');
            proof {
                reveal_strlit("/");
                assert("/"@ =~= seq!['/']);
            }
            concat_str(a, rel_path.as_str())
        },
        PythonPathComponent::TopLevel { alias } => site_pkgs_relative_path(alias.as_str()),
        PythonPathComponent::RelativeToSitePkg { top_level_alias, rel_path } => {
            let mut a: String = site_pkgs_relative_path(top_level_alias.as_str());
            push_char(&mut a, '/');
            proof {
                reveal_strlit("/");
                assert("/"@ =~= seq!['/']);
            }
            concat_str(a, rel_path.as_str())
        },
    }
}

/// The text before the components array in the launcher script.
pub fn script_prefix(macos: bool) -> (r: &'static str)
    ensures
        macos ==> r@ == spec_mac_prefix(),
        !macos ==> r@ == spec_linux_prefix(),
{
    if macos {
        "#!/bin/bash\nset -euo pipefail\n\nSCRIPT_DIR=\"$(cd \"$(dirname \"${BASH_SOURCE[0]}\")\" && pwd)\"\n\nORIGINAL_DYLD_LIBRARY_PATH=\"${DYLD_LIBRARY_PATH:-}\"\nexport DYLD_LIBRARY_PATH=\"$SCRIPT_DIR/lib/l:$ORIGINAL_DYLD_LIBRARY_PATH\"\n\nSITE_PKG_REL_PATHS="
    } else {
        "#!/bin/bash\nset -euo pipefail\n\nSCRIPT_DIR=\"$(cd \"$(dirname \"${BASH_SOURCE[0]}\")\" && pwd)\"\n\nORIGINAL_LD_LIBRARY_PATH=\"${LD_LIBRARY_PATH:-}\"\nexport LD_LIBRARY_PATH=\"$SCRIPT_DIR/lib/l:$ORIGINAL_LD_LIBRARY_PATH\"\n\nSITE_PKG_REL_PATHS="
    }
}

/// The text before the components array, for macOS.
pub open spec fn spec_mac_prefix() -> Seq<char> {
    "#!/bin/bash\nset -euo pipefail\n\nSCRIPT_DIR=\"$(cd \"$(dirname \"${BASH_SOURCE[0]}\")\" && pwd)\"\n\nORIGINAL_DYLD_LIBRARY_PATH=\"${DYLD_LIBRARY_PATH:-}\"\nexport DYLD_LIBRARY_PATH=\"$SCRIPT_DIR/lib/l:$ORIGINAL_DYLD_LIBRARY_PATH\"\n\nSITE_PKG_REL_PATHS="@
}

/// The text before the components array, for Linux.
pub open spec fn spec_linux_prefix() -> Seq<char> {
    "#!/bin/bash\nset -euo pipefail\n\nSCRIPT_DIR=\"$(cd \"$(dirname \"${BASH_SOURCE[0]}\")\" && pwd)\"\n\nORIGINAL_LD_LIBRARY_PATH=\"${LD_LIBRARY_PATH:-}\"\nexport LD_LIBRARY_PATH=\"$SCRIPT_DIR/lib/l:$ORIGINAL_LD_LIBRARY_PATH\"\n\nSITE_PKG_REL_PATHS="@
}

/// The text after the components array: exports the module-search variable
/// and execs the relocated interpreter.
pub open spec fn spec_script_suffix() -> Seq<char> {
    "\n\nexport PYTHONPATH=\"\"\nfor path in \"${SITE_PKG_REL_PATHS[@]}\"; do\n    export PYTHONPATH=\"$PYTHONPATH:$SCRIPT_DIR/$path\"\ndone\n\nexec \"$SCRIPT_DIR/interp/bin/interp\" \"$@\"\n"@
}

/// The text after the components array.
pub fn script_suffix() -> (r: &'static str)
    ensures
        r@ == spec_script_suffix(),
{
    "\n\nexport PYTHONPATH=\"\"\nfor path in \"${SITE_PKG_REL_PATHS[@]}\"; do\n    export PYTHONPATH=\"$PYTHONPATH:$SCRIPT_DIR/$path\"\ndone\n\nexec \"$SCRIPT_DIR/interp/bin/interp\" \"$@\"\n"
}

/// The whole launcher text of a dist on the given platform.
pub open spec fn spec_bootstrap_script(
    cs: Seq<PythonPathComponent>,
    version: Version,
    macos: bool,
) -> Seq<char> {
    (if macos {
        spec_mac_prefix()
    } else {
        spec_linux_prefix()
    }) + spec_components_array(cs, version) + spec_script_suffix()
}

/// Renders the launcher script; `macos` picks the library-search variable.
pub fn render_bootstrap_script(
    comps: &Vec<PythonPathComponent>,
    version: &Version,
    macos: bool,
) -> (r: String)
    ensures
        r@ == spec_bootstrap_script(comps@, *version, macos),
{
    let arr: String = python_path_from_components(comps, version);
    let mut out: String = script_prefix(macos).to_owned();
    out = concat_str(out, arr.as_str());
    out = concat_str(out, script_suffix());
    out
}

} // verus!
