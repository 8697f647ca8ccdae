//! The patch planner: the exact sequence of external-tool invocations that
//! rewrites a reified binary so that its rpath points at its symlink farm
//! and every dependency reference is a name the farm satisfies. Deleting
//! the original rpaths first and adding the single new one last keeps the
//! header within its fixed load-commands capacity.

use vstd::prelude::*;

verus! {

use crate::errors::YarpError;
use crate::binary::Binary;
use crate::binary::Macho;
use crate::binary::Elf;
use crate::binary::MachoView;
use crate::binary::ElfView;
use crate::deps::Deps;
use crate::paths::spec_basename;
use crate::paths::spec_dirname;
use crate::paths::rel_path_of;
use crate::paths::basename;
use crate::paths::dirname;
use crate::paths::diff_paths_str;
use crate::paths::strs_view;
use crate::strutil::str_eq;
use crate::strutil::concat3;
use crate::strutil::concat_str;

/// One external-tool invocation of the patch phase.
pub enum ToolCmd {
    /// `install_name_tool -delete_rpath <rpath> <file>`.
    DeleteRpath { rpath: String, file: String },
    /// `install_name_tool -add_rpath <rpath> <file>`.
    AddRpath { rpath: String, file: String },
    /// `install_name_tool -change <old> <new> <file>`.
    ChangeLoadCmd { old: String, new: String, file: String },
    /// `install_name_tool -id <id> <file>`.
    SetDylibId { id: String, file: String },
    /// `codesign -s - -f <file>`.
    Codesign { file: String },
    /// `patchelf --remove-rpath <file>`.
    ElfRemoveRpath { file: String },
    /// `patchelf --add-rpath <rpath> <file>`.
    ElfAddRpath { rpath: String, file: String },
    /// `patchelf --replace-needed <old> <new> <file>`.
    ElfReplaceNeeded { old: String, new: String, file: String },
}

/// The mathematical content of a tool invocation.
pub enum ToolCmdView {
    DeleteRpath { rpath: Seq<char>, file: Seq<char> },
    AddRpath { rpath: Seq<char>, file: Seq<char> },
    ChangeLoadCmd { old: Seq<char>, new: Seq<char>, file: Seq<char> },
    SetDylibId { id: Seq<char>, file: Seq<char> },
    Codesign { file: Seq<char> },
    ElfRemoveRpath { file: Seq<char> },
    ElfAddRpath { rpath: Seq<char>, file: Seq<char> },
    ElfReplaceNeeded { old: Seq<char>, new: Seq<char>, file: Seq<char> },
}

impl View for ToolCmd {
    type V = ToolCmdView;

    open spec fn view(&self) -> ToolCmdView {
        match self {
            ToolCmd::DeleteRpath { rpath, file } => ToolCmdView::DeleteRpath {
                rpath: rpath@,
                file: file@,
            },
            ToolCmd::AddRpath { rpath, file } => ToolCmdView::AddRpath {
                rpath: rpath@,
                file: file@,
            },
            ToolCmd::ChangeLoadCmd { old, new, file } => ToolCmdView::ChangeLoadCmd {
                old: old@,
                new: new@,
                file: file@,
            },
            ToolCmd::SetDylibId { id, file } => ToolCmdView::SetDylibId { id: id@, file: file@ },
            ToolCmd::Codesign { file } => ToolCmdView::Codesign { file: file@ },
            ToolCmd::ElfRemoveRpath { file } => ToolCmdView::ElfRemoveRpath { file: file@ },
            ToolCmd::ElfAddRpath { rpath, file } => ToolCmdView::ElfAddRpath {
                rpath: rpath@,
                file: file@,
            },
            ToolCmd::ElfReplaceNeeded { old, new, file } => ToolCmdView::ElfReplaceNeeded {
                old: old@,
                new: new@,
                file: file@,
            },
        }
    }
}

/// The views of a plan.
pub open spec fn cmds_view(v: Seq<ToolCmd>) -> Seq<ToolCmdView> {
    v.map_values(|c: ToolCmd| c@)
}

/// The new rpath value: `<head>/<rel>/` where `rel` reaches the symlink
/// farm from the patched file's directory.
pub open spec fn spec_new_rpath(
    head: Seq<char>,
    file: Seq<char>,
    farm: Seq<char>,
) -> Option<Seq<char>> {
    match spec_dirname(file) {
        None => None,
        Some(dir) => match rel_path_of(farm, dir) {
            None => None,
            Some(rel) => Some(head + rel + "/"@),
        },
    }
}

fn new_rpath(head: &str, file: &str, farm: &str) -> (r: Result<String, YarpError>)
    ensures
        match r {
            Ok(s) => spec_new_rpath(head@, file@, farm@) == Some(s@),
            Err(_) => spec_new_rpath(head@, file@, farm@) is None,
        },
{
    let dir: String = match dirname(file) {
        Some(d) => d,
        None => {
            return Err(YarpError::NoFileName(file.to_owned()));
        },
    };
    let rel: String = match diff_paths_str(farm, dir.as_str()) {
        Some(p) => p,
        None => {
            return Err(YarpError::NoRelativePath {
                path: farm.to_owned(),
                base: dir,
            });
        },
    };
    Ok(concat3(head, rel.as_str(), "/"))
}

/// One delete command per raw rpath, in file order.
pub open spec fn spec_delete_cmds(rpaths: Seq<Seq<char>>, file: Seq<char>) -> Seq<ToolCmdView> {
    rpaths.map_values(|rp: Seq<char>| ToolCmdView::DeleteRpath { rpath: rp, file: file })
}

/// The rewrite of every load command to `@rpath/<basename>` with a
/// re-signing after each, in map order. A dependency whose basename the
/// farm does not hold (a skipped library) keeps its original reference:
/// providing it at run time is the user's responsibility.
pub open spec fn spec_change_cmds(
    lcs: Seq<(Seq<char>, Seq<char>)>,
    farm_names: Seq<Seq<char>>,
    file: Seq<char>,
) -> Result<Seq<ToolCmdView>, ()>
    decreases lcs.len(),
{
    if lcs.len() == 0 {
        Ok(Seq::empty())
    } else {
        match spec_change_cmds(lcs.drop_last(), farm_names, file) {
            Err(()) => Err(()),
            Ok(pre) => match spec_basename(lcs.last().1) {
                None => Err(()),
                Some(name) => if farm_names.contains(name) {
                    Ok(
                        pre.push(
                            ToolCmdView::ChangeLoadCmd {
                                old: lcs.last().0,
                                new: "@rpath/"@ + name,
                                file: file,
                            },
                        ).push(ToolCmdView::Codesign { file: file }),
                    )
                } else {
                    Ok(pre)
                },
            },
        }
    }
}

/// The Mach-O patch plan: delete every original rpath, rewrite every load
/// command to its farm name, add the single farm rpath, set the install
/// name, and re-sign.
pub open spec fn spec_patch_macho(
    m: MachoView,
    reals: Seq<char>,
    farm: Seq<char>,
    farm_names: Seq<Seq<char>>,
) -> Result<Seq<ToolCmdView>, ()> {
    match spec_basename(reals) {
        None => Err(()),
        Some(lib_name) => match spec_new_rpath("@loader_path/"@, reals, farm) {
            None => Err(()),
            Some(rp) => match spec_change_cmds(m.load_cmds, farm_names, reals) {
                Err(()) => Err(()),
                Ok(changes) => Ok(
                    spec_delete_cmds(m.all_rpaths, reals) + changes + seq![
                        ToolCmdView::AddRpath { rpath: rp, file: reals },
                        ToolCmdView::SetDylibId { id: "@rpath/"@ + lib_name, file: reals },
                        ToolCmdView::Codesign { file: reals },
                    ],
                ),
            },
        },
    }
}

proof fn lemma_change_cmds_err_mono(
    lcs: Seq<(Seq<char>, Seq<char>)>,
    farm_names: Seq<Seq<char>>,
    file: Seq<char>,
    j: int,
)
    requires
        0 <= j <= lcs.len(),
        spec_change_cmds(lcs.take(j), farm_names, file) is Err,
    ensures
        spec_change_cmds(lcs, farm_names, file) is Err,
    decreases lcs.len() - j,
{
    if j == lcs.len() {
        assert(lcs.take(j) =~= lcs);
    } else {
        assert(lcs.take(j + 1).drop_last() =~= lcs.take(j));
        lemma_change_cmds_err_mono(lcs, farm_names, file, j + 1);
    }
}

fn contains_name(names: &Vec<String>, name: &str) -> (r: bool)
    ensures
        r == strs_view(names@).contains(name@),
{
    let mut i: usize = 0;
    while i < names.len()
        invariant
            i <= names@.len(),
            forall|j: int| 0 <= j < i ==> (#[trigger] strs_view(names@)[j]) != name@,
        decreases names@.len() - i,
    {
        proof {
            assert(strs_view(names@)[i as int] == names@[i as int]@);
        }
        if str_eq(names[i].as_str(), name) {
            assert(strs_view(names@).contains(name@));
            return true;
        }
        i = i + 1;
    }
    proof {
        if strs_view(names@).contains(name@) {
            let j = choose|j: int|
                0 <= j < strs_view(names@).len() && strs_view(names@)[j] == name@;
        }
    }
    false
}

/// Plans the Mach-O rewrite of the reals entry at `reals_path`.
/// `farm_names` are the basenames the symlink farm will hold.
pub fn patch_macho(
    mach: &Macho,
    reals_path: &str,
    symlink_farm_path: &str,
    farm_names: &Vec<String>,
) -> (r: Result<Vec<ToolCmd>, YarpError>)
    ensures
        match r {
            Ok(cmds) => spec_patch_macho(
                mach@,
                reals_path@,
                symlink_farm_path@,
                strs_view(farm_names@),
            ) == Ok::<_, ()>(cmds_view(cmds@)),
            Err(_) => spec_patch_macho(
                mach@,
                reals_path@,
                symlink_farm_path@,
                strs_view(farm_names@),
            ) is Err,
        },
{
    let lib_name: String = match basename(reals_path) {
        Some(n) => n,
        None => {
            return Err(YarpError::NoFileName(reals_path.to_owned()));
        },
    };
    let rp: String = match new_rpath("@loader_path/", reals_path, symlink_farm_path) {
        Ok(s) => s,
        Err(e) => {
            return Err(e);
        },
    };
    let mut cmds: Vec<ToolCmd> = Vec::new();
    let mut i: usize = 0;
    let ghost av = mach@.all_rpaths;
    proof {
        assert(cmds_view(cmds@) =~= spec_delete_cmds(av.take(0), reals_path@));
    }
    while i < mach.all_rpaths.len()
        invariant
            i <= mach.all_rpaths@.len(),
            av == mach@.all_rpaths,
            cmds_view(cmds@) == spec_delete_cmds(av.take(i as int), reals_path@),
        decreases mach.all_rpaths@.len() - i,
    {
        let c = ToolCmd::DeleteRpath {
            rpath: mach.all_rpaths[i].clone(),
            file: reals_path.to_owned(),
        };
        let ghost prev = cmds_view(cmds@);
        cmds.push(c);
        proof {
            assert(cmds_view(cmds@) =~= prev.push(
                ToolCmdView::DeleteRpath { rpath: av[i as int], file: reals_path@ },
            ));
            assert(spec_delete_cmds(av.take(i + 1), reals_path@) =~= spec_delete_cmds(
                av.take(i as int),
                reals_path@,
            ).push(ToolCmdView::DeleteRpath { rpath: av[i as int], file: reals_path@ }));
        }
        i = i + 1;
    }
    proof {
        assert(av.take(mach.all_rpaths@.len() as int) =~= av);
    }
    let mut changes: Vec<ToolCmd> = Vec::new();
    let mut k: usize = 0;
    let ghost lv = mach@.load_cmds;
    proof {
        assert(lv.take(0) =~= Seq::<(Seq<char>, Seq<char>)>::empty());
        assert(cmds_view(changes@) =~= Seq::<ToolCmdView>::empty());
    }
    while k < mach.load_cmds.len()
        invariant
            k <= mach.load_cmds@.len(),
            lv == mach@.load_cmds,
            spec_change_cmds(lv.take(k as int), strs_view(farm_names@), reals_path@) == Ok::<
                _,
                (),
            >(cmds_view(changes@)),
        decreases mach.load_cmds@.len() - k,
    {
        proof {
            assert(lv.take(k + 1).drop_last() =~= lv.take(k as int));
            assert(lv.take(k + 1).last() == lv[k as int]);
            assert(lv[k as int] == (mach.load_cmds@[k as int].0@, mach.load_cmds@[k as int].1@));
        }
        let name: String = match basename(mach.load_cmds[k].1.as_str()) {
            Some(n) => n,
            None => {
                proof {
                    lemma_change_cmds_err_mono(lv, strs_view(farm_names@), reals_path@, k + 1);
                }
                return Err(YarpError::NoFileName(mach.load_cmds[k].1.clone()));
            },
        };
        if contains_name(farm_names, name.as_str()) {
            let newref: String = crate::strutil::concat2("@rpath/", name.as_str());
            let ghost prev = cmds_view(changes@);
            changes.push(
                ToolCmd::ChangeLoadCmd {
                    old: mach.load_cmds[k].0.clone(),
                    new: newref,
                    file: reals_path.to_owned(),
                },
            );
            changes.push(ToolCmd::Codesign { file: reals_path.to_owned() });
            proof {
                assert(cmds_view(changes@) =~= prev.push(
                    ToolCmdView::ChangeLoadCmd {
                        old: lv[k as int].0,
                        new: "@rpath/"@ + spec_basename(lv[k as int].1)->Some_0,
                        file: reals_path@,
                    },
                ).push(ToolCmdView::Codesign { file: reals_path@ }));
            }
        }
        k = k + 1;
    }
    proof {
        assert(lv.take(mach.load_cmds@.len() as int) =~= lv);
    }
    let mut out: Vec<ToolCmd> = cmds;
    out.append(&mut changes);
    out.push(ToolCmd::AddRpath { rpath: rp, file: reals_path.to_owned() });
    out.push(
        ToolCmd::SetDylibId {
            id: crate::strutil::concat2("@rpath/", lib_name.as_str()),
            file: reals_path.to_owned(),
        },
    );
    out.push(ToolCmd::Codesign { file: reals_path.to_owned() });
    proof {
        assert(cmds_view(out@) =~= spec_patch_macho(
            mach@,
            reals_path@,
            symlink_farm_path@,
            strs_view(farm_names@),
        )->Ok_0);
    }
    Ok(out)
}

/// The rewrite of every needed name to its farm basename; a name the farm
/// does not satisfy (a skipped library) stays as it is, for the user to
/// provide at run time.
pub open spec fn spec_needed_cmds(
    needed: Seq<(Seq<char>, Seq<char>)>,
    farm_names: Seq<Seq<char>>,
    file: Seq<char>,
) -> Result<Seq<ToolCmdView>, ()>
    decreases needed.len(),
{
    if needed.len() == 0 {
        Ok(Seq::empty())
    } else {
        match spec_needed_cmds(needed.drop_last(), farm_names, file) {
            Err(()) => Err(()),
            Ok(pre) => match spec_basename(needed.last().1) {
                None => Err(()),
                Some(name) => if farm_names.contains(name) {
                    Ok(
                        pre.push(
                            ToolCmdView::ElfReplaceNeeded {
                                old: needed.last().0,
                                new: name,
                                file: file,
                            },
                        ),
                    )
                } else {
                    Ok(pre)
                },
            },
        }
    }
}

proof fn lemma_needed_cmds_err_mono(
    needed: Seq<(Seq<char>, Seq<char>)>,
    farm_names: Seq<Seq<char>>,
    file: Seq<char>,
    j: int,
)
    requires
        0 <= j <= needed.len(),
        spec_needed_cmds(needed.take(j), farm_names, file) is Err,
    ensures
        spec_needed_cmds(needed, farm_names, file) is Err,
    decreases needed.len() - j,
{
    if j == needed.len() {
        assert(needed.take(j) =~= needed);
    } else {
        assert(needed.take(j + 1).drop_last() =~= needed.take(j));
        lemma_needed_cmds_err_mono(needed, farm_names, file, j + 1);
    }
}

/// The ELF patch plan: drop the rpath and runpath, add the single farm
/// rpath, and rewrite every needed name to its farm basename.
pub open spec fn spec_patch_elf(
    e: ElfView,
    reals: Seq<char>,
    farm: Seq<char>,
    farm_names: Seq<Seq<char>>,
) -> Result<Seq<ToolCmdView>, ()> {
    match spec_new_rpath("$ORIGIN/"@, reals, farm) {
        None => Err(()),
        Some(rp) => match spec_needed_cmds(e.dt_needed, farm_names, reals) {
            Err(()) => Err(()),
            Ok(repl) => Ok(
                seq![
                    ToolCmdView::ElfRemoveRpath { file: reals },
                    ToolCmdView::ElfAddRpath { rpath: rp, file: reals },
                ] + repl,
            ),
        },
    }
}

/// Plans the ELF rewrite of the reals entry at `reals_path`.
pub fn patch_elf(
    elf: &Elf,
    reals_path: &str,
    symlink_farm_path: &str,
    farm_names: &Vec<String>,
) -> (r: Result<Vec<ToolCmd>, YarpError>)
    ensures
        match r {
            Ok(cmds) => spec_patch_elf(
                elf@,
                reals_path@,
                symlink_farm_path@,
                strs_view(farm_names@),
            ) == Ok::<_, ()>(cmds_view(cmds@)),
            Err(_) => spec_patch_elf(
                elf@,
                reals_path@,
                symlink_farm_path@,
                strs_view(farm_names@),
            ) is Err,
        },
{
    let rp: String = match new_rpath("$ORIGIN/", reals_path, symlink_farm_path) {
        Ok(s) => s,
        Err(e) => {
            return Err(e);
        },
    };
    let mut out: Vec<ToolCmd> = Vec::new();
    out.push(ToolCmd::ElfRemoveRpath { file: reals_path.to_owned() });
    out.push(ToolCmd::ElfAddRpath { rpath: rp, file: reals_path.to_owned() });
    let ghost head = cmds_view(out@);
    let ghost nv = elf@.dt_needed;
    let mut k: usize = 0;
    proof {
        assert(nv.take(0) =~= Seq::<(Seq<char>, Seq<char>)>::empty());
        assert(head =~= seq![
            ToolCmdView::ElfRemoveRpath { file: reals_path@ },
            ToolCmdView::ElfAddRpath {
                rpath: spec_new_rpath("$ORIGIN/"@, reals_path@, symlink_farm_path@)->Some_0,
                file: reals_path@,
            },
        ]);
    }
    while k < elf.dt_needed.len()
        invariant
            k <= elf.dt_needed@.len(),
            nv == elf@.dt_needed,
            head == seq![
                ToolCmdView::ElfRemoveRpath { file: reals_path@ },
                ToolCmdView::ElfAddRpath {
                    rpath: spec_new_rpath("$ORIGIN/"@, reals_path@, symlink_farm_path@)->Some_0,
                    file: reals_path@,
                },
            ],
            spec_needed_cmds(nv.take(k as int), strs_view(farm_names@), reals_path@) matches Ok(
                repl,
            ) && cmds_view(out@) == head + repl,
        decreases elf.dt_needed@.len() - k,
    {
        proof {
            assert(nv.take(k + 1).drop_last() =~= nv.take(k as int));
            assert(nv.take(k + 1).last() == nv[k as int]);
            assert(nv[k as int] == (elf.dt_needed@[k as int].0@, elf.dt_needed@[k as int].1@));
        }
        let name: String = match basename(elf.dt_needed[k].1.as_str()) {
            Some(n) => n,
            None => {
                proof {
                    lemma_needed_cmds_err_mono(nv, strs_view(farm_names@), reals_path@, k + 1);
                }
                return Err(YarpError::NoFileName(elf.dt_needed[k].1.clone()));
            },
        };
        if contains_name(farm_names, name.as_str()) {
            let ghost prev = cmds_view(out@);
            out.push(
                ToolCmd::ElfReplaceNeeded {
                    old: elf.dt_needed[k].0.clone(),
                    new: name,
                    file: reals_path.to_owned(),
                },
            );
            proof {
                assert(cmds_view(out@) =~= prev.push(
                    ToolCmdView::ElfReplaceNeeded {
                        old: nv[k as int].0,
                        new: spec_basename(nv[k as int].1)->Some_0,
                        file: reals_path@,
                    },
                ));
                assert(head + spec_needed_cmds(
                    nv.take(k + 1),
                    strs_view(farm_names@),
                    reals_path@,
                )->Ok_0 =~= cmds_view(out@));
            }
        }
        k = k + 1;
    }
    proof {
        assert(nv.take(elf.dt_needed@.len() as int) =~= nv);
    }
    Ok(out)
}

/// The extra rpath that makes `$ORIGIN` work from a distinct destination:
/// added to the reals entry, pointing from the destination's directory to
/// the farm.
pub open spec fn spec_patch_for_destination(
    dest: Seq<char>,
    reals: Seq<char>,
    farm: Seq<char>,
) -> Result<Seq<ToolCmdView>, ()> {
    match spec_new_rpath("$ORIGIN/"@, dest, farm) {
        None => Err(()),
        Some(rp) => Ok(seq![ToolCmdView::ElfAddRpath { rpath: rp, file: reals }]),
    }
}

/// Plans the destination-level rpath of an ELF object.
pub fn patch_elf_for_destination(
    dest_path: &str,
    real_path: &str,
    symlink_farm_path: &str,
) -> (r: Result<Vec<ToolCmd>, YarpError>)
    ensures
        match r {
            Ok(cmds) => spec_patch_for_destination(dest_path@, real_path@, symlink_farm_path@)
                == Ok::<_, ()>(cmds_view(cmds@)),
            Err(_) => spec_patch_for_destination(dest_path@, real_path@, symlink_farm_path@)
                is Err,
        },
{
    let rp: String = match new_rpath("$ORIGIN/", dest_path, symlink_farm_path) {
        Ok(s) => s,
        Err(e) => {
            return Err(e);
        },
    };
    let mut out: Vec<ToolCmd> = Vec::new();
    out.push(ToolCmd::ElfAddRpath { rpath: rp, file: real_path.to_owned() });
    proof {
        assert(cmds_view(out@) =~= spec_patch_for_destination(
            dest_path@,
            real_path@,
            symlink_farm_path@,
        )->Ok_0);
    }
    Ok(out)
}

/// The patch plan of a reified binary.
pub fn patch_lib(
    reals_path: &str,
    binary: &Binary,
    symlink_farm_path: &str,
    farm_names: &Vec<String>,
) -> (r: Result<Vec<ToolCmd>, YarpError>)
    ensures
        match r {
            Ok(cmds) => (match binary {
                Binary::Macho(m) => spec_patch_macho(
                    m@,
                    reals_path@,
                    symlink_farm_path@,
                    strs_view(farm_names@),
                ) == Ok::<_, ()>(cmds_view(cmds@)),
                Binary::Elf(e) => spec_patch_elf(
                    e@,
                    reals_path@,
                    symlink_farm_path@,
                    strs_view(farm_names@),
                ) == Ok::<_, ()>(cmds_view(cmds@)),
            }),
            Err(_) => (match binary {
                Binary::Macho(m) => spec_patch_macho(
                    m@,
                    reals_path@,
                    symlink_farm_path@,
                    strs_view(farm_names@),
                ) is Err,
                Binary::Elf(e) => spec_patch_elf(
                    e@,
                    reals_path@,
                    symlink_farm_path@,
                    strs_view(farm_names@),
                ) is Err,
            }),
        },
{
    match binary {
        Binary::Macho(m) => patch_macho(m, reals_path, symlink_farm_path, farm_names),
        Binary::Elf(e) => patch_elf(e, reals_path, symlink_farm_path, farm_names),
    }
}

/// The patch plan a node's deps induce: nothing for a plain file, the
/// format-specific plan for a parsed binary.
pub open spec fn spec_deps_patch(
    d: Deps,
    reals: Seq<char>,
    farm: Seq<char>,
    farm_names: Seq<Seq<char>>,
) -> Result<Seq<ToolCmdView>, ()> {
    match d {
        Deps::Binary(b) => match b {
            Binary::Macho(m) => spec_patch_macho(m@, reals, farm, farm_names),
            Binary::Elf(e) => spec_patch_elf(e@, reals, farm, farm_names),
        },
        _ => Ok(Seq::empty()),
    }
}

/// The destination-level plan a node's deps induce: only an ELF object
/// needs one.
pub open spec fn spec_deps_patch_dest(
    d: Deps,
    dest: Seq<char>,
    reals: Seq<char>,
    farm: Seq<char>,
) -> Result<Seq<ToolCmdView>, ()> {
    match d {
        Deps::Binary(b) => match b {
            Binary::Elf(_) => spec_patch_for_destination(dest, reals, farm),
            _ => Ok(Seq::empty()),
        },
        _ => Ok(Seq::empty()),
    }
}

/// `s` with the first occurrence of `x` removed.
pub open spec fn spec_remove_first(s: Seq<Seq<char>>, x: Seq<char>) -> Seq<Seq<char>>
    decreases s.len(),
{
    if s.len() == 0 {
        s
    } else if s[0] == x {
        s.subrange(1, s.len() as int)
    } else {
        seq![s[0]] + spec_remove_first(s.subrange(1, s.len() as int), x)
    }
}

/// The effect of one tool invocation on a Mach-O object's loader metadata:
/// what the object would parse to afterwards. Commands of the other format
/// and re-signing change nothing the parser reads.
pub open spec fn spec_apply_macho_one(m: MachoView, c: ToolCmdView) -> MachoView {
    match c {
        ToolCmdView::DeleteRpath { rpath, file: _ } => MachoView {
            all_rpaths: spec_remove_first(m.all_rpaths, rpath),
            ..m
        },
        ToolCmdView::AddRpath { rpath, file: _ } => MachoView {
            all_rpaths: m.all_rpaths.push(rpath),
            ..m
        },
        ToolCmdView::ChangeLoadCmd { old, new, file: _ } => MachoView {
            load_cmds: m.load_cmds.map_values(
                |p: (Seq<char>, Seq<char>)|
                    if p.0 == old {
                        (new, p.1)
                    } else {
                        p
                    },
            ),
            ..m
        },
        ToolCmdView::SetDylibId { id, file: _ } => MachoView { id_dylib: Some(id), ..m },
        _ => m,
    }
}

/// The effect of a whole plan on a Mach-O object's loader metadata.
pub open spec fn spec_apply_macho(m: MachoView, cmds: Seq<ToolCmdView>) -> MachoView
    decreases cmds.len(),
{
    if cmds.len() == 0 {
        m
    } else {
        spec_apply_macho(spec_apply_macho_one(m, cmds[0]), cmds.subrange(1, cmds.len() as int))
    }
}

proof fn lemma_apply_macho_concat(m: MachoView, a: Seq<ToolCmdView>, b: Seq<ToolCmdView>)
    ensures
        spec_apply_macho(m, a + b) == spec_apply_macho(spec_apply_macho(m, a), b),
    decreases a.len(),
{
    if a.len() == 0 {
        assert(a + b =~= b);
    } else {
        assert((a + b).subrange(1, (a + b).len() as int) =~= a.subrange(1, a.len() as int) + b);
        lemma_apply_macho_concat(spec_apply_macho_one(m, a[0]), a.subrange(1, a.len() as int), b);
    }
}

proof fn lemma_deletes_clear_rpaths(m: MachoView, rps: Seq<Seq<char>>, file: Seq<char>)
    requires
        m.all_rpaths == rps,
    ensures
        spec_apply_macho(m, spec_delete_cmds(rps, file)).all_rpaths =~= Seq::<Seq<char>>::empty(),
        spec_apply_macho(m, spec_delete_cmds(rps, file)).load_cmds == m.load_cmds,
        spec_apply_macho(m, spec_delete_cmds(rps, file)).id_dylib == m.id_dylib,
    decreases rps.len(),
{
    let cmds = spec_delete_cmds(rps, file);
    if rps.len() > 0 {
        assert(cmds[0] == (ToolCmdView::DeleteRpath { rpath: rps[0], file: file }));
        let m1 = spec_apply_macho_one(m, cmds[0]);
        assert(m1.all_rpaths =~= rps.subrange(1, rps.len() as int));
        assert(cmds.subrange(1, cmds.len() as int) =~= spec_delete_cmds(
            rps.subrange(1, rps.len() as int),
            file,
        ));
        lemma_deletes_clear_rpaths(m1, rps.subrange(1, rps.len() as int), file);
    }
}

/// The round trip for a dependency-free Mach-O object: applying its patch
/// plan leaves an object whose dependency set is empty and whose single
/// rpath is `@loader_path/<rel>/`, `rel` reaching the farm from the reals
/// entry.
pub proof fn lemma_patch_roundtrip_macho(
    m: MachoView,
    reals: Seq<char>,
    farm: Seq<char>,
    farm_names: Seq<Seq<char>>,
)
    requires
        m.load_cmds.len() == 0,
        spec_patch_macho(m, reals, farm, farm_names) is Ok,
    ensures
        spec_apply_macho(m, spec_patch_macho(m, reals, farm, farm_names)->Ok_0).all_rpaths
            =~= seq![spec_new_rpath("@loader_path/"@, reals, farm)->Some_0],
        spec_apply_macho(m, spec_patch_macho(m, reals, farm, farm_names)->Ok_0).load_cmds.len()
            == 0,
{
    let rp = spec_new_rpath("@loader_path/"@, reals, farm)->Some_0;
    let lib_name = spec_basename(reals)->Some_0;
    let cmds = spec_patch_macho(m, reals, farm, farm_names)->Ok_0;
    assert(m.load_cmds =~= Seq::<(Seq<char>, Seq<char>)>::empty());
    assert(spec_change_cmds(m.load_cmds, farm_names, reals) == Ok::<_, ()>(
        Seq::<ToolCmdView>::empty(),
    ));
    let tail = seq![
        ToolCmdView::AddRpath { rpath: rp, file: reals },
        ToolCmdView::SetDylibId { id: "@rpath/"@ + lib_name, file: reals },
        ToolCmdView::Codesign { file: reals },
    ];
    assert(cmds =~= spec_delete_cmds(m.all_rpaths, reals) + tail) by {
        assert(spec_delete_cmds(m.all_rpaths, reals) + Seq::<ToolCmdView>::empty() + tail
            =~= spec_delete_cmds(m.all_rpaths, reals) + tail);
    }
    lemma_apply_macho_concat(m, spec_delete_cmds(m.all_rpaths, reals), tail);
    let m1 = spec_apply_macho(m, spec_delete_cmds(m.all_rpaths, reals));
    lemma_deletes_clear_rpaths(m, m.all_rpaths, reals);
    let t1 = tail.subrange(1, 3);
    let t2 = t1.subrange(1, 2);
    assert(t1 =~= seq![
        ToolCmdView::SetDylibId { id: "@rpath/"@ + lib_name, file: reals },
        ToolCmdView::Codesign { file: reals },
    ]);
    assert(t2 =~= seq![ToolCmdView::Codesign { file: reals }]);
    let m2 = spec_apply_macho_one(m1, tail[0]);
    assert(m2.all_rpaths =~= seq![rp]);
    assert(spec_apply_macho(m1, tail) == spec_apply_macho(m2, t1)) by {
        assert(tail.subrange(1, tail.len() as int) =~= t1);
    }
    let m3 = spec_apply_macho_one(m2, t1[0]);
    assert(spec_apply_macho(m2, t1) == spec_apply_macho(m3, t2)) by {
        assert(t1.subrange(1, t1.len() as int) =~= t2);
    }
    let m4 = spec_apply_macho_one(m3, t2[0]);
    assert(spec_apply_macho(m3, t2) == spec_apply_macho(m4, t2.subrange(1, 1))) by {
        assert(t2.subrange(1, t2.len() as int) =~= t2.subrange(1, 1));
    }
    assert(t2.subrange(1, 1) =~= Seq::<ToolCmdView>::empty());
    assert(spec_apply_macho(m4, t2.subrange(1, 1)) == m4);
    assert(m4.all_rpaths =~= seq![rp]);
    assert(m4.load_cmds.len() == 0);
    assert(spec_apply_macho(m, cmds) == spec_apply_macho(m1, tail));
}

/// The effect of one tool invocation on an ELF object's dynamic table.
pub open spec fn spec_apply_elf_one(e: ElfView, c: ToolCmdView) -> ElfView {
    match c {
        ToolCmdView::ElfRemoveRpath { file: _ } => ElfView {
            all_dt_rpaths: Seq::empty(),
            all_dt_runpaths: Seq::empty(),
            ..e
        },
        ToolCmdView::ElfAddRpath { rpath, file: _ } => ElfView {
            all_dt_rpaths: e.all_dt_rpaths.push(rpath),
            ..e
        },
        ToolCmdView::ElfReplaceNeeded { old, new, file: _ } => ElfView {
            dt_needed: e.dt_needed.map_values(
                |p: (Seq<char>, Seq<char>)|
                    if p.0 == old {
                        (new, p.1)
                    } else {
                        p
                    },
            ),
            ..e
        },
        _ => e,
    }
}

/// The effect of a whole plan on an ELF object's dynamic table.
pub open spec fn spec_apply_elf(e: ElfView, cmds: Seq<ToolCmdView>) -> ElfView
    decreases cmds.len(),
{
    if cmds.len() == 0 {
        e
    } else {
        spec_apply_elf(spec_apply_elf_one(e, cmds[0]), cmds.subrange(1, cmds.len() as int))
    }
}

/// The round trip for a dependency-free ELF object: applying its patch plan
/// leaves an object with no needed entries, no runpath, and the single
/// rpath `$ORIGIN/<rel>/`.
pub proof fn lemma_patch_roundtrip_elf(
    e: ElfView,
    reals: Seq<char>,
    farm: Seq<char>,
    farm_names: Seq<Seq<char>>,
)
    requires
        e.dt_needed.len() == 0,
        spec_patch_elf(e, reals, farm, farm_names) is Ok,
    ensures
        spec_apply_elf(e, spec_patch_elf(e, reals, farm, farm_names)->Ok_0).all_dt_rpaths
            =~= seq![spec_new_rpath("$ORIGIN/"@, reals, farm)->Some_0],
        spec_apply_elf(e, spec_patch_elf(e, reals, farm, farm_names)->Ok_0).all_dt_runpaths.len()
            == 0,
        spec_apply_elf(e, spec_patch_elf(e, reals, farm, farm_names)->Ok_0).dt_needed.len() == 0,
{
    let rp = spec_new_rpath("$ORIGIN/"@, reals, farm)->Some_0;
    let cmds = spec_patch_elf(e, reals, farm, farm_names)->Ok_0;
    assert(e.dt_needed =~= Seq::<(Seq<char>, Seq<char>)>::empty());
    assert(spec_needed_cmds(e.dt_needed, farm_names, reals) == Ok::<_, ()>(
        Seq::<ToolCmdView>::empty(),
    ));
    assert(cmds =~= seq![
        ToolCmdView::ElfRemoveRpath { file: reals },
        ToolCmdView::ElfAddRpath { rpath: rp, file: reals },
    ]);
    let u1 = cmds.subrange(1, 2);
    assert(u1 =~= seq![ToolCmdView::ElfAddRpath { rpath: rp, file: reals }]);
    let e1 = spec_apply_elf_one(e, cmds[0]);
    assert(spec_apply_elf(e, cmds) == spec_apply_elf(e1, u1)) by {
        assert(cmds.subrange(1, cmds.len() as int) =~= u1);
    }
    let e2 = spec_apply_elf_one(e1, u1[0]);
    assert(spec_apply_elf(e1, u1) == spec_apply_elf(e2, u1.subrange(1, 1))) by {
        assert(u1.subrange(1, u1.len() as int) =~= u1.subrange(1, 1));
    }
    assert(u1.subrange(1, 1) =~= Seq::<ToolCmdView>::empty());
    assert(spec_apply_elf(e2, u1.subrange(1, 1)) == e2);
    assert(e2.all_dt_rpaths =~= seq![rp]);
    assert(e2.all_dt_runpaths.len() == 0);
    assert(e2.dt_needed.len() == 0);
}

impl Deps {
    /// The plan that rewrites the reals entry against its symlink farm.
    pub fn patch(
        &self,
        real_path: &str,
        symlink_farm_path: &str,
        farm_names: &Vec<String>,
    ) -> (r: Result<Vec<ToolCmd>, YarpError>)
        ensures
            match r {
                Ok(cs) => spec_deps_patch(
                    *self,
                    real_path@,
                    symlink_farm_path@,
                    strs_view(farm_names@),
                ) == Ok::<_, ()>(cmds_view(cs@)),
                Err(_) => spec_deps_patch(
                    *self,
                    real_path@,
                    symlink_farm_path@,
                    strs_view(farm_names@),
                ) is Err,
            },
    {
        match self {
            Deps::Plain => {
                let r: Vec<ToolCmd> = Vec::new();
                proof {
                    assert(cmds_view(r@) =~= Seq::<ToolCmdView>::empty());
                }
                Ok(r)
            },
            Deps::Binary(b) => patch_lib(real_path, b, symlink_farm_path, farm_names),
            Deps::Mock { .. } => {
                let r: Vec<ToolCmd> = Vec::new();
                proof {
                    assert(cmds_view(r@) =~= Seq::<ToolCmdView>::empty());
                }
                Ok(r)
            },
        }
    }

    /// The plan that makes a distinct destination resolve: ELF objects get
    /// a destination-level rpath, everything else needs nothing.
    pub fn patch_for_destination(
        &self,
        dest_path: &str,
        real_path: &str,
        symlink_farm_path: &str,
    ) -> (r: Result<Vec<ToolCmd>, YarpError>)
        ensures
            match r {
                Ok(cs) => spec_deps_patch_dest(
                    *self,
                    dest_path@,
                    real_path@,
                    symlink_farm_path@,
                ) == Ok::<_, ()>(cmds_view(cs@)),
                Err(_) => spec_deps_patch_dest(
                    *self,
                    dest_path@,
                    real_path@,
                    symlink_farm_path@,
                ) is Err,
            },
    {
        match self {
            Deps::Plain => {
                let r: Vec<ToolCmd> = Vec::new();
                proof {
                    assert(cmds_view(r@) =~= Seq::<ToolCmdView>::empty());
                }
                Ok(r)
            },
            Deps::Binary(b) => match b {
                Binary::Elf(_) => patch_elf_for_destination(
                    dest_path,
                    real_path,
                    symlink_farm_path,
                ),
                Binary::Macho(_) => {
                    let r: Vec<ToolCmd> = Vec::new();
                    proof {
                        assert(cmds_view(r@) =~= Seq::<ToolCmdView>::empty());
                    }
                    Ok(r)
                },
            },
            Deps::Mock { .. } => {
                let r: Vec<ToolCmd> = Vec::new();
                proof {
                    assert(cmds_view(r@) =~= Seq::<ToolCmdView>::empty());
                }
                Ok(r)
            },
        }
    }
}

} // verus!
