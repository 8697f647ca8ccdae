//! Resolution of Mach-O load commands: `@rpath`, `@loader_path` and
//! `@executable_path` substitution, the absolute and working-directory
//! probes, the `DYLD_LIBRARY_PATH` fallback and the known-libs oracle;
//! slice selection for universal files.

use vstd::prelude::*;

verus! {

use crate::fsview::Fs;
use crate::errors::YarpError;
use crate::errors::BinaryParseError;
use crate::binary::Macho;
use crate::binary::MachoView;
use crate::binary::pairs_view;
use crate::binary::vals_of;
use crate::rawbin::CpuKind;
use crate::rawbin::MachoCmd;
use crate::rawbin::RawSlice;
use crate::paths::strs_view;
use crate::paths::spec_is_abs;
use crate::paths::spec_join_path;
use crate::paths::spec_dirname;
use crate::paths::spec_basename;
use crate::paths::spec_normalize;
use crate::paths::spec_is_sys_lib;
use crate::paths::join_path;
use crate::paths::is_abs_path;
use crate::paths::dirname;
use crate::paths::basename;
use crate::paths::normalize_path;
use crate::paths::is_sys_lib;
use crate::strmap::StrMap;
use crate::strutil::spec_starts_with;
use crate::strutil::starts_with_str;
use crate::search::spec_find_in_dirs;
use crate::search::find_in_dirs;
use vstd::string::StrSliceExecFns;

/// The context shared by every load-command resolution of one object tree.
pub struct MachoCtx {
    /// The directory of the interpreter executable.
    pub executable_dir: String,
    /// The working directory.
    pub cwd: String,
    /// The `DYLD_LIBRARY_PATH` entries.
    pub dyld_library_path: Vec<String>,
}

/// The mathematical content of a resolution context.
pub struct MachoCtxView {
    pub executable_dir: Seq<char>,
    pub cwd: Seq<char>,
    pub dyld_library_path: Seq<Seq<char>>,
}

impl View for MachoCtx {
    type V = MachoCtxView;

    open spec fn view(&self) -> MachoCtxView {
        MachoCtxView {
            executable_dir: self.executable_dir@,
            cwd: self.cwd@,
            dyld_library_path: strs_view(self.dyld_library_path@),
        }
    }
}

/// Where one load-command string resolves, per the loader's rules:
/// `@rpath/` probes each rpath in order; `@loader_path/` the object's
/// directory; `@executable_path/` the executable's directory; an absolute
/// path stands as it is; anything else is relative to the working
/// directory. A probe succeeds only if the path exists.
pub open spec fn spec_resolve_load_cmd(
    lc: Seq<char>,
    rpaths: Seq<Seq<char>>,
    loader_path: Seq<char>,
    ctx: MachoCtxView,
    fs: Fs,
) -> Option<Seq<char>> {
    if spec_starts_with(lc, "@rpath/"@) {
        spec_find_in_dirs(lc.subrange("@rpath/"@.len() as int, lc.len() as int), rpaths, fs)
    } else if spec_starts_with(lc, "@loader_path/"@) {
        let cand = spec_join_path(
            loader_path,
            lc.subrange("@loader_path/"@.len() as int, lc.len() as int),
        );
        if fs.has_entry(cand) {
            Some(cand)
        } else {
            None
        }
    } else if spec_starts_with(lc, "@executable_path/"@) {
        let cand = spec_join_path(
            ctx.executable_dir,
            lc.subrange("@executable_path/"@.len() as int, lc.len() as int),
        );
        if fs.has_entry(cand) {
            Some(cand)
        } else {
            None
        }
    } else if spec_is_abs(lc) {
        if fs.has_entry(lc) {
            Some(lc)
        } else {
            None
        }
    } else {
        let cand = spec_join_path(ctx.cwd, lc);
        if fs.has_entry(cand) {
            Some(cand)
        } else {
            None
        }
    }
}

/// Resolves one load-command string against the object's rpaths and context.
pub fn resolve_load_cmd_path(
    lc: &str,
    rpaths: &Vec<String>,
    loader_path: &str,
    ctx: &MachoCtx,
    fs: &Fs,
) -> (r: Option<String>)
    ensures
        match r {
            Some(p) => spec_resolve_load_cmd(lc@, strs_view(rpaths@), loader_path@, ctx@, *fs)
                == Some(p@),
            None => spec_resolve_load_cmd(lc@, strs_view(rpaths@), loader_path@, ctx@, *fs)
                is None,
        },
{
    let n: usize = lc.unicode_len();
    if starts_with_str(lc, "@rpath/") {
        proof {
            reveal_strlit("@rpath/");
        }
        let tail: &str = lc.substring_char(7, n);
        find_in_dirs(tail, rpaths, fs)
    } else if starts_with_str(lc, "@loader_path/") {
        proof {
            reveal_strlit("@loader_path/");
        }
        let tail: &str = lc.substring_char(13, n);
        let cand: String = join_path(loader_path, tail);
        if fs.path_exists(cand.as_str()) {
            Some(cand)
        } else {
            None
        }
    } else if starts_with_str(lc, "@executable_path/") {
        proof {
            reveal_strlit("@executable_path/");
        }
        let tail: &str = lc.substring_char(17, n);
        let cand: String = join_path(ctx.executable_dir.as_str(), tail);
        if fs.path_exists(cand.as_str()) {
            Some(cand)
        } else {
            None
        }
    } else if is_abs_path(lc) {
        if fs.path_exists(lc) {
            Some(lc.to_owned())
        } else {
            None
        }
    } else {
        let cand: String = join_path(ctx.cwd.as_str(), lc);
        if fs.path_exists(cand.as_str()) {
            Some(cand)
        } else {
            None
        }
    }
}

/// A load command that the direct rules leave unresolved falls back to
/// probing `DYLD_LIBRARY_PATH` for its file name, and then to the
/// known-libs index.
pub open spec fn spec_resolve_with_fallback(
    lc: Seq<char>,
    rpaths: Seq<Seq<char>>,
    loader_path: Seq<char>,
    ctx: MachoCtxView,
    fs: Fs,
    known: Map<Seq<char>, Seq<char>>,
) -> Option<Seq<char>> {
    match spec_resolve_load_cmd(lc, rpaths, loader_path, ctx, fs) {
        Some(p) => Some(p),
        None => match spec_basename(lc) {
            None => None,
            Some(fname) => match spec_find_in_dirs(fname, ctx.dyld_library_path, fs) {
                Some(p) => Some(p),
                None => if known.contains_key(fname) {
                    Some(known[fname])
                } else {
                    None
                },
            },
        },
    }
}

/// Resolves one load command, with the `DYLD_LIBRARY_PATH` and known-libs
/// fallbacks.
pub fn resolve_load_cmd_path_with_dyld_fallback(
    lc: &str,
    rpaths: &Vec<String>,
    loader_path: &str,
    ctx: &MachoCtx,
    fs: &Fs,
    known_libs: &StrMap,
) -> (r: Option<String>)
    ensures
        match r {
            Some(p) => spec_resolve_with_fallback(
                lc@,
                strs_view(rpaths@),
                loader_path@,
                ctx@,
                *fs,
                known_libs@,
            ) == Some(p@),
            None => spec_resolve_with_fallback(
                lc@,
                strs_view(rpaths@),
                loader_path@,
                ctx@,
                *fs,
                known_libs@,
            ) is None,
        },
{
    if let Some(p) = resolve_load_cmd_path(lc, rpaths, loader_path, ctx, fs) {
        return Some(p);
    }
    match basename(lc) {
        None => None,
        Some(fname) => {
            if let Some(p) = find_in_dirs(fname.as_str(), &ctx.dyld_library_path, fs) {
                return Some(p);
            }
            match known_libs.get(fname.as_str()) {
                Some(p) => Some(p.clone()),
                None => None,
            }
        },
    }
}

/// An rpath string resolved as a load command with no rpaths in scope; one
/// that itself begins with `@rpath/` is invalid.
pub open spec fn spec_resolve_rpath(
    v: Seq<char>,
    loader_path: Seq<char>,
    ctx: MachoCtxView,
    fs: Fs,
) -> Result<Option<Seq<char>>, ()> {
    if spec_starts_with(v, "@rpath/"@) {
        Err(())
    } else {
        Ok(spec_resolve_load_cmd(v, Seq::empty(), loader_path, ctx, fs))
    }
}

/// Resolves one raw rpath string of the object.
pub fn resolve_rpath(v: &str, loader_path: &str, ctx: &MachoCtx, fs: &Fs) -> (r: Result<
    Option<String>,
    YarpError,
>)
    ensures
        match r {
            Ok(Some(p)) => spec_resolve_rpath(v@, loader_path@, ctx@, *fs) == Ok::<
                Option<Seq<char>>,
                (),
            >(Some(p@)),
            Ok(None) => spec_resolve_rpath(v@, loader_path@, ctx@, *fs) == Ok::<
                Option<Seq<char>>,
                (),
            >(None),
            Err(_) => spec_resolve_rpath(v@, loader_path@, ctx@, *fs) is Err,
        },
{
    if starts_with_str(v, "@rpath/") {
        return Err(YarpError::InvalidRpath(v.to_owned()));
    }
    let no_rpaths: Vec<String> = Vec::new();
    proof {
        assert(strs_view(no_rpaths@) =~= Seq::<Seq<char>>::empty());
    }
    Ok(resolve_load_cmd_path(v, &no_rpaths, loader_path, ctx, fs))
}

/// The rpath table an object's commands build: every raw rpath string in
/// file order, and the resolved ones with their resolutions; an rpath
/// beginning with `@rpath/` fails the parse.
pub open spec fn spec_collect_rpaths(
    cmds: Seq<MachoCmd>,
    loader_path: Seq<char>,
    ctx: MachoCtxView,
    fs: Fs,
) -> Result<(Seq<(Seq<char>, Seq<char>)>, Seq<Seq<char>>), ()>
    decreases cmds.len(),
{
    if cmds.len() == 0 {
        Ok((Seq::empty(), Seq::empty()))
    } else {
        match spec_collect_rpaths(cmds.drop_last(), loader_path, ctx, fs) {
            Err(()) => Err(()),
            Ok((ps, all)) => match cmds.last() {
                MachoCmd::RPath(v) => match spec_resolve_rpath(v@, loader_path, ctx, fs) {
                    Err(()) => Err(()),
                    Ok(Some(p)) => Ok((ps.push((v@, p)), all.push(v@))),
                    Ok(None) => Ok((ps, all.push(v@))),
                },
                _ => Ok((ps, all)),
            },
        }
    }
}

proof fn lemma_collect_rpaths_err_mono(
    cmds: Seq<MachoCmd>,
    loader_path: Seq<char>,
    ctx: MachoCtxView,
    fs: Fs,
    j: int,
)
    requires
        0 <= j <= cmds.len(),
        spec_collect_rpaths(cmds.take(j), loader_path, ctx, fs) is Err,
    ensures
        spec_collect_rpaths(cmds, loader_path, ctx, fs) is Err,
    decreases cmds.len() - j,
{
    if j == cmds.len() {
        assert(cmds.take(j) =~= cmds);
    } else {
        assert(cmds.take(j + 1).drop_last() =~= cmds.take(j));
        lemma_collect_rpaths_err_mono(cmds, loader_path, ctx, fs, j + 1);
    }
}

/// Collects and resolves the rpath commands of an object.
pub fn get_rpaths(
    cmds: &Vec<MachoCmd>,
    loader_path: &str,
    ctx: &MachoCtx,
    fs: &Fs,
) -> (r: Result<(Vec<(String, String)>, Vec<String>), YarpError>)
    ensures
        match r {
            Ok(out) => spec_collect_rpaths(cmds@, loader_path@, ctx@, *fs) == Ok::<
                _,
                (),
            >((pairs_view(out.0@), strs_view(out.1@))),
            Err(_) => spec_collect_rpaths(cmds@, loader_path@, ctx@, *fs) is Err,
        },
{
    let mut ps: Vec<(String, String)> = Vec::new();
    let mut all: Vec<String> = Vec::new();
    let mut i: usize = 0;
    proof {
        assert(cmds@.take(0) =~= Seq::<MachoCmd>::empty());
        assert(pairs_view(ps@) =~= Seq::<(Seq<char>, Seq<char>)>::empty());
        assert(strs_view(all@) =~= Seq::<Seq<char>>::empty());
    }
    while i < cmds.len()
        invariant
            i <= cmds@.len(),
            spec_collect_rpaths(cmds@.take(i as int), loader_path@, ctx@, *fs) == Ok::<
                _,
                (),
            >((pairs_view(ps@), strs_view(all@))),
        decreases cmds@.len() - i,
    {
        proof {
            assert(cmds@.take(i + 1).drop_last() =~= cmds@.take(i as int));
            assert(cmds@.take(i + 1).last() == cmds@[i as int]);
        }
        match &cmds[i] {
            MachoCmd::RPath(v) => {
                match resolve_rpath(v.as_str(), loader_path, ctx, fs) {
                    Err(e) => {
                        proof {
                            lemma_collect_rpaths_err_mono(
                                cmds@,
                                loader_path@,
                                ctx@,
                                *fs,
                                i + 1,
                            );
                        }
                        return Err(e);
                    },
                    Ok(Some(p)) => {
                        let ghost prevp = pairs_view(ps@);
                        let ghost preva = strs_view(all@);
                        ps.push((v.clone(), p));
                        all.push(v.clone());
                        proof {
                            assert(pairs_view(ps@) =~= prevp.push(
                                (cmds@[i as int]->RPath_0@, spec_resolve_rpath(
                                    cmds@[i as int]->RPath_0@,
                                    loader_path@,
                                    ctx@,
                                    *fs,
                                )->Ok_0->Some_0),
                            ));
                            assert(strs_view(all@) =~= preva.push(cmds@[i as int]->RPath_0@));
                        }
                    },
                    Ok(None) => {
                        let ghost preva = strs_view(all@);
                        all.push(v.clone());
                        proof {
                            assert(strs_view(all@) =~= preva.push(cmds@[i as int]->RPath_0@));
                        }
                    },
                }
            },
            _ => {},
        }
        i = i + 1;
    }
    proof {
        assert(cmds@.take(cmds@.len() as int) =~= cmds@);
    }
    Ok((ps, all))
}

/// The resolved load-dylib table of an object: system libraries are elided;
/// every other load command must resolve (directly, through
/// `DYLD_LIBRARY_PATH`, or through known-libs) and its resolution is
/// canonicalized; the last `LC_ID_DYLIB` wins.
pub open spec fn spec_collect_load_cmds(
    cmds: Seq<MachoCmd>,
    rpaths: Seq<Seq<char>>,
    loader_path: Seq<char>,
    ctx: MachoCtxView,
    fs: Fs,
    known: Map<Seq<char>, Seq<char>>,
) -> Result<(Option<Seq<char>>, Seq<(Seq<char>, Seq<char>)>), ()>
    decreases cmds.len(),
{
    if cmds.len() == 0 {
        Ok((None, Seq::empty()))
    } else {
        match spec_collect_load_cmds(cmds.drop_last(), rpaths, loader_path, ctx, fs, known) {
            Err(()) => Err(()),
            Ok((id, ps)) => match cmds.last() {
                MachoCmd::IdDylib(v) => Ok((Some(v@), ps)),
                MachoCmd::LoadDylib(v) => if spec_is_sys_lib(v@) {
                    Ok((id, ps))
                } else {
                    match spec_resolve_with_fallback(v@, rpaths, loader_path, ctx, fs, known) {
                        Some(p) => Ok((id, ps.push((v@, spec_normalize(p))))),
                        None => Err(()),
                    }
                },
                _ => Ok((id, ps)),
            },
        }
    }
}

proof fn lemma_collect_load_cmds_err_mono(
    cmds: Seq<MachoCmd>,
    rpaths: Seq<Seq<char>>,
    loader_path: Seq<char>,
    ctx: MachoCtxView,
    fs: Fs,
    known: Map<Seq<char>, Seq<char>>,
    j: int,
)
    requires
        0 <= j <= cmds.len(),
        spec_collect_load_cmds(cmds.take(j), rpaths, loader_path, ctx, fs, known) is Err,
    ensures
        spec_collect_load_cmds(cmds, rpaths, loader_path, ctx, fs, known) is Err,
    decreases cmds.len() - j,
{
    if j == cmds.len() {
        assert(cmds.take(j) =~= cmds);
    } else {
        assert(cmds.take(j + 1).drop_last() =~= cmds.take(j));
        lemma_collect_load_cmds_err_mono(cmds, rpaths, loader_path, ctx, fs, known, j + 1);
    }
}

/// Resolves every load-dylib command of an object.
pub fn get_load_commands(
    cmds: &Vec<MachoCmd>,
    rpaths: &Vec<String>,
    loader_path: &str,
    ctx: &MachoCtx,
    fs: &Fs,
    known_libs: &StrMap,
) -> (r: Result<(Option<String>, Vec<(String, String)>), YarpError>)
    ensures
        match r {
            Ok(out) => spec_collect_load_cmds(
                cmds@,
                strs_view(rpaths@),
                loader_path@,
                ctx@,
                *fs,
                known_libs@,
            ) == Ok::<_, ()>(
                (
                    match out.0 {
                        Some(ref s) => Some(s@),
                        None => None,
                    },
                    pairs_view(out.1@),
                ),
            ),
            Err(_) => spec_collect_load_cmds(
                cmds@,
                strs_view(rpaths@),
                loader_path@,
                ctx@,
                *fs,
                known_libs@,
            ) is Err,
        },
{
    let mut id: Option<String> = None;
    let mut ps: Vec<(String, String)> = Vec::new();
    let mut i: usize = 0;
    proof {
        assert(cmds@.take(0) =~= Seq::<MachoCmd>::empty());
        assert(pairs_view(ps@) =~= Seq::<(Seq<char>, Seq<char>)>::empty());
    }
    while i < cmds.len()
        invariant
            i <= cmds@.len(),
            spec_collect_load_cmds(
                cmds@.take(i as int),
                strs_view(rpaths@),
                loader_path@,
                ctx@,
                *fs,
                known_libs@,
            ) == Ok::<_, ()>(
                (
                    match id {
                        Some(ref s) => Some(s@),
                        None => None,
                    },
                    pairs_view(ps@),
                ),
            ),
        decreases cmds@.len() - i,
    {
        proof {
            assert(cmds@.take(i + 1).drop_last() =~= cmds@.take(i as int));
            assert(cmds@.take(i + 1).last() == cmds@[i as int]);
        }
        match &cmds[i] {
            MachoCmd::IdDylib(v) => {
                id = Some(v.clone());
            },
            MachoCmd::LoadDylib(v) => {
                if !is_sys_lib(v.as_str()) {
                    match resolve_load_cmd_path_with_dyld_fallback(
                        v.as_str(),
                        rpaths,
                        loader_path,
                        ctx,
                        fs,
                        known_libs,
                    ) {
                        Some(p) => {
                            let np: String = normalize_path(p.as_str());
                            let ghost prevp = pairs_view(ps@);
                            ps.push((v.clone(), np));
                            proof {
                                assert(pairs_view(ps@) =~= prevp.push(
                                    (cmds@[i as int]->LoadDylib_0@, spec_normalize(
                                        spec_resolve_with_fallback(
                                            cmds@[i as int]->LoadDylib_0@,
                                            strs_view(rpaths@),
                                            loader_path@,
                                            ctx@,
                                            *fs,
                                            known_libs@,
                                        )->Some_0,
                                    )),
                                ));
                            }
                        },
                        None => {
                            proof {
                                lemma_collect_load_cmds_err_mono(
                                    cmds@,
                                    strs_view(rpaths@),
                                    loader_path@,
                                    ctx@,
                                    *fs,
                                    known_libs@,
                                    i + 1,
                                );
                            }
                            return Err(
                                YarpError::UnresolvedDependency {
                                    name: v.clone(),
                                    object: loader_path.to_owned(),
                                },
                            );
                        },
                    }
                }
            },
            _ => {},
        }
        i = i + 1;
    }
    proof {
        assert(cmds@.take(cmds@.len() as int) =~= cmds@);
    }
    Ok((id, ps))
}

/// The parse of one Mach-O slice at `macho_path`: its rpath table, then its
/// load commands against the resolved rpaths.
pub open spec fn spec_parse_slice(
    cmds: Seq<MachoCmd>,
    macho_path: Seq<char>,
    ctx: MachoCtxView,
    fs: Fs,
    known: Map<Seq<char>, Seq<char>>,
) -> Result<MachoView, ()> {
    match spec_dirname(macho_path) {
        None => Err(()),
        Some(loader_path) => match spec_collect_rpaths(cmds, loader_path, ctx, fs) {
            Err(()) => Err(()),
            Ok((rps, all)) => match spec_collect_load_cmds(
                cmds,
                vals_of(rps),
                loader_path,
                ctx,
                fs,
                known,
            ) {
                Err(()) => Err(()),
                Ok((id, lcs)) => Ok(
                    MachoView {
                        load_cmds: lcs,
                        rpaths: rps,
                        id_dylib: id,
                        path: macho_path,
                        all_rpaths: all,
                    },
                ),
            },
        },
    }
}

/// Parses one slice of a Mach-O file.
pub fn parse_single_macho(
    slice: &RawSlice,
    macho_path: &str,
    ctx: &MachoCtx,
    fs: &Fs,
    known_libs: &StrMap,
) -> (r: Result<Macho, YarpError>)
    ensures
        match r {
            Ok(m) => spec_parse_slice(slice.cmds@, macho_path@, ctx@, *fs, known_libs@) == Ok::<
                _,
                (),
            >(m@),
            Err(_) => spec_parse_slice(slice.cmds@, macho_path@, ctx@, *fs, known_libs@) is Err,
        },
{
    let loader_path: String = match dirname(macho_path) {
        None => {
            return Err(YarpError::NoFileName(macho_path.to_owned()));
        },
        Some(d) => d,
    };
    let (rps, all) = match get_rpaths(&slice.cmds, loader_path.as_str(), ctx, fs) {
        Err(e) => {
            return Err(e);
        },
        Ok(out) => out,
    };
    let mut resolved: Vec<String> = Vec::new();
    let mut i: usize = 0;
    while i < rps.len()
        invariant
            i <= rps@.len(),
            strs_view(resolved@) == vals_of(pairs_view(rps@)).take(i as int),
        decreases rps@.len() - i,
    {
        let v: String = rps[i].1.clone();
        let ghost prev = strs_view(resolved@);
        resolved.push(v);
        proof {
            assert(strs_view(resolved@) =~= prev.push(pairs_view(rps@)[i as int].1));
            assert(vals_of(pairs_view(rps@)).take(i + 1) =~= vals_of(pairs_view(rps@)).take(
                i as int,
            ).push(pairs_view(rps@)[i as int].1));
        }
        i = i + 1;
    }
    proof {
        assert(vals_of(pairs_view(rps@)).take(rps@.len() as int) =~= vals_of(pairs_view(rps@)));
    }
    let (id, lcs) = match get_load_commands(
        &slice.cmds,
        &resolved,
        loader_path.as_str(),
        ctx,
        fs,
        known_libs,
    ) {
        Err(e) => {
            return Err(e);
        },
        Ok(out) => out,
    };
    Ok(
        Macho {
            load_cmds: lcs,
            rpaths: rps,
            id_dylib: id,
            path: macho_path.to_owned(),
            all_rpaths: all,
        },
    )
}

/// The outcome of parsing a universal Mach-O file.
pub enum FatOutcome {
    /// The parse of the first host-matching slice.
    Done(MachoView),
    /// Every slice parsed but none matches the host architecture.
    Unsupported,
    /// Some slice before a host match failed to parse.
    Fatal,
}

/// Walks the slices in file order and selects the first slice whose CPU
/// type equals the host; only that slice is parsed. A file with no host
/// slice is unsupported, whatever its foreign slices hold.
pub open spec fn spec_parse_fat(
    slices: Seq<RawSlice>,
    host: CpuKind,
    macho_path: Seq<char>,
    ctx: MachoCtxView,
    fs: Fs,
    known: Map<Seq<char>, Seq<char>>,
) -> FatOutcome
    decreases slices.len(),
{
    if slices.len() == 0 {
        FatOutcome::Unsupported
    } else if slices[0].cpu == host {
        match spec_parse_slice(slices[0].cmds@, macho_path, ctx, fs, known) {
            Err(()) => FatOutcome::Fatal,
            Ok(m) => FatOutcome::Done(m),
        }
    } else {
        spec_parse_fat(slices.subrange(1, slices.len() as int), host, macho_path, ctx, fs, known)
    }
}

/// Parses a universal Mach-O file: the first slice for the host is
/// selected and parsed; a file with slices for other architectures only is
/// skipped as unsupported, not fatal.
pub fn parse_fat_macho(
    slices: &Vec<RawSlice>,
    host: CpuKind,
    macho_path: &str,
    ctx: &MachoCtx,
    fs: &Fs,
    known_libs: &StrMap,
) -> (r: Result<Macho, (BinaryParseError, Option<YarpError>)>)
    ensures
        match r {
            Ok(m) => spec_parse_fat(slices@, host, macho_path@, ctx@, *fs, known_libs@)
                == FatOutcome::Done(m@),
            Err(e) => (match e.1 {
                Some(_) => spec_parse_fat(slices@, host, macho_path@, ctx@, *fs, known_libs@)
                    == FatOutcome::Fatal,
                None => spec_parse_fat(slices@, host, macho_path@, ctx@, *fs, known_libs@)
                    == FatOutcome::Unsupported,
            }) && e.0 is UnsupportedArchitecture,
        },
{
    let ghost full = slices@;
    proof {
        assert(full.subrange(0, full.len() as int) =~= full);
    }
    let mut i: usize = 0;
    while i < slices.len()
        invariant
            i <= slices@.len(),
            full == slices@,
            spec_parse_fat(full, host, macho_path@, ctx@, *fs, known_libs@) == spec_parse_fat(
                full.subrange(i as int, full.len() as int),
                host,
                macho_path@,
                ctx@,
                *fs,
                known_libs@,
            ),
        decreases slices@.len() - i,
    {
        let ghost rest = full.subrange(i as int, full.len() as int);
        proof {
            assert(rest[0] == full[i as int]);
            assert(rest.subrange(1, rest.len() as int) =~= full.subrange(
                i + 1,
                full.len() as int,
            ));
        }
        if slices[i].cpu == host {
            match parse_single_macho(&slices[i], macho_path, ctx, fs, known_libs) {
                Err(e) => {
                    return Err((BinaryParseError::UnsupportedArchitecture, Some(e)));
                },
                Ok(m) => {
                    return Ok(m);
                },
            }
        }
        i = i + 1;
    }
    proof {
        assert(full.subrange(full.len() as int, full.len() as int) =~= Seq::<RawSlice>::empty());
    }
    Err((BinaryParseError::UnsupportedArchitecture, None))
}

/// A universal file whose slices target only other architectures is
/// skipped as unsupported rather than failing the build, whatever those
/// slices hold.
pub proof fn lemma_foreign_fat_is_unsupported(
    slices: Seq<RawSlice>,
    host: CpuKind,
    macho_path: Seq<char>,
    ctx: MachoCtxView,
    fs: Fs,
    known: Map<Seq<char>, Seq<char>>,
)
    requires
        forall|i: int| 0 <= i < slices.len() ==> (#[trigger] slices[i].cpu) != host,
    ensures
        spec_parse_fat(slices, host, macho_path, ctx, fs, known) == FatOutcome::Unsupported,
    decreases slices.len(),
{
    if slices.len() > 0 {
        let rest = slices.subrange(1, slices.len() as int);
        assert(forall|i: int| 0 <= i < rest.len() ==> rest[i] == slices[i + 1]);
        lemma_foreign_fat_is_unsupported(rest, host, macho_path, ctx, fs, known);
    }
}

} // verus!
