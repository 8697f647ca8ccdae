//! The loader-emulation core for ELF objects: given a dependency name and
//! the context of the object that needs it, resolve the name exactly as the
//! host dynamic loader would, honoring the full precedence order of rpath,
//! runpath, environment search paths, the loader cache and the `ldd`
//! fallback.

use vstd::prelude::*;

pub mod ldconfig;
pub mod ldd;

verus! {

use crate::fsview::Fs;
use crate::paths::strs_view;
use crate::paths::spec_is_abs;
use crate::paths::spec_join_path;
use crate::paths::spec_dirname;
use crate::paths::join_path;
use crate::paths::is_abs_path;
use crate::paths::dirname;
use crate::errors::YarpError;
use crate::strutil::spec_find_char;
use crate::strutil::spec_replace;
use crate::strutil::find_char;
use crate::strutil::replace_all;
use crate::search::ldconfig::spec_ldconfig_find;
use crate::search::ldd::spec_ldd_find;

/// The first directory in `dirs` holding `name`, probing `dir/name`.
pub open spec fn spec_find_in_dirs(name: Seq<char>, dirs: Seq<Seq<char>>, fs: Fs) -> Option<
    Seq<char>,
>
    decreases dirs.len(),
{
    if dirs.len() == 0 {
        None
    } else {
        let cand = spec_join_path(dirs[0], name);
        if fs.has_entry(cand) {
            Some(cand)
        } else {
            spec_find_in_dirs(name, dirs.subrange(1, dirs.len() as int), fs)
        }
    }
}

/// Probes each directory for `name`, first hit wins.
pub fn find_in_dirs(name: &str, dirs: &Vec<String>, fs: &Fs) -> (r: Option<String>)
    ensures
        match r {
            Some(p) => spec_find_in_dirs(name@, strs_view(dirs@), *fs) == Some(p@),
            None => spec_find_in_dirs(name@, strs_view(dirs@), *fs) is None,
        },
{
    let ghost dv = strs_view(dirs@);
    proof {
        assert(dv.subrange(0, dv.len() as int) =~= dv);
    }
    let mut i: usize = 0;
    while i < dirs.len()
        invariant
            i <= dirs@.len(),
            dv == strs_view(dirs@),
            spec_find_in_dirs(name@, dv, *fs) == spec_find_in_dirs(
                name@,
                dv.subrange(i as int, dv.len() as int),
                *fs,
            ),
        decreases dirs@.len() - i,
    {
        let ghost rest = dv.subrange(i as int, dv.len() as int);
        proof {
            assert(rest[0] == dv[i as int]);
            assert(dv[i as int] == dirs@[i as int]@);
            assert(rest.subrange(1, rest.len() as int) =~= dv.subrange(i + 1, dv.len() as int));
        }
        let cand: String = join_path(dirs[i].as_str(), name);
        if fs.path_exists(cand.as_str()) {
            return Some(cand);
        }
        i = i + 1;
    }
    proof {
        assert(dv.subrange(dv.len() as int, dv.len() as int) =~= Seq::<Seq<char>>::empty());
    }
    None
}

/// A name holding `/` is treated as a path: absolute as it stands, relative
/// against the working directory; it resolves only if that file exists.
pub open spec fn spec_search_name_as_path(name: Seq<char>, cwd: Seq<char>, fs: Fs) -> Option<
    Seq<char>,
> {
    if spec_find_char(name, '/') is None {
        None
    } else if spec_is_abs(name) {
        if fs.has_entry(name) {
            Some(name)
        } else {
            None
        }
    } else {
        let p = spec_join_path(cwd, name);
        if fs.has_entry(p) {
            Some(p)
        } else {
            None
        }
    }
}

/// Resolves a name that holds `/` as a filesystem path.
pub fn search_name_as_path(name: &str, cwd: &str, fs: &Fs) -> (r: Option<String>)
    ensures
        match r {
            Some(p) => spec_search_name_as_path(name@, cwd@, *fs) == Some(p@),
            None => spec_search_name_as_path(name@, cwd@, *fs) is None,
        },
{
    match find_char(name, '/') {
        None => None,
        Some(_) => {
            if is_abs_path(name) {
                if fs.path_exists(name) {
                    Some(name.to_owned())
                } else {
                    None
                }
            } else {
                let p: String = join_path(cwd, name);
                if fs.path_exists(p.as_str()) {
                    Some(p)
                } else {
                    None
                }
            }
        },
    }
}

/// The loader's fallback directories.
pub open spec fn spec_fallback_dirs() -> Seq<Seq<char>> {
    seq!["/lib64"@, "/lib"@, "/usr/lib64"@, "/usr/lib"@]
}

/// The stages after the name-as-path probe, in loader order: `LD_PRELOAD`;
/// `DT_RPATH` and inherited rpaths (only when the object has no
/// `DT_RUNPATH`); `LD_LIBRARY_PATH`; `DT_RUNPATH`; the loader cache; the
/// fallback directories; `ldd`.
pub open spec fn spec_search_stages(
    name: Seq<char>,
    dt_rpaths: Seq<Seq<char>>,
    extra_rpaths: Seq<Seq<char>>,
    dt_runpaths: Seq<Seq<char>>,
    ld_preload: Seq<Seq<char>>,
    ld_library_path: Seq<Seq<char>>,
    fs: Fs,
    ldconfig_out: Seq<char>,
    ldd_out: Seq<char>,
) -> Option<Seq<char>> {
    let s2 = spec_find_in_dirs(name, ld_preload, fs);
    if s2 is Some {
        s2
    } else {
        let s3 = if dt_runpaths.len() == 0 {
            let a = spec_find_in_dirs(name, dt_rpaths, fs);
            if a is Some {
                a
            } else {
                spec_find_in_dirs(name, extra_rpaths, fs)
            }
        } else {
            None
        };
        if s3 is Some {
            s3
        } else {
            let s4 = spec_find_in_dirs(name, ld_library_path, fs);
            if s4 is Some {
                s4
            } else {
                let s5 = spec_find_in_dirs(name, dt_runpaths, fs);
                if s5 is Some {
                    s5
                } else {
                    let s6 = spec_ldconfig_find(name, ldconfig_out);
                    if s6 is Some {
                        s6
                    } else {
                        let s7 = spec_find_in_dirs(name, spec_fallback_dirs(), fs);
                        if s7 is Some {
                            s7
                        } else {
                            match spec_ldd_find(name, ldd_out) {
                                Some(p) => if fs.has_entry(p) {
                                    Some(p)
                                } else {
                                    None
                                },
                                None => None,
                            }
                        }
                    }
                }
            }
        }
    }
}

/// The whole resolution order: a name holding `/` is tried as a path first,
/// then the staged search runs.
pub open spec fn spec_search(
    name: Seq<char>,
    dt_rpaths: Seq<Seq<char>>,
    extra_rpaths: Seq<Seq<char>>,
    dt_runpaths: Seq<Seq<char>>,
    ld_preload: Seq<Seq<char>>,
    ld_library_path: Seq<Seq<char>>,
    cwd: Seq<char>,
    fs: Fs,
    ldconfig_out: Seq<char>,
    ldd_out: Seq<char>,
) -> Option<Seq<char>> {
    match spec_search_name_as_path(name, cwd, fs) {
        Some(p) => Some(p),
        None => spec_search_stages(
            name,
            dt_rpaths,
            extra_rpaths,
            dt_runpaths,
            ld_preload,
            ld_library_path,
            fs,
            ldconfig_out,
            ldd_out,
        ),
    }
}

/// Resolves `name` for an object, as the host loader would. `ldconfig_out`
/// is the text of `ldconfig -p`; `ldd_out` the text of `ldd` on the object.
pub fn search(
    name: &str,
    dt_rpaths: &Vec<String>,
    extra_rpaths: &Vec<String>,
    dt_runpaths: &Vec<String>,
    ld_preload: &Vec<String>,
    ld_library_path: &Vec<String>,
    cwd: &str,
    fs: &Fs,
    ldconfig_out: &str,
    ldd_out: &str,
) -> (r: Option<String>)
    ensures
        match r {
            Some(p) => spec_search(
                name@,
                strs_view(dt_rpaths@),
                strs_view(extra_rpaths@),
                strs_view(dt_runpaths@),
                strs_view(ld_preload@),
                strs_view(ld_library_path@),
                cwd@,
                *fs,
                ldconfig_out@,
                ldd_out@,
            ) == Some(p@),
            None => spec_search(
                name@,
                strs_view(dt_rpaths@),
                strs_view(extra_rpaths@),
                strs_view(dt_runpaths@),
                strs_view(ld_preload@),
                strs_view(ld_library_path@),
                cwd@,
                *fs,
                ldconfig_out@,
                ldd_out@,
            ) is None,
        },
{
    if let Some(p) = search_name_as_path(name, cwd, fs) {
        return Some(p);
    }
    if let Some(p) = find_in_dirs(name, ld_preload, fs) {
        return Some(p);
    }
    if dt_runpaths.len() == 0 {
        if let Some(p) = find_in_dirs(name, dt_rpaths, fs) {
            return Some(p);
        }
        if let Some(p) = find_in_dirs(name, extra_rpaths, fs) {
            return Some(p);
        }
    }
    if let Some(p) = find_in_dirs(name, ld_library_path, fs) {
        return Some(p);
    }
    if let Some(p) = find_in_dirs(name, dt_runpaths, fs) {
        return Some(p);
    }
    if let Some(p) = ldconfig::find_in_output(name, ldconfig_out.to_owned()) {
        return Some(p);
    }
    let mut fallback: Vec<String> = Vec::new();
    fallback.push("/lib64".to_owned());
    fallback.push("/lib".to_owned());
    fallback.push("/usr/lib64".to_owned());
    fallback.push("/usr/lib".to_owned());
    proof {
        assert(strs_view(fallback@) =~= spec_fallback_dirs());
    }
    if let Some(p) = find_in_dirs(name, &fallback, fs) {
        return Some(p);
    }
    if let Some(p) = ldd::find(name, ldd_out.to_owned(), fs) {
        return Some(p);
    }
    None
}

/// A library name present in both `LD_LIBRARY_PATH` and `DT_RUNPATH`
/// resolves to the `LD_LIBRARY_PATH` entry: with a bare name that
/// `LD_PRELOAD` does not satisfy, and `DT_RUNPATH` nonempty (so the rpath
/// stages are skipped), the result is the `LD_LIBRARY_PATH` hit.
pub proof fn lemma_library_path_beats_runpath(
    name: Seq<char>,
    dt_rpaths: Seq<Seq<char>>,
    extra_rpaths: Seq<Seq<char>>,
    dt_runpaths: Seq<Seq<char>>,
    ld_preload: Seq<Seq<char>>,
    ld_library_path: Seq<Seq<char>>,
    cwd: Seq<char>,
    fs: Fs,
    ldconfig_out: Seq<char>,
    ldd_out: Seq<char>,
    p: Seq<char>,
)
    requires
        spec_find_char(name, '/') is None,
        spec_find_in_dirs(name, ld_preload, fs) is None,
        dt_runpaths.len() > 0,
        spec_find_in_dirs(name, ld_library_path, fs) == Some(p),
        spec_find_in_dirs(name, dt_runpaths, fs) is Some,
    ensures
        spec_search(
            name,
            dt_rpaths,
            extra_rpaths,
            dt_runpaths,
            ld_preload,
            ld_library_path,
            cwd,
            fs,
            ldconfig_out,
            ldd_out,
        ) == Some(p),
{
}

/// A `DT_NEEDED` holding an absolute path wins over every search stage when
/// the file at that path exists.
pub proof fn lemma_absolute_needed_wins(
    name: Seq<char>,
    dt_rpaths: Seq<Seq<char>>,
    extra_rpaths: Seq<Seq<char>>,
    dt_runpaths: Seq<Seq<char>>,
    ld_preload: Seq<Seq<char>>,
    ld_library_path: Seq<Seq<char>>,
    cwd: Seq<char>,
    fs: Fs,
    ldconfig_out: Seq<char>,
    ldd_out: Seq<char>,
)
    requires
        spec_is_abs(name),
        fs.has_entry(name),
    ensures
        spec_search(
            name,
            dt_rpaths,
            extra_rpaths,
            dt_runpaths,
            ld_preload,
            ld_library_path,
            cwd,
            fs,
            ldconfig_out,
            ldd_out,
        ) == Some(name),
{
    assert(spec_find_char(name, '/') == Some(0int));
}

/// A `DT_NEEDED` holding an absolute path whose file does not exist decides
/// nothing: resolution falls through to the staged search-path order.
pub proof fn lemma_absolute_needed_missing_falls_through(
    name: Seq<char>,
    dt_rpaths: Seq<Seq<char>>,
    extra_rpaths: Seq<Seq<char>>,
    dt_runpaths: Seq<Seq<char>>,
    ld_preload: Seq<Seq<char>>,
    ld_library_path: Seq<Seq<char>>,
    cwd: Seq<char>,
    fs: Fs,
    ldconfig_out: Seq<char>,
    ldd_out: Seq<char>,
)
    requires
        spec_is_abs(name),
        !fs.has_entry(name),
    ensures
        spec_search(
            name,
            dt_rpaths,
            extra_rpaths,
            dt_runpaths,
            ld_preload,
            ld_library_path,
            cwd,
            fs,
            ldconfig_out,
            ldd_out,
        ) == spec_search_stages(
            name,
            dt_rpaths,
            extra_rpaths,
            dt_runpaths,
            ld_preload,
            ld_library_path,
            fs,
            ldconfig_out,
            ldd_out,
        ),
{
    assert(spec_find_char(name, '/') == Some(0int));
}

/// The `$PLATFORM` substitution value. Reading the auxiliary vector is host
/// work; a build without that support substitutes the empty string, and a
/// path that then does not exist is dropped by the existence filter.
pub fn get_at_platform() -> (r: String)
    ensures
        r@ == Seq::<char>::empty(),
{
    String::new()
}

/// An rpath entry after `$ORIGIN`, `$LIB` and `$PLATFORM` substitution,
/// including the brace forms, each applied once.
pub open spec fn spec_subst_rpath(
    rp: Seq<char>,
    parent: Seq<char>,
    libdir: Seq<char>,
    platform: Seq<char>,
) -> Seq<char> {
    spec_replace(
        spec_replace(
            spec_replace(
                spec_replace(
                    spec_replace(spec_replace(rp, "$ORIGIN"@, parent), "${ORIGIN}"@, parent),
                    "$LIB"@,
                    libdir,
                ),
                "${LIB}"@,
                libdir,
            ),
            "$PLATFORM"@,
            platform,
        ),
        "${PLATFORM}"@,
        platform,
    )
}

/// One resolved rpath entry: substituted against the object's directory and
/// kept only when the resulting path exists.
pub open spec fn spec_parse_rpath(
    rp: Seq<char>,
    object_path: Seq<char>,
    libdir: Seq<char>,
    platform: Seq<char>,
    fs: Fs,
) -> Result<Option<Seq<char>>, ()> {
    match spec_dirname(object_path) {
        None => Err(()),
        Some(parent) => {
            let p = spec_subst_rpath(rp, parent, libdir, platform);
            if fs.has_entry(p) {
                Ok(Some(p))
            } else {
                Ok(None)
            }
        },
    }
}

/// Substitutes and probes one rpath entry of the object at `object_path`.
/// `is_64bit` picks the `$LIB` value; `platform` the `$PLATFORM` value.
pub fn parse_rpath(
    rp: &str,
    object_path: &str,
    is_64bit: bool,
    platform: &str,
    fs: &Fs,
) -> (r: Result<Option<String>, YarpError>)
    ensures
        match r {
            Ok(Some(p)) => spec_parse_rpath(
                rp@,
                object_path@,
                if is_64bit { "lib64"@ } else { "lib"@ },
                platform@,
                *fs,
            ) == Ok::<Option<Seq<char>>, ()>(Some(p@)),
            Ok(None) => spec_parse_rpath(
                rp@,
                object_path@,
                if is_64bit { "lib64"@ } else { "lib"@ },
                platform@,
                *fs,
            ) == Ok::<Option<Seq<char>>, ()>(None),
            Err(_) => spec_dirname(object_path@) is None,
        },
{
    let parent: String = match dirname(object_path) {
        None => {
            return Err(YarpError::NoFileName(object_path.to_owned()));
        },
        Some(d) => d,
    };
    let libdir: &str = if is_64bit {
        "lib64"
    } else {
        "lib"
    };
    let mut p: String = replace_all(rp, "$ORIGIN", parent.as_str());
    p = replace_all(p.as_str(), "${ORIGIN}", parent.as_str());
    p = replace_all(p.as_str(), "$LIB", libdir);
    p = replace_all(p.as_str(), "${LIB}", libdir);
    p = replace_all(p.as_str(), "$PLATFORM", platform);
    p = replace_all(p.as_str(), "${PLATFORM}", platform);
    if fs.path_exists(p.as_str()) {
        Ok(Some(p))
    } else {
        Ok(None)
    }
}

/// The rpath entries of an object that substitute and resolve to existing
/// paths, in order; entries that fail are dropped.
pub open spec fn spec_valid_rpaths(
    rps: Seq<Seq<char>>,
    object_path: Seq<char>,
    libdir: Seq<char>,
    platform: Seq<char>,
    fs: Fs,
) -> Seq<Seq<char>>
    decreases rps.len(),
{
    if rps.len() == 0 {
        Seq::empty()
    } else {
        let pre = spec_valid_rpaths(rps.drop_last(), object_path, libdir, platform, fs);
        match spec_parse_rpath(rps.last(), object_path, libdir, platform, fs) {
            Ok(Some(p)) => pre.push(p),
            _ => pre,
        }
    }
}

/// Resolves every rpath entry of an object, dropping the ones that do not
/// resolve to an existing path.
pub fn get_valid_rpaths(
    rps: &Vec<String>,
    object_path: &str,
    is_64bit: bool,
    platform: &str,
    fs: &Fs,
) -> (r: Vec<String>)
    ensures
        strs_view(r@) == spec_valid_rpaths(
            strs_view(rps@),
            object_path@,
            if is_64bit { "lib64"@ } else { "lib"@ },
            platform@,
            *fs,
        ),
{
    let ghost rv = strs_view(rps@);
    let ghost libdir = if is_64bit { "lib64"@ } else { "lib"@ };
    let mut out: Vec<String> = Vec::new();
    let mut i: usize = 0;
    proof {
        assert(rv.take(0) =~= Seq::<Seq<char>>::empty());
        assert(strs_view(out@) =~= spec_valid_rpaths(rv.take(0), object_path@, libdir, platform@, *fs));
    }
    while i < rps.len()
        invariant
            i <= rps@.len(),
            rv == strs_view(rps@),
            libdir == if is_64bit { "lib64"@ } else { "lib"@ },
            strs_view(out@) == spec_valid_rpaths(rv.take(i as int), object_path@, libdir, platform@, *fs),
        decreases rps@.len() - i,
    {
        proof {
            assert(rv.take(i + 1).drop_last() =~= rv.take(i as int));
            assert(rv.take(i + 1).last() == rv[i as int]);
            assert(rv[i as int] == rps@[i as int]@);
        }
        match parse_rpath(rps[i].as_str(), object_path, is_64bit, platform, fs) {
            Ok(Some(p)) => {
                let ghost prev = strs_view(out@);
                out.push(p);
                proof {
                    assert(strs_view(out@) =~= prev.push(
                        spec_parse_rpath(rv[i as int], object_path@, libdir, platform@, *fs)->Ok_0->Some_0,
                    ));
                }
            },
            _ => {},
        }
        i = i + 1;
    }
    proof {
        assert(rv.take(rps@.len() as int) =~= rv);
    }
    out
}

} // verus!
