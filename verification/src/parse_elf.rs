//! Resolution of an ELF object's dynamic table: rpath and runpath
//! substitution, and the resolution of every `DT_NEEDED` through the
//! loader-order search with the known-libs oracle as last resort.

use vstd::prelude::*;

verus! {

use crate::fsview::Fs;
use crate::errors::YarpError;
use crate::binary::Elf;
use crate::binary::pairs_view;
use crate::binary::vals_of;
use crate::rawbin::RawElf;
use crate::paths::strs_view;
use crate::paths::spec_valid_dirs;
use crate::paths::split_colon_separated_into_valid_search_paths;
use crate::strmap::StrMap;
use crate::strutil::spec_split;
use crate::strutil::split_char;
use crate::search::spec_parse_rpath;
use crate::search::spec_search;
use crate::search::parse_rpath;
use crate::search::search;

/// The colon-split of every entry, concatenated in order.
pub open spec fn spec_colon_split_all(entries: Seq<Seq<char>>) -> Seq<Seq<char>>
    decreases entries.len(),
{
    if entries.len() == 0 {
        Seq::empty()
    } else {
        spec_colon_split_all(entries.drop_last()) + spec_split(entries.last(), ':')
    }
}

fn colon_split_all(entries: &Vec<String>) -> (r: Vec<String>)
    ensures
        strs_view(r@) == spec_colon_split_all(strs_view(entries@)),
{
    let ghost ev = strs_view(entries@);
    let mut out: Vec<String> = Vec::new();
    let mut i: usize = 0;
    proof {
        assert(ev.take(0) =~= Seq::<Seq<char>>::empty());
        assert(strs_view(out@) =~= spec_colon_split_all(ev.take(0)));
    }
    while i < entries.len()
        invariant
            i <= entries@.len(),
            ev == strs_view(entries@),
            strs_view(out@) == spec_colon_split_all(ev.take(i as int)),
        decreases entries@.len() - i,
    {
        proof {
            assert(ev.take(i + 1).drop_last() =~= ev.take(i as int));
            assert(ev.take(i + 1).last() == ev[i as int]);
            assert(ev[i as int] == entries@[i as int]@);
        }
        let mut parts: Vec<String> = split_char(entries[i].as_str(), ':');
        let ghost prev = strs_view(out@);
        let ghost pv = strs_view(parts@);
        out.append(&mut parts);
        proof {
            assert(pv =~= spec_split(ev[i as int], ':'));
            assert(strs_view(out@) =~= prev + pv);
        }
        i = i + 1;
    }
    proof {
        assert(ev.take(entries@.len() as int) =~= ev);
    }
    out
}

/// Every rpath entry resolved against the object, keeping the ones whose
/// substitution names an existing path; an object with no parent directory
/// cannot resolve any.
pub open spec fn spec_resolve_rpath_entries(
    entries: Seq<Seq<char>>,
    object_path: Seq<char>,
    libdir: Seq<char>,
    platform: Seq<char>,
    fs: Fs,
) -> Result<Seq<(Seq<char>, Seq<char>)>, ()>
    decreases entries.len(),
{
    if entries.len() == 0 {
        Ok(Seq::empty())
    } else {
        match spec_resolve_rpath_entries(entries.drop_last(), object_path, libdir, platform, fs) {
            Err(()) => Err(()),
            Ok(ps) => match spec_parse_rpath(entries.last(), object_path, libdir, platform, fs) {
                Err(()) => Err(()),
                Ok(Some(p)) => Ok(ps.push((entries.last(), p))),
                Ok(None) => Ok(ps),
            },
        }
    }
}

proof fn lemma_resolve_rpath_entries_err_mono(
    entries: Seq<Seq<char>>,
    object_path: Seq<char>,
    libdir: Seq<char>,
    platform: Seq<char>,
    fs: Fs,
    j: int,
)
    requires
        0 <= j <= entries.len(),
        spec_resolve_rpath_entries(entries.take(j), object_path, libdir, platform, fs) is Err,
    ensures
        spec_resolve_rpath_entries(entries, object_path, libdir, platform, fs) is Err,
    decreases entries.len() - j,
{
    if j == entries.len() {
        assert(entries.take(j) =~= entries);
    } else {
        assert(entries.take(j + 1).drop_last() =~= entries.take(j));
        lemma_resolve_rpath_entries_err_mono(entries, object_path, libdir, platform, fs, j + 1);
    }
}

/// Resolves every rpath or runpath entry of the object.
pub fn resolve_rpaths(
    entries: &Vec<String>,
    object_path: &str,
    is_64bit: bool,
    platform: &str,
    fs: &Fs,
) -> (r: Result<Vec<(String, String)>, YarpError>)
    ensures
        match r {
            Ok(ps) => spec_resolve_rpath_entries(
                strs_view(entries@),
                object_path@,
                if is_64bit { "lib64"@ } else { "lib"@ },
                platform@,
                *fs,
            ) == Ok::<_, ()>(pairs_view(ps@)),
            Err(_) => spec_resolve_rpath_entries(
                strs_view(entries@),
                object_path@,
                if is_64bit { "lib64"@ } else { "lib"@ },
                platform@,
                *fs,
            ) is Err,
        },
{
    let ghost ev = strs_view(entries@);
    let ghost libdir = if is_64bit { "lib64"@ } else { "lib"@ };
    let mut ps: Vec<(String, String)> = Vec::new();
    let mut i: usize = 0;
    proof {
        assert(ev.take(0) =~= Seq::<Seq<char>>::empty());
        assert(pairs_view(ps@) =~= Seq::<(Seq<char>, Seq<char>)>::empty());
    }
    while i < entries.len()
        invariant
            i <= entries@.len(),
            ev == strs_view(entries@),
            libdir == if is_64bit { "lib64"@ } else { "lib"@ },
            spec_resolve_rpath_entries(ev.take(i as int), object_path@, libdir, platform@, *fs)
                == Ok::<_, ()>(pairs_view(ps@)),
        decreases entries@.len() - i,
    {
        proof {
            assert(ev.take(i + 1).drop_last() =~= ev.take(i as int));
            assert(ev.take(i + 1).last() == ev[i as int]);
            assert(ev[i as int] == entries@[i as int]@);
        }
        match parse_rpath(entries[i].as_str(), object_path, is_64bit, platform, fs) {
            Err(e) => {
                proof {
                    lemma_resolve_rpath_entries_err_mono(
                        ev,
                        object_path@,
                        libdir,
                        platform@,
                        *fs,
                        i + 1,
                    );
                }
                return Err(e);
            },
            Ok(Some(p)) => {
                let ghost prev = pairs_view(ps@);
                ps.push((entries[i].clone(), p));
                proof {
                    assert(pairs_view(ps@) =~= prev.push(
                        (ev[i as int], spec_parse_rpath(
                            ev[i as int],
                            object_path@,
                            libdir,
                            platform@,
                            *fs,
                        )->Ok_0->Some_0),
                    ));
                }
            },
            Ok(None) => {},
        }
        i = i + 1;
    }
    proof {
        assert(ev.take(entries@.len() as int) =~= ev);
    }
    Ok(ps)
}

/// Every needed name resolved through the loader-order search, with the
/// known-libs index as last resort; a name both fail on fails the parse.
pub open spec fn spec_resolve_needed(
    libs: Seq<Seq<char>>,
    dt_rpaths: Seq<Seq<char>>,
    extra_rpaths: Seq<Seq<char>>,
    dt_runpaths: Seq<Seq<char>>,
    ld_preload: Seq<Seq<char>>,
    ld_library_path: Seq<Seq<char>>,
    cwd: Seq<char>,
    fs: Fs,
    ldconfig_out: Seq<char>,
    ldd_out: Seq<char>,
    known: Map<Seq<char>, Seq<char>>,
) -> Result<Seq<(Seq<char>, Seq<char>)>, ()>
    decreases libs.len(),
{
    if libs.len() == 0 {
        Ok(Seq::empty())
    } else {
        match spec_resolve_needed(
            libs.drop_last(),
            dt_rpaths,
            extra_rpaths,
            dt_runpaths,
            ld_preload,
            ld_library_path,
            cwd,
            fs,
            ldconfig_out,
            ldd_out,
            known,
        ) {
            Err(()) => Err(()),
            Ok(ps) => match spec_search(
                libs.last(),
                dt_rpaths,
                extra_rpaths,
                dt_runpaths,
                ld_preload,
                ld_library_path,
                cwd,
                fs,
                ldconfig_out,
                ldd_out,
            ) {
                Some(p) => Ok(ps.push((libs.last(), p))),
                None => if known.contains_key(libs.last()) {
                    Ok(ps.push((libs.last(), known[libs.last()])))
                } else {
                    Err(())
                },
            },
        }
    }
}

proof fn lemma_resolve_needed_err_mono(
    libs: Seq<Seq<char>>,
    dt_rpaths: Seq<Seq<char>>,
    extra_rpaths: Seq<Seq<char>>,
    dt_runpaths: Seq<Seq<char>>,
    ld_preload: Seq<Seq<char>>,
    ld_library_path: Seq<Seq<char>>,
    cwd: Seq<char>,
    fs: Fs,
    ldconfig_out: Seq<char>,
    ldd_out: Seq<char>,
    known: Map<Seq<char>, Seq<char>>,
    j: int,
)
    requires
        0 <= j <= libs.len(),
        spec_resolve_needed(
            libs.take(j),
            dt_rpaths,
            extra_rpaths,
            dt_runpaths,
            ld_preload,
            ld_library_path,
            cwd,
            fs,
            ldconfig_out,
            ldd_out,
            known,
        ) is Err,
    ensures
        spec_resolve_needed(
            libs,
            dt_rpaths,
            extra_rpaths,
            dt_runpaths,
            ld_preload,
            ld_library_path,
            cwd,
            fs,
            ldconfig_out,
            ldd_out,
            known,
        ) is Err,
    decreases libs.len() - j,
{
    if j == libs.len() {
        assert(libs.take(j) =~= libs);
    } else {
        assert(libs.take(j + 1).drop_last() =~= libs.take(j));
        lemma_resolve_needed_err_mono(
            libs,
            dt_rpaths,
            extra_rpaths,
            dt_runpaths,
            ld_preload,
            ld_library_path,
            cwd,
            fs,
            ldconfig_out,
            ldd_out,
            known,
            j + 1,
        );
    }
}

/// The search-path lists an environment variable contributes: its
/// colon-split entries that name existing directories.
pub open spec fn spec_env_dirs(env: Map<Seq<char>, Seq<char>>, key: Seq<char>, fs: Fs) -> Seq<
    Seq<char>,
> {
    if env.contains_key(key) {
        spec_valid_dirs(spec_split(env[key], ':'), fs)
    } else {
        Seq::empty()
    }
}

/// The full parse of an ELF object's dynamic table.
pub open spec fn spec_parse_elf(
    raw: RawElf,
    object_path: Seq<char>,
    cwd: Seq<char>,
    env: Map<Seq<char>, Seq<char>>,
    extra_rpaths: Seq<Seq<char>>,
    known: Map<Seq<char>, Seq<char>>,
    fs: Fs,
    ldconfig_out: Seq<char>,
    ldd_out: Seq<char>,
    libdir: Seq<char>,
    platform: Seq<char>,
) -> Result<ElfParts, ()> {
    let rpaths = spec_colon_split_all(strs_view(raw.rpath_entries@));
    let runpaths = spec_colon_split_all(strs_view(raw.runpath_entries@));
    match spec_resolve_rpath_entries(rpaths, object_path, libdir, platform, fs) {
        Err(()) => Err(()),
        Ok(dt_rpaths) => match spec_resolve_rpath_entries(
            runpaths,
            object_path,
            libdir,
            platform,
            fs,
        ) {
            Err(()) => Err(()),
            Ok(dt_runpaths) => match spec_resolve_needed(
                strs_view(raw.needed@),
                vals_of(dt_rpaths),
                extra_rpaths,
                vals_of(dt_runpaths),
                spec_env_dirs(env, "LD_PRELOAD"@, fs),
                spec_env_dirs(env, "LD_LIBRARY_PATH"@, fs),
                cwd,
                fs,
                ldconfig_out,
                ldd_out,
                known,
            ) {
                Err(()) => Err(()),
                Ok(dt_needed) => Ok(
                    ElfParts {
                        dt_needed: dt_needed,
                        dt_rpaths: dt_rpaths,
                        dt_runpaths: dt_runpaths,
                        all_dt_rpaths: rpaths,
                        all_dt_runpaths: runpaths,
                    },
                ),
            },
        },
    }
}

/// The mathematical content of a successful ELF parse, before the object
/// path is attached.
pub struct ElfParts {
    pub dt_needed: Seq<(Seq<char>, Seq<char>)>,
    pub dt_rpaths: Seq<(Seq<char>, Seq<char>)>,
    pub dt_runpaths: Seq<(Seq<char>, Seq<char>)>,
    pub all_dt_rpaths: Seq<Seq<char>>,
    pub all_dt_runpaths: Seq<Seq<char>>,
}

/// Parses an ELF object's dynamic table against the filesystem view, the
/// environment, the loader cache text and the object's `ldd` text.
pub fn parse(
    raw: &RawElf,
    object_path: &str,
    cwd: &str,
    env: &StrMap,
    extra_rpaths: &Vec<String>,
    known_libs: &StrMap,
    fs: &Fs,
    ldconfig_out: &str,
    ldd_out: &str,
    is_64bit: bool,
    platform: &str,
) -> (r: Result<Elf, YarpError>)
    ensures
        match r {
            Ok(e) => spec_parse_elf(
                *raw,
                object_path@,
                cwd@,
                env@,
                strs_view(extra_rpaths@),
                known_libs@,
                *fs,
                ldconfig_out@,
                ldd_out@,
                if is_64bit { "lib64"@ } else { "lib"@ },
                platform@,
            ) matches Ok(parts) && e@.dt_needed == parts.dt_needed && e@.dt_rpaths
                == parts.dt_rpaths && e@.dt_runpaths == parts.dt_runpaths && e@.all_dt_rpaths
                == parts.all_dt_rpaths && e@.all_dt_runpaths == parts.all_dt_runpaths && e@.path
                == object_path@,
            Err(_) => spec_parse_elf(
                *raw,
                object_path@,
                cwd@,
                env@,
                strs_view(extra_rpaths@),
                known_libs@,
                *fs,
                ldconfig_out@,
                ldd_out@,
                if is_64bit { "lib64"@ } else { "lib"@ },
                platform@,
            ) is Err,
        },
{
    let rpaths: Vec<String> = colon_split_all(&raw.rpath_entries);
    let runpaths: Vec<String> = colon_split_all(&raw.runpath_entries);
    let dt_rpaths: Vec<(String, String)> = match resolve_rpaths(
        &rpaths,
        object_path,
        is_64bit,
        platform,
        fs,
    ) {
        Err(e) => {
            return Err(e);
        },
        Ok(ps) => ps,
    };
    let dt_runpaths: Vec<(String, String)> = match resolve_rpaths(
        &runpaths,
        object_path,
        is_64bit,
        platform,
        fs,
    ) {
        Err(e) => {
            return Err(e);
        },
        Ok(ps) => ps,
    };
    let ld_preload: Vec<String> = split_colon_separated_into_valid_search_paths(
        env.get("LD_PRELOAD"),
        fs,
    );
    let ld_library_path: Vec<String> = split_colon_separated_into_valid_search_paths(
        env.get("LD_LIBRARY_PATH"),
        fs,
    );
    proof {
        assert(strs_view(ld_preload@) =~= spec_env_dirs(env@, "LD_PRELOAD"@, *fs));
        assert(strs_view(ld_library_path@) =~= spec_env_dirs(env@, "LD_LIBRARY_PATH"@, *fs));
    }
    let rpath_vals: Vec<String> = assoc_vals(&dt_rpaths);
    let runpath_vals: Vec<String> = assoc_vals(&dt_runpaths);
    let ghost needed_v = strs_view(raw.needed@);
    let mut dt_needed: Vec<(String, String)> = Vec::new();
    let mut i: usize = 0;
    proof {
        assert(needed_v.take(0) =~= Seq::<Seq<char>>::empty());
        assert(pairs_view(dt_needed@) =~= Seq::<(Seq<char>, Seq<char>)>::empty());
    }
    while i < raw.needed.len()
        invariant
            i <= raw.needed@.len(),
            needed_v == strs_view(raw.needed@),
            strs_view(rpaths@) == spec_colon_split_all(strs_view(raw.rpath_entries@)),
            strs_view(runpaths@) == spec_colon_split_all(strs_view(raw.runpath_entries@)),
            spec_resolve_rpath_entries(
                strs_view(rpaths@),
                object_path@,
                if is_64bit { "lib64"@ } else { "lib"@ },
                platform@,
                *fs,
            ) == Ok::<_, ()>(pairs_view(dt_rpaths@)),
            spec_resolve_rpath_entries(
                strs_view(runpaths@),
                object_path@,
                if is_64bit { "lib64"@ } else { "lib"@ },
                platform@,
                *fs,
            ) == Ok::<_, ()>(pairs_view(dt_runpaths@)),
            strs_view(rpath_vals@) == vals_of(pairs_view(dt_rpaths@)),
            strs_view(runpath_vals@) == vals_of(pairs_view(dt_runpaths@)),
            strs_view(ld_preload@) == spec_env_dirs(env@, "LD_PRELOAD"@, *fs),
            strs_view(ld_library_path@) == spec_env_dirs(env@, "LD_LIBRARY_PATH"@, *fs),
            spec_resolve_needed(
                needed_v.take(i as int),
                vals_of(pairs_view(dt_rpaths@)),
                strs_view(extra_rpaths@),
                vals_of(pairs_view(dt_runpaths@)),
                spec_env_dirs(env@, "LD_PRELOAD"@, *fs),
                spec_env_dirs(env@, "LD_LIBRARY_PATH"@, *fs),
                cwd@,
                *fs,
                ldconfig_out@,
                ldd_out@,
                known_libs@,
            ) == Ok::<_, ()>(pairs_view(dt_needed@)),
        decreases raw.needed@.len() - i,
    {
        proof {
            assert(needed_v.take(i + 1).drop_last() =~= needed_v.take(i as int));
            assert(needed_v.take(i + 1).last() == needed_v[i as int]);
            assert(needed_v[i as int] == raw.needed@[i as int]@);
        }
        let lib: &String = &raw.needed[i];
        match search(
            lib.as_str(),
            &rpath_vals,
            extra_rpaths,
            &runpath_vals,
            &ld_preload,
            &ld_library_path,
            cwd,
            fs,
            ldconfig_out,
            ldd_out,
        ) {
            Some(p) => {
                let ghost prev = pairs_view(dt_needed@);
                dt_needed.push((lib.clone(), p));
                proof {
                    assert(pairs_view(dt_needed@) =~= prev.push(
                        (needed_v[i as int], spec_search(
                            needed_v[i as int],
                            vals_of(pairs_view(dt_rpaths@)),
                            strs_view(extra_rpaths@),
                            vals_of(pairs_view(dt_runpaths@)),
                            spec_env_dirs(env@, "LD_PRELOAD"@, *fs),
                            spec_env_dirs(env@, "LD_LIBRARY_PATH"@, *fs),
                            cwd@,
                            *fs,
                            ldconfig_out@,
                            ldd_out@,
                        )->Some_0),
                    ));
                }
            },
            None => {
                match known_libs.get(lib.as_str()) {
                    Some(p) => {
                        let ghost prev = pairs_view(dt_needed@);
                        dt_needed.push((lib.clone(), p.clone()));
                        proof {
                            assert(pairs_view(dt_needed@) =~= prev.push(
                                (needed_v[i as int], known_libs@[needed_v[i as int]]),
                            ));
                        }
                    },
                    None => {
                        proof {
                            lemma_resolve_needed_err_mono(
                                needed_v,
                                vals_of(pairs_view(dt_rpaths@)),
                                strs_view(extra_rpaths@),
                                vals_of(pairs_view(dt_runpaths@)),
                                spec_env_dirs(env@, "LD_PRELOAD"@, *fs),
                                spec_env_dirs(env@, "LD_LIBRARY_PATH"@, *fs),
                                cwd@,
                                *fs,
                                ldconfig_out@,
                                ldd_out@,
                                known_libs@,
                                i + 1,
                            );
                        }
                        return Err(
                            YarpError::UnresolvedDependency {
                                name: lib.clone(),
                                object: object_path.to_owned(),
                            },
                        );
                    },
                }
            },
        }
        i = i + 1;
    }
    proof {
        assert(needed_v.take(raw.needed@.len() as int) =~= needed_v);
    }
    Ok(
        Elf {
            dt_needed: dt_needed,
            dt_rpaths: dt_rpaths,
            dt_runpaths: dt_runpaths,
            path: object_path.to_owned(),
            all_dt_rpaths: rpaths,
            all_dt_runpaths: runpaths,
        },
    )
}

fn assoc_vals(ps: &Vec<(String, String)>) -> (r: Vec<String>)
    ensures
        strs_view(r@) == vals_of(pairs_view(ps@)),
{
    let ghost pv = pairs_view(ps@);
    let mut out: Vec<String> = Vec::new();
    let mut i: usize = 0;
    while i < ps.len()
        invariant
            i <= ps@.len(),
            pv == pairs_view(ps@),
            strs_view(out@) == vals_of(pv.take(i as int)),
        decreases ps@.len() - i,
    {
        let v: String = ps[i].1.clone();
        let ghost prev = strs_view(out@);
        out.push(v);
        proof {
            assert(strs_view(out@) =~= prev.push(pv[i as int].1));
            assert(vals_of(pv.take(i + 1)) =~= vals_of(pv.take(i as int)).push(pv[i as int].1));
        }
        i = i + 1;
    }
    proof {
        assert(pv.take(ps@.len() as int) =~= pv);
        assert(strs_view(out@) =~= vals_of(pv));
    }
    out
}

} // verus!
