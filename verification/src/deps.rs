//! What a file needs at load time: nothing for a plain file, a parsed
//! binary for a shared object. Building it from raw metadata decides, per
//! format and host, whether the file joins the closure as a binary, counts
//! as plain, or fails the build.

use vstd::prelude::*;

verus! {

use crate::fsview::Fs;
use crate::errors::YarpError;
use crate::binary::Binary;
use crate::binary::BinaryView;
use crate::binary::spec_dependencies;
use crate::binary::spec_paths_for_next_search;
use crate::rawbin::RawBinary;
use crate::rawbin::HostOs;
use crate::host::Host;
use crate::host::spec_raw_of;
use crate::host::raw_pairs_view;
use crate::strmap::StrMap;
use crate::strutil::str_eq;
use crate::paths::strs_view;
use crate::paths::spec_is_shared_library;
use crate::paths::spec_dirname;
use crate::paths::is_shared_library;
use crate::paths::dirname;
use crate::paths::get_dyld_library_path;
use crate::parse_macho::MachoCtx;
use crate::parse_macho::MachoCtxView;
use crate::parse_macho::spec_parse_fat;
use crate::parse_macho::parse_fat_macho;
use crate::parse_macho::FatOutcome;
use crate::parse_elf::spec_parse_elf;
use crate::parse_elf::parse as parse_elf_raw;
use crate::manifest::Env;
use crate::strutil::spec_split;

/// The load-time needs of one file.
#[derive(Clone)]
pub enum Deps {
    /// No dynamic references.
    Plain,
    /// A parsed native object.
    Binary(Binary),
    /// A stand-in carrying fixed dependency paths, for exercising the graph.
    Mock { paths: Vec<String> },
}

/// The mathematical content of a `Deps`.
pub enum DepsView {
    Plain,
    Binary(BinaryView),
    Mock(Seq<Seq<char>>),
}

impl View for Deps {
    type V = DepsView;

    open spec fn view(&self) -> DepsView {
        match self {
            Deps::Plain => DepsView::Plain,
            Deps::Binary(b) => DepsView::Binary(b@),
            Deps::Mock { paths } => DepsView::Mock(strs_view(paths@)),
        }
    }
}

/// The dependency paths this file pulls into the closure.
pub open spec fn spec_deps_found(d: &Deps) -> Seq<Seq<char>> {
    match d {
        Deps::Plain => Seq::empty(),
        Deps::Binary(b) => spec_dependencies(b),
        Deps::Mock { paths } => strs_view(paths@),
    }
}

impl Deps {
    /// The resolved dependency paths.
    pub fn find(&self) -> (r: Result<Vec<String>, YarpError>)
        ensures
            match r {
                Ok(v) => strs_view(v@) == spec_deps_found(self),
                Err(_) => false,
            },
    {
        match self {
            Deps::Plain => Ok(Vec::new()),
            Deps::Binary(b) => Ok(b.dependencies()),
            Deps::Mock { paths } => {
                let mut out: Vec<String> = Vec::new();
                let mut i: usize = 0;
                while i < paths.len()
                    invariant
                        i <= paths@.len(),
                        strs_view(out@) == strs_view(paths@).take(i as int),
                    decreases paths@.len() - i,
                {
                    let p: String = paths[i].clone();
                    let ghost prev = strs_view(out@);
                    out.push(p);
                    proof {
                        assert(strs_view(out@) =~= prev.push(paths@[i as int]@));
                        assert(strs_view(paths@).take(i + 1) =~= strs_view(paths@).take(
                            i as int,
                        ).push(paths@[i as int]@));
                    }
                    i = i + 1;
                }
                proof {
                    assert(strs_view(paths@).take(paths@.len() as int) =~= strs_view(paths@));
                }
                Ok(out)
            },
        }
    }

    /// The search paths handed down to this file's children: ELF `DT_RPATH`
    /// is transitive, everything else contributes nothing.
    pub fn paths_to_add_for_next_search(&self) -> (r: Vec<String>)
        ensures
            strs_view(r@) == match self {
                Deps::Binary(b) => spec_paths_for_next_search(b),
                _ => Seq::<Seq<char>>::empty(),
            },
    {
        match self {
            Deps::Binary(b) => b.paths_to_add_for_next_search(),
            _ => Vec::new(),
        }
    }

    /// Whether this file is a parsed shared object.
    pub fn is_shared_library(&self) -> (r: bool)
        ensures
            r == (self is Binary),
    {
        match self {
            Deps::Binary(_) => true,
            _ => false,
        }
    }

    /// A copy with the same content.
    pub fn duplicate(&self) -> (r: Deps)
        ensures
            r@ == self@,
    {
        match self {
            Deps::Plain => Deps::Plain,
            Deps::Binary(b) => Deps::Binary(b.duplicate()),
            Deps::Mock { paths } => {
                let r = Deps::Mock { paths: crate::binary::dup_strs(paths) };
                proof {
                    assert(r@ == self@);
                }
                r
            },
        }
    }

    /// The deps of a shared object from its raw metadata; the constructor
    /// the factory uses for declared loads.
    pub fn new_binary(
        raw: &RawBinary,
        path: &str,
        host: &Host,
        known_libs: &StrMap,
        extra_rpaths: &Vec<String>,
    ) -> (r: Result<Deps, YarpError>)
        ensures
            match r {
                Ok(d) => match spec_new_binary(
                    *raw,
                    path@,
                    *host,
                    known_libs@,
                    strs_view(extra_rpaths@),
                ) {
                    DepsOutcome::Binary(bv) => d@ == DepsView::Binary(bv),
                    DepsOutcome::Plain => d@ == DepsView::Plain,
                    DepsOutcome::Fatal => false,
                },
                Err(_) => spec_new_binary(
                    *raw,
                    path@,
                    *host,
                    known_libs@,
                    strs_view(extra_rpaths@),
                ) == DepsOutcome::Fatal,
            },
    {
        new_binary(raw, path, host, known_libs, extra_rpaths)
    }

    /// The deps of any path: shared-library extensions are parsed, anything
    /// else is plain.
    pub fn from_path(
        path: &str,
        host: &Host,
        known_libs: &StrMap,
        extra_rpaths: &Vec<String>,
    ) -> (r: Result<Deps, YarpError>)
        ensures
            match r {
                Ok(d) => match spec_create_deps(
                    path@,
                    *host,
                    known_libs@,
                    strs_view(extra_rpaths@),
                ) {
                    Ok(DepsOutcome::Binary(bv)) => d@ == DepsView::Binary(bv),
                    Ok(DepsOutcome::Plain) => d@ == DepsView::Plain,
                    Ok(DepsOutcome::Fatal) => false,
                    Err(()) => false,
                },
                Err(_) => spec_create_deps(path@, *host, known_libs@, strs_view(extra_rpaths@))
                    is Err || spec_create_deps(
                    path@,
                    *host,
                    known_libs@,
                    strs_view(extra_rpaths@),
                ) == Ok::<DepsOutcome, ()>(DepsOutcome::Fatal),
            },
    {
        create_deps(path, host, known_libs, extra_rpaths)
    }

    /// A stand-in with the given dependency paths.
    pub fn mock(paths: Vec<String>) -> (r: Deps)
        ensures
            r == (Deps::Mock { paths }),
    {
        Deps::Mock { paths }
    }
}

/// What building deps for a shared library yields: the parsed binary, a
/// plain classification (an unrecognized or foreign-architecture file), or
/// a fatal error.
pub enum DepsOutcome {
    Binary(BinaryView),
    Plain,
    Fatal,
}

/// The decision for raw metadata `raw` of the object at `path`: an ELF on a
/// non-Linux host, a Mach-O on a non-macOS host, a PE file, and a Mach-O
/// with no host slice are all plain; a file that is no object at all is
/// plain; a parse or resolution failure is fatal.
pub open spec fn spec_new_binary(
    raw: RawBinary,
    path: Seq<char>,
    host: Host,
    known: Map<Seq<char>, Seq<char>>,
    extra_rpaths: Seq<Seq<char>>,
) -> DepsOutcome {
    match raw {
        RawBinary::Elf(re) => if host.os != HostOs::Linux {
            DepsOutcome::Plain
        } else {
            match spec_parse_elf(
                re,
                path,
                host.cwd@,
                host.env@,
                extra_rpaths,
                known,
                host.fs,
                host.ldconfig_out@,
                if host.ldd_by_object@.contains_key(path) {
                    host.ldd_by_object@[path]
                } else {
                    Seq::empty()
                },
                if host.is_64bit { "lib64"@ } else { "lib"@ },
                host.platform@,
            ) {
                Ok(parts) => DepsOutcome::Binary(
                    BinaryView::Elf(
                        crate::binary::ElfView {
                            dt_needed: parts.dt_needed,
                            dt_rpaths: parts.dt_rpaths,
                            dt_runpaths: parts.dt_runpaths,
                            path: path,
                            all_dt_rpaths: parts.all_dt_rpaths,
                            all_dt_runpaths: parts.all_dt_runpaths,
                        },
                    ),
                ),
                Err(()) => DepsOutcome::Fatal,
            }
        },
        RawBinary::MachoFat(slices) => if host.os != HostOs::MacOs {
            DepsOutcome::Plain
        } else {
            match spec_parse_fat(
                slices@,
                host.cpu,
                path,
                spec_macho_ctx(host),
                host.fs,
                known,
            ) {
                FatOutcome::Done(m) => DepsOutcome::Binary(BinaryView::Macho(m)),
                FatOutcome::Unsupported => DepsOutcome::Plain,
                FatOutcome::Fatal => DepsOutcome::Fatal,
            }
        },
        RawBinary::Pe => DepsOutcome::Plain,
        RawBinary::NotObject => DepsOutcome::Plain,
    }
}

/// The Mach-O resolution context a host induces.
pub open spec fn spec_macho_ctx(host: Host) -> MachoCtxView {
    MachoCtxView {
        executable_dir: match spec_dirname(host.executable_path@) {
            Some(d) => d,
            None => Seq::empty(),
        },
        cwd: host.cwd@,
        dyld_library_path: if host.env@.contains_key("DYLD_LIBRARY_PATH"@) {
            spec_split(host.env@["DYLD_LIBRARY_PATH"@], ':')
        } else {
            Seq::empty()
        },
    }
}

fn make_macho_ctx(host: &Host) -> (r: MachoCtx)
    ensures
        r@ == spec_macho_ctx(*host),
{
    let executable_dir: String = match dirname(host.executable_path.as_str()) {
        Some(d) => d,
        None => String::new(),
    };
    let dyld: Vec<String> = get_dyld_library_path(&host.env);
    let ctx = MachoCtx { executable_dir, cwd: host.cwd.clone(), dyld_library_path: dyld };
    proof {
        assert(ctx@.executable_dir == spec_macho_ctx(*host).executable_dir);
        assert(ctx@.cwd == spec_macho_ctx(*host).cwd);
        assert(ctx@.dyld_library_path == spec_macho_ctx(*host).dyld_library_path);
    }
    ctx
}

/// Builds the deps of the object whose raw metadata is `raw`.
pub fn new_binary(
    raw: &RawBinary,
    path: &str,
    host: &Host,
    known_libs: &StrMap,
    extra_rpaths: &Vec<String>,
) -> (r: Result<Deps, YarpError>)
    ensures
        match r {
            Ok(d) => match spec_new_binary(*raw, path@, *host, known_libs@, strs_view(extra_rpaths@)) {
                DepsOutcome::Binary(bv) => d@ == DepsView::Binary(bv),
                DepsOutcome::Plain => d@ == DepsView::Plain,
                DepsOutcome::Fatal => false,
            },
            Err(_) => spec_new_binary(*raw, path@, *host, known_libs@, strs_view(extra_rpaths@))
                == DepsOutcome::Fatal,
        },
{
    match raw {
        RawBinary::Elf(re) => {
            if !matches!(host.os, HostOs::Linux) {
                return Ok(Deps::Plain);
            }
            let ldd_out: String = host.ldd_out_for(path);
            match parse_elf_raw(
                re,
                path,
                host.cwd.as_str(),
                &host.env,
                extra_rpaths,
                known_libs,
                &host.fs,
                host.ldconfig_out.as_str(),
                ldd_out.as_str(),
                host.is_64bit,
                host.platform.as_str(),
            ) {
                Ok(e) => Ok(Deps::Binary(Binary::Elf(e))),
                Err(e) => Err(e),
            }
        },
        RawBinary::MachoFat(slices) => {
            if !matches!(host.os, HostOs::MacOs) {
                return Ok(Deps::Plain);
            }
            let ctx: MachoCtx = make_macho_ctx(host);
            match parse_fat_macho(slices, host.cpu, path, &ctx, &host.fs, known_libs) {
                Ok(m) => Ok(Deps::Binary(Binary::Macho(m))),
                Err((_, Some(e))) => Err(e),
                Err((_, None)) => Ok(Deps::Plain),
            }
        },
        RawBinary::Pe => Ok(Deps::Plain),
        RawBinary::NotObject => Ok(Deps::Plain),
    }
}

/// The deps of a path: only a file with a shared-library extension is read
/// as a binary; the raw metadata for it must have been recorded.
pub open spec fn spec_create_deps(
    path: Seq<char>,
    host: Host,
    known: Map<Seq<char>, Seq<char>>,
    extra_rpaths: Seq<Seq<char>>,
) -> Result<DepsOutcome, ()> {
    if !spec_is_shared_library(path) {
        Ok(DepsOutcome::Plain)
    } else {
        match spec_raw_of(raw_pairs_view(host.raws@), path) {
            None => Err(()),
            Some(raw) => Ok(spec_new_binary(raw, path, host, known, extra_rpaths)),
        }
    }
}

/// Builds the deps of any path: plain for everything that does not look
/// like a shared library, a parse for everything that does.
pub fn create_deps(
    path: &str,
    host: &Host,
    known_libs: &StrMap,
    extra_rpaths: &Vec<String>,
) -> (r: Result<Deps, YarpError>)
    ensures
        match r {
            Ok(d) => match spec_create_deps(path@, *host, known_libs@, strs_view(extra_rpaths@)) {
                Ok(DepsOutcome::Binary(bv)) => d@ == DepsView::Binary(bv),
                Ok(DepsOutcome::Plain) => d@ == DepsView::Plain,
                Ok(DepsOutcome::Fatal) => false,
                Err(()) => false,
            },
            Err(_) => spec_create_deps(path@, *host, known_libs@, strs_view(extra_rpaths@)) is Err
                || spec_create_deps(path@, *host, known_libs@, strs_view(extra_rpaths@)) == Ok::<
                DepsOutcome,
                (),
            >(DepsOutcome::Fatal),
        },
{
    if !is_shared_library(path) {
        return Ok(Deps::Plain);
    }
    match host.raw_of(path) {
        None => Err(YarpError::MissingFile(path.to_owned())),
        Some(raw) => new_binary(raw, path, host, known_libs, extra_rpaths),
    }
}

} // verus!
