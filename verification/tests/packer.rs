// End-to-end pieces of the packer: digests and the reals store, the dist
// layout, patch plans, the launcher script, classification and the
// site-packages topology.

use yarp::binary::Elf;
use yarp::deps::new_binary;
use yarp::deps::Deps;
use yarp::digest::make_digest;
use yarp::errors::YarpError;
use yarp::factory::NodeFactory;
use yarp::fsview::Fs;
use yarp::graph::Factory;
use yarp::host::Host;
use yarp::manifest::Load;
use yarp::manifest::Python;
use yarp::manifest::Skip;
use yarp::manifest::Sys;
use yarp::manifest::Version;
use yarp::manifest::YarpManifest;
use yarp::node::Node;
use yarp::node::Pkg;
use yarp::parse_elf::parse as parse_elf;
use yarp::parse_macho::parse_fat_macho;
use yarp::parse_macho::MachoCtx;
use yarp::pkg::bootstrap::render_bootstrap_script;
use yarp::pkg::export::move_to_dist;
use yarp::pkg::export::Action;
use yarp::pkg::paths::reals_path_for_sha;
use yarp::pkg::paths::ExportedFileTree;
use yarp::pkg::patch::patch_elf;
use yarp::pkg::patch::ToolCmd;
use yarp::rawbin::CpuKind;
use yarp::rawbin::HostOs;
use yarp::rawbin::RawBinary;
use yarp::rawbin::RawElf;
use yarp::rawbin::RawSlice;
use yarp::site_pkgs::SitePkgs;
use yarp::strmap::StrMap;

fn v312() -> Version {
    Version { major: 3, minor: 12, abi_thread: "".to_string() }
}

fn empty_host(os: HostOs, cpu: CpuKind) -> Host {
    Host {
        fs: Fs::new(),
        env: StrMap::new(),
        cwd: "/cwd".to_string(),
        executable_path: "/i/bin/interp".to_string(),
        os,
        cpu,
        is_64bit: true,
        platform: "".to_string(),
        ldconfig_out: "".to_string(),
        ldd_by_object: StrMap::new(),
        raws: Vec::new(),
        shas: StrMap::new(),
    }
}

#[test]
fn digests_name_contents_alone() {
    let a1 = make_digest(b"abc");
    let a2 = make_digest(b"abc");
    let b = make_digest(b"abd");
    assert_eq!(a1, a2);
    assert_ne!(a1, b);
    assert_eq!(a1.len(), 64);
    // Bit-identical inputs share a reals entry; different digests do not.
    let r1 = reals_path_for_sha(a1.as_str(), "/p/libx.so", "/d").unwrap();
    let r2 = reals_path_for_sha(a2.as_str(), "/q/libx.so", "/d").unwrap();
    let r3 = reals_path_for_sha(b.as_str(), "/p/libx.so", "/d").unwrap();
    assert_eq!(r1, r2);
    assert_ne!(r1, r3);
}

#[test]
fn reals_entries_live_under_the_store_with_the_extension() {
    let r = reals_path_for_sha("ab12", "/p/m.so", "/d").unwrap();
    assert_eq!(r, "/d/reals/r/ab12.so");
    let r2 = reals_path_for_sha("ab12", "/p/noext", "/d").unwrap();
    assert_eq!(r2, "/d/reals/r/ab12");
}

#[test]
fn version_names_the_loader_directory() {
    assert_eq!(v312().get_python_version(), "interp3.12");
    let vt = Version { major: 3, minor: 13, abi_thread: "t".to_string() };
    assert_eq!(vt.get_python_version(), "interp3.13t");
}

#[test]
fn executable_lands_at_the_well_known_path() {
    let dest = Pkg::Executable.destination("/i/bin/interp", "/dist").unwrap();
    assert_eq!(dest, "/dist/interp/bin/interp");
    let node = Node {
        path: "/i/bin/interp".to_string(),
        deps: Deps::Plain,
        pkg: Pkg::Executable,
    };
    let plan = move_to_dist(&node, &Vec::new(), "/dist").unwrap();
    let mut copied = false;
    for a in &plan {
        if let Action::CopyFile { from, to } = a {
            assert_eq!(from, "/i/bin/interp");
            assert_eq!(to, "/dist/interp/bin/interp");
            copied = true;
        }
    }
    assert!(copied);
}

#[test]
fn launcher_execs_the_relocated_interpreter() {
    let script = render_bootstrap_script(&Vec::new(), &v312(), false);
    assert!(script.starts_with("#!/bin/bash"));
    assert!(script.contains("export LD_LIBRARY_PATH=\"$SCRIPT_DIR/lib/l:"));
    assert!(script.contains("SITE_PKG_REL_PATHS=()"));
    assert!(script.contains("exec \"$SCRIPT_DIR/interp/bin/interp\" \"$@\""));
    let mac = render_bootstrap_script(&Vec::new(), &v312(), true);
    assert!(mac.contains("DYLD_LIBRARY_PATH"));
}

#[test]
fn two_deep_runpath_discovery_and_patch() {
    // `m.so` needs `libA.so`, discovered via `DT_RUNPATH=$ORIGIN`.
    let mut fs = Fs::new();
    fs.add_dir("/p".to_string());
    fs.add_file("/p/m.so".to_string());
    fs.add_file("/p/libA.so".to_string());
    let raw = RawElf {
        rpath_entries: Vec::new(),
        runpath_entries: vec!["$ORIGIN".to_string()],
        needed: vec!["libA.so".to_string()],
        soname: None,
    };
    let elf: Elf = parse_elf(
        &raw,
        "/p/m.so",
        "/cwd",
        &StrMap::new(),
        &Vec::new(),
        &StrMap::new(),
        &fs,
        "",
        "",
        true,
        "",
    )
    .unwrap();
    assert_eq!(elf.dt_needed, vec![("libA.so".to_string(), "/p/libA.so".to_string())]);
    assert_eq!(elf.dt_runpaths, vec![("$ORIGIN".to_string(), "/p".to_string())]);

    // The patched copy gets a single farm rpath and farm-name references.
    let cmds = patch_elf(
        &elf,
        "/d/reals/r/sha.so",
        "/d/symlinks/m.so",
        &vec!["libA.so".to_string()],
    )
    .unwrap();
    assert_eq!(cmds.len(), 3);
    assert!(matches!(&cmds[0], ToolCmd::ElfRemoveRpath { .. }));
    match &cmds[1] {
        ToolCmd::ElfAddRpath { rpath, file } => {
            assert_eq!(rpath, "$ORIGIN/../../symlinks/m.so/");
            assert_eq!(file, "/d/reals/r/sha.so");
        },
        _ => panic!("expected the farm rpath"),
    }
    match &cmds[2] {
        ToolCmd::ElfReplaceNeeded { old, new, .. } => {
            assert_eq!(old, "libA.so");
            assert_eq!(new, "libA.so");
        },
        _ => panic!("expected the needed rewrite"),
    }
}

#[test]
fn single_extension_is_reified_and_symlinked_into_the_modules_tree() {
    // One extension module with only system dependencies: a reals entry
    // named by its digest, an empty farm, and a destination symlink under
    // the dynamic-modules tree.
    let sha = "a".repeat(64);
    let node = Node {
        path: "/p/m.so".to_string(),
        deps: Deps::Binary(yarp::binary::Binary::Elf(Elf {
            dt_needed: Vec::new(),
            dt_rpaths: Vec::new(),
            dt_runpaths: Vec::new(),
            path: "/p/m.so".to_string(),
            all_dt_rpaths: Vec::new(),
            all_dt_runpaths: Vec::new(),
        })),
        pkg: Pkg::ExecPrefixBinary(yarp::node::PrefixBinary {
            original_prefix: "/pre/lib/interp3.12/lib-dynload".to_string(),
            rel_path: "m.so".to_string(),
            version: v312(),
            sha: sha.clone(),
        }),
    };
    let plan = move_to_dist(&node, &Vec::new(), "/dist").unwrap();
    let reals = format!("/dist/reals/r/{}.so", sha);
    let mut copied_to_reals = false;
    let mut dest_symlink = false;
    for a in &plan {
        match a {
            Action::CopyFile { from, to } => {
                assert_eq!(from, "/p/m.so");
                assert_eq!(to, &reals);
                copied_to_reals = true;
            },
            Action::Symlink { target, link } => {
                if link == "/dist/interp/lib/interp3.12/lib-dynload/m.so" {
                    assert_eq!(target, "../../../../reals/r/aaaaaaaaaaaaaaaaaaaaaaaaaaaaaaaaaaaaaaaaaaaaaaaaaaaaaaaaaaaaaaaa.so");
                    dest_symlink = true;
                }
            },
            _ => {},
        }
    }
    assert!(copied_to_reals);
    assert!(dest_symlink);
}

#[test]
fn skipped_dependency_keeps_its_needed_entry() {
    // The farm has no entry for a skipped library: its reference stays.
    let elf = Elf {
        dt_needed: vec![("libhuge.so".to_string(), "/x/libhuge.so".to_string())],
        dt_rpaths: Vec::new(),
        dt_runpaths: Vec::new(),
        path: "/p/m.so".to_string(),
        all_dt_rpaths: Vec::new(),
        all_dt_runpaths: Vec::new(),
    };
    let cmds = patch_elf(&elf, "/d/reals/r/s.so", "/d/symlinks/m.so", &Vec::new()).unwrap();
    assert_eq!(cmds.len(), 2);
    for c in &cmds {
        assert!(!matches!(c, ToolCmd::ElfReplaceNeeded { .. }));
    }
}

#[test]
fn dependency_free_binary_round_trip() {
    // Patching a binary with no dependencies leaves exactly the farm rpath.
    let elf = Elf {
        dt_needed: Vec::new(),
        dt_rpaths: Vec::new(),
        dt_runpaths: Vec::new(),
        path: "/p/solo.so".to_string(),
        all_dt_rpaths: vec!["/old/rp".to_string()],
        all_dt_runpaths: Vec::new(),
    };
    let cmds = patch_elf(&elf, "/d/reals/r/s.so", "/d/symlinks/solo.so", &Vec::new()).unwrap();
    assert_eq!(cmds.len(), 2);
    assert!(matches!(&cmds[0], ToolCmd::ElfRemoveRpath { .. }));
    match &cmds[1] {
        ToolCmd::ElfAddRpath { rpath, .. } => {
            assert_eq!(rpath, "$ORIGIN/../../symlinks/solo.so/");
        },
        _ => panic!("expected a single added rpath"),
    }
}

#[test]
fn foreign_architecture_macho_is_skipped_not_fatal() {
    // A universal file with slices only for another architecture.
    let slices = vec![RawSlice { cpu: CpuKind::X8664, cmds: Vec::new() }];
    let ctx = MachoCtx {
        executable_dir: "/i/bin".to_string(),
        cwd: "/cwd".to_string(),
        dyld_library_path: Vec::new(),
    };
    let fs = Fs::new();
    let r = parse_fat_macho(&slices, CpuKind::Arm64, "/p/m.dylib", &ctx, &fs, &StrMap::new());
    assert!(matches!(r, Err((yarp::errors::BinaryParseError::UnsupportedArchitecture, None))));

    // Building deps for it classifies the file as plain rather than failing.
    let mut host = empty_host(HostOs::MacOs, CpuKind::Arm64);
    host.fs.add_file("/p/m.dylib".to_string());
    let raw = RawBinary::MachoFat(slices);
    let d = new_binary(&raw, "/p/m.dylib", &host, &StrMap::new(), &Vec::new()).unwrap();
    assert!(matches!(d, Deps::Plain));
}

#[test]
fn skipped_library_names_are_refused_by_the_factory() {
    let site_pkgs = SitePkgs {
        resolved: Vec::new(),
        site_pkg_by_alias: StrMap::new(),
        lib_dynload: "/pre/lib/interp3.12/lib-dynload".to_string(),
        stdlib: "/pre/lib/interp3.12".to_string(),
        comps: Vec::new(),
    };
    let skip = Skip { prefixes: Vec::new(), libs: vec!["libhuge.so".to_string()] };
    let factory = NodeFactory::new(site_pkgs, v312(), empty_host(HostOs::Linux, CpuKind::X8664), skip);
    let made = factory.make(&"/x/libhuge.so".to_string(), &StrMap::new(), &Vec::new()).unwrap();
    assert!(made.is_none());

    let skip2 = Skip { prefixes: vec!["/x/secret".to_string()], libs: Vec::new() };
    let site_pkgs2 = SitePkgs {
        resolved: Vec::new(),
        site_pkg_by_alias: StrMap::new(),
        lib_dynload: "/pre/lib/interp3.12/lib-dynload".to_string(),
        stdlib: "/pre/lib/interp3.12".to_string(),
        comps: Vec::new(),
    };
    let factory2 =
        NodeFactory::new(site_pkgs2, v312(), empty_host(HostOs::Linux, CpuKind::X8664), skip2);
    let made2 = factory2.make(&"/x/secret/a.py".to_string(), &StrMap::new(), &Vec::new()).unwrap();
    assert!(made2.is_none());
}

#[test]
fn overlapping_site_packages_roots_get_distinct_aliases() {
    let manifest = YarpManifest {
        loads: Vec::<Load>::new(),
        libs: Vec::new(),
        python: Python {
            sys: Sys {
                prefix: "/pre".to_string(),
                exec_prefix: "/pre".to_string(),
                platlibdir: "lib".to_string(),
                version: v312(),
                path: vec!["/env/a/site".to_string(), "/env/b/site".to_string()],
                executable: "/pre/bin/interp".to_string(),
            },
        },
        env: StrMap::new(),
        skip: Skip { prefixes: Vec::new(), libs: Vec::new() },
    };
    let sp = SitePkgs::from_manifest(&manifest).unwrap();
    assert_eq!(sp.stdlib, "/pre/lib/interp3.12");
    assert_eq!(sp.lib_dynload, "/pre/lib/interp3.12/lib-dynload");
    let a = sp.site_pkg_by_alias.get("/env/a/site").unwrap().clone();
    let b = sp.site_pkg_by_alias.get("/env/b/site").unwrap().clone();
    assert!(a.len() >= 10);
    assert!(b.len() >= 10);
    assert!(a.chars().all(|c| c.is_ascii_lowercase()));
    assert!(b.chars().all(|c| c.is_ascii_lowercase()));
    assert_ne!(a, b);
    assert_eq!(sp.comps.len(), 2);
}

#[test]
fn unresolvable_dependency_is_a_loud_error() {
    let mut fs = Fs::new();
    fs.add_file("/p/m.so".to_string());
    let raw = RawElf {
        rpath_entries: Vec::new(),
        runpath_entries: Vec::new(),
        needed: vec!["libnowhere.so".to_string()],
        soname: None,
    };
    let r = parse_elf(
        &raw,
        "/p/m.so",
        "/cwd",
        &StrMap::new(),
        &Vec::new(),
        &StrMap::new(),
        &fs,
        "",
        "",
        true,
        "",
    );
    assert!(matches!(r, Err(YarpError::UnresolvedDependency { .. })));
}

#[test]
fn known_libs_settle_what_search_cannot() {
    let mut fs = Fs::new();
    fs.add_file("/p/m.so".to_string());
    let mut known = StrMap::new();
    known.insert("libelsewhere.so".to_string(), "/lib/libelsewhere.so".to_string());
    let raw = RawElf {
        rpath_entries: Vec::new(),
        runpath_entries: Vec::new(),
        needed: vec!["libelsewhere.so".to_string()],
        soname: None,
    };
    let elf = parse_elf(
        &raw,
        "/p/m.so",
        "/cwd",
        &StrMap::new(),
        &Vec::new(),
        &known,
        &fs,
        "",
        "",
        true,
        "",
    )
    .unwrap();
    assert_eq!(
        elf.dt_needed,
        vec![("libelsewhere.so".to_string(), "/lib/libelsewhere.so".to_string())]
    );
}
