// The orchestrator end to end: the smallest installation, and a two-deep
// dependency chain discovered through `DT_RUNPATH`.

use yarp::fsview::Fs;
use yarp::gather::build_graph_from_manifest;
use yarp::host::Host;
use yarp::manifest::Python;
use yarp::manifest::Skip;
use yarp::manifest::Sys;
use yarp::manifest::Version;
use yarp::manifest::YarpManifest;
use yarp::node::Node;
use yarp::pkg::export::move_to_dist;
use yarp::pkg::export::Action;
use yarp::rawbin::CpuKind;
use yarp::rawbin::HostOs;
use yarp::rawbin::RawBinary;
use yarp::rawbin::RawElf;
use yarp::strmap::StrMap;

fn v312() -> Version {
    Version { major: 3, minor: 12, abi_thread: "".to_string() }
}

fn manifest_with_paths(paths: Vec<String>) -> YarpManifest {
    YarpManifest {
        loads: Vec::new(),
        libs: Vec::new(),
        python: Python {
            sys: Sys {
                prefix: "/pre".to_string(),
                exec_prefix: "/pre".to_string(),
                platlibdir: "lib".to_string(),
                version: v312(),
                path: paths,
                executable: "/i/bin/interp".to_string(),
            },
        },
        env: StrMap::new(),
        skip: Skip { prefixes: Vec::new(), libs: Vec::new() },
    }
}

fn base_host() -> Host {
    let mut fs = Fs::new();
    fs.add_file("/i/bin/interp".to_string());
    Host {
        fs,
        env: StrMap::new(),
        cwd: "/cwd".to_string(),
        executable_path: "/i/bin/interp".to_string(),
        os: HostOs::Linux,
        cpu: CpuKind::X8664,
        is_64bit: true,
        platform: "".to_string(),
        ldconfig_out: "".to_string(),
        ldd_by_object: StrMap::new(),
        raws: vec![("/i/bin/interp".to_string(), RawBinary::NotObject)],
        shas: StrMap::new(),
    }
}

fn elf_raw(needed: &[&str], runpath: &[&str]) -> RawBinary {
    RawBinary::Elf(RawElf {
        rpath_entries: Vec::new(),
        runpath_entries: runpath.iter().map(|s| s.to_string()).collect(),
        needed: needed.iter().map(|s| s.to_string()).collect(),
        soname: None,
    })
}

#[test]
fn smallest_installation_yields_only_the_interpreter() {
    let manifest = manifest_with_paths(Vec::new());
    let host = base_host();
    let (graph, comps) = build_graph_from_manifest(
        &manifest,
        host,
        &Vec::new(),
        &Vec::new(),
        &Vec::new(),
    )
    .unwrap();
    assert_eq!(graph.len(), 1);
    assert!(comps.is_empty());
    let order: Vec<Node> = graph.toposort().unwrap();
    assert_eq!(order.len(), 1);
    let plan = move_to_dist(&order[0], &Vec::new(), "/dist").unwrap();
    // No reals entry is made for the interpreter; it is copied to its
    // well-known destination.
    for a in &plan {
        if let Action::CopyFile { to, .. } = a {
            assert_eq!(to, "/dist/interp/bin/interp");
        }
    }
}

#[test]
fn two_deep_chain_is_discovered_and_ordered() {
    let manifest = manifest_with_paths(vec!["/p".to_string()]);
    let mut host = base_host();
    host.fs.add_dir("/p".to_string());
    for f in ["/p/m.so", "/p/libA.so", "/p/libB.so"] {
        host.fs.add_file(f.to_string());
        host.shas.insert(f.to_string(), yarp::digest::make_digest(f.as_bytes()));
    }
    host.raws.push(("/p/m.so".to_string(), elf_raw(&["libA.so"], &["$ORIGIN"])));
    host.raws.push(("/p/libA.so".to_string(), elf_raw(&["libB.so"], &["$ORIGIN"])));
    host.raws.push(("/p/libB.so".to_string(), elf_raw(&[], &[])));

    let files = vec!["/p/m.so".to_string(), "/p/libA.so".to_string(), "/p/libB.so".to_string()];
    let (graph, comps) = build_graph_from_manifest(
        &manifest,
        host,
        &Vec::new(),
        &Vec::new(),
        &vec![("/p".to_string(), files)],
    )
    .unwrap();
    assert_eq!(graph.len(), 4);
    assert_eq!(comps.len(), 1);

    let order: Vec<Node> = graph.toposort().unwrap();
    let pos = |p: &str| order.iter().position(|n| n.path == p).unwrap();
    assert!(pos("/p/libB.so") < pos("/p/libA.so"));
    assert!(pos("/p/libA.so") < pos("/p/m.so"));

    // The module's farm holds its direct dependency, and the plan links it.
    let m = graph.get_node_by_path("/p/m.so").unwrap().duplicate();
    let deps = graph.get_node_dependencies(&m);
    assert_eq!(deps.len(), 1);
    assert_eq!(deps[0].path, "/p/libA.so");
    let plan = move_to_dist(&m, &deps, "/d").unwrap();
    let mut farm_link = false;
    for a in &plan {
        if let Action::Symlink { link, .. } = a {
            if link == "/d/symlinks/m.so/libA.so" {
                farm_link = true;
            }
        }
    }
    assert!(farm_link);
}
