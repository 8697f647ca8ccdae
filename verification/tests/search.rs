// The loader-emulation search order for ELF names, and the Mach-O
// load-command resolution rules.

use yarp::fsview::Fs;
use yarp::parse_macho::resolve_load_cmd_path;
use yarp::parse_macho::MachoCtx;
use yarp::search::find_in_dirs;
use yarp::search::get_valid_rpaths;
use yarp::search::parse_rpath;
use yarp::search::search;

fn dirs(v: &[&str]) -> Vec<String> {
    v.iter().map(|s| s.to_string()).collect()
}

#[test]
fn library_path_beats_runpath() {
    // The name is present both in an `LD_LIBRARY_PATH` directory and in a
    // `DT_RUNPATH` directory; the environment entry wins.
    let mut fs = Fs::new();
    fs.add_file("/env/libz.so".to_string());
    fs.add_file("/runpath/libz.so".to_string());
    let got = search(
        "libz.so",
        &dirs(&["/rpath"]),
        &dirs(&[]),
        &dirs(&["/runpath"]),
        &dirs(&[]),
        &dirs(&["/env"]),
        "/cwd",
        &fs,
        "",
        "",
    );
    assert_eq!(got, Some("/env/libz.so".to_string()));
}

#[test]
fn rpath_is_skipped_when_runpath_is_present() {
    let mut fs = Fs::new();
    fs.add_file("/rpath/libz.so".to_string());
    fs.add_file("/runpath/libz.so".to_string());
    let got = search(
        "libz.so",
        &dirs(&["/rpath"]),
        &dirs(&[]),
        &dirs(&["/runpath"]),
        &dirs(&[]),
        &dirs(&[]),
        "/cwd",
        &fs,
        "",
        "",
    );
    assert_eq!(got, Some("/runpath/libz.so".to_string()));

    let got2 = search(
        "libz.so",
        &dirs(&["/rpath"]),
        &dirs(&[]),
        &dirs(&[]),
        &dirs(&[]),
        &dirs(&[]),
        "/cwd",
        &fs,
        "",
        "",
    );
    assert_eq!(got2, Some("/rpath/libz.so".to_string()));
}

#[test]
fn absolute_needed_wins_only_when_it_exists() {
    let mut fs = Fs::new();
    fs.add_file("/abs/libq.so".to_string());
    fs.add_file("/env/libq.so".to_string());
    let got = search(
        "/abs/libq.so",
        &dirs(&[]),
        &dirs(&[]),
        &dirs(&[]),
        &dirs(&[]),
        &dirs(&["/env"]),
        "/cwd",
        &fs,
        "",
        "",
    );
    assert_eq!(got, Some("/abs/libq.so".to_string()));

    // The file at the named path does not exist: search-path order decides;
    // probing directories joins the full name.
    let mut fs2 = Fs::new();
    fs2.add_file("/env/abs/libq.so".to_string());
    let got2 = search(
        "abs/libq.so",
        &dirs(&[]),
        &dirs(&[]),
        &dirs(&[]),
        &dirs(&[]),
        &dirs(&["/env"]),
        "/cwd",
        &fs2,
        "",
        "",
    );
    assert_eq!(got2, Some("/env/abs/libq.so".to_string()));
}

#[test]
fn first_directory_with_the_name_wins() {
    let mut fs = Fs::new();
    fs.add_file("/b/libx.so".to_string());
    fs.add_file("/c/libx.so".to_string());
    let got = find_in_dirs("libx.so", &dirs(&["/a", "/b", "/c"]), &fs);
    assert_eq!(got, Some("/b/libx.so".to_string()));
}

#[test]
fn origin_substitution_keeps_existing_paths() {
    let mut fs = Fs::new();
    fs.add_dir("/opt/app/lib".to_string());
    let got = parse_rpath("$ORIGIN/lib", "/opt/app/bin.so", true, "", &fs).unwrap();
    assert_eq!(got, Some("/opt/app/lib".to_string()));
    let brace = parse_rpath("${ORIGIN}/lib", "/opt/app/bin.so", true, "", &fs).unwrap();
    assert_eq!(brace, Some("/opt/app/lib".to_string()));
    let missing = parse_rpath("$ORIGIN/nope", "/opt/app/bin.so", true, "", &fs).unwrap();
    assert_eq!(missing, None);

    let valid = get_valid_rpaths(
        &dirs(&["$ORIGIN/lib", "$ORIGIN/nope"]),
        "/opt/app/bin.so",
        true,
        "",
        &fs,
    );
    assert_eq!(valid, vec!["/opt/app/lib".to_string()]);
}

#[test]
fn loader_path_and_rpath_resolution() {
    let mut fs = Fs::new();
    fs.add_file("/opt/app/libdep.dylib".to_string());
    fs.add_file("/farm/libr.dylib".to_string());
    let ctx = MachoCtx {
        executable_dir: "/opt/bin".to_string(),
        cwd: "/cwd".to_string(),
        dyld_library_path: Vec::new(),
    };
    let got = resolve_load_cmd_path(
        "@loader_path/libdep.dylib",
        &Vec::new(),
        "/opt/app",
        &ctx,
        &fs,
    );
    assert_eq!(got, Some("/opt/app/libdep.dylib".to_string()));

    let got2 = resolve_load_cmd_path(
        "@rpath/libr.dylib",
        &dirs(&["/elsewhere", "/farm"]),
        "/opt/app",
        &ctx,
        &fs,
    );
    assert_eq!(got2, Some("/farm/libr.dylib".to_string()));

    let got3 = resolve_load_cmd_path("@rpath/libmissing.dylib", &dirs(&["/farm"]), "/opt/app", &ctx, &fs);
    assert_eq!(got3, None);
}
