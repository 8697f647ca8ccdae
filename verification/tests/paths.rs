// Lexical path operations: canonicalization, the system-library test,
// search-path splitting and prefix arithmetic.

use yarp::fsview::Fs;
use yarp::paths::basename;
use yarp::paths::dirname;
use yarp::paths::extension;
use yarp::paths::get_dyld_library_path;
use yarp::paths::get_lib_name;
use yarp::paths::is_shared_library;
use yarp::paths::is_sys_lib;
use yarp::paths::join_path;
use yarp::paths::normalize_path;
use yarp::paths::path_starts_with;
use yarp::paths::split_colon_separated_into_valid_search_paths;
use yarp::paths::strip_prefix_path;
use yarp::strmap::StrMap;

#[test]
fn normalize_collapses_dots_and_separators() {
    assert_eq!(normalize_path("/a//b/./c"), "/a/b/c");
    assert_eq!(normalize_path("/a/b/../c"), "/a/c");
    assert_eq!(normalize_path("a/./b"), "a/b");
    assert_eq!(normalize_path("/"), "/");
    assert_eq!(normalize_path(""), "");
}

#[test]
fn normalize_is_idempotent_on_concrete_inputs() {
    for p in ["/a//b/./c", "/x/../y/z/", "rel/../a", "/usr/lib/python3.12/../site"] {
        let once = normalize_path(p);
        let twice = normalize_path(once.as_str());
        assert_eq!(once, twice);
    }
}

#[test]
fn system_library_prefixes_are_recognized() {
    assert!(is_sys_lib("/usr/lib/libSystem.dylib"));
    assert!(is_sys_lib("/System/Library/Frameworks/Cocoa.framework/Cocoa"));
    assert!(is_sys_lib("/System/Library/PrivateFrameworks/X.framework/X"));
    assert!(!is_sys_lib("/opt/lib/libfoo.so"));
    assert!(!is_sys_lib("/usr/local/lib/libbar.so"));
}

#[test]
fn join_honors_absolute_names() {
    assert_eq!(join_path("/a/b", "c.so"), "/a/b/c.so");
    assert_eq!(join_path("/a/b", "/abs/c.so"), "/abs/c.so");
    assert_eq!(join_path("", "c.so"), "c.so");
}

#[test]
fn basename_and_extension() {
    assert_eq!(basename("/a/b/libfoo.so"), Some("libfoo.so".to_string()));
    assert_eq!(get_lib_name("/a/b/libfoo.so").unwrap(), "libfoo.so");
    assert_eq!(dirname("/a/b/libfoo.so"), Some("/a/b".to_string()));
    assert_eq!(extension("/a/b/libfoo.so"), Some("so".to_string()));
    assert_eq!(extension("/a/b/libfoo.dylib"), Some("dylib".to_string()));
    assert_eq!(extension("/a/b/noext"), None);
    assert!(is_shared_library("/p/m.so"));
    assert!(is_shared_library("/p/m.dylib"));
    assert!(!is_shared_library("/p/m.py"));
}

#[test]
fn component_wise_prefixes() {
    assert!(path_starts_with("/a/b/c", "/a/b"));
    assert!(!path_starts_with("/a/bc", "/a/b"));
    assert_eq!(strip_prefix_path("/a/b/c/d", "/a/b"), Some("c/d".to_string()));
    assert_eq!(strip_prefix_path("/a/bc", "/a/b"), None);
}

#[test]
fn search_path_splitting_keeps_existing_directories() {
    let mut fs = Fs::new();
    fs.add_dir("/opt/libs".to_string());
    let term = "/opt/libs:/missing/dir".to_string();
    let got = split_colon_separated_into_valid_search_paths(Some(&term), &fs);
    assert_eq!(got, vec!["/opt/libs".to_string()]);
    let none = split_colon_separated_into_valid_search_paths(None, &fs);
    assert!(none.is_empty());
}

#[test]
fn dyld_library_path_is_colon_split_unfiltered() {
    let mut env = StrMap::new();
    env.insert("DYLD_LIBRARY_PATH".to_string(), "/x:/y".to_string());
    let got = get_dyld_library_path(&env);
    assert_eq!(got, vec!["/x".to_string(), "/y".to_string()]);
    let empty = get_dyld_library_path(&StrMap::new());
    assert!(empty.is_empty());
}
