// The text oracles of the loader emulation: what `ldd` and `ldconfig -p`
// output means.

use yarp::search::ldconfig;
use yarp::search::ldd;

#[test]
fn test_find_in_output_found() {
    let name = "libc.so.6";
    let output = r#"
            linux-vdso.so.1 (0x00007ffd2b7fe000)
            libpthread.so.0 => /lib/x86_64-linux-gnu/libpthread.so.0 (0x00007f777c1ab000)
            libc.so.6 => /lib/x86_64-linux-gnu/libc.so.6 (0x00007f777bbcb000)
            /lib64/ld-linux-x86-64.so.2 (0x00007f777c6f8000)
        "#;
    let result = ldd::find_in_output(name, output.to_string());
    assert_eq!(result, Some("/lib/x86_64-linux-gnu/libc.so.6".to_string()));
}

#[test]
fn test_find_in_output_not_found() {
    let name = "libdoesnotexist.so";
    let output = r#"
            linux-vdso.so.1 (0x00007ffd2b7fe000)
            libpthread.so.0 => /lib/x86_64-linux-gnu/libpthread.so.0 (0x00007f777c1ab000)
            libc.so.6 => /lib/x86_64-linux-gnu/libc.so.6 (0x00007f777bbcb000)
            /lib64/ld-linux-x86-64.so.2 (0x00007f777c6f8000)
        "#;
    let result = ldd::find_in_output(name, output.to_string());
    assert_eq!(result, None);
}

#[test]
fn test_find_in_output_not_found_string() {
    let name = "libnotfound.so";
    let output = r#"
            libnotfound.so => not found
            libc.so.6 => /lib/x86_64-linux-gnu/libc.so.6 (0x00007f777bbcb000)
        "#;
    let result = ldd::find_in_output(name, output.to_string());
    assert_eq!(result, None);
}

#[test]
fn test_find_in_output_not_found_with_only_hex_value() {
    let name = "libnotfound.so";
    let output = r#"
            libnotfound.so => (0x00007f777bbcb000)
            libc.so.6 => /lib/x86_64-linux-gnu/libc.so.6 (0x00007f777bbcb000)
        "#;
    let result = ldd::find_in_output(name, output.to_string());
    assert_eq!(result, None);
}

#[test]
fn test_find_in_output_exact_match() {
    let name = "libhello.so";
    let output = "\
        1404 libs found in cache `/etc/ld.so.cache'
            libhello.so (libc6,x86-64) => /usr/lib/libhello.so\n\
            libhello.so.2 (libc6,x86-64) => /usr/lib/libhello.so.2\n\
        "
    .to_string();

    let result = ldconfig::find_in_output(name, output);
    assert!(result.is_some());
    let path = result.unwrap();
    assert!(path.ends_with("libhello.so"));
}

#[test]
fn test_find_in_output_no_exact_match_but_candidate_exists() {
    let name = "libfoo.so";
    let output = "\
            libfoo.so.1 (libc6,x86-64) => /usr/lib/libfoo.so.1\n\
            libbar.so (libc6,x86-64) => /usr/lib/libbar.so\n\
        "
    .to_string();

    let result = ldconfig::find_in_output(name, output);
    assert!(result.is_some());
    let path = result.unwrap();
    assert!(path.ends_with("libfoo.so.1"));
}

#[test]
fn test_find_in_output_no_match() {
    let name = "libnotfound.so";
    let output = "\
            libfoo.so.1 (libc6,x86-64) => /usr/lib/libfoo.so.1\n\
            libbar.so (libc6,x86-64) => /usr/lib/libbar.so\n\
        "
    .to_string();

    let result = ldconfig::find_in_output(name, output);
    assert!(result.is_none());
}
