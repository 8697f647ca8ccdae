// The deps constructors on a host value shaped like a local installation.

use yarp::deps::Deps;
use yarp::fsview::Fs;
use yarp::host::Host;
use yarp::rawbin::CpuKind;
use yarp::rawbin::HostOs;
use yarp::rawbin::MachoCmd;
use yarp::rawbin::RawBinary;
use yarp::rawbin::RawSlice;
use yarp::strmap::StrMap;

#[test]
fn deps_test_local() {
    let path = "/Users/hariomnarang/miniconda3/envs/platform/lib/libpango-1.0.0.dylib".to_string();
    let executable_path = "/Users/hariomnarang/miniconda3/bin/python".to_string();
    let env = StrMap::new();
    let known_libs = StrMap::new();
    let cwd = ".".to_string();
    let mut fs = Fs::new();
    fs.add_file(path.clone());
    fs.add_file(executable_path.clone());
    let raw = RawBinary::MachoFat(vec![RawSlice {
        cpu: CpuKind::X8664,
        cmds: vec![MachoCmd::IdDylib("@rpath/libpango-1.0.0.dylib".to_string())],
    }]);
    let host = Host {
        fs,
        env,
        cwd,
        executable_path,
        os: HostOs::MacOs,
        cpu: CpuKind::X8664,
        is_64bit: true,
        platform: String::new(),
        ldconfig_out: String::new(),
        ldd_by_object: StrMap::new(),
        raws: vec![(path.clone(), raw)],
        shas: StrMap::new(),
    };
    let dylib = Deps::new_binary(
        &host.raws[0].1.clone(),
        path.as_str(),
        &host,
        &known_libs,
        &Vec::new(),
    )
    .unwrap();
    let dylib = dylib.find().unwrap();
    println!("{:?}", dylib);
}
