//! The manifest: the typed description of a live interpreter installation
//! that seeds the packer. The driver deserializes the JSON document into a
//! mirror of these types and converts; the packer itself only reads plain
//! values.

use vstd::prelude::*;

verus! {

use crate::strmap::StrMap;
use crate::strutil::spec_decimal;
use crate::strutil::u32_to_dec;
use crate::strutil::concat2;
use crate::strutil::concat_str;

/// The process environment the loader emulation honors.
pub type Env = StrMap;

/// Everything the manifest declares.
#[derive(Clone)]
pub struct YarpManifest {
    pub loads: Vec<Load>,
    pub libs: Vec<Lib>,
    pub python: Python,
    pub env: Env,
    pub skip: Skip,
}

/// What the user asks the packer to leave out.
#[derive(Clone)]
pub struct Skip {
    /// Path prefixes whose files are not packed.
    pub prefixes: Vec<String>,
    /// Shared-library basenames that are not packed.
    pub libs: Vec<String>,
}

/// How a declared load is reached at run time.
#[derive(Clone, PartialEq, Eq, Structural, Debug)]
pub enum LoadKind {
    Extension,
    Dlopen,
}

/// A library the interpreter loads at run time; `Dlopen` ones live in the
/// dist's load path, with the given extra symlink names beside them.
#[derive(Clone)]
pub struct Load {
    pub kind: LoadKind,
    pub path: String,
    pub symlinks: Vec<String>,
}

/// A dependent library kept only in reals, with its symlink farm.
#[derive(Clone)]
pub struct Lib {
    pub path: String,
}

/// The interpreter section of the manifest.
#[derive(Clone)]
pub struct Python {
    pub sys: Sys,
}

/// The interpreter's own idea of its installation.
#[derive(Clone)]
pub struct Sys {
    pub prefix: String,
    pub exec_prefix: String,
    pub platlibdir: String,
    pub version: Version,
    pub path: Vec<String>,
    pub executable: String,
}

/// The interpreter version and ABI-thread tag.
#[derive(Clone)]
pub struct Version {
    pub major: u32,
    pub minor: u32,
    pub abi_thread: String,
}

/// The mathematical content of a version.
pub struct VersionView {
    pub major: u32,
    pub minor: u32,
    pub abi_thread: Seq<char>,
}

impl View for Version {
    type V = VersionView;

    open spec fn view(&self) -> VersionView {
        VersionView { major: self.major, minor: self.minor, abi_thread: self.abi_thread@ }
    }
}

/// The loader directory name for a version: `interp<major>.<minor><abi_thread>`.
pub open spec fn spec_interp_dir(v: Version) -> Seq<char> {
    "interp"@ + spec_decimal(v.major as nat) + "."@ + spec_decimal(v.minor as nat)
        + v.abi_thread@
}

impl Version {
    /// A copy with the same content.
    pub fn duplicate(&self) -> (r: Version)
        ensures
            r@ == self@,
    {
        let r = Version {
            major: self.major,
            minor: self.minor,
            abi_thread: self.abi_thread.clone(),
        };
        proof {
            assert(r@.abi_thread == self@.abi_thread);
        }
        r
    }

    /// The versioned loader directory name.
    pub fn get_python_version(&self) -> (r: String)
        ensures
            r@ == spec_interp_dir(*self),
    {
        let major: String = u32_to_dec(self.major);
        let minor: String = u32_to_dec(self.minor);
        let mut out: String = concat2("interp", major.as_str());
        out = concat_str(out, ".");
        out = concat_str(out, minor.as_str());
        out = concat_str(out, self.abi_thread.as_str());
        out
    }
}

} // verus!
