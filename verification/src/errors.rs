//! The error values the packer reports. Each variant carries the input that
//! provoked it, so contracts can say exactly when it is returned.

use vstd::prelude::*;

verus! {

/// Why a file could not be read as a native object.
#[derive(Clone, Debug)]
pub enum BinaryParseError {
    /// A recognized object file with no slice for the host architecture,
    /// or an object format the packer does not support.
    UnsupportedArchitecture,
    /// Not an object file at all.
    NotBinary,
}

/// A fatal error of the packer.
#[derive(Clone, Debug)]
pub enum YarpError {
    /// A path that was expected to exist does not.
    MissingFile(String),
    /// A dependency name could not be resolved for the named object.
    UnresolvedDependency { name: String, object: String },
    /// A path outside every configured root that is not a shared library.
    OutsideRoots(String),
    /// A path with no usable file name.
    NoFileName(String),
    /// An rpath entry beginning with `@rpath/`, which is invalid.
    InvalidRpath(String),
    /// A load path that must be a shared library but is not.
    NotASharedLibrary(String),
    /// The dependency graph holds a cycle.
    Cycle,
    /// The retry pass over failed paths made no progress.
    NoProgress(Vec<String>),
    /// No relative path exists between two locations.
    NoRelativePath { path: String, base: String },
}

} // verus!
