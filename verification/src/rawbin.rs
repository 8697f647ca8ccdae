//! Raw loader metadata as it sits in an object file, before any resolution:
//! what a binary-format reader extracts. The driver fills these values; the
//! packer's verified resolution logic consumes them.

use vstd::prelude::*;

verus! {

/// A CPU architecture a Mach-O slice may target.
#[derive(Clone, Copy, PartialEq, Eq, Structural, Debug)]
pub enum CpuKind {
    X8664,
    Arm64,
    Other,
}

/// The operating system the packer runs on.
#[derive(Clone, Copy, PartialEq, Eq, Structural, Debug)]
pub enum HostOs {
    Linux,
    MacOs,
    Other,
}

/// One load command of a Mach-O slice, in file order.
#[derive(Clone)]
pub enum MachoCmd {
    /// An `LC_RPATH` string.
    RPath(String),
    /// An `LC_LOAD_DYLIB` embedded path string.
    LoadDylib(String),
    /// The `LC_ID_DYLIB` install name.
    IdDylib(String),
    /// Any other command.
    Other,
}

/// One slice of a (possibly universal) Mach-O file.
#[derive(Clone)]
pub struct RawSlice {
    pub cpu: CpuKind,
    pub cmds: Vec<MachoCmd>,
}

/// The dynamic-table entries of an ELF object. Rpath and runpath entries
/// are kept as the raw colon-joined strings of the table.
#[derive(Clone)]
pub struct RawElf {
    pub rpath_entries: Vec<String>,
    pub runpath_entries: Vec<String>,
    pub needed: Vec<String>,
    pub soname: Option<String>,
}

/// What a binary-format reader saw at a path.
#[derive(Clone)]
pub enum RawBinary {
    /// A Mach-O file: its slices in file order.
    MachoFat(Vec<RawSlice>),
    /// An ELF object.
    Elf(RawElf),
    /// A Windows PE object.
    Pe,
    /// Not an object file.
    NotObject,
}

} // verus!
