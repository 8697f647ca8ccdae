//! A packer for interpreter installations: it emulates the dynamic loader to
//! build the closure of shared-object dependencies reachable from an
//! interpreter and a set of declared entry points, arranges the closure in a
//! dependency graph, and plans a relocatable dist tree (content-addressed
//! reals store, per-object symlink farms, logical destinations, a launcher
//! script) together with the patching commands that rewrite each object's
//! loader metadata.
//!
//! All decisions are made here over plain data: the filesystem is a value
//! (`fsview::Fs`), parsed loader metadata is a value (`rawbin`), and the
//! exporter and patcher produce action plans instead of touching the disk.
//! A thin unverified driver performs the I/O around this library.

pub mod strutil;
pub mod fsview;
pub mod strmap;
pub mod errors;
pub mod digest;
pub mod manifest;
pub mod paths;
pub mod search;
pub mod binary;
pub mod rawbin;
pub mod parse_macho;
pub mod parse_elf;
pub mod host;
pub mod deps;
pub mod node;
pub mod pgwrap;
pub mod graph;
pub mod site_pkgs;
pub mod factory;
pub mod pkg;
pub mod gather;
