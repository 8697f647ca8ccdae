//! A value model of the filesystem slice the packer consults: which paths
//! exist and which of them are directories. The driver populates it; every
//! probe the loader emulation makes is answered from this value, so the
//! search logic is a pure function of it.

use vstd::prelude::*;

verus! {

use crate::strutil::str_eq;

/// The set of files and directories visible to the packer.
#[derive(Clone)]
pub struct Fs {
    pub files: Vec<String>,
    pub dirs: Vec<String>,
}

impl Fs {
    /// `p` names a regular file.
    pub open spec fn has_file(&self, p: Seq<char>) -> bool {
        exists|i: int| 0 <= i < self.files@.len() && self.files@[i]@ == p
    }

    /// `p` names a directory.
    pub open spec fn has_dir(&self, p: Seq<char>) -> bool {
        exists|i: int| 0 <= i < self.dirs@.len() && self.dirs@[i]@ == p
    }

    /// `p` exists, as a file or as a directory.
    pub open spec fn has_entry(&self, p: Seq<char>) -> bool {
        self.has_file(p) || self.has_dir(p)
    }

    /// An empty view: nothing exists.
    pub fn new() -> (r: Fs)
        ensures
            r.files@.len() == 0,
            r.dirs@.len() == 0,
    {
        Fs { files: Vec::new(), dirs: Vec::new() }
    }

    /// Record a regular file.
    pub fn add_file(&mut self, p: String)
        ensures
            final(self).files@ == old(self).files@.push(p),
            final(self).dirs@ == old(self).dirs@,
    {
        self.files.push(p);
    }

    /// Record a directory.
    pub fn add_dir(&mut self, p: String)
        ensures
            final(self).dirs@ == old(self).dirs@.push(p),
            final(self).files@ == old(self).files@,
    {
        self.dirs.push(p);
    }

    /// Whether `p` names a regular file in this view.
    pub fn is_file(&self, p: &str) -> (r: bool)
        ensures
            r == self.has_file(p@),
    {
        let mut i: usize = 0;
        while i < self.files.len()
            invariant
                i <= self.files@.len(),
                forall|j: int| 0 <= j < i ==> self.files@[j]@ != p@,
            decreases self.files@.len() - i,
        {
            if str_eq(self.files[i].as_str(), p) {
                return true;
            }
            i = i + 1;
        }
        false
    }

    /// Whether `p` names a directory in this view.
    pub fn is_dir(&self, p: &str) -> (r: bool)
        ensures
            r == self.has_dir(p@),
    {
        let mut i: usize = 0;
        while i < self.dirs.len()
            invariant
                i <= self.dirs@.len(),
                forall|j: int| 0 <= j < i ==> self.dirs@[j]@ != p@,
            decreases self.dirs@.len() - i,
        {
            if str_eq(self.dirs[i].as_str(), p) {
                return true;
            }
            i = i + 1;
        }
        false
    }

    /// Whether `p` exists in this view.
    pub fn path_exists(&self, p: &str) -> (r: bool)
        ensures
            r == self.has_entry(p@),
    {
        self.is_file(p) || self.is_dir(p)
    }
}

} // verus!
