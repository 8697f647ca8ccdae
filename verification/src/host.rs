//! Everything the packer reads from the machine, gathered into one value:
//! the filesystem view, the environment, the raw loader metadata of each
//! object, each file's content digest, the loader-cache text and the `ldd`
//! text per object. The driver fills it; the logic only reads it.

use vstd::prelude::*;

verus! {

use crate::fsview::Fs;
use crate::strmap::StrMap;
use crate::strutil::str_eq;
use crate::rawbin::RawBinary;
use crate::rawbin::CpuKind;
use crate::rawbin::HostOs;

/// The raw-object bindings: the binding of a path is the last pair with it.
pub open spec fn raw_pairs_view(ps: Seq<(String, RawBinary)>) -> Seq<(Seq<char>, RawBinary)> {
    ps.map_values(|p: (String, RawBinary)| (p.0@, p.1))
}

/// The raw object bound to `k`, taking the last pair with that key.
pub open spec fn spec_raw_of(ps: Seq<(Seq<char>, RawBinary)>, k: Seq<char>) -> Option<RawBinary>
    decreases ps.len(),
{
    if ps.len() == 0 {
        None
    } else if ps.last().0 == k {
        Some(ps.last().1)
    } else {
        spec_raw_of(ps.drop_last(), k)
    }
}

/// The host as the packer sees it.
pub struct Host {
    /// Which paths exist, and which are directories.
    pub fs: Fs,
    /// The process environment.
    pub env: StrMap,
    /// The working directory.
    pub cwd: String,
    /// The interpreter executable.
    pub executable_path: String,
    /// The host operating system.
    pub os: HostOs,
    /// The host CPU architecture.
    pub cpu: CpuKind,
    /// Whether the host is a 64-bit target (chooses the `$LIB` value).
    pub is_64bit: bool,
    /// The host's `$PLATFORM` string.
    pub platform: String,
    /// The text of `ldconfig -p`.
    pub ldconfig_out: String,
    /// The text of `ldd <object>`, keyed by object path.
    pub ldd_by_object: StrMap,
    /// The raw loader metadata of each object file, keyed by path.
    pub raws: Vec<(String, RawBinary)>,
    /// The content digest of each file, keyed by path.
    pub shas: StrMap,
}

impl Host {
    /// The raw metadata recorded for `path`, if any.
    pub fn raw_of(&self, path: &str) -> (r: Option<&RawBinary>)
        ensures
            match r {
                Some(b) => spec_raw_of(raw_pairs_view(self.raws@), path@) == Some(*b),
                None => spec_raw_of(raw_pairs_view(self.raws@), path@) is None,
            },
    {
        let n: usize = self.raws.len();
        let mut i: usize = n;
        proof {
            assert(raw_pairs_view(self.raws@).take(n as int) =~= raw_pairs_view(self.raws@));
        }
        while i > 0
            invariant
                i <= n,
                n == self.raws@.len(),
                spec_raw_of(raw_pairs_view(self.raws@), path@) == spec_raw_of(
                    raw_pairs_view(self.raws@).take(i as int),
                    path@,
                ),
            decreases i,
        {
            let ghost pre = raw_pairs_view(self.raws@).take(i as int);
            proof {
                assert(pre.last() == raw_pairs_view(self.raws@)[i - 1]);
                assert(raw_pairs_view(self.raws@)[i - 1] == (self.raws@[i - 1].0@, self.raws@[i - 1].1));
            }
            if str_eq(self.raws[i - 1].0.as_str(), path) {
                return Some(&self.raws[i - 1].1);
            }
            proof {
                assert(pre.drop_last() =~= raw_pairs_view(self.raws@).take(i - 1));
            }
            i = i - 1;
        }
        proof {
            assert(raw_pairs_view(self.raws@).take(0) =~= Seq::<(Seq<char>, RawBinary)>::empty());
        }
        None
    }

    /// The recorded `ldd` text for `path`; an object without one gets the
    /// empty text, which resolves nothing.
    pub fn ldd_out_for(&self, path: &str) -> (r: String)
        ensures
            r@ == if self.ldd_by_object@.contains_key(path@) {
                self.ldd_by_object@[path@]
            } else {
                Seq::<char>::empty()
            },
    {
        match self.ldd_by_object.get(path) {
            Some(t) => t.clone(),
            None => String::new(),
        }
    }

    /// The recorded digest for `path`; an error when the driver recorded
    /// none.
    pub fn sha_of(&self, path: &str) -> (r: Result<String, crate::errors::YarpError>)
        ensures
            match r {
                Ok(s) => self.shas@.contains_key(path@) && self.shas@[path@] == s@,
                Err(_) => !self.shas@.contains_key(path@),
            },
    {
        match self.shas.get(path) {
            Some(s) => Ok(s.clone()),
            None => Err(crate::errors::YarpError::MissingFile(path.to_owned())),
        }
    }
}

} // verus!
