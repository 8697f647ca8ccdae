//! Parsed loader metadata of a native object: what the packer knows about a
//! Mach-O or ELF file after its references have been resolved.

use vstd::prelude::*;

verus! {

/// Association pairs as character sequences.
pub open spec fn pairs_view(ps: Seq<(String, String)>) -> Seq<(Seq<char>, Seq<char>)> {
    ps.map_values(|p: (String, String)| (p.0@, p.1@))
}

/// The values of association pairs, in order.
pub open spec fn vals_of(ps: Seq<(Seq<char>, Seq<char>)>) -> Seq<Seq<char>> {
    ps.map_values(|p: (Seq<char>, Seq<char>)| p.1)
}

/// A parsed Mach-O object.
#[derive(Clone)]
pub struct Macho {
    /// Each load-dylib command string with the canonical path it resolved to.
    pub load_cmds: Vec<(String, String)>,
    /// Each rpath string that resolved, with its resolution.
    pub rpaths: Vec<(String, String)>,
    /// The object's own install name, if it carries one.
    pub id_dylib: Option<String>,
    /// The object's path.
    pub path: String,
    /// Every raw rpath string, resolved or not, in file order.
    pub all_rpaths: Vec<String>,
}

/// The mathematical content of a parsed Mach-O object.
pub struct MachoView {
    pub load_cmds: Seq<(Seq<char>, Seq<char>)>,
    pub rpaths: Seq<(Seq<char>, Seq<char>)>,
    pub id_dylib: Option<Seq<char>>,
    pub path: Seq<char>,
    pub all_rpaths: Seq<Seq<char>>,
}

impl View for Macho {
    type V = MachoView;

    open spec fn view(&self) -> MachoView {
        MachoView {
            load_cmds: pairs_view(self.load_cmds@),
            rpaths: pairs_view(self.rpaths@),
            id_dylib: match self.id_dylib {
                Some(ref s) => Some(s@),
                None => None,
            },
            path: self.path@,
            all_rpaths: self.all_rpaths@.map_values(|s: String| s@),
        }
    }
}

/// A parsed ELF object.
#[derive(Clone)]
pub struct Elf {
    /// Each `DT_NEEDED` name with the canonical path it resolved to.
    pub dt_needed: Vec<(String, String)>,
    /// Each `DT_RPATH` entry that resolved, with its resolution.
    pub dt_rpaths: Vec<(String, String)>,
    /// Each `DT_RUNPATH` entry that resolved, with its resolution.
    pub dt_runpaths: Vec<(String, String)>,
    /// The object's path.
    pub path: String,
    /// Every raw `DT_RPATH` entry, resolved or not.
    pub all_dt_rpaths: Vec<String>,
    /// Every raw `DT_RUNPATH` entry, resolved or not.
    pub all_dt_runpaths: Vec<String>,
}

/// The mathematical content of a parsed ELF object.
pub struct ElfView {
    pub dt_needed: Seq<(Seq<char>, Seq<char>)>,
    pub dt_rpaths: Seq<(Seq<char>, Seq<char>)>,
    pub dt_runpaths: Seq<(Seq<char>, Seq<char>)>,
    pub path: Seq<char>,
    pub all_dt_rpaths: Seq<Seq<char>>,
    pub all_dt_runpaths: Seq<Seq<char>>,
}

impl View for Elf {
    type V = ElfView;

    open spec fn view(&self) -> ElfView {
        ElfView {
            dt_needed: pairs_view(self.dt_needed@),
            dt_rpaths: pairs_view(self.dt_rpaths@),
            dt_runpaths: pairs_view(self.dt_runpaths@),
            path: self.path@,
            all_dt_rpaths: self.all_dt_rpaths@.map_values(|s: String| s@),
            all_dt_runpaths: self.all_dt_runpaths@.map_values(|s: String| s@),
        }
    }
}

/// A parsed native object of either format.
#[derive(Clone)]
pub enum Binary {
    Macho(Macho),
    Elf(Elf),
}

/// The mathematical content of a parsed binary.
pub enum BinaryView {
    Macho(MachoView),
    Elf(ElfView),
}

impl View for Binary {
    type V = BinaryView;

    open spec fn view(&self) -> BinaryView {
        match self {
            Binary::Macho(m) => BinaryView::Macho(m@),
            Binary::Elf(e) => BinaryView::Elf(e@),
        }
    }
}

/// The resolved dependency paths a binary carries.
pub open spec fn spec_dependencies(b: &Binary) -> Seq<Seq<char>> {
    match b {
        Binary::Macho(m) => vals_of(m@.load_cmds),
        Binary::Elf(e) => vals_of(e@.dt_needed),
    }
}

/// The search paths a binary hands down to its children: ELF `DT_RPATH` is
/// inherited by the loading chain, Mach-O rpaths are not.
pub open spec fn spec_paths_for_next_search(b: &Binary) -> Seq<Seq<char>> {
    match b {
        Binary::Macho(_) => Seq::empty(),
        Binary::Elf(e) => vals_of(e@.dt_rpaths),
    }
}

/// A copy of association pairs with the same content.
pub fn dup_pairs(ps: &Vec<(String, String)>) -> (r: Vec<(String, String)>)
    ensures
        pairs_view(r@) == pairs_view(ps@),
{
    let ghost pv = pairs_view(ps@);
    let mut out: Vec<(String, String)> = Vec::new();
    let mut i: usize = 0;
    while i < ps.len()
        invariant
            i <= ps@.len(),
            pv == pairs_view(ps@),
            pairs_view(out@) == pv.take(i as int),
        decreases ps@.len() - i,
    {
        let k: String = ps[i].0.clone();
        let v: String = ps[i].1.clone();
        let ghost prev = pairs_view(out@);
        out.push((k, v));
        proof {
            assert(pairs_view(out@) =~= prev.push(pv[i as int]));
            assert(pv.take(i + 1) =~= pv.take(i as int).push(pv[i as int]));
        }
        i = i + 1;
    }
    proof {
        assert(pv.take(ps@.len() as int) =~= pv);
    }
    out
}

/// A copy of a string vector with the same content.
pub fn dup_strs(v: &Vec<String>) -> (r: Vec<String>)
    ensures
        r@.map_values(|s: String| s@) == v@.map_values(|s: String| s@),
{
    let ghost vv = v@.map_values(|s: String| s@);
    let mut out: Vec<String> = Vec::new();
    let mut i: usize = 0;
    while i < v.len()
        invariant
            i <= v@.len(),
            vv == v@.map_values(|s: String| s@),
            out@.map_values(|s: String| s@) == vv.take(i as int),
        decreases v@.len() - i,
    {
        let s: String = v[i].clone();
        let ghost prev = out@.map_values(|s: String| s@);
        out.push(s);
        proof {
            assert(out@.map_values(|s: String| s@) =~= prev.push(vv[i as int]));
            assert(vv.take(i + 1) =~= vv.take(i as int).push(vv[i as int]));
        }
        i = i + 1;
    }
    proof {
        assert(vv.take(v@.len() as int) =~= vv);
    }
    out
}

/// A copy of an optional string with the same content.
pub fn dup_opt_str(v: &Option<String>) -> (r: Option<String>)
    ensures
        match v {
            Some(s) => r matches Some(t) && t@ == s@,
            None => r is None,
        },
{
    match v {
        Some(s) => Some(s.clone()),
        None => None,
    }
}

impl Macho {
    /// A copy with the same content.
    pub fn duplicate(&self) -> (r: Macho)
        ensures
            r@ == self@,
    {
        let r = Macho {
            load_cmds: dup_pairs(&self.load_cmds),
            rpaths: dup_pairs(&self.rpaths),
            id_dylib: dup_opt_str(&self.id_dylib),
            path: self.path.clone(),
            all_rpaths: dup_strs(&self.all_rpaths),
        };
        proof {
            assert(r@.load_cmds == self@.load_cmds);
            assert(r@.rpaths == self@.rpaths);
            assert(r@.id_dylib == self@.id_dylib);
            assert(r@.path == self@.path);
            assert(r@.all_rpaths == self@.all_rpaths);
        }
        r
    }
}

impl Elf {
    /// A copy with the same content.
    pub fn duplicate(&self) -> (r: Elf)
        ensures
            r@ == self@,
    {
        let r = Elf {
            dt_needed: dup_pairs(&self.dt_needed),
            dt_rpaths: dup_pairs(&self.dt_rpaths),
            dt_runpaths: dup_pairs(&self.dt_runpaths),
            path: self.path.clone(),
            all_dt_rpaths: dup_strs(&self.all_dt_rpaths),
            all_dt_runpaths: dup_strs(&self.all_dt_runpaths),
        };
        proof {
            assert(r@.dt_needed == self@.dt_needed);
            assert(r@.dt_rpaths == self@.dt_rpaths);
            assert(r@.dt_runpaths == self@.dt_runpaths);
            assert(r@.path == self@.path);
            assert(r@.all_dt_rpaths == self@.all_dt_rpaths);
            assert(r@.all_dt_runpaths == self@.all_dt_runpaths);
        }
        r
    }
}

impl Binary {
    /// A copy with the same content.
    pub fn duplicate(&self) -> (r: Binary)
        ensures
            r@ == self@,
    {
        match self {
            Binary::Macho(m) => Binary::Macho(m.duplicate()),
            Binary::Elf(e) => Binary::Elf(e.duplicate()),
        }
    }
}

fn assoc_values(ps: &Vec<(String, String)>) -> (r: Vec<String>)
    ensures
        r@.map_values(|s: String| s@) == vals_of(pairs_view(ps@)),
{
    let ghost pv = pairs_view(ps@);
    let mut out: Vec<String> = Vec::new();
    let mut i: usize = 0;
    while i < ps.len()
        invariant
            i <= ps@.len(),
            pv == pairs_view(ps@),
            out@.map_values(|s: String| s@) == vals_of(pv.take(i as int)),
        decreases ps@.len() - i,
    {
        let v: String = ps[i].1.clone();
        let ghost prev = out@.map_values(|s: String| s@);
        out.push(v);
        proof {
            assert(out@.map_values(|s: String| s@) =~= prev.push(pv[i as int].1));
            assert(vals_of(pv.take(i + 1)) =~= vals_of(pv.take(i as int)).push(pv[i as int].1));
        }
        i = i + 1;
    }
    proof {
        assert(pv.take(ps@.len() as int) =~= pv);
        assert(out@.map_values(|s: String| s@) =~= vals_of(pv));
    }
    out
}

impl Binary {
    /// The canonical paths of every resolved dependency.
    pub fn dependencies(&self) -> (r: Vec<String>)
        ensures
            r@.map_values(|s: String| s@) == spec_dependencies(self),
    {
        match self {
            Binary::Macho(m) => assoc_values(&m.load_cmds),
            Binary::Elf(e) => assoc_values(&e.dt_needed),
        }
    }

    /// The rpaths this object's children inherit during resolution.
    pub fn paths_to_add_for_next_search(&self) -> (r: Vec<String>)
        ensures
            r@.map_values(|s: String| s@) == spec_paths_for_next_search(self),
    {
        match self {
            Binary::Macho(_) => Vec::new(),
            Binary::Elf(e) => assoc_values(&e.dt_rpaths),
        }
    }
}

} // verus!
