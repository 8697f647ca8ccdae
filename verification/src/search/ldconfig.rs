//! Parsing the output of `ldconfig -p`: the loader cache consulted after
//! the explicit search paths. The driver runs the tool once; this module
//! decides what its text means.

use vstd::prelude::*;

verus! {

use crate::strutil::spec_split;
use crate::strutil::spec_split_sub;
use crate::strutil::spec_trim;
use crate::strutil::spec_contains_sub;
use crate::strutil::split_char;
use crate::strutil::split_sub;
use crate::strutil::trim;
use crate::strutil::str_eq;
use crate::strutil::contains_sub;

/// What one cache line offers for `name`: the trimmed right-hand side of
/// `... => path`, kept when it mentions `name` at all.
pub open spec fn spec_get_candidate(name: Seq<char>, l: Seq<char>) -> Option<Seq<char>> {
    let comps = spec_split_sub(l, "=>"@);
    if comps.len() < 2 {
        None
    } else if spec_contains_sub(comps[1], name) {
        Some(spec_trim(comps[1]))
    } else {
        None
    }
}

fn get_candidate(name: &str, l: &str) -> (r: Option<String>)
    ensures
        match r {
            Some(c) => spec_get_candidate(name@, l@) == Some(c@),
            None => spec_get_candidate(name@, l@) is None,
        },
{
    let comps: Vec<String> = split_sub(l, "=>");
    if comps.len() < 2 {
        return None;
    }
    if contains_sub(comps[1].as_str(), name) {
        Some(trim(comps[1].as_str()))
    } else {
        None
    }
}

/// All candidates the cache lines offer for `name`, in line order.
pub open spec fn spec_candidates(name: Seq<char>, ls: Seq<Seq<char>>) -> Seq<Seq<char>>
    decreases ls.len(),
{
    if ls.len() == 0 {
        Seq::empty()
    } else {
        let pre = spec_candidates(name, ls.drop_last());
        match spec_get_candidate(name, ls.last()) {
            Some(c) => pre.push(c),
            None => pre,
        }
    }
}

/// Index of the first candidate equal to `name`.
pub open spec fn spec_first_eq(cs: Seq<Seq<char>>, x: Seq<char>) -> Option<int>
    decreases cs.len(),
{
    if cs.len() == 0 {
        None
    } else if cs[0] == x {
        Some(0)
    } else {
        match spec_first_eq(cs.subrange(1, cs.len() as int), x) {
            Some(i) => Some(i + 1),
            None => None,
        }
    }
}

proof fn lemma_first_eq_at(cs: Seq<Seq<char>>, x: Seq<char>, i: int)
    requires
        0 <= i < cs.len(),
        cs[i] == x,
        forall|j: int| 0 <= j < i ==> cs[j] != x,
    ensures
        spec_first_eq(cs, x) == Some(i),
    decreases cs.len(),
{
    if i > 0 {
        let sub = cs.subrange(1, cs.len() as int);
        assert(forall|j: int| 0 <= j < i - 1 ==> sub[j] == cs[j + 1]);
        lemma_first_eq_at(sub, x, i - 1);
    }
}

proof fn lemma_first_eq_none(cs: Seq<Seq<char>>, x: Seq<char>)
    requires
        forall|j: int| 0 <= j < cs.len() ==> cs[j] != x,
    ensures
        spec_first_eq(cs, x) is None,
    decreases cs.len(),
{
    if cs.len() > 0 {
        lemma_first_eq_none(cs.subrange(1, cs.len() as int), x);
    }
}

/// What the cache resolves `name` to: the first candidate equal to `name`
/// when one exists (an exact match outranks `name.2`-style longer names),
/// otherwise the first candidate of any shape, otherwise nothing.
pub open spec fn spec_ldconfig_find(name: Seq<char>, out: Seq<char>) -> Option<Seq<char>> {
    let cands = spec_candidates(name, spec_split(out, '\n'));
    match spec_first_eq(cands, name) {
        Some(i) => Some(cands[i]),
        None => if cands.len() > 0 {
            Some(cands[0])
        } else {
            None
        },
    }
}

/// The path the `ldconfig -p` output assigns to `name`, if any.
pub fn find_in_output(name: &str, output: String) -> (r: Option<String>)
    ensures
        match r {
            Some(p) => spec_ldconfig_find(name@, output@) == Some(p@),
            None => spec_ldconfig_find(name@, output@) is None,
        },
{
    let lines: Vec<String> = split_char(output.as_str(), '\n');
    let ghost lv = spec_split(output@, '\n');
    proof {
        assert(lines@.map_values(|t: String| t@) =~= lv);
    }
    let mut cands: Vec<String> = Vec::new();
    let mut i: usize = 0;
    proof {
        assert(lv.take(0) =~= Seq::<Seq<char>>::empty());
        assert(cands@.map_values(|t: String| t@) =~= spec_candidates(name@, lv.take(0)));
    }
    while i < lines.len()
        invariant
            i <= lines@.len(),
            lines@.map_values(|t: String| t@) == lv,
            cands@.map_values(|t: String| t@) == spec_candidates(name@, lv.take(i as int)),
        decreases lines@.len() - i,
    {
        proof {
            assert(lv.take(i + 1).drop_last() =~= lv.take(i as int));
            assert(lv.take(i + 1).last() == lv[i as int]);
            assert(lv[i as int] == lines@[i as int]@);
        }
        match get_candidate(name, lines[i].as_str()) {
            Some(c) => {
                let ghost prev = cands@.map_values(|t: String| t@);
                cands.push(c);
                proof {
                    assert(cands@.map_values(|t: String| t@) =~= prev.push(
                        spec_get_candidate(name@, lv[i as int])->Some_0,
                    ));
                }
            },
            None => {},
        }
        i = i + 1;
    }
    proof {
        assert(lv.take(lines@.len() as int) =~= lv);
    }
    let ghost cv = spec_candidates(name@, lv);
    let mut j: usize = 0;
    while j < cands.len()
        invariant
            j <= cands@.len(),
            lv == spec_split(output@, '\n'),
            cv == spec_candidates(name@, lv),
            cands@.map_values(|t: String| t@) == cv,
            forall|k: int| 0 <= k < j ==> cv[k] != name@,
        decreases cands@.len() - j,
    {
        if str_eq(cands[j].as_str(), name) {
            proof {
                lemma_first_eq_at(cv, name@, j as int);
            }
            return Some(cands[j].clone());
        }
        j = j + 1;
    }
    proof {
        lemma_first_eq_none(cv, name@);
    }
    if cands.len() > 0 {
        Some(cands[0].clone())
    } else {
        None
    }
}

} // verus!
