//! Parsing the output of `ldd`: the last-resort oracle of the loader
//! emulation. The driver runs the tool; this module decides what its text
//! means.

use vstd::prelude::*;

verus! {

use crate::fsview::Fs;
use crate::strutil::spec_split;
use crate::strutil::spec_split_sub;
use crate::strutil::spec_trim;
use crate::strutil::spec_contains_sub;
use crate::strutil::spec_starts_with;
use crate::strutil::split_char;
use crate::strutil::split_sub;
use crate::strutil::trim;
use crate::strutil::str_eq;
use crate::strutil::starts_with_str;
use crate::strutil::contains_sub;

/// The nonempty segments, in order.
pub open spec fn spec_nonempty(segs: Seq<Seq<char>>) -> Seq<Seq<char>>
    decreases segs.len(),
{
    if segs.len() == 0 {
        Seq::empty()
    } else {
        let pre = spec_nonempty(segs.drop_last());
        if segs.last().len() == 0 {
            pre
        } else {
            pre.push(segs.last())
        }
    }
}

/// The space-separated words of a string.
pub open spec fn spec_words(s: Seq<char>) -> Seq<Seq<char>> {
    spec_nonempty(spec_split(s, ' '))
}

fn words(s: &str) -> (r: Vec<String>)
    ensures
        r@.len() == spec_words(s@).len(),
        forall|i: int| 0 <= i < r@.len() ==> r@[i]@ == spec_words(s@)[i],
{
    let segs: Vec<String> = split_char(s, ' ');
    let ghost segsv = spec_split(s@, ' ');
    proof {
        assert(segs@.map_values(|t: String| t@) =~= segsv);
    }
    let mut out: Vec<String> = Vec::new();
    let mut i: usize = 0;
    proof {
        assert(segsv.take(0) =~= Seq::<Seq<char>>::empty());
        assert(out@.map_values(|t: String| t@) =~= spec_nonempty(segsv.take(0)));
    }
    while i < segs.len()
        invariant
            i <= segs@.len(),
            segs@.map_values(|t: String| t@) == segsv,
            out@.map_values(|t: String| t@) == spec_nonempty(segsv.take(i as int)),
        decreases segs@.len() - i,
    {
        proof {
            assert(segsv.take(i + 1).drop_last() =~= segsv.take(i as int));
            assert(segsv.take(i + 1).last() == segsv[i as int]);
            assert(segsv[i as int] == segs@[i as int]@);
        }
        if segs[i].as_str().unicode_len() > 0 {
            let c: String = segs[i].clone();
            let ghost prev = out@.map_values(|t: String| t@);
            out.push(c);
            proof {
                assert(out@.map_values(|t: String| t@) =~= prev.push(segsv[i as int]));
            }
        }
        i = i + 1;
    }
    proof {
        assert(segsv.take(segs@.len() as int) =~= segsv);
    }
    out
}

/// What an `ldd` entry value resolves to: the leading path, accepted only
/// when an address in parentheses follows it; `not found` and bare
/// addresses yield nothing.
pub open spec fn spec_ldd_entry_value(v: Seq<char>) -> Option<Seq<char>> {
    if v == "not found"@ {
        None
    } else {
        let ws = spec_words(v);
        if ws.len() > 1 {
            if spec_starts_with(ws[1], "(0x"@) {
                Some(ws[0])
            } else {
                None
            }
        } else {
            None
        }
    }
}

/// The path in one `name => path (addr)` entry value.
pub fn find_in_ldd_entry_value(value: &str) -> (r: Option<String>)
    ensures
        match r {
            Some(p) => spec_ldd_entry_value(value@) == Some(p@),
            None => spec_ldd_entry_value(value@) is None,
        },
{
    if str_eq(value, "not found") {
        return None;
    }
    let ws: Vec<String> = words(value);
    if ws.len() > 1 {
        if starts_with_str(ws[1].as_str(), "(0x") {
            Some(ws[0].clone())
        } else {
            None
        }
    } else {
        None
    }
}

/// What one output line contributes for `name`: the resolved path when the
/// line is an arrow entry for exactly `name`, and nothing otherwise.
pub open spec fn spec_ldd_line(name: Seq<char>, l: Seq<char>) -> Option<Seq<char>> {
    if spec_contains_sub(l, "=>"@) {
        let parts = spec_split_sub(spec_trim(l), "=>"@);
        if parts.len() > 1 && spec_trim(parts[0]) == name {
            spec_ldd_entry_value(spec_trim(parts[1]))
        } else {
            None
        }
    } else {
        None
    }
}

fn ldd_line(name: &str, l: &str) -> (r: Option<String>)
    ensures
        match r {
            Some(p) => spec_ldd_line(name@, l@) == Some(p@),
            None => spec_ldd_line(name@, l@) is None,
        },
{
    if !contains_sub(l, "=>") {
        return None;
    }
    let t: String = trim(l);
    let parts: Vec<String> = split_sub(t.as_str(), "=>");
    if parts.len() > 1 {
        let p0: String = trim(parts[0].as_str());
        if str_eq(p0.as_str(), name) {
            let p1: String = trim(parts[1].as_str());
            find_in_ldd_entry_value(p1.as_str())
        } else {
            None
        }
    } else {
        None
    }
}

/// The first line that resolves `name`, scanning top to bottom.
pub open spec fn spec_ldd_scan(name: Seq<char>, ls: Seq<Seq<char>>) -> Option<Seq<char>>
    decreases ls.len(),
{
    if ls.len() == 0 {
        None
    } else {
        match spec_ldd_line(name, ls[0]) {
            Some(p) => Some(p),
            None => spec_ldd_scan(name, ls.subrange(1, ls.len() as int)),
        }
    }
}

/// What the whole `ldd` output resolves `name` to.
pub open spec fn spec_ldd_find(name: Seq<char>, out: Seq<char>) -> Option<Seq<char>> {
    spec_ldd_scan(name, spec_split(out, '\n'))
}

/// The path an `ldd` output assigns to `name`, if any.
pub fn find_in_output(name: &str, output: String) -> (r: Option<String>)
    ensures
        match r {
            Some(p) => spec_ldd_find(name@, output@) == Some(p@),
            None => spec_ldd_find(name@, output@) is None,
        },
{
    let lines: Vec<String> = split_char(output.as_str(), '\n');
    let ghost lv = spec_split(output@, '\n');
    proof {
        assert(lines@.map_values(|t: String| t@) =~= lv);
        assert(lv.subrange(0, lv.len() as int) =~= lv);
    }
    let mut i: usize = 0;
    while i < lines.len()
        invariant
            i <= lines@.len(),
            lv == spec_split(output@, '\n'),
            lines@.map_values(|t: String| t@) == lv,
            spec_ldd_scan(name@, lv) == spec_ldd_scan(name@, lv.subrange(i as int, lv.len() as int)),
        decreases lines@.len() - i,
    {
        let ghost rest = lv.subrange(i as int, lv.len() as int);
        proof {
            assert(rest[0] == lv[i as int]);
            assert(lv[i as int] == lines@[i as int]@);
            assert(rest.subrange(1, rest.len() as int) =~= lv.subrange(i + 1, lv.len() as int));
        }
        match ldd_line(name, lines[i].as_str()) {
            Some(p) => {
                proof {
                    assert(rest.len() > 0);
                    assert(spec_ldd_line(name@, rest[0]) == Some(p@));
                    assert(spec_ldd_scan(name@, rest) == Some(p@));
                }
                return Some(p);
            },
            None => {},
        }
        i = i + 1;
    }
    proof {
        assert(lv.subrange(lv.len() as int, lv.len() as int) =~= Seq::<Seq<char>>::empty());
    }
    None
}

/// The library `name` as `ldd` output resolves it, accepted only when the
/// path exists.
pub fn find(name: &str, output: String, fs: &Fs) -> (r: Option<String>)
    ensures
        match r {
            Some(p) => spec_ldd_find(name@, output@) == Some(p@) && fs.has_entry(p@),
            None => match spec_ldd_find(name@, output@) {
                Some(p) => !fs.has_entry(p),
                None => true,
            },
        },
{
    match find_in_output(name, output) {
        Some(p) => {
            if fs.path_exists(p.as_str()) {
                Some(p)
            } else {
                None
            }
        },
        None => None,
    }
}

} // verus!
