//! Lexical path operations: canonicalization without filesystem lookup,
//! system-path detection, joining, prefix arithmetic and search-path
//! splitting. Paths are modeled as their `/`-separated components.

use vstd::prelude::*;

verus! {

use crate::fsview::Fs;
use crate::manifest::Env;
use crate::strutil::spec_split;
use crate::strutil::spec_find_char;
use crate::strutil::spec_starts_with;
use crate::strutil::lemma_find_char_props;
use crate::strutil::split_char;
use crate::strutil::str_eq;
use crate::strutil::starts_with_str;
use crate::strutil::push_char;
use vstd::string::StrSliceExecFns;
use crate::strutil::concat_str;

/// The views of a vector of strings.
pub open spec fn strs_view(v: Seq<String>) -> Seq<Seq<char>> {
    v.map_values(|s: String| s@)
}

/// The raw `/`-separated segments of a path.
pub open spec fn spec_segments(s: Seq<char>) -> Seq<Seq<char>> {
    spec_split(s, '/')
}

/// Drops empty segments and `.` segments, keeping everything else.
pub open spec fn spec_clean(segs: Seq<Seq<char>>) -> Seq<Seq<char>>
    decreases segs.len(),
{
    if segs.len() == 0 {
        Seq::empty()
    } else {
        let pre = spec_clean(segs.drop_last());
        if segs.last().len() == 0 || segs.last() == "."@ {
            pre
        } else {
            pre.push(segs.last())
        }
    }
}

/// The meaningful components of a path.
pub open spec fn spec_components(s: Seq<char>) -> Seq<Seq<char>> {
    spec_clean(spec_segments(s))
}

/// Whether the path is absolute.
pub open spec fn spec_is_abs(s: Seq<char>) -> bool {
    s.len() > 0 && s[0] == '/'
}

/// Collapses `..` components lexically, left to right; a `..` with nothing
/// before it is dropped.
pub open spec fn spec_resolve_dots(cs: Seq<Seq<char>>) -> Seq<Seq<char>>
    decreases cs.len(),
{
    if cs.len() == 0 {
        Seq::empty()
    } else {
        let pre = spec_resolve_dots(cs.drop_last());
        if cs.last() == ".."@ {
            if pre.len() > 0 {
                pre.drop_last()
            } else {
                pre
            }
        } else {
            pre.push(cs.last())
        }
    }
}

/// Joins components with `/`.
pub open spec fn spec_join(cs: Seq<Seq<char>>) -> Seq<char>
    decreases cs.len(),
{
    if cs.len() == 0 {
        Seq::empty()
    } else if cs.len() == 1 {
        cs[0]
    } else {
        spec_join(cs.drop_last()) + seq!['/'] + cs.last()
    }
}

/// Joins components, prefixing `/` for an absolute path.
pub open spec fn spec_join_abs(cs: Seq<Seq<char>>, abs: bool) -> Seq<char> {
    if abs {
        seq!['/'] + spec_join(cs)
    } else {
        spec_join(cs)
    }
}

/// Lexical canonicalization: collapse `.`, `..` and repeated separators,
/// preserving whether the path is absolute. Symlinks are not consulted.
pub open spec fn spec_normalize(s: Seq<char>) -> Seq<char> {
    spec_join_abs(spec_resolve_dots(spec_components(s)), spec_is_abs(s))
}

/// A component a normalized path may hold: nonempty, not `.`, no `/`.
pub open spec fn good_comp(c: Seq<char>) -> bool {
    c.len() > 0 && c != "."@ && spec_find_char(c, '/') is None
}

/// All components are good.
pub open spec fn all_good(cs: Seq<Seq<char>>) -> bool {
    forall|i: int| 0 <= i < cs.len() ==> good_comp(#[trigger] cs[i])
}

/// No component is `..`.
pub open spec fn no_dotdot(cs: Seq<Seq<char>>) -> bool {
    forall|i: int| 0 <= i < cs.len() ==> #[trigger] cs[i] != ".."@
}

proof fn lemma_segments_no_sep(s: Seq<char>, sep: char)
    ensures
        forall|i: int|
            0 <= i < spec_split(s, sep).len() ==> spec_find_char(
                #[trigger] spec_split(s, sep)[i],
                sep,
            ) is None,
    decreases s.len(),
{
    lemma_find_char_props(s, sep);
    match spec_find_char(s, sep) {
        None => {
            lemma_find_char_none(s, sep);
        },
        Some(i) => {
            let head = s.subrange(0, i);
            lemma_find_char_none(head, sep);
            lemma_segments_no_sep(s.subrange(i + 1, s.len() as int), sep);
        },
    }
}

proof fn lemma_find_char_none(s: Seq<char>, c: char)
    requires
        forall|j: int| 0 <= j < s.len() ==> s[j] != c,
    ensures
        spec_find_char(s, c) is None,
    decreases s.len(),
{
    if s.len() > 0 {
        lemma_find_char_none(s.subrange(1, s.len() as int), c);
    }
}

proof fn lemma_find_char_at(s: Seq<char>, c: char, i: int)
    requires
        0 <= i < s.len(),
        s[i] == c,
        forall|j: int| 0 <= j < i ==> s[j] != c,
    ensures
        spec_find_char(s, c) == Some(i),
    decreases s.len(),
{
    if i > 0 {
        let sub = s.subrange(1, s.len() as int);
        assert(forall|j: int| 0 <= j < i - 1 ==> sub[j] == s[j + 1]);
        lemma_find_char_at(sub, c, i - 1);
    }
}

proof fn lemma_clean_good(segs: Seq<Seq<char>>)
    requires
        forall|i: int| 0 <= i < segs.len() ==> spec_find_char(#[trigger] segs[i], '/') is None,
    ensures
        all_good(spec_clean(segs)),
    decreases segs.len(),
{
    if segs.len() > 0 {
        lemma_clean_good(segs.drop_last());
        let pre = spec_clean(segs.drop_last());
        if !(segs.last().len() == 0 || segs.last() == "."@) {
            assert forall|i: int| 0 <= i < pre.push(segs.last()).len() implies good_comp(
                #[trigger] pre.push(segs.last())[i],
            ) by {
                if i < pre.len() {
                    assert(pre.push(segs.last())[i] == pre[i]);
                }
            }
        }
    }
}

/// Every component of any path is good.
pub proof fn lemma_components_good(s: Seq<char>)
    ensures
        all_good(spec_components(s)),
{
    lemma_segments_no_sep(s, '/');
    lemma_clean_good(spec_segments(s));
}

proof fn lemma_resolve_good(cs: Seq<Seq<char>>)
    requires
        all_good(cs),
    ensures
        all_good(spec_resolve_dots(cs)),
        no_dotdot(spec_resolve_dots(cs)),
    decreases cs.len(),
{
    if cs.len() > 0 {
        assert(all_good(cs.drop_last()));
        lemma_resolve_good(cs.drop_last());
        let pre = spec_resolve_dots(cs.drop_last());
        if cs.last() == ".."@ {
            if pre.len() > 0 {
                assert(forall|i: int|
                    0 <= i < pre.drop_last().len() ==> #[trigger] pre.drop_last()[i] == pre[i]);
            }
        } else {
            assert(good_comp(cs.last()));
            assert(forall|i: int|
                0 <= i < pre.len() ==> #[trigger] pre.push(cs.last())[i] == pre[i]);
        }
    }
}

proof fn lemma_resolve_no_dotdot(cs: Seq<Seq<char>>)
    requires
        no_dotdot(cs),
    ensures
        spec_resolve_dots(cs) == cs,
    decreases cs.len(),
{
    if cs.len() > 0 {
        assert(no_dotdot(cs.drop_last()));
        lemma_resolve_no_dotdot(cs.drop_last());
        assert(cs.last() != ".."@);
        assert(cs.drop_last().push(cs.last()) =~= cs);
    }
}

proof fn lemma_clean_id(cs: Seq<Seq<char>>)
    requires
        all_good(cs),
    ensures
        spec_clean(cs) == cs,
    decreases cs.len(),
{
    if cs.len() > 0 {
        assert(all_good(cs.drop_last()));
        lemma_clean_id(cs.drop_last());
        assert(good_comp(cs.last()));
        assert(cs.drop_last().push(cs.last()) =~= cs);
    }
}

proof fn lemma_clean_add(a: Seq<Seq<char>>, b: Seq<Seq<char>>)
    ensures
        spec_clean(a + b) == spec_clean(a) + spec_clean(b),
    decreases b.len(),
{
    if b.len() == 0 {
        assert(a + b =~= a);
        assert(spec_clean(a) + spec_clean(b) =~= spec_clean(a));
    } else {
        lemma_clean_add(a, b.drop_last());
        assert((a + b).drop_last() =~= a + b.drop_last());
        assert((a + b).last() == b.last());
        if b.last().len() == 0 || b.last() == "."@ {
        } else {
            assert(spec_clean(a) + spec_clean(b.drop_last()).push(b.last()) =~= (spec_clean(a)
                + spec_clean(b.drop_last())).push(b.last()));
        }
    }
}

proof fn lemma_join_front(cs: Seq<Seq<char>>)
    requires
        cs.len() >= 2,
    ensures
        spec_join(cs) == cs[0] + seq!['/'] + spec_join(cs.subrange(1, cs.len() as int)),
    decreases cs.len(),
{
    let rest = cs.subrange(1, cs.len() as int);
    if cs.len() == 2 {
        assert(cs.drop_last() =~= seq![cs[0]]);
        assert(rest =~= seq![cs[1]]);
        assert(spec_join(seq![cs[0]]) == cs[0]);
        assert(spec_join(rest) == cs[1]);
    } else {
        lemma_join_front(cs.drop_last());
        assert(cs.drop_last().subrange(1, cs.drop_last().len() as int) =~= rest.drop_last());
        assert(rest.last() == cs.last());
        assert(spec_join(cs) == spec_join(cs.drop_last()) + seq!['/'] + cs.last());
        assert(spec_join(cs.drop_last()) == cs[0] + seq!['/'] + spec_join(rest.drop_last()));
        assert(spec_join(rest) == spec_join(rest.drop_last()) + seq!['/'] + rest.last());
        assert((cs[0] + seq!['/'] + spec_join(rest.drop_last())) + seq!['/'] + cs.last() =~= cs[0]
            + seq!['/'] + (spec_join(rest.drop_last()) + seq!['/'] + rest.last()));
    }
}

proof fn lemma_split_of_join(cs: Seq<Seq<char>>)
    requires
        all_good(cs),
        cs.len() >= 1,
    ensures
        spec_split(spec_join(cs), '/') == cs,
    decreases cs.len(),
{
    if cs.len() == 1 {
        assert(spec_join(cs) == cs[0]);
        assert(spec_split(cs[0], '/') =~= seq![cs[0]]);
    } else {
        lemma_join_front(cs);
        let rest = cs.subrange(1, cs.len() as int);
        let s = spec_join(cs);
        let head = cs[0];
        let tail = spec_join(rest);
        assert(s =~= head + seq!['/'] + tail);
        assert(forall|j: int| 0 <= j < head.len() ==> s[j] == head[j]);
        assert(good_comp(head));
        lemma_find_char_props(head, '/');
        assert(s[head.len() as int] == '/');
        lemma_find_char_at(s, '/', head.len() as int);
        assert(spec_find_char(s, '/') == Some(head.len() as int));
        assert(s.subrange(0, head.len() as int) =~= head);
        assert(s.subrange(head.len() as int + 1, s.len() as int) =~= tail);
        assert(all_good(rest));
        lemma_split_of_join(rest);
        assert(seq![head] + rest =~= cs);
    }
}

proof fn lemma_components_of_join_abs(cs: Seq<Seq<char>>, abs: bool)
    requires
        all_good(cs),
    ensures
        spec_components(spec_join_abs(cs, abs)) == cs,
{
    let s = spec_join_abs(cs, abs);
    let e = Seq::<char>::empty();
    let singleton_empty = seq![e];
    assert(singleton_empty.drop_last() =~= Seq::<Seq<char>>::empty());
    assert(spec_clean(Seq::<Seq<char>>::empty()) =~= Seq::<Seq<char>>::empty());
    assert(singleton_empty.last() == e);
    assert(spec_clean(singleton_empty) =~= Seq::<Seq<char>>::empty());
    if cs.len() == 0 {
        if abs {
            assert(s =~= seq!['/']);
            assert(s[0] == '/');
            lemma_find_char_at(s, '/', 0);
            assert(s.subrange(0, 0) =~= e);
            assert(s.subrange(1, 1) =~= e);
            assert(spec_find_char(e, '/') is None);
            assert(spec_split(e, '/') =~= singleton_empty);
            assert(spec_split(s, '/') =~= seq![e, e]);
            assert(seq![e, e].drop_last() =~= singleton_empty);
            assert(spec_clean(seq![e, e]) =~= Seq::<Seq<char>>::empty());
            assert(spec_components(s) =~= Seq::<Seq<char>>::empty());
        } else {
            assert(s =~= e);
            assert(spec_find_char(e, '/') is None);
            assert(spec_split(s, '/') =~= singleton_empty);
            assert(spec_components(s) =~= Seq::<Seq<char>>::empty());
        }
    } else {
        let j = spec_join(cs);
        lemma_split_of_join(cs);
        if abs {
            assert(s =~= seq!['/'] + j);
            assert(s[0] == '/');
            lemma_find_char_at(s, '/', 0);
            assert(s.subrange(0, 0) =~= e);
            assert(s.subrange(1, s.len() as int) =~= j);
            assert(spec_split(s, '/') =~= singleton_empty + spec_split(j, '/'));
            lemma_clean_add(singleton_empty, spec_split(j, '/'));
            lemma_clean_id(cs);
            assert(spec_components(s) =~= cs);
        } else {
            lemma_clean_id(cs);
        }
    }
}

proof fn lemma_is_abs_of_join_abs(cs: Seq<Seq<char>>, abs: bool)
    requires
        all_good(cs),
    ensures
        spec_is_abs(spec_join_abs(cs, abs)) == abs,
{
    let s = spec_join_abs(cs, abs);
    if abs {
        assert(s[0] == '/');
    } else {
        if cs.len() == 0 {
        } else if cs.len() == 1 {
            assert(good_comp(cs[0]));
            lemma_find_char_props(cs[0], '/');
            assert(s[0] == cs[0][0]);
        } else {
            lemma_join_front(cs);
            assert(good_comp(cs[0]));
            lemma_find_char_props(cs[0], '/');
            assert(s[0] == cs[0][0]);
        }
    }
}

/// Normalization is idempotent: normalizing a normalized path changes
/// nothing.
pub proof fn lemma_normalize_idempotent(s: Seq<char>)
    ensures
        spec_normalize(spec_normalize(s)) == spec_normalize(s),
{
    let abs = spec_is_abs(s);
    lemma_components_good(s);
    lemma_resolve_good(spec_components(s));
    let cs = spec_resolve_dots(spec_components(s));
    lemma_components_of_join_abs(cs, abs);
    lemma_is_abs_of_join_abs(cs, abs);
    lemma_resolve_no_dotdot(cs);
}

/// The components of a path, as strings.
pub fn components_of(path: &str) -> (r: Vec<String>)
    ensures
        strs_view(r@) == spec_components(path@),
{
    let segs: Vec<String> = split_char(path, '/');
    let ghost segsv = spec_segments(path@);
    proof {
        assert(strs_view(segs@) =~= segsv);
    }
    let mut out: Vec<String> = Vec::new();
    let mut i: usize = 0;
    proof {
        assert(segsv.take(0) =~= Seq::<Seq<char>>::empty());
        assert(strs_view(out@) =~= spec_clean(segsv.take(0)));
    }
    while i < segs.len()
        invariant
            i <= segs@.len(),
            strs_view(segs@) == segsv,
            strs_view(out@) == spec_clean(segsv.take(i as int)),
        decreases segs@.len() - i,
    {
        let keep: bool = !(segs[i].as_str().unicode_len() == 0 || str_eq(segs[i].as_str(), "."));
        proof {
            assert(segsv.take(i + 1).drop_last() =~= segsv.take(i as int));
            assert(segsv.take(i + 1).last() == segsv[i as int]);
            assert(segsv[i as int] == segs@[i as int]@);
        }
        if keep {
            let c: String = segs[i].clone();
            out.push(c);
            proof {
                assert(strs_view(out@) =~= spec_clean(segsv.take(i as int)).push(
                    segs@[i as int]@,
                ));
            }
        }
        i = i + 1;
    }
    proof {
        assert(segsv.take(segs@.len() as int) =~= segsv);
    }
    out
}

/// Whether the path is absolute.
pub fn is_abs_path(path: &str) -> (r: bool)
    ensures
        r == spec_is_abs(path@),
{
    path.unicode_len() > 0 && path.get_char(0) == '/'
}

/// Joins components with `/`, prefixing `/` when `abs`.
pub fn join_components(comps: &Vec<String>, abs: bool) -> (r: String)
    ensures
        r@ == spec_join_abs(strs_view(comps@), abs),
{
    let ghost cv = strs_view(comps@);
    let mut out: String = String::new();
    if abs {
        push_char(&mut out, '/');
    }
    let mut i: usize = 0;
    proof {
        assert(cv.take(0) =~= Seq::<Seq<char>>::empty());
        assert(out@ =~= if abs { seq!['/'] + spec_join(cv.take(0)) } else { spec_join(cv.take(0)) });
    }
    while i < comps.len()
        invariant
            i <= comps@.len(),
            cv == strs_view(comps@),
            out@ == if abs { seq!['/'] + spec_join(cv.take(i as int)) } else {
                spec_join(cv.take(i as int))
            },
        decreases comps@.len() - i,
    {
        proof {
            assert(cv.take(i + 1).drop_last() =~= cv.take(i as int));
            assert(cv.take(i + 1).last() == cv[i as int]);
            assert(cv[i as int] == comps@[i as int]@);
        }
        if i > 0 {
            push_char(&mut out, '/');
        }
        out = concat_str(out, comps[i].as_str());
        proof {
            if i == 0 {
                assert(cv.take(1) =~= seq![cv[0]]);
                assert(spec_join(cv.take(1)) == cv[0]);
                if abs {
                    assert(out@ =~= seq!['/'] + spec_join(cv.take(1)));
                } else {
                    assert(out@ =~= spec_join(cv.take(1)));
                }
            } else {
                assert(spec_join(cv.take(i + 1)) == spec_join(cv.take(i as int)) + seq!['/']
                    + cv[i as int]);
                if abs {
                    assert(out@ =~= seq!['/'] + spec_join(cv.take(i + 1)));
                } else {
                    assert(out@ =~= spec_join(cv.take(i + 1)));
                }
            }
        }
        i = i + 1;
    }
    proof {
        assert(cv.take(comps@.len() as int) =~= cv);
    }
    out
}

/// Lexical canonicalization of a path; does not consult the filesystem, so
/// symlinks survive.
pub fn normalize_path(path: &str) -> (r: String)
    ensures
        r@ == spec_normalize(path@),
{
    let comps: Vec<String> = components_of(path);
    let ghost cv = spec_components(path@);
    let mut stack: Vec<String> = Vec::new();
    let mut i: usize = 0;
    proof {
        assert(cv.take(0) =~= Seq::<Seq<char>>::empty());
        assert(strs_view(stack@) =~= spec_resolve_dots(cv.take(0)));
    }
    while i < comps.len()
        invariant
            i <= comps@.len(),
            cv == strs_view(comps@),
            strs_view(stack@) == spec_resolve_dots(cv.take(i as int)),
        decreases comps@.len() - i,
    {
        proof {
            assert(cv.take(i + 1).drop_last() =~= cv.take(i as int));
            assert(cv.take(i + 1).last() == cv[i as int]);
            assert(cv[i as int] == comps@[i as int]@);
        }
        if str_eq(comps[i].as_str(), "..") {
            if stack.len() > 0 {
                stack.pop();
                proof {
                    assert(strs_view(stack@) =~= spec_resolve_dots(cv.take(i as int)).drop_last());
                }
            }
        } else {
            let c: String = comps[i].clone();
            stack.push(c);
            proof {
                assert(strs_view(stack@) =~= spec_resolve_dots(cv.take(i as int)).push(
                    cv[i as int],
                ));
            }
        }
        i = i + 1;
    }
    proof {
        assert(cv.take(comps@.len() as int) =~= cv);
    }
    let abs: bool = is_abs_path(path);
    join_components(&stack, abs)
}

/// A system-library path: the loader finds these on every machine, so they
/// are elided from the closure.
pub open spec fn spec_is_sys_lib(s: Seq<char>) -> bool {
    spec_starts_with(s, "/usr/lib/"@) || spec_starts_with(s, "/System/Library/Frameworks/"@)
        || spec_starts_with(s, "/System/Library/PrivateFrameworks/"@)
}

/// Whether the path lives under a system-library prefix.
pub fn is_sys_lib(path: &str) -> (r: bool)
    ensures
        r == spec_is_sys_lib(path@),
{
    starts_with_str(path, "/usr/lib/") || starts_with_str(path, "/System/Library/Frameworks/")
        || starts_with_str(path, "/System/Library/PrivateFrameworks/")
}

/// Joining a file name onto a directory: an absolute name stands alone.
pub open spec fn spec_join_path(dir: Seq<char>, name: Seq<char>) -> Seq<char> {
    if spec_is_abs(name) {
        name
    } else if dir.len() > 0 && dir[dir.len() - 1] == '/' {
        dir + name
    } else if dir.len() == 0 {
        name
    } else {
        dir + seq!['/'] + name
    }
}

/// Joins `name` onto `dir` as the loader would.
pub fn join_path(dir: &str, name: &str) -> (r: String)
    ensures
        r@ == spec_join_path(dir@, name@),
{
    if is_abs_path(name) {
        return name.to_owned();
    }
    let dlen: usize = dir.unicode_len();
    if dlen > 0 && dir.get_char(dlen - 1) == '/' {
        let mut out: String = dir.to_owned();
        out = concat_str(out, name);
        out
    } else if dlen == 0 {
        name.to_owned()
    } else {
        let mut out: String = dir.to_owned();
        push_char(&mut out, '/');
        out = concat_str(out, name);
        out
    }
}

/// The final component of a path, if it has a usable one.
pub open spec fn spec_basename(s: Seq<char>) -> Option<Seq<char>> {
    let cs = spec_components(s);
    if cs.len() == 0 {
        None
    } else if cs.last() == ".."@ {
        None
    } else {
        Some(cs.last())
    }
}

/// The file name of a path.
pub fn basename(path: &str) -> (r: Option<String>)
    ensures
        match r {
            Some(b) => spec_basename(path@) == Some(b@),
            None => spec_basename(path@) is None,
        },
{
    let comps: Vec<String> = components_of(path);
    if comps.len() == 0 {
        return None;
    }
    let last: &String = &comps[comps.len() - 1];
    proof {
        assert(strs_view(comps@).last() == last@);
    }
    if str_eq(last.as_str(), "..") {
        None
    } else {
        Some(last.clone())
    }
}

/// The parent of a path: everything above the final component.
pub open spec fn spec_dirname(s: Seq<char>) -> Option<Seq<char>> {
    let cs = spec_components(s);
    if cs.len() == 0 {
        None
    } else {
        Some(spec_join_abs(cs.drop_last(), spec_is_abs(s)))
    }
}

/// The parent directory of a path.
pub fn dirname(path: &str) -> (r: Option<String>)
    ensures
        match r {
            Some(d) => spec_dirname(path@) == Some(d@),
            None => spec_dirname(path@) is None,
        },
{
    let mut comps: Vec<String> = components_of(path);
    if comps.len() == 0 {
        return None;
    }
    let ghost cv = strs_view(comps@);
    comps.pop();
    proof {
        assert(strs_view(comps@) =~= cv.drop_last());
    }
    let abs: bool = is_abs_path(path);
    Some(join_components(&comps, abs))
}

/// Index of the last occurrence of `c` in `s`.
pub open spec fn spec_rfind_char(s: Seq<char>, c: char) -> Option<int>
    decreases s.len(),
{
    if s.len() == 0 {
        None
    } else if s.last() == c {
        Some(s.len() - 1)
    } else {
        spec_rfind_char(s.drop_last(), c)
    }
}

fn rfind_char(s: &str, c: char) -> (r: Option<usize>)
    ensures
        match r {
            Some(i) => i < s@.len() && spec_rfind_char(s@, c) == Some(i as int),
            None => spec_rfind_char(s@, c) is None,
        },
    decreases s@.len(),
{
    let n: usize = s.unicode_len();
    if n == 0 {
        return None;
    }
    if s.get_char(n - 1) == c {
        return Some(n - 1);
    }
    let rest: &str = s.substring_char(0, n - 1);
    proof {
        assert(rest@ =~= s@.drop_last());
    }
    rfind_char(rest, c)
}

/// The extension of a path's file name: what follows the last dot, unless
/// the dot begins the name.
pub open spec fn spec_extension(s: Seq<char>) -> Option<Seq<char>> {
    match spec_basename(s) {
        None => None,
        Some(b) => match spec_rfind_char(b, '.') {
            None => None,
            Some(i) => if i == 0 {
                None
            } else {
                Some(b.subrange(i + 1, b.len() as int))
            },
        },
    }
}

/// The extension of a path.
pub fn extension(path: &str) -> (r: Option<String>)
    ensures
        match r {
            Some(e) => spec_extension(path@) == Some(e@),
            None => spec_extension(path@) is None,
        },
{
    match basename(path) {
        None => None,
        Some(b) => {
            match rfind_char(b.as_str(), '.') {
                None => None,
                Some(i) => {
                    if i == 0 {
                        None
                    } else {
                        let n: usize = b.as_str().unicode_len();
                        Some(b.as_str().substring_char(i + 1, n).to_owned())
                    }
                },
            }
        },
    }
}

/// A shared-library file: extension `so` or `dylib`.
pub open spec fn spec_is_shared_library(s: Seq<char>) -> bool {
    spec_extension(s) == Some("so"@) || spec_extension(s) == Some("dylib"@)
}

/// Whether the path names a shared library by extension.
pub fn is_shared_library(path: &str) -> (r: bool)
    ensures
        r == spec_is_shared_library(path@),
{
    match extension(path) {
        None => false,
        Some(e) => str_eq(e.as_str(), "so") || str_eq(e.as_str(), "dylib"),
    }
}

/// Component-wise path prefix, as the loader compares roots.
pub open spec fn spec_path_starts_with(p: Seq<char>, base: Seq<char>) -> bool {
    spec_is_abs(p) == spec_is_abs(base) && spec_components(base).is_prefix_of(spec_components(p))
}

/// Whether `p` lies at or below `base`, comparing whole components.
pub fn path_starts_with(p: &str, base: &str) -> (r: bool)
    ensures
        r == spec_path_starts_with(p@, base@),
{
    if is_abs_path(p) != is_abs_path(base) {
        return false;
    }
    let pc: Vec<String> = components_of(p);
    let bc: Vec<String> = components_of(base);
    if bc.len() > pc.len() {
        assert(!strs_view(bc@).is_prefix_of(strs_view(pc@)));
        return false;
    }
    let mut i: usize = 0;
    while i < bc.len()
        invariant
            i <= bc@.len(),
            bc@.len() <= pc@.len(),
            strs_view(pc@) == spec_components(p@),
            strs_view(bc@) == spec_components(base@),
            forall|j: int| 0 <= j < i ==> strs_view(bc@)[j] == strs_view(pc@)[j],
        decreases bc@.len() - i,
    {
        if !str_eq(bc[i].as_str(), pc[i].as_str()) {
            assert(strs_view(bc@)[i as int] != strs_view(pc@)[i as int]);
            assert(!strs_view(bc@).is_prefix_of(strs_view(pc@)));
            return false;
        }
        i = i + 1;
    }
    proof {
        assert(strs_view(bc@).is_prefix_of(strs_view(pc@))) by {
            assert(strs_view(bc@) =~= strs_view(pc@).subrange(0, strs_view(bc@).len() as int));
        }
    }
    true
}

/// The path of `p` relative to `base`, when `p` lies below `base`.
pub open spec fn spec_strip_prefix(p: Seq<char>, base: Seq<char>) -> Option<Seq<char>> {
    if spec_path_starts_with(p, base) {
        Some(
            spec_join(
                spec_components(p).subrange(
                    spec_components(base).len() as int,
                    spec_components(p).len() as int,
                ),
            ),
        )
    } else {
        None
    }
}

/// Strips `base` from the front of `p`, yielding the relative remainder.
pub fn strip_prefix_path(p: &str, base: &str) -> (r: Option<String>)
    ensures
        match r {
            Some(rel) => spec_strip_prefix(p@, base@) == Some(rel@),
            None => spec_strip_prefix(p@, base@) is None,
        },
{
    if !path_starts_with(p, base) {
        return None;
    }
    let pc: Vec<String> = components_of(p);
    let bc: Vec<String> = components_of(base);
    assert(strs_view(bc@).is_prefix_of(strs_view(pc@)));
    let mut rest: Vec<String> = Vec::new();
    let mut i: usize = bc.len();
    proof {
        assert(strs_view(rest@) =~= strs_view(pc@).subrange(bc@.len() as int, bc@.len() as int));
    }
    while i < pc.len()
        invariant
            bc@.len() <= i <= pc@.len(),
            strs_view(pc@) == spec_components(p@),
            strs_view(bc@) == spec_components(base@),
            strs_view(rest@) == strs_view(pc@).subrange(bc@.len() as int, i as int),
        decreases pc@.len() - i,
    {
        let c: String = pc[i].clone();
        let ghost prev = strs_view(rest@);
        rest.push(c);
        proof {
            assert(strs_view(rest@) =~= prev.push(strs_view(pc@)[i as int]));
            assert(strs_view(pc@).subrange(bc@.len() as int, i + 1) =~= strs_view(pc@).subrange(
                bc@.len() as int,
                i as int,
            ).push(strs_view(pc@)[i as int]));
        }
        i = i + 1;
    }
    Some(join_components(&rest, false))
}

/// The directories of `ps` that exist in the view.
pub open spec fn spec_valid_dirs(ps: Seq<Seq<char>>, fs: Fs) -> Seq<Seq<char>>
    decreases ps.len(),
{
    if ps.len() == 0 {
        Seq::empty()
    } else {
        let pre = spec_valid_dirs(ps.drop_last(), fs);
        if fs.has_dir(ps.last()) {
            pre.push(ps.last())
        } else {
            pre
        }
    }
}

/// Keeps the entries that name existing directories.
pub fn get_valid_paths(ps: &Vec<String>, fs: &Fs) -> (r: Vec<String>)
    ensures
        strs_view(r@) == spec_valid_dirs(strs_view(ps@), *fs),
{
    let ghost pv = strs_view(ps@);
    let mut out: Vec<String> = Vec::new();
    let mut i: usize = 0;
    proof {
        assert(pv.take(0) =~= Seq::<Seq<char>>::empty());
        assert(strs_view(out@) =~= spec_valid_dirs(pv.take(0), *fs));
    }
    while i < ps.len()
        invariant
            i <= ps@.len(),
            pv == strs_view(ps@),
            strs_view(out@) == spec_valid_dirs(pv.take(i as int), *fs),
        decreases ps@.len() - i,
    {
        proof {
            assert(pv.take(i + 1).drop_last() =~= pv.take(i as int));
            assert(pv.take(i + 1).last() == pv[i as int]);
            assert(pv[i as int] == ps@[i as int]@);
        }
        if fs.is_dir(ps[i].as_str()) {
            let c: String = ps[i].clone();
            out.push(c);
            proof {
                assert(strs_view(out@) =~= spec_valid_dirs(pv.take(i as int), *fs).push(
                    pv[i as int],
                ));
            }
        }
        i = i + 1;
    }
    proof {
        assert(pv.take(ps@.len() as int) =~= pv);
    }
    out
}

/// Splits a colon-separated search string, keeping entries that name
/// existing directories; an absent string yields nothing.
pub fn split_colon_separated_into_valid_search_paths(term: Option<&String>, fs: &Fs) -> (r: Vec<
    String,
>)
    ensures
        match term {
            None => r@.len() == 0,
            Some(t) => strs_view(r@) == spec_valid_dirs(spec_split(t@, ':'), *fs),
        },
{
    match term {
        None => Vec::new(),
        Some(t) => {
            let parts: Vec<String> = split_char(t.as_str(), ':');
            proof {
                assert(strs_view(parts@) =~= spec_split(t@, ':'));
            }
            get_valid_paths(&parts, fs)
        },
    }
}

/// The `DYLD_LIBRARY_PATH` entries of the environment, colon-split and not
/// filtered for existence.
pub fn get_dyld_library_path(env: &Env) -> (r: Vec<String>)
    ensures
        match env@.contains_key("DYLD_LIBRARY_PATH"@) {
            true => strs_view(r@) == spec_split(env@["DYLD_LIBRARY_PATH"@], ':'),
            false => r@.len() == 0,
        },
{
    match env.get("DYLD_LIBRARY_PATH") {
        Some(v) => {
            let parts: Vec<String> = split_char(v.as_str(), ':');
            proof {
                assert(strs_view(parts@) =~= spec_split(v@, ':'));
            }
            parts
        },
        None => Vec::new(),
    }
}

/// The relative path from `base` to `path`, as the path-difference of the
/// two; a function of the two paths alone.
pub uninterp spec fn rel_path_of(path: Seq<char>, base: Seq<char>) -> Option<Seq<char>>;

/// Relies on `pathdiff::diff_paths`: the relative path that reaches `path`
/// from the directory `base`.
#[verifier::external_body]
pub fn diff_paths_str(path: &str, base: &str) -> (r: Option<String>)
    ensures
        match r {
            Some(s) => rel_path_of(path@, base@) == Some(s@),
            None => rel_path_of(path@, base@) is None,
        },
{
    pathdiff::diff_paths(path, base).and_then(|p| p.to_str().map(|s| s.to_string()))
}

/// The file name of a library path; an error when there is none.
pub fn get_lib_name(path: &str) -> (r: Result<String, crate::errors::YarpError>)
    ensures
        match r {
            Ok(b) => spec_basename(path@) == Some(b@),
            Err(_) => spec_basename(path@) is None,
        },
{
    match basename(path) {
        Some(b) => Ok(b),
        None => Err(crate::errors::YarpError::NoFileName(path.to_owned())),
    }
}

} // verus!
