//! Verified string helpers: equality, prefix/suffix tests, searching,
//! splitting, trimming and replacement, all specified over `Seq<char>` views.

use vstd::prelude::*;

verus! {

use vstd::string::StrSliceExecFns;

/// `p` is a prefix of `s`.
pub open spec fn spec_starts_with(s: Seq<char>, p: Seq<char>) -> bool {
    p.len() <= s.len() && s.subrange(0, p.len() as int) == p
}

/// `p` is a suffix of `s`.
pub open spec fn spec_ends_with(s: Seq<char>, p: Seq<char>) -> bool {
    p.len() <= s.len() && s.subrange(s.len() - p.len(), s.len() as int) == p
}

/// Index of the first occurrence of `c` in `s`, if any.
pub open spec fn spec_find_char(s: Seq<char>, c: char) -> Option<int>
    decreases s.len(),
{
    if s.len() == 0 {
        None
    } else if s[0] == c {
        Some(0)
    } else {
        match spec_find_char(s.subrange(1, s.len() as int), c) {
            Some(i) => Some(i + 1),
            None => None,
        }
    }
}

/// The found index is in range, holds `c`, and nothing before it does.
pub proof fn lemma_find_char_props(s: Seq<char>, c: char)
    ensures
        match spec_find_char(s, c) {
            Some(i) => 0 <= i < s.len() && s[i] == c && (forall|j: int| 0 <= j < i ==> s[j] != c),
            None => forall|j: int| 0 <= j < s.len() ==> s[j] != c,
        },
    decreases s.len(),
{
    if s.len() > 0 && s[0] != c {
        let sub = s.subrange(1, s.len() as int);
        lemma_find_char_props(sub, c);
        assert(forall|j: int| 1 <= j < s.len() ==> s[j] == sub[j - 1]);
    }
}

/// Index of the first occurrence of `pat` as a contiguous subsequence of `s`.
pub open spec fn spec_find_sub(s: Seq<char>, pat: Seq<char>) -> Option<int>
    decreases s.len(),
{
    if s.len() < pat.len() {
        None
    } else if s.subrange(0, pat.len() as int) == pat {
        Some(0)
    } else if s.len() == 0 {
        None
    } else {
        match spec_find_sub(s.subrange(1, s.len() as int), pat) {
            Some(i) => Some(i + 1),
            None => None,
        }
    }
}

/// `s` contains `pat` as a contiguous subsequence.
pub open spec fn spec_contains_sub(s: Seq<char>, pat: Seq<char>) -> bool {
    spec_find_sub(s, pat) is Some
}

/// Splitting `s` at every occurrence of `sep`; a string without `sep`
/// splits into the one-element sequence of itself.
pub open spec fn spec_split(s: Seq<char>, sep: char) -> Seq<Seq<char>>
    decreases s.len(),
{
    match spec_find_char(s, sep) {
        None => seq![s],
        Some(i) => if 0 <= i < s.len() {
            seq![s.subrange(0, i)] + spec_split(s.subrange(i + 1, s.len() as int), sep)
        } else {
            seq![s]
        },
    }
}

/// Splitting `s` at every occurrence of the separator string `pat`; when
/// `pat` is empty or absent, `s` splits into itself alone.
pub open spec fn spec_split_sub(s: Seq<char>, pat: Seq<char>) -> Seq<Seq<char>>
    decreases s.len(),
{
    if pat.len() == 0 {
        seq![s]
    } else {
        match spec_find_sub(s, pat) {
            None => seq![s],
            Some(i) => if 0 <= i && i + pat.len() <= s.len() {
                seq![s.subrange(0, i)] + spec_split_sub(
                    s.subrange(i + pat.len(), s.len() as int),
                    pat,
                )
            } else {
                seq![s]
            },
        }
    }
}

/// Splits `s` at every occurrence of the separator string `pat`.
pub fn split_sub(s: &str, pat: &str) -> (r: Vec<String>)
    ensures
        r@.len() == spec_split_sub(s@, pat@).len(),
        forall|i: int| 0 <= i < r@.len() ==> r@[i]@ == spec_split_sub(s@, pat@)[i],
    decreases s@.len(),
{
    let m: usize = pat.unicode_len();
    if m == 0 {
        let mut v: Vec<String> = Vec::new();
        v.push(s.to_owned());
        return v;
    }
    match find_sub(s, pat) {
        None => {
            let mut v: Vec<String> = Vec::new();
            v.push(s.to_owned());
            v
        },
        Some(i) => {
            let n: usize = s.unicode_len();
            let head: String = s.substring_char(0, i).to_owned();
            let rest: &str = s.substring_char(i + m, n);
            let mut v: Vec<String> = split_sub(rest, pat);
            v.insert(0, head);
            v
        },
    }
}

/// The characters discarded by trimming.
pub open spec fn spec_is_space(c: char) -> bool {
    c == ' ' || c == '\t' || c == '\n' || c == '\r'
}

/// `s` with leading space characters removed.
pub open spec fn spec_trim_start(s: Seq<char>) -> Seq<char>
    decreases s.len(),
{
    if s.len() > 0 && spec_is_space(s[0]) {
        spec_trim_start(s.subrange(1, s.len() as int))
    } else {
        s
    }
}

/// `s` with trailing space characters removed.
pub open spec fn spec_trim_end(s: Seq<char>) -> Seq<char>
    decreases s.len(),
{
    if s.len() > 0 && spec_is_space(s[s.len() - 1]) {
        spec_trim_end(s.subrange(0, s.len() - 1))
    } else {
        s
    }
}

/// `s` with leading and trailing space characters removed.
pub open spec fn spec_trim(s: Seq<char>) -> Seq<char> {
    spec_trim_end(spec_trim_start(s))
}

/// `s` with every occurrence of `pat` replaced by `to`, scanning left to
/// right without revisiting replaced text.
pub open spec fn spec_replace(s: Seq<char>, pat: Seq<char>, to: Seq<char>) -> Seq<char>
    decreases s.len(),
{
    if pat.len() == 0 || s.len() < pat.len() {
        s
    } else if s.subrange(0, pat.len() as int) == pat {
        to + spec_replace(s.subrange(pat.len() as int, s.len() as int), pat, to)
    } else {
        seq![s[0]] + spec_replace(s.subrange(1, s.len() as int), pat, to)
    }
}

/// Relies on std's `String::push`: appends one character.
#[verifier::external_body]
pub fn push_char(s: &mut String, c: char)
    ensures
        final(s)@ == old(s)@.push(c),
{
    s.push(c);
}

/// Character-for-character equality of two string slices.
pub fn str_eq(a: &str, b: &str) -> (r: bool)
    ensures
        r == (a@ == b@),
{
    let alen: usize = a.unicode_len();
    let blen: usize = b.unicode_len();
    if alen != blen {
        assert(a@ != b@);
        return false;
    }
    let mut i: usize = 0;
    while i < alen
        invariant
            alen == a@.len(),
            blen == b@.len(),
            alen == blen,
            i <= alen,
            forall|j: int| 0 <= j < i ==> a@[j] == b@[j],
        decreases alen - i,
    {
        if a.get_char(i) != b.get_char(i) {
            assert(a@ != b@);
            return false;
        }
        i = i + 1;
    }
    proof {
        assert(a@ =~= b@);
    }
    true
}

/// Whether `p` is a prefix of `s`.
pub fn starts_with_str(s: &str, p: &str) -> (r: bool)
    ensures
        r == spec_starts_with(s@, p@),
{
    let plen: usize = p.unicode_len();
    let slen: usize = s.unicode_len();
    if plen > slen {
        return false;
    }
    let sub: &str = s.substring_char(0, plen);
    str_eq(sub, p)
}

/// Whether `p` is a suffix of `s`.
pub fn ends_with_str(s: &str, p: &str) -> (r: bool)
    ensures
        r == spec_ends_with(s@, p@),
{
    let plen: usize = p.unicode_len();
    let slen: usize = s.unicode_len();
    if plen > slen {
        return false;
    }
    let sub: &str = s.substring_char(slen - plen, slen);
    str_eq(sub, p)
}

/// First occurrence of `c` in `s`.
pub fn find_char(s: &str, c: char) -> (r: Option<usize>)
    ensures
        match r {
            Some(i) => i < s@.len() && spec_find_char(s@, c) == Some(i as int),
            None => spec_find_char(s@, c) is None,
        },
    decreases s@.len(),
{
    let n: usize = s.unicode_len();
    if n == 0 {
        return None;
    }
    if s.get_char(0) == c {
        return Some(0);
    }
    let rest: &str = s.substring_char(1, n);
    match find_char(rest, c) {
        Some(i) => Some(i + 1),
        None => None,
    }
}

/// Whether `s` contains `c`.
pub fn contains_char(s: &str, c: char) -> (r: bool)
    ensures
        r == (spec_find_char(s@, c) is Some),
{
    match find_char(s, c) {
        Some(_) => true,
        None => false,
    }
}

/// First occurrence of `pat` as a contiguous substring of `s`.
pub fn find_sub(s: &str, pat: &str) -> (r: Option<usize>)
    ensures
        match r {
            Some(i) => i + pat@.len() <= s@.len() && spec_find_sub(s@, pat@) == Some(i as int),
            None => spec_find_sub(s@, pat@) is None,
        },
    decreases s@.len(),
{
    let n: usize = s.unicode_len();
    let m: usize = pat.unicode_len();
    if n < m {
        return None;
    }
    let head: &str = s.substring_char(0, m);
    if str_eq(head, pat) {
        return Some(0);
    }
    if n == 0 {
        return None;
    }
    let rest: &str = s.substring_char(1, n);
    match find_sub(rest, pat) {
        Some(i) => Some(i + 1),
        None => None,
    }
}

/// Whether `s` contains `pat` as a contiguous substring.
pub fn contains_sub(s: &str, pat: &str) -> (r: bool)
    ensures
        r == spec_contains_sub(s@, pat@),
{
    match find_sub(s, pat) {
        Some(_) => true,
        None => false,
    }
}

/// Splits `s` at every occurrence of `sep`.
pub fn split_char(s: &str, sep: char) -> (r: Vec<String>)
    ensures
        r@.len() == spec_split(s@, sep).len(),
        forall|i: int| 0 <= i < r@.len() ==> r@[i]@ == spec_split(s@, sep)[i],
    decreases s@.len(),
{
    match find_char(s, sep) {
        None => {
            let mut v: Vec<String> = Vec::new();
            v.push(s.to_owned());
            v
        },
        Some(i) => {
            let n: usize = s.unicode_len();
            let head: String = s.substring_char(0, i).to_owned();
            let rest: &str = s.substring_char(i + 1, n);
            let mut v: Vec<String> = split_char(rest, sep);
            v.insert(0, head);
            v
        },
    }
}

/// `s` with leading and trailing space characters removed.
pub fn trim(s: &str) -> (r: String)
    ensures
        r@ == spec_trim(s@),
{
    let t: &str = trim_start(s);
    let u: &str = trim_end(t);
    u.to_owned()
}

fn trim_start(s: &str) -> (r: &str)
    ensures
        r@ == spec_trim_start(s@),
    decreases s@.len(),
{
    let n: usize = s.unicode_len();
    if n > 0 {
        let c: char = s.get_char(0);
        if c == ' ' || c == '\t' || c == '\n' || c == '\r' {
            return trim_start(s.substring_char(1, n));
        }
    }
    s
}

fn trim_end(s: &str) -> (r: &str)
    ensures
        r@ == spec_trim_end(s@),
    decreases s@.len(),
{
    let n: usize = s.unicode_len();
    if n > 0 {
        let c: char = s.get_char(n - 1);
        if c == ' ' || c == '\t' || c == '\n' || c == '\r' {
            return trim_end(s.substring_char(0, n - 1));
        }
    }
    s
}

/// `s` with every occurrence of `pat` replaced by `to`.
pub fn replace_all(s: &str, pat: &str, to: &str) -> (r: String)
    ensures
        r@ == spec_replace(s@, pat@, to@),
    decreases s@.len(),
{
    let m: usize = pat.unicode_len();
    let n: usize = s.unicode_len();
    if m == 0 || n < m {
        return s.to_owned();
    }
    if str_eq(s.substring_char(0, m), pat) {
        let tail: String = replace_all(s.substring_char(m, n), pat, to);
        let out: String = concat2(to, tail.as_str());
        proof {
            assert(out@ =~= spec_replace(s@, pat@, to@));
        }
        out
    } else {
        let mut out: String = String::new();
        push_char(&mut out, s.get_char(0));
        let tail: String = replace_all(s.substring_char(1, n), pat, to);
        let out2: String = concat_str(out, tail.as_str());
        proof {
            assert(out2@ =~= spec_replace(s@, pat@, to@));
        }
        out2
    }
}

/// Relies on std's `String` + `&str` concatenation.
#[verifier::external_body]
pub fn concat_str(a: String, b: &str) -> (r: String)
    ensures
        r@ == a@ + b@,
{
    a + b
}

/// The concatenation of two string slices as a fresh `String`.
pub fn concat2(a: &str, b: &str) -> (r: String)
    ensures
        r@ == a@ + b@,
{
    let out: String = a.to_owned();
    concat_str(out, b)
}

/// The concatenation of three string slices as a fresh `String`.
pub fn concat3(a: &str, b: &str, c: &str) -> (r: String)
    ensures
        r@ == a@ + b@ + c@,
{
    let out: String = concat2(a, b);
    concat_str(out, c)
}

/// The decimal digits of `n`, most significant first.
pub open spec fn spec_decimal(n: nat) -> Seq<char>
    decreases n,
{
    if n < 10 {
        seq![spec_digit_char(n)]
    } else {
        spec_decimal(n / 10).push(spec_digit_char(n % 10))
    }
}

/// The character for a single decimal digit.
pub open spec fn spec_digit_char(d: nat) -> char {
    if d == 0 { '0' }
    else if d == 1 { '1' }
    else if d == 2 { '2' }
    else if d == 3 { '3' }
    else if d == 4 { '4' }
    else if d == 5 { '5' }
    else if d == 6 { '6' }
    else if d == 7 { '7' }
    else if d == 8 { '8' }
    else if d == 9 { '9' }
    else { '?' }
}

fn digit_char(d: u32) -> (r: char)
    requires
        d < 10,
    ensures
        r == spec_digit_char(d as nat),
{
    if d == 0 { '0' }
    else if d == 1 { '1' }
    else if d == 2 { '2' }
    else if d == 3 { '3' }
    else if d == 4 { '4' }
    else if d == 5 { '5' }
    else if d == 6 { '6' }
    else if d == 7 { '7' }
    else if d == 8 { '8' }
    else { '9' }
}

/// The decimal rendering of `n`.
pub fn u32_to_dec(n: u32) -> (r: String)
    ensures
        r@ == spec_decimal(n as nat),
    decreases n,
{
    if n < 10 {
        let mut out: String = String::new();
        push_char(&mut out, digit_char(n));
        out
    } else {
        let mut out: String = u32_to_dec(n / 10);
        push_char(&mut out, digit_char(n % 10));
        out
    }
}

} // verus!
