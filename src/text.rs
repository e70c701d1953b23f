//! Character-sequence primitives shared by the parser and the builder.
use vstd::prelude::*;
use vstd::std_specs::iter::IteratorSpec;

verus! {

/// The Unicode `White_Space` characters: the set that `str::trim` removes.
pub open spec fn is_space(c: char) -> bool {
    ('\u{9}' <= c && c <= '\u{d}') || c == ' ' || c == '\u{85}' || c == '\u{a0}' || c
        == '\u{1680}' || ('\u{2000}' <= c && c <= '\u{200a}') || c == '\u{2028}' || c
        == '\u{2029}' || c == '\u{202f}' || c == '\u{205f}' || c == '\u{3000}'
}

/// Index of the first non-space character at or after `i`.
pub open spec fn skip_space(s: Seq<char>, i: int) -> int
    decreases s.len() - i,
{
    if 0 <= i < s.len() && is_space(s[i]) {
        skip_space(s, i + 1)
    } else {
        i
    }
}

/// End of `s.subrange(0, j)` once trailing spaces are dropped.
pub open spec fn skip_space_back(s: Seq<char>, j: int) -> int
    decreases j,
{
    if 0 < j <= s.len() && is_space(s[j - 1]) {
        skip_space_back(s, j - 1)
    } else {
        j
    }
}

pub open spec fn trim_start(s: Seq<char>) -> Seq<char> {
    s.subrange(skip_space(s, 0), s.len() as int)
}

pub open spec fn trim_end(s: Seq<char>) -> Seq<char> {
    s.subrange(0, skip_space_back(s, s.len() as int))
}

pub open spec fn trim(s: Seq<char>) -> Seq<char> {
    trim_end(trim_start(s))
}

/// The white space of JSON: space, tab, line feed and carriage return.
pub open spec fn is_json_space(c: char) -> bool {
    c == ' ' || c == '\t' || c == '\n' || c == '\r'
}

pub open spec fn skip_json_space(s: Seq<char>, i: int) -> int
    decreases s.len() - i,
{
    if 0 <= i < s.len() && is_json_space(s[i]) {
        skip_json_space(s, i + 1)
    } else {
        i
    }
}

pub open spec fn skip_json_space_back(s: Seq<char>, j: int) -> int
    decreases j,
{
    if 0 < j <= s.len() && is_json_space(s[j - 1]) {
        skip_json_space_back(s, j - 1)
    } else {
        j
    }
}

/// `s` without JSON white space at either end.
pub open spec fn json_trim(s: Seq<char>) -> Seq<char> {
    let t = s.subrange(skip_json_space(s, 0), s.len() as int);
    t.subrange(0, skip_json_space_back(t, t.len() as int))
}

pub open spec fn starts_with(s: Seq<char>, pat: Seq<char>) -> bool {
    pat.len() <= s.len() && s.subrange(0, pat.len() as int) == pat
}

pub open spec fn occurs_at(s: Seq<char>, pat: Seq<char>, i: int) -> bool {
    0 <= i && i + pat.len() <= s.len() && s.subrange(i, i + pat.len()) == pat
}

/// First position at or after `i` where `pat` occurs, or -1.
pub open spec fn find_from(s: Seq<char>, pat: Seq<char>, i: int) -> int
    decreases s.len() + 1 - i,
{
    if i < 0 || i + pat.len() > s.len() {
        -1
    } else if occurs_at(s, pat, i) {
        i
    } else {
        find_from(s, pat, i + 1)
    }
}

/// Last position at or before `i` where `pat` occurs, or -1.
pub open spec fn rfind_to(s: Seq<char>, pat: Seq<char>, i: int) -> int
    decreases i + 1,
{
    if i < 0 {
        -1
    } else if occurs_at(s, pat, i) {
        i
    } else {
        rfind_to(s, pat, i - 1)
    }
}

/// The pieces of `s` between occurrences of `sep`, scanning from `i`
/// inside a piece that began at `start`.
pub open spec fn split_from(s: Seq<char>, sep: Seq<char>, start: int, i: int) -> Seq<Seq<char>>
    decreases s.len() - i,
{
    if sep.len() == 0 || i + sep.len() > s.len() {
        seq![s.subrange(start, s.len() as int)]
    } else if occurs_at(s, sep, i) {
        seq![s.subrange(start, i)] + split_from(s, sep, i + sep.len(), i + sep.len())
    } else {
        split_from(s, sep, start, i + 1)
    }
}

/// `str::split`: the pieces of `s` between occurrences of `sep`, left to right.
pub open spec fn split(s: Seq<char>, sep: Seq<char>) -> Seq<Seq<char>> {
    split_from(s, sep, 0, 0)
}

/// Each line break replaced by the two characters `\` and `n`.
pub open spec fn escape_newlines(s: Seq<char>) -> Seq<char>
    decreases s.len(),
{
    if s.len() == 0 {
        Seq::empty()
    } else {
        escape_newlines(s.drop_last()) + if s.last() == '\n' {
            seq!['\\', 'n']
        } else {
            seq![s.last()]
        }
    }
}

/// With no separator at or after `i`, the rest of `s` is one piece.
pub proof fn lemma_split_no_more(s: Seq<char>, sep: Seq<char>, start: int, i: int)
    requires
        0 <= i,
        forall|j: int| i <= j ==> !occurs_at(s, sep, j),
    ensures
        split_from(s, sep, start, i) == seq![s.subrange(start, s.len() as int)],
    decreases s.len() - i,
{
    if !(sep.len() == 0 || i + sep.len() > s.len()) {
        assert(!occurs_at(s, sep, i));
        lemma_split_no_more(s, sep, start, i + 1);
    }
}

/// Up to the first separator, at `k`, the scan gathers one piece.
pub proof fn lemma_split_first(s: Seq<char>, sep: Seq<char>, start: int, i: int, k: int)
    requires
        0 <= i <= k,
        sep.len() > 0,
        occurs_at(s, sep, k),
        forall|j: int| i <= j < k ==> !occurs_at(s, sep, j),
    ensures
        split_from(s, sep, start, i) == seq![s.subrange(start, k)] + split_from(
            s,
            sep,
            k + sep.len(),
            k + sep.len(),
        ),
    decreases k - i,
{
    if i < k {
        assert(!occurs_at(s, sep, i));
        lemma_split_first(s, sep, start, i + 1, k);
    }
}

pub open spec fn views(v: Seq<Vec<char>>) -> Seq<Seq<char>> {
    v.map_values(|p: Vec<char>| p@)
}

/// The characters of a string, in order.
pub fn to_chars(s: &str) -> (r: Vec<char>)
    ensures
        r@ == s@,
{
    broadcast use vstd::string::group_string_axioms;

    let mut it = s.chars();
    let mut r: Vec<char> = Vec::new();
    loop
        invariant
            r@ + it.remaining() == s@,
            it.decrease() is Some,
        decreases it.decrease()->0,
    {
        match it.next() {
            Some(c) => {
                r.push(c);
                assert(r@ + it.remaining() =~= s@);
            },
            None => {
                assert(r@ =~= s@);
                return r;
            },
        }
    }
}

/// Relies on `String::from_iter`: a string made of the given characters.
#[verifier::external_body]
pub(crate) fn to_text(v: &[char]) -> (r: String)
    ensures
        r@ == v@,
{
    String::from_iter(v)
}

pub fn is_space_char(c: char) -> (r: bool)
    ensures
        r == is_space(c),
{
    ('\u{9}' <= c && c <= '\u{d}') || c == ' ' || c == '\u{85}' || c == '\u{a0}' || c
        == '\u{1680}' || ('\u{2000}' <= c && c <= '\u{200a}') || c == '\u{2028}' || c
        == '\u{2029}' || c == '\u{202f}' || c == '\u{205f}' || c == '\u{3000}'
}

/// The characters of `v` from `from` up to `to`.
pub fn slice(v: &Vec<char>, from: usize, to: usize) -> (r: Vec<char>)
    requires
        from <= to <= v@.len(),
    ensures
        r@ == v@.subrange(from as int, to as int),
{
    let mut r: Vec<char> = Vec::new();
    let mut i: usize = from;
    while i < to
        invariant
            from <= i <= to <= v@.len(),
            r@ == v@.subrange(from as int, i as int),
        decreases to - i,
    {
        r.push(v[i]);
        i += 1;
        proof {
            assert(r@ =~= v@.subrange(from as int, i as int));
        }
    }
    r
}

pub fn trim_chars(v: &Vec<char>) -> (r: Vec<char>)
    ensures
        r@ == trim(v@),
{
    let mut i: usize = 0;
    while i < v.len() && is_space_char(v[i])
        invariant
            i <= v@.len(),
            skip_space(v@, i as int) == skip_space(v@, 0),
        decreases v.len() - i,
    {
        i += 1;
    }
    let t = slice(v, i, v.len());
    let mut j: usize = t.len();
    while j > 0 && is_space_char(t[j - 1])
        invariant
            j <= t@.len(),
            skip_space_back(t@, j as int) == skip_space_back(t@, t@.len() as int),
        decreases j,
    {
        j -= 1;
    }
    slice(&t, 0, j)
}

fn is_json_space_char(c: char) -> (r: bool)
    ensures
        r == is_json_space(c),
{
    c == ' ' || c == '\t' || c == '\n' || c == '\r'
}

pub fn json_trim_chars(v: &Vec<char>) -> (r: Vec<char>)
    ensures
        r@ == json_trim(v@),
{
    let mut i: usize = 0;
    while i < v.len() && is_json_space_char(v[i])
        invariant
            i <= v@.len(),
            skip_json_space(v@, i as int) == skip_json_space(v@, 0),
        decreases v.len() - i,
    {
        i += 1;
    }
    let t = slice(v, i, v.len());
    let mut j: usize = t.len();
    while j > 0 && is_json_space_char(t[j - 1])
        invariant
            j <= t@.len(),
            skip_json_space_back(t@, j as int) == skip_json_space_back(t@, t@.len() as int),
        decreases j,
    {
        j -= 1;
    }
    slice(&t, 0, j)
}

pub fn trim_start_chars(v: &Vec<char>) -> (r: Vec<char>)
    ensures
        r@ == trim_start(v@),
{
    let mut i: usize = 0;
    while i < v.len() && is_space_char(v[i])
        invariant
            i <= v@.len(),
            skip_space(v@, i as int) == skip_space(v@, 0),
        decreases v.len() - i,
    {
        i += 1;
    }
    slice(v, i, v.len())
}

pub fn same_chars(a: &Vec<char>, b: &Vec<char>) -> (r: bool)
    ensures
        r == (a@ == b@),
{
    if a.len() != b.len() {
        return false;
    }
    let mut i: usize = 0;
    while i < a.len()
        invariant
            a@.len() == b@.len(),
            i <= a@.len(),
            forall|k: int| 0 <= k < i ==> a@[k] == b@[k],
        decreases a.len() - i,
    {
        if a[i] != b[i] {
            return false;
        }
        i += 1;
    }
    proof {
        assert(a@ =~= b@);
    }
    true
}

pub fn matches_at(v: &Vec<char>, pat: &Vec<char>, i: usize) -> (r: bool)
    ensures
        r == occurs_at(v@, pat@, i as int),
{
    if i > v.len() || pat.len() > v.len() - i {
        return false;
    }
    let mut k: usize = 0;
    while k < pat.len()
        invariant
            i + pat@.len() <= v@.len(),
            i + pat@.len() <= usize::MAX,
            k <= pat@.len(),
            forall|t: int| 0 <= t < k ==> v@[i + t] == pat@[t],
        decreases pat.len() - k,
    {
        if v[i + k] != pat[k] {
            proof {
                assert(v@.subrange(i as int, i + pat@.len())[k as int] != pat@[k as int]);
            }
            return false;
        }
        k += 1;
    }
    proof {
        assert(v@.subrange(i as int, i + pat@.len()) =~= pat@);
    }
    true
}

pub fn starts_with_chars(v: &Vec<char>, pat: &Vec<char>) -> (r: bool)
    ensures
        r == starts_with(v@, pat@),
{
    matches_at(v, pat, 0)
}

/// First position at or after `from` where `pat` occurs, if any.
pub fn find_chars(v: &Vec<char>, pat: &Vec<char>, from: usize) -> (r: Option<usize>)
    requires
        from <= v@.len(),
    ensures
        match r {
            Some(k) => k as int == find_from(v@, pat@, from as int),
            None => find_from(v@, pat@, from as int) == -1,
        },
        r matches Some(k) ==> from <= k && k + pat@.len() <= v@.len(),
{
    if pat.len() == 0 {
        proof {
            assert(v@.subrange(from as int, from as int) =~= pat@);
        }
        return Some(from);
    }
    let mut i: usize = from;
    while pat.len() <= v.len() - i
        invariant
            pat@.len() > 0,
            from <= i <= v@.len(),
            find_from(v@, pat@, i as int) == find_from(v@, pat@, from as int),
        decreases v.len() - i,
    {
        if matches_at(v, pat, i) {
            return Some(i);
        }
        i += 1;
    }
    None
}

/// Last position where `pat` occurs, if any.
pub fn rfind_chars(v: &Vec<char>, pat: &Vec<char>) -> (r: Option<usize>)
    ensures
        match r {
            Some(k) => k as int == rfind_to(v@, pat@, v@.len() - pat@.len()),
            None => rfind_to(v@, pat@, v@.len() - pat@.len()) == -1,
        },
        r matches Some(k) ==> k + pat@.len() <= v@.len(),
{
    if pat.len() > v.len() {
        return None;
    }
    let mut i: usize = v.len() - pat.len();
    loop
        invariant
            i <= v@.len() - pat@.len(),
            rfind_to(v@, pat@, i as int) == rfind_to(v@, pat@, v@.len() - pat@.len()),
        decreases i,
    {
        if matches_at(v, pat, i) {
            return Some(i);
        }
        if i == 0 {
            assert(rfind_to(v@, pat@, -1) == -1);
            return None;
        }
        i -= 1;
    }
}

/// `v` cut at every occurrence of `sep`.
pub fn split_chars(v: &Vec<char>, sep: &Vec<char>) -> (r: Vec<Vec<char>>)
    requires
        sep@.len() > 0,
    ensures
        views(r@) == split(v@, sep@),
{
    let mut out: Vec<Vec<char>> = Vec::new();
    let mut start: usize = 0;
    let mut i: usize = 0;
    while sep.len() <= v.len() - i
        invariant
            sep@.len() > 0,
            start <= i <= v@.len(),
            views(out@) + split_from(v@, sep@, start as int, i as int) == split(v@, sep@),
        decreases v.len() - i,
    {
        if matches_at(v, sep, i) {
            let piece = slice(v, start, i);
            proof {
                assert(views(out@.push(piece)) =~= views(out@).push(piece@));
                assert(views(out@) + split_from(v@, sep@, start as int, i as int) =~= views(
                    out@.push(piece),
                ) + split_from(v@, sep@, i + sep@.len(), i + sep@.len()));
            }
            out.push(piece);
            i += sep.len();
            start = i;
        } else {
            i += 1;
        }
    }
    let last = slice(v, start, v.len());
    proof {
        assert(views(out@.push(last)) =~= views(out@) + split_from(
            v@,
            sep@,
            start as int,
            i as int,
        ));
    }
    out.push(last);
    out
}

pub fn escape_newlines_chars(v: &Vec<char>) -> (r: Vec<char>)
    ensures
        r@ == escape_newlines(v@),
{
    let mut r: Vec<char> = Vec::new();
    let mut i: usize = 0;
    while i < v.len()
        invariant
            i <= v@.len(),
            r@ == escape_newlines(v@.subrange(0, i as int)),
        decreases v.len() - i,
    {
        proof {
            assert(v@.subrange(0, i + 1).drop_last() =~= v@.subrange(0, i as int));
        }
        if v[i] == '\n' {
            r.push('\\');
            r.push('n');
        } else {
            r.push(v[i]);
        }
        i += 1;
        proof {
            assert(r@ =~= escape_newlines(v@.subrange(0, i as int)));
        }
    }
    proof {
        assert(v@.subrange(0, v@.len() as int) =~= v@);
    }
    r
}

} // verus!
