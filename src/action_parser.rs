//! Recovers reasoning and generic calls from a model's raw answer.
//!
//! A generic call is `name(key=value, ...)`. Its parameters form an ordered
//! map: a vector of `(key, value)` pairs with unique keys, kept in the order
//! in which the keys first appeared; a repeated key replaces the value.
use vstd::prelude::*;

use crate::error::ActionError;
use crate::text::{
    lemma_split_first, lemma_split_no_more, occurs_at, escape_newlines, escape_newlines_chars, find_chars, find_from, rfind_chars, rfind_to,
    same_chars, slice, split, split_chars, starts_with, starts_with_chars, to_chars, to_text, trim,
    trim_chars, trim_start, trim_start_chars, views,
};

verus! {

/// The two layouts a model may write its answer in.
#[derive(Debug, Clone, Copy, PartialEq, Eq, Structural)]
pub enum Dialect {
    /// `<Thought>..</Thought>`, `Action_Summary:`, `Action:` .. `</Output>`.
    Tagged,
    /// `Thought:` / `Reflection:` / `Action_Summary:` line markers, then `Action:`.
    Marked,
}

impl Dialect {
    /// Reads a dialect tag: `"bc"` is the marked layout, `"o1"` the tagged one.
    pub fn from_mode(mode: &str) -> (r: Result<Dialect, ActionError>)
        ensures
            mode@ == "bc"@ ==> r == Ok::<Dialect, ActionError>(Dialect::Marked),
            mode@ == "o1"@ ==> r == Ok::<Dialect, ActionError>(Dialect::Tagged),
            mode@ != "bc"@ && mode@ != "o1"@ ==> (r matches Err(ActionError::InvalidDialect(m))
                && m@ == mode@),
    {
        proof {
            reveal_strlit("bc");
            reveal_strlit("o1");
            assert("bc"@[0] != "o1"@[0]);
        }
        let m = to_chars(mode);
        if same_chars(&m, &to_chars("bc")) {
            Ok(Dialect::Marked)
        } else if same_chars(&m, &to_chars("o1")) {
            Ok(Dialect::Tagged)
        } else {
            Err(ActionError::InvalidDialect(to_text(m.as_slice())))
        }
    }
}

/// One action found in an answer, with the reasoning of the whole answer.
#[derive(Debug, Clone, PartialEq)]
pub struct PredictionParsed {
    pub reflection: Option<String>,
    pub thought: String,
    pub action_type: String,
    pub action_inputs: Vec<(String, String)>,
}

/// A generic call: a name and its ordered parameters.
#[derive(Debug, Clone, PartialEq)]
pub struct ParsedAction {
    pub function: String,
    pub args: Vec<(String, String)>,
}

pub type Pairs = Seq<(Seq<char>, Seq<char>)>;

pub open spec fn pairs_view(m: Seq<(String, String)>) -> Pairs {
    m.map_values(|p: (String, String)| (p.0@, p.1@))
}

pub open spec fn opt_view(o: Option<String>) -> Option<Seq<char>> {
    match o {
        Some(s) => Some(s@),
        None => None,
    }
}

/// Position of key `k` in `m` at or after `i`, or -1.
pub open spec fn key_pos_from(m: Pairs, k: Seq<char>, i: int) -> int
    decreases m.len() - i,
{
    if i < 0 || i >= m.len() {
        -1
    } else if m[i].0 == k {
        i
    } else {
        key_pos_from(m, k, i + 1)
    }
}

pub open spec fn key_pos(m: Pairs, k: Seq<char>) -> int {
    key_pos_from(m, k, 0)
}

/// The value stored under `k`.
pub open spec fn lookup(m: Pairs, k: Seq<char>) -> Option<Seq<char>> {
    let i = key_pos(m, k);
    if 0 <= i < m.len() {
        Some(m[i].1)
    } else {
        None
    }
}

/// `m` with `k` bound to `v`: in place if `k` is there, else at the end.
pub open spec fn insert(m: Pairs, k: Seq<char>, v: Seq<char>) -> Pairs {
    let i = key_pos(m, k);
    if 0 <= i < m.len() {
        m.update(i, (k, v))
    } else {
        m.push((k, v))
    }
}

pub open spec fn is_quote(c: char) -> bool {
    c == '\'' || c == '"'
}

/// First position at or after `i` that holds `c`, or -1.
pub open spec fn next_char(s: Seq<char>, c: char, i: int) -> int
    decreases s.len() - i,
{
    if i < 0 || i >= s.len() {
        -1
    } else if s[i] == c {
        i
    } else {
        next_char(s, c, i + 1)
    }
}

pub open spec fn close_run(out: Seq<Seq<char>>, cur: Seq<char>) -> Seq<Seq<char>> {
    if cur.len() > 0 {
        out.push(cur)
    } else {
        out
    }
}

/// The argument scanner from position `i`, with run `cur` open and runs
/// `out` done. A quoted span, up to the next same quote, is atomic; a comma
/// or a quote without a partner ends the run and is dropped; empty runs are
/// dropped.
pub open spec fn scan_args(s: Seq<char>, i: int, cur: Seq<char>, out: Seq<Seq<char>>) -> Seq<
    Seq<char>,
>
    decreases s.len() - i,
{
    if i < 0 || i >= s.len() {
        close_run(out, cur)
    } else if s[i] == ',' {
        scan_args(s, i + 1, Seq::empty(), close_run(out, cur))
    } else if is_quote(s[i]) {
        let j = next_char(s, s[i], i + 1);
        if j <= i || j >= s.len() {
            scan_args(s, i + 1, Seq::empty(), close_run(out, cur))
        } else {
            scan_args(s, j + 1, cur + s.subrange(i, j + 1), out)
        }
    } else {
        scan_args(s, i + 1, cur.push(s[i]), out)
    }
}

/// The `key=value` runs of an argument list.
pub open spec fn arg_runs(s: Seq<char>) -> Seq<Seq<char>> {
    scan_args(s, 0, Seq::empty(), Seq::empty())
}

/// One pair of surrounding quotes, `'..'` or `".."`, taken off.
pub open spec fn unquote(v: Seq<char>) -> Seq<char> {
    if v.len() >= 2 && is_quote(v[0]) && v.last() == v[0] {
        v.subrange(1, v.len() - 1)
    } else {
        v
    }
}

/// Positions of the `=` signs of `p` that stand outside quoted spans,
/// scanning from `i` while quote `open` (if any) waits for its partner.
pub open spec fn eqs_from(p: Seq<char>, i: int, open: Option<char>) -> Seq<int>
    decreases p.len() - i,
{
    if i < 0 || i >= p.len() {
        Seq::empty()
    } else {
        match open {
            Some(q) => if p[i] == q {
                eqs_from(p, i + 1, None)
            } else {
                eqs_from(p, i + 1, open)
            },
            None => if is_quote(p[i]) {
                eqs_from(p, i + 1, Some(p[i]))
            } else if p[i] == '=' {
                seq![i] + eqs_from(p, i + 1, None)
            } else {
                eqs_from(p, i + 1, None)
            },
        }
    }
}

/// A run with exactly one `=` outside quotes, cut there: the trimmed key,
/// and the trimmed value without its quotes. Other runs give nothing.
pub open spec fn pair_of(p: Seq<char>) -> Option<(Seq<char>, Seq<char>)> {
    let es = eqs_from(p, 0, None);
    if es.len() == 1 && 0 <= es[0] < p.len() {
        let q = es[0];
        Some((trim(p.subrange(0, q)), unquote(trim(p.subrange(q + 1, p.len() as int)))))
    } else {
        None
    }
}

/// The parameters given by a sequence of runs; runs without `=` are skipped.
pub open spec fn pairs_of(runs: Seq<Seq<char>>) -> Pairs
    decreases runs.len(),
{
    if runs.len() == 0 {
        Seq::empty()
    } else {
        let m = pairs_of(runs.drop_last());
        match pair_of(runs.last()) {
            Some(kv) => insert(m, kv.0, kv.1),
            None => m,
        }
    }
}

/// `c` is a word character: a member of the Unicode `\w` class of regular
/// expressions.
pub uninterp spec fn is_word_char(c: char) -> bool;

/// Relies on `regex::Regex` with the pattern `^\w$`: whether the character
/// alone is a Unicode word character.
#[verifier::external_body]
fn is_word_char_exec(c: char) -> (r: bool)
    ensures
        r == is_word_char(c),
{
    let mut buf = [0u8; 4];
    match regex::Regex::new(r"^\w$") {
        Ok(re) => re.is_match(c.encode_utf8(&mut buf)),
        Err(_) => false,
    }
}

/// The generic call written by `expr`: `name(args)` with `name` a non-empty
/// run of word characters, the whole (trimmed) expression ending in `)` and
/// holding no line break.
pub open spec fn call_of(expr: Seq<char>) -> Option<(Seq<char>, Pairs)> {
    let e = trim(expr);
    let k = find_from(e, seq!['('], 0);
    if 1 <= k && k + 2 <= e.len() && e.last() == ')' && (forall|i: int|
        0 <= i < e.len() ==> #[trigger] e[i] != '\n') && (forall|i: int|
        0 <= i < k ==> is_word_char(#[trigger] e[i])) {
        Some((e.subrange(0, k), pairs_of(arg_runs(trim(e.subrange(k + 1, e.len() - 1))))))
    } else {
        None
    }
}

/// No key appears twice.
pub open spec fn unique_keys(m: Pairs) -> bool {
    forall|i: int, j: int| 0 <= i < j < m.len() ==> #[trigger] m[i].0 != #[trigger] m[j].0
}

proof fn lemma_key_pos_from(m: Pairs, k: Seq<char>, i: int)
    requires
        0 <= i,
    ensures
        key_pos_from(m, k, i) == -1 ==> forall|j: int| i <= j < m.len() ==> #[trigger] m[j].0 != k,
    decreases m.len() - i,
{
    if i < m.len() && m[i].0 != k {
        lemma_key_pos_from(m, k, i + 1);
    }
}

proof fn lemma_key_pos_range(m: Pairs, k: Seq<char>, i: int)
    requires
        0 <= i,
    ensures
        key_pos_from(m, k, i) == -1 || (i <= key_pos_from(m, k, i) < m.len() && m[key_pos_from(
            m,
            k,
            i,
        )].0 == k),
    decreases m.len() - i,
{
    if i < m.len() && m[i].0 != k {
        lemma_key_pos_range(m, k, i + 1);
    }
}

/// Binding a key keeps the keys unique.
proof fn lemma_insert_unique(m: Pairs, k: Seq<char>, v: Seq<char>)
    requires
        unique_keys(m),
    ensures
        unique_keys(insert(m, k, v)),
{
    lemma_key_pos_from(m, k, 0);
    lemma_key_pos_range(m, k, 0);
    let r = insert(m, k, v);
    let p = key_pos(m, k);
    assert forall|i: int, j: int| 0 <= i < j < r.len() implies #[trigger] r[i].0 != #[trigger] r[j].0 by {
        if 0 <= p < m.len() {
            assert(m[p].0 == k);
        }
    }
}

/// The parameters of a sequence of runs have unique keys.
pub proof fn lemma_pairs_of_unique(runs: Seq<Seq<char>>)
    ensures
        unique_keys(pairs_of(runs)),
    decreases runs.len(),
{
    if runs.len() > 0 {
        lemma_pairs_of_unique(runs.drop_last());
        match pair_of(runs.last()) {
            Some(kv) => lemma_insert_unique(pairs_of(runs.drop_last()), kv.0, kv.1),
            None => {},
        }
    }
}

/// Trimming values keeps the keys as they are.
pub proof fn lemma_trim_values_unique(m: Pairs)
    requires
        unique_keys(m),
    ensures
        unique_keys(trim_values(m)),
{
    let t = trim_values(m);
    assert forall|i: int, j: int| 0 <= i < j < t.len() implies #[trigger] t[i].0 != #[trigger] t[j].0 by {
        assert(t[i].0 == m[i].0 && t[j].0 == m[j].0);
    }
}

/// Text from `from` up to the first `stop` after it, or to the end.
pub open spec fn upto(t: Seq<char>, from: int, stop: Seq<char>) -> Seq<char> {
    let k = find_from(t, stop, from);
    if k < 0 {
        t.subrange(from, t.len() as int)
    } else {
        t.subrange(from, k)
    }
}

/// Reflection and thought of an answer in the marked layout.
pub open spec fn marked_reasoning(t: Seq<char>) -> (Option<Seq<char>>, Seq<char>) {
    if starts_with(t, "Thought:"@) {
        (None, trim(upto(t, "Thought:"@.len() as int, "Action:"@)))
    } else if starts_with(t, "Reflection:"@) {
        let k = find_from(t, "Action_Summary:"@, "Reflection:"@.len() as int);
        if k < 0 {
            (None, Seq::empty())
        } else {
            (
                Some(trim(t.subrange("Reflection:"@.len() as int, k))),
                trim(upto(t, k + "Action_Summary:"@.len(), "Action:"@)),
            )
        }
    } else if starts_with(t, "Action_Summary:"@) {
        (None, trim(upto(t, "Action_Summary:"@.len() as int, "Action:"@)))
    } else {
        (None, Seq::empty())
    }
}

/// Everything after the last `Action:`; empty where there is none.
pub open spec fn marked_segment(t: Seq<char>) -> Seq<char> {
    let k = rfind_to(t, "Action:"@, t.len() - "Action:"@.len());
    if k < 0 {
        Seq::empty()
    } else {
        t.subrange(k + "Action:"@.len(), t.len() as int)
    }
}

/// The trimmed text between the first `open` and the first `close` after
/// it; empty where either is missing.
pub open spec fn span(t: Seq<char>, open: Seq<char>, close: Seq<char>) -> Seq<char> {
    let a = find_from(t, open, 0);
    let b = find_from(t, close, a + open.len());
    if a < 0 || b < 0 {
        Seq::empty()
    } else {
        trim(t.subrange(a + open.len(), b))
    }
}

pub open spec fn tagged_thought(t: Seq<char>) -> Seq<char> {
    span(t, "<Thought>"@, "</Thought>"@) + "\n<Action_Summary>\n"@ + span(
        t,
        "Action_Summary:"@,
        "Action:"@,
    )
}

pub open spec fn tagged_segment(t: Seq<char>) -> Seq<char> {
    span(t, "Action:"@, "</Output>"@)
}

/// Reflection and thought of a (trimmed) answer.
pub open spec fn reasoning(d: Dialect, t: Seq<char>) -> (Option<Seq<char>>, Seq<char>) {
    match d {
        Dialect::Marked => marked_reasoning(t),
        Dialect::Tagged => (None, tagged_thought(t)),
    }
}

/// The text that holds the actions of a (trimmed) answer.
pub open spec fn action_segment(d: Dialect, t: Seq<char>) -> Seq<char> {
    match d {
        Dialect::Marked => marked_segment(t),
        Dialect::Tagged => tagged_segment(t),
    }
}

/// The action expressions of a segment: its blank-line separated pieces,
/// line breaks escaped, leading spaces dropped.
pub open spec fn action_exprs(seg: Seq<char>) -> Seq<Seq<char>> {
    split(seg, seq!['\n', '\n']).map_values(|p: Seq<char>| trim_start(escape_newlines(p)))
}

pub open spec fn trim_values(m: Pairs) -> Pairs {
    m.map_values(|p: (Seq<char>, Seq<char>)| (p.0, trim(p.1)))
}

/// `p` is the prediction for expression `expr` of an answer with the given
/// reasoning: the call's name and trimmed parameters, or an empty call where
/// `expr` is no call.
pub open spec fn prediction_of(
    p: PredictionParsed,
    reflection: Option<Seq<char>>,
    thought: Seq<char>,
    expr: Seq<char>,
) -> bool {
    &&& opt_view(p.reflection) == reflection
    &&& p.thought@ == thought
    &&& match call_of(expr) {
        Some(c) => p.action_type@ == c.0 && pairs_view(p.action_inputs@) == trim_values(c.1),
        None => p.action_type@.len() == 0 && p.action_inputs@.len() == 0,
    }
}

/// First position at or after `from` that holds `c`, if any.
fn find_char(v: &Vec<char>, c: char, from: usize) -> (r: Option<usize>)
    requires
        from <= v@.len(),
    ensures
        match r {
            Some(j) => j as int == next_char(v@, c, from as int) && from <= j < v@.len(),
            None => next_char(v@, c, from as int) == -1,
        },
{
    let mut i: usize = from;
    while i < v.len()
        invariant
            from <= i <= v@.len(),
            next_char(v@, c, i as int) == next_char(v@, c, from as int),
        decreases v.len() - i,
    {
        if v[i] == c {
            return Some(i);
        }
        i += 1;
    }
    None
}

/// Appends the characters of `v` from `from` up to `to` to `cur`.
fn append_range(cur: &mut Vec<char>, v: &Vec<char>, from: usize, to: usize)
    requires
        from <= to <= v@.len(),
    ensures
        final(cur)@ == old(cur)@ + v@.subrange(from as int, to as int),
{
    let mut k: usize = from;
    while k < to
        invariant
            from <= k <= to <= v@.len(),
            cur@ == old(cur)@ + v@.subrange(from as int, k as int),
        decreases to - k,
    {
        cur.push(v[k]);
        k += 1;
        proof {
            assert(cur@ =~= old(cur)@ + v@.subrange(from as int, k as int));
        }
    }
}

/// Cuts an argument list into its `key=value` runs, keeping quoted spans whole.
pub fn split_args(a: &Vec<char>) -> (r: Vec<Vec<char>>)
    ensures
        views(r@) == arg_runs(a@),
{
    let mut out: Vec<Vec<char>> = Vec::new();
    let mut cur: Vec<char> = Vec::new();
    let mut i: usize = 0;
    proof {
        assert(views(out@) =~= Seq::<Seq<char>>::empty());
    }
    while i < a.len()
        invariant
            i <= a@.len(),
            scan_args(a@, i as int, cur@, views(out@)) == arg_runs(a@),
        decreases a.len() - i,
    {
        let c = a[i];
        if c == ',' || ((c == '\'' || c == '"') && find_char(a, c, i + 1).is_none()) {
            proof {
                if cur@.len() > 0 {
                    assert(views(out@.push(cur)) =~= views(out@).push(cur@));
                }
            }
            if cur.len() > 0 {
                out.push(cur);
            }
            cur = Vec::new();
            i += 1;
        } else if c == '\'' || c == '"' {
            let j = find_char(a, c, i + 1).unwrap();
            append_range(&mut cur, a, i, j + 1);
            i = j + 1;
        } else {
            cur.push(c);
            i += 1;
        }
    }
    proof {
        if cur@.len() > 0 {
            assert(views(out@.push(cur)) =~= views(out@).push(cur@));
        }
    }
    if cur.len() > 0 {
        out.push(cur);
    }
    out
}

fn unquote_chars(v: Vec<char>) -> (r: Vec<char>)
    ensures
        r@ == unquote(v@),
{
    let n = v.len();
    if n >= 2 && (v[0] == '\'' || v[0] == '"') && v[n - 1] == v[0] {
        slice(&v, 1, n - 1)
    } else {
        v
    }
}

/// Cuts a run at its first `=` into a trimmed key and a trimmed, unquoted value.
fn pair_of_chars(p: &Vec<char>) -> (r: Option<(Vec<char>, Vec<char>)>)
    ensures
        match pair_of(p@) {
            Some(kv) => r matches Some(x) && x.0@ == kv.0 && x.1@ == kv.1,
            None => r is None,
        },
{
    let n = p.len();
    let mut open: Option<char> = None;
    let mut count: usize = 0;
    let mut first: usize = 0;
    let ghost mut seen: Seq<int> = Seq::empty();
    let mut i: usize = 0;
    while i < n
        invariant
            n == p@.len(),
            i <= n,
            seen + eqs_from(p@, i as int, open) == eqs_from(p@, 0, None),
            count as int == seen.len(),
            count <= i,
            seen.len() > 0 ==> first as int == seen[0],
            forall|j: int| 0 <= j < seen.len() ==> 0 <= #[trigger] seen[j] < i,
        decreases n - i,
    {
        let c = p[i];
        match open {
            Some(q) => {
                if c == q {
                    open = None;
                }
            },
            None => {
                if c == '\'' || c == '"' {
                    open = Some(c);
                } else if c == '=' {
                    proof {
                        assert(seen.push(i as int) + eqs_from(p@, i + 1, None) =~= seen + (seq![
                            i as int,
                        ] + eqs_from(p@, i + 1, None)));
                        seen = seen.push(i as int);
                    }
                    if count == 0 {
                        first = i;
                    }
                    count += 1;
                }
            },
        }
        i += 1;
    }
    proof {
        assert(seen =~= eqs_from(p@, 0, None));
    }
    if count == 1 {
        let key = trim_chars(&slice(p, 0, first));
        let value = unquote_chars(trim_chars(&slice(p, first + 1, n)));
        Some((key, value))
    } else {
        None
    }
}

/// Binds `k` to `v` in the ordered map `m`.
pub fn insert_pair(m: &mut Vec<(String, String)>, k: String, v: String)
    ensures
        pairs_view(final(m)@) == insert(pairs_view(old(m)@), k@, v@),
{
    let ghost pv = pairs_view(m@);
    let mut i: usize = 0;
    while i < m.len()
        invariant
            m@ == old(m)@,
            pv == pairs_view(m@),
            i <= m@.len(),
            key_pos_from(pv, k@, i as int) == key_pos(pv, k@),
        decreases m.len() - i,
    {
        if m[i].0 == k {
            m.set(i, (k, v));
            proof {
                assert(pairs_view(m@) =~= pv.update(i as int, (k@, v@)));
            }
            return;
        }
        i += 1;
    }
    m.push((k, v));
    proof {
        assert(pairs_view(m@) =~= pv.push((k@, v@)));
    }
}

/// The parameters given by a sequence of runs.
fn pairs_from_runs(runs: &Vec<Vec<char>>) -> (r: Vec<(String, String)>)
    ensures
        pairs_view(r@) == pairs_of(views(runs@)),
{
    let mut m: Vec<(String, String)> = Vec::new();
    let mut i: usize = 0;
    while i < runs.len()
        invariant
            i <= runs@.len(),
            pairs_view(m@) == pairs_of(views(runs@).subrange(0, i as int)),
        decreases runs.len() - i,
    {
        proof {
            let rs = views(runs@).subrange(0, i + 1);
            assert(rs.drop_last() =~= views(runs@).subrange(0, i as int));
            assert(rs.last() == runs@[i as int]@);
        }
        match pair_of_chars(&runs[i]) {
            Some(kv) => {
                insert_pair(&mut m, to_text(kv.0.as_slice()), to_text(kv.1.as_slice()));
            },
            None => {},
        }
        i += 1;
    }
    proof {
        assert(views(runs@).subrange(0, runs@.len() as int) =~= views(runs@));
    }
    m
}

/// Reads `name(args)` from an expression given as characters.
pub fn parse_call(expr: &Vec<char>) -> (r: Option<ParsedAction>)
    ensures
        match call_of(expr@) {
            Some(c) => r matches Some(p) && p.function@ == c.0 && pairs_view(p.args@) == c.1,
            None => r is None,
        },
        r matches Some(p) ==> unique_keys(pairs_view(p.args@)),
{
    let e = trim_chars(expr);
    let open: Vec<char> = vec!['('];
    proof {
        assert(open@ =~= seq!['(']);
    }
    let k = match find_chars(&e, &open, 0) {
        Some(k) => k,
        None => return None,
    };
    if k < 1 || e.len() - k < 2 || e[e.len() - 1] != ')' {
        return None;
    }
    let mut j: usize = 0;
    while j < e.len()
        invariant
            j <= e@.len(),
            e@ == trim(expr@),
            forall|t: int| 0 <= t < j ==> #[trigger] e@[t] != '\n',
        decreases e.len() - j,
    {
        if e[j] == '\n' {
            assert(e@[j as int] == '\n');
            return None;
        }
        j += 1;
    }
    let mut i: usize = 0;
    while i < k
        invariant
            i <= k < e@.len(),
            e@ == trim(expr@),
            k as int == find_from(e@, seq!['('], 0),
            forall|t: int| 0 <= t < e@.len() ==> #[trigger] e@[t] != '\n',
            forall|t: int| 0 <= t < i ==> is_word_char(#[trigger] e@[t]),
        decreases k - i,
    {
        if !is_word_char_exec(e[i]) {
            assert(!is_word_char(e@[i as int]));
            return None;
        }
        i += 1;
    }
    let args = trim_chars(&slice(&e, k + 1, e.len() - 1));
    let runs = split_args(&args);
    proof {
        lemma_pairs_of_unique(views(runs@));
    }
    Some(ParsedAction { function: to_text(slice(&e, 0, k).as_slice()), args: pairs_from_runs(&runs) })
}

/// Reads a generic call `name(key=value, ...)`; `None` where the text has
/// another shape.
pub fn parse_action(action_str: &str) -> (r: Option<ParsedAction>)
    ensures
        match call_of(action_str@) {
            Some(c) => r matches Some(p) && p.function@ == c.0 && pairs_view(p.args@) == c.1,
            None => r is None,
        },
        r matches Some(p) ==> unique_keys(pairs_view(p.args@)),
{
    parse_call(&to_chars(action_str))
}

pub open spec fn opt_chars(o: Option<Vec<char>>) -> Option<Seq<char>> {
    match o {
        Some(v) => Some(v@),
        None => None,
    }
}

fn upto_chars(t: &Vec<char>, from: usize, stop: &Vec<char>) -> (r: Vec<char>)
    requires
        from <= t@.len(),
    ensures
        r@ == upto(t@, from as int, stop@),
{
    match find_chars(t, stop, from) {
        Some(k) => slice(t, from, k),
        None => slice(t, from, t.len()),
    }
}

/// Reflection and thought of a trimmed answer in the marked layout.
fn marked_reasoning_chars(t: &Vec<char>) -> (r: (Option<Vec<char>>, Vec<char>))
    ensures
        opt_chars(r.0) == marked_reasoning(t@).0,
        r.1@ == marked_reasoning(t@).1,
{
    let thought = to_chars("Thought:");
    let reflection = to_chars("Reflection:");
    let summary = to_chars("Action_Summary:");
    let action = to_chars("Action:");
    if starts_with_chars(t, &thought) {
        (None, trim_chars(&upto_chars(t, thought.len(), &action)))
    } else if starts_with_chars(t, &reflection) {
        match find_chars(t, &summary, reflection.len()) {
            Some(k) => {
                let n = t.len();
                assert(k + summary@.len() <= n);
                let r = trim_chars(&slice(t, reflection.len(), k));
                (Some(r), trim_chars(&upto_chars(t, k + summary.len(), &action)))
            },
            None => (None, Vec::new()),
        }
    } else if starts_with_chars(t, &summary) {
        (None, trim_chars(&upto_chars(t, summary.len(), &action)))
    } else {
        (None, Vec::new())
    }
}

fn marked_segment_chars(t: &Vec<char>) -> (r: Vec<char>)
    ensures
        r@ == marked_segment(t@),
{
    let action = to_chars("Action:");
    match rfind_chars(t, &action) {
        Some(k) => {
            let n = t.len();
            slice(t, k + action.len(), n)
        },
        None => Vec::new(),
    }
}

fn span_chars(t: &Vec<char>, open: &Vec<char>, close: &Vec<char>) -> (r: Vec<char>)
    ensures
        r@ == span(t@, open@, close@),
{
    match find_chars(t, open, 0) {
        Some(a) => {
            let n = t.len();
            let from = a + open.len();
            match find_chars(t, close, from) {
                Some(b) => trim_chars(&slice(t, from, b)),
                None => Vec::new(),
            }
        },
        None => Vec::new(),
    }
}

fn tagged_thought_chars(t: &Vec<char>) -> (r: Vec<char>)
    ensures
        r@ == tagged_thought(t@),
{
    let mut r = span_chars(t, &to_chars("<Thought>"), &to_chars("</Thought>"));
    let mut mid = to_chars("\n<Action_Summary>\n");
    let mut summary = span_chars(t, &to_chars("Action_Summary:"), &to_chars("Action:"));
    r.append(&mut mid);
    r.append(&mut summary);
    r
}

/// The parameters with each value trimmed.
fn trimmed_values(args: &Vec<(String, String)>) -> (r: Vec<(String, String)>)
    ensures
        pairs_view(r@) == trim_values(pairs_view(args@)),
{
    let mut out: Vec<(String, String)> = Vec::new();
    let mut i: usize = 0;
    while i < args.len()
        invariant
            i <= args@.len(),
            pairs_view(out@) == trim_values(pairs_view(args@)).subrange(0, i as int),
        decreases args.len() - i,
    {
        let value = to_text(trim_chars(&to_chars(args[i].1.as_str())).as_slice());
        let key = args[i].0.clone();
        assert(key@ == pairs_view(args@)[i as int].0);
        assert(value@ == trim(pairs_view(args@)[i as int].1));
        let ghost before = out@;
        out.push((key, value));
        proof {
            let tv = trim_values(pairs_view(args@));
            assert(pairs_view(out@) =~= pairs_view(before).push((key@, value@)));
            assert(tv.subrange(0, i + 1) =~= tv.subrange(0, i as int).push(tv[i as int]));
        }
        i += 1;
    }
    proof {
        assert(trim_values(pairs_view(args@)).subrange(0, i as int) =~= trim_values(
            pairs_view(args@),
        ));
    }
    out
}

/// `r` is the parse of answer `text`: one prediction per action expression
/// of its segment, each with the answer's reasoning.
pub open spec fn parsed(text: Seq<char>, dialect: Dialect, r: Seq<PredictionParsed>) -> bool {
    let t = trim(text);
    let exprs = action_exprs(action_segment(dialect, t));
    &&& r.len() == exprs.len()
    &&& forall|i: int|
        0 <= i < r.len() ==> prediction_of(
            #[trigger] r[i],
            reasoning(dialect, t).0,
            reasoning(dialect, t).1,
            exprs[i],
        )
}

/// All predictions parsed from one answer carry the same reflection and the
/// same thought.
pub proof fn lemma_predictions_share_reasoning(
    text: Seq<char>,
    dialect: Dialect,
    r: Seq<PredictionParsed>,
    i: int,
    j: int,
)
    requires
        parsed(text, dialect, r),
        0 <= i < r.len(),
        0 <= j < r.len(),
    ensures
        r[i].thought@ == r[j].thought@,
        opt_view(r[i].reflection) == opt_view(r[j].reflection),
{
    assert(prediction_of(r[i], reasoning(dialect, trim(text)).0, reasoning(dialect, trim(text)).1, action_exprs(action_segment(dialect, trim(text)))[i]));
    assert(prediction_of(r[j], reasoning(dialect, trim(text)).0, reasoning(dialect, trim(text)).1, action_exprs(action_segment(dialect, trim(text)))[j]));
}

/// Two action expressions without line breaks, separated by a blank line,
/// give two predictions, and both carry the same reflection and thought.
pub proof fn lemma_blank_line_gives_two_predictions(
    text: Seq<char>,
    dialect: Dialect,
    r: Seq<PredictionParsed>,
    e1: Seq<char>,
    e2: Seq<char>,
)
    requires
        parsed(text, dialect, r),
        action_segment(dialect, trim(text)) == e1 + seq!['\n', '\n'] + e2,
        forall|i: int| 0 <= i < e1.len() ==> #[trigger] e1[i] != '\n',
        forall|i: int| 0 <= i < e2.len() ==> #[trigger] e2[i] != '\n',
    ensures
        r.len() == 2,
        r[0].thought@ == r[1].thought@,
        opt_view(r[0].reflection) == opt_view(r[1].reflection),
{
    let sep = seq!['\n', '\n'];
    let s = e1 + sep + e2;
    let k = e1.len() as int;
    assert forall|j: int| 0 <= j < k implies !occurs_at(s, sep, j) by {
        if occurs_at(s, sep, j) {
            assert(s.subrange(j, j + 2)[0] == s[j]);
            assert(s[j] == e1[j]);
        }
    }
    assert(s.subrange(k, k + 2) =~= sep);
    assert forall|j: int| k + 2 <= j implies !occurs_at(s, sep, j) by {
        if occurs_at(s, sep, j) {
            assert(s.subrange(j, j + 2)[0] == s[j]);
            assert(s[j] == e2[j - k - 2]);
        }
    }
    lemma_split_first(s, sep, 0, 0, k);
    lemma_split_no_more(s, sep, k + 2, k + 2);
    assert(split(s, sep).len() == 2);
    lemma_predictions_share_reasoning(text, dialect, r, 0, 1);
}

fn clone_opt(o: &Option<String>) -> (r: Option<String>)
    ensures
        r == *o,
{
    match o {
        Some(s) => Some(s.clone()),
        None => None,
    }
}

/// Parses a model's answer: one prediction per action expression, each with
/// the reflection and thought of the whole answer. An expression that is no
/// call gives a prediction with an empty name and no parameters. Box
/// parameters keep their text as written (trimmed); scaling them is left to
/// the caller.
pub fn parse_predictions(text: &str, dialect: Dialect) -> (r: Vec<PredictionParsed>)
    ensures
        parsed(text@, dialect, r@),
        forall|i: int| 0 <= i < r@.len() ==> unique_keys(pairs_view(#[trigger] r@[i].action_inputs@)),
{
    let t = trim_chars(&to_chars(text));
    let ghost tv = t@;
    let (reflection, thought, segment) = match dialect {
        Dialect::Marked => {
            let (a, b) = marked_reasoning_chars(&t);
            (a, b, marked_segment_chars(&t))
        },
        Dialect::Tagged => (
            None,
            tagged_thought_chars(&t),
            span_chars(&t, &to_chars("Action:"), &to_chars("</Output>")),
        ),
    };
    let reflection: Option<String> = match reflection {
        Some(v) => Some(to_text(v.as_slice())),
        None => None,
    };
    let thought = to_text(thought.as_slice());
    let sep: Vec<char> = vec!['\n', '\n'];
    proof {
        assert(sep@ =~= seq!['\n', '\n']);
    }
    let pieces = split_chars(&segment, &sep);
    let ghost exprs = action_exprs(action_segment(dialect, tv));
    let mut out: Vec<PredictionParsed> = Vec::new();
    let mut i: usize = 0;
    while i < pieces.len()
        invariant
            i <= pieces@.len(),
            exprs.len() == pieces@.len(),
            forall|j: int|
                0 <= j < exprs.len() ==> #[trigger] exprs[j] == trim_start(
                    escape_newlines(pieces@[j]@),
                ),
            opt_view(reflection) == reasoning(dialect, tv).0,
            thought@ == reasoning(dialect, tv).1,
            out@.len() == i,
            forall|j: int|
                0 <= j < i ==> prediction_of(
                    #[trigger] out@[j],
                    reasoning(dialect, tv).0,
                    reasoning(dialect, tv).1,
                    exprs[j],
                ),
            forall|j: int| 0 <= j < i ==> unique_keys(pairs_view(#[trigger] out@[j].action_inputs@)),
        decreases pieces.len() - i,
    {
        let expr = trim_start_chars(&escape_newlines_chars(&pieces[i]));
        assert(expr@ == exprs[i as int]);
        let p = match parse_call(&expr) {
            Some(call) => {
                proof {
                    lemma_trim_values_unique(pairs_view(call.args@));
                }
                PredictionParsed {
                reflection: clone_opt(&reflection),
                thought: thought.clone(),
                action_type: call.function,
                action_inputs: trimmed_values(&call.args),
            }
            },
            None => PredictionParsed {
                reflection: clone_opt(&reflection),
                thought: thought.clone(),
                action_type: String::new(),
                action_inputs: Vec::new(),
            },
        };
        out.push(p);
        i += 1;
    }
    out
}

pub open spec fn contains(s: Seq<char>, pat: Seq<char>) -> bool {
    find_from(s, pat, 0) >= 0
}

/// A parameter whose value is a box: its name holds `start_box` or `end_box`.
pub open spec fn is_box_param(name: Seq<char>) -> bool {
    contains(name, "start_box"@) || contains(name, "end_box"@)
}

/// Tells whether parameter `name` holds a box.
pub fn is_box_param_name(name: &str) -> (r: bool)
    ensures
        r == is_box_param(name@),
{
    let n = to_chars(name);
    find_chars(&n, &to_chars("start_box"), 0).is_some() || find_chars(&n, &to_chars("end_box"), 0).is_some()
}

pub open spec fn is_bracket(c: char) -> bool {
    c == '(' || c == ')' || c == '[' || c == ']'
}

pub open spec fn skip_brackets(s: Seq<char>, i: int) -> int
    decreases s.len() - i,
{
    if 0 <= i < s.len() && is_bracket(s[i]) {
        skip_brackets(s, i + 1)
    } else {
        i
    }
}

pub open spec fn skip_brackets_back(s: Seq<char>, j: int) -> int
    decreases j,
{
    if 0 < j <= s.len() && is_bracket(s[j - 1]) {
        skip_brackets_back(s, j - 1)
    } else {
        j
    }
}

/// `s` without the brackets and parentheses at either end.
pub open spec fn strip_brackets(s: Seq<char>) -> Seq<char> {
    let t = s.subrange(skip_brackets(s, 0), s.len() as int);
    t.subrange(0, skip_brackets_back(t, t.len() as int))
}

pub open spec fn string_views(v: Seq<String>) -> Seq<Seq<char>> {
    v.map_values(|s: String| s@)
}

/// The number texts of a box value as written by the model, `(x,y)` or
/// `[x1,y1,x2,y2]`: the value without its brackets, cut at commas.
pub fn box_tokens(value: &str) -> (r: Vec<String>)
    ensures
        string_views(r@) == split(strip_brackets(value@), seq![',']),
{
    let v = to_chars(value);
    let mut i: usize = 0;
    while i < v.len() && (v[i] == '(' || v[i] == ')' || v[i] == '[' || v[i] == ']')
        invariant
            i <= v@.len(),
            skip_brackets(v@, i as int) == skip_brackets(v@, 0),
        decreases v.len() - i,
    {
        i += 1;
    }
    let t = slice(&v, i, v.len());
    let mut j: usize = t.len();
    while j > 0 && (t[j - 1] == '(' || t[j - 1] == ')' || t[j - 1] == '[' || t[j - 1] == ']')
        invariant
            j <= t@.len(),
            skip_brackets_back(t@, j as int) == skip_brackets_back(t@, t@.len() as int),
        decreases j,
    {
        j -= 1;
    }
    let inner = slice(&t, 0, j);
    let comma: Vec<char> = vec![','];
    proof {
        assert(comma@ =~= seq![',']);
    }
    let pieces = split_chars(&inner, &comma);
    let mut out: Vec<String> = Vec::new();
    let mut k: usize = 0;
    while k < pieces.len()
        invariant
            k <= pieces@.len(),
            string_views(out@) == views(pieces@).subrange(0, k as int),
        decreases pieces.len() - k,
    {
        let piece = to_text(pieces[k].as_slice());
        let ghost before = out@;
        out.push(piece);
        proof {
            assert(string_views(out@) =~= string_views(before).push(piece@));
            assert(views(pieces@).subrange(0, k + 1) =~= views(pieces@).subrange(0, k as int).push(
                pieces@[k as int]@,
            ));
        }
        k += 1;
    }
    proof {
        assert(views(pieces@).subrange(0, k as int) =~= views(pieces@));
    }
    out
}

/// A point `[x, y]` widened to the box `[x, y, x, y]`; other lengths unchanged.
pub open spec fn expanded<T>(v: Seq<T>) -> Seq<T> {
    if v.len() == 2 {
        seq![v[0], v[1], v[0], v[1]]
    } else {
        v
    }
}

/// Widens a point to a box, so that every box has four numbers.
pub fn expand_point<T: Copy>(v: Vec<T>) -> (r: Vec<T>)
    ensures
        r@ == expanded(v@),
{
    if v.len() == 2 {
        let a = v[0];
        let b = v[1];
        let mut r: Vec<T> = Vec::new();
        r.push(a);
        r.push(b);
        r.push(a);
        r.push(b);
        proof {
            assert(r@ =~= expanded(v@));
        }
        r
    } else {
        v
    }
}

/// A widened box is widened no further: widening twice is widening once.
pub proof fn lemma_expand_idempotent<T>(v: Seq<T>)
    ensures
        expanded(expanded(v)) == expanded(v),
{
}

} // verus!
