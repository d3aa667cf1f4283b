//! Character-level text handling: the splitting, trimming and matching
//! operations that the command-output parsers are built from, each with a
//! specification over `Seq<char>`.
use vstd::prelude::*;

verus! {

/// Unicode `White_Space` (the set that `char::is_whitespace` accepts).
pub open spec fn is_ws(c: char) -> bool {
    ||| c == '\t' || c == '\n' || c == '\u{0B}' || c == '\u{0C}' || c == '\r'
    ||| c == ' ' || c == '\u{85}' || c == '\u{A0}' || c == '\u{1680}'
    ||| ('\u{2000}' <= c && c <= '\u{200A}')
    ||| c == '\u{2028}' || c == '\u{2029}' || c == '\u{202F}' || c == '\u{205F}'
    ||| c == '\u{3000}'
}

pub fn char_is_ws(c: char) -> (b: bool)
    ensures
        b == is_ws(c),
{
    c == '\t' || c == '\n' || c == '\u{0B}' || c == '\u{0C}' || c == '\r' || c == ' ' || c
        == '\u{85}' || c == '\u{A0}' || c == '\u{1680}' || ('\u{2000}' <= c && c <= '\u{200A}')
        || c == '\u{2028}' || c == '\u{2029}' || c == '\u{202F}' || c == '\u{205F}' || c
        == '\u{3000}'
}

/// What separates the pieces of a split: one given character, or any
/// whitespace character.
#[derive(Clone, Copy)]
pub enum Delim {
    Char(char),
    Whitespace,
}

pub open spec fn is_delim(d: Delim, c: char) -> bool {
    match d {
        Delim::Char(x) => c == x,
        Delim::Whitespace => is_ws(c),
    }
}

pub fn delim_matches(d: Delim, c: char) -> (b: bool)
    ensures
        b == is_delim(d, c),
{
    match d {
        Delim::Char(x) => c == x,
        Delim::Whitespace => char_is_ws(c),
    }
}

/// The pieces of `s` between delimiters, as `str::split` yields them: there
/// is always one piece more than there are delimiters, empty pieces included.
pub open spec fn split_spec(s: Seq<char>, d: Delim) -> Seq<Seq<char>>
    decreases s.len(),
{
    if s.len() == 0 {
        seq![Seq::<char>::empty()]
    } else {
        let p = split_spec(s.drop_last(), d);
        if is_delim(d, s.last()) {
            p.push(Seq::<char>::empty())
        } else {
            p.update(p.len() - 1, p.last().push(s.last()))
        }
    }
}

pub proof fn lemma_split_nonempty(s: Seq<char>, d: Delim)
    ensures
        split_spec(s, d).len() >= 1,
    decreases s.len(),
{
    if s.len() > 0 {
        lemma_split_nonempty(s.drop_last(), d);
    }
}

/// The deep view of a character vector is its view.
pub proof fn lemma_chars_dv(v: Vec<char>)
    ensures
        v.deep_view() == v@,
{
    assert(v.deep_view() =~= v@);
}

/// Pushing a character vector onto a vector of them pushes its view.
pub proof fn lemma_dv_push(before: Vec<Vec<char>>, after: Vec<Vec<char>>, x: Vec<char>)
    requires
        after@ == before@.push(x),
    ensures
        after.deep_view() == before.deep_view().push(x@),
{
    lemma_chars_dv(x);
    assert(after.deep_view() =~= before.deep_view().push(x@));
}

/// Each piece of a vector of character vectors is seen through its view.
pub proof fn lemma_dv_all(v: Vec<Vec<char>>)
    ensures
        v.deep_view().len() == v@.len(),
        forall|i: int| 0 <= i < v@.len() ==> #[trigger] v.deep_view()[i] == v@[i]@,
{
    assert forall|i: int| 0 <= i < v@.len() implies #[trigger] v.deep_view()[i] == v@[i]@ by {
        lemma_chars_dv(v@[i]);
    }
}

/// The views of a sequence of strings.
pub open spec fn strs_view(v: Seq<String>) -> Seq<Seq<char>> {
    v.map_values(|s: String| s@)
}

/// Splits `s` at every delimiter.
pub fn split_on(s: &Vec<char>, d: Delim) -> (r: Vec<Vec<char>>)
    ensures
        r.deep_view() == split_spec(s@, d),
{
    let mut done: Vec<Vec<char>> = Vec::new();
    let mut cur: Vec<char> = Vec::new();
    let mut i: usize = 0;
    while i < s.len()
        invariant
            i <= s.len(),
            done.deep_view().push(cur@) == split_spec(s@.take(i as int), d),
        decreases s.len() - i,
    {
        let c = s[i];
        proof {
            assert(s@.take(i + 1).drop_last() =~= s@.take(i as int));
            lemma_split_nonempty(s@.take(i as int), d);
        }
        let ghost before = done;
        if delim_matches(d, c) {
            let ghost old_cur = cur;
            done.push(cur);
            proof { lemma_dv_push(before, done, old_cur); }
            cur = Vec::new();
            assert(done.deep_view().push(cur@) =~= split_spec(s@.take(i + 1), d));
        } else {
            cur.push(c);
            assert(done.deep_view().push(cur@) =~= split_spec(s@.take(i + 1), d));
        }
        i += 1;
    }
    let ghost before = done;
    let ghost old_cur = cur;
    done.push(cur);
    proof { lemma_dv_push(before, done, old_cur); }
    assert(s@.take(s.len() as int) =~= s@);
    done
}

/// A line without the carriage return that ends it, if one does.
pub open spec fn strip_cr(l: Seq<char>) -> Seq<char> {
    if l.len() > 0 && l.last() == '\r' {
        l.drop_last()
    } else {
        l
    }
}

/// The lines of `s`, as `str::lines` yields them: split at `\n`, each line
/// that a `\n` ends loses a `\r` just before it, and a final empty piece
/// (after a last `\n`, or the whole of an empty text) is not a line.
pub open spec fn lines_spec(s: Seq<char>) -> Seq<Seq<char>> {
    let p = split_spec(s, Delim::Char('\n'));
    let k: int = if p.last().len() == 0 { p.len() - 1 } else { p.len() as int };
    Seq::new(k as nat, |i: int| if i + 1 < p.len() { strip_cr(p[i]) } else { p[i] })
}

/// Drops the last character of `v` if it is a carriage return.
fn strip_cr_vec(v: Vec<char>) -> (r: Vec<char>)
    ensures
        r@ == strip_cr(v@),
{
    let mut v = v;
    if v.len() > 0 && v[v.len() - 1] == '\r' {
        v.pop();
    }
    v
}

/// The lines of `s`.
pub fn lines_of(s: &Vec<char>) -> (r: Vec<Vec<char>>)
    ensures
        r.deep_view() == lines_spec(s@),
{
    let pieces = split_on(s, Delim::Char('\n'));
    let ghost p = pieces.deep_view();
    proof { lemma_split_nonempty(s@, Delim::Char('\n')); }
    let n = pieces.len();
    let k: usize = if pieces[n - 1].len() == 0 { n - 1 } else { n };
    let mut out: Vec<Vec<char>> = Vec::new();
    let mut i: usize = 0;
    while i < k
        invariant
            k <= n,
            n == pieces.len(),
            p == pieces.deep_view(),
            p == split_spec(s@, Delim::Char('\n')),
            k == (if p.last().len() == 0 { p.len() - 1 } else { p.len() as int }),
            i <= k,
            out.deep_view() =~= lines_spec(s@).take(i as int),
        decreases k - i,
    {
        let piece = pieces[i].clone();
        proof { lemma_chars_dv(pieces[i as int]); }
        let line = if i + 1 < n { strip_cr_vec(piece) } else { piece };
        let ghost before = out;
        let ghost l = line;
        out.push(line);
        proof { lemma_dv_push(before, out, l); }
        i += 1;
    }
    out
}

/// Removes the empty pieces.
pub open spec fn drop_empty(ps: Seq<Seq<char>>) -> Seq<Seq<char>>
    decreases ps.len(),
{
    if ps.len() == 0 {
        ps
    } else if ps.last().len() == 0 {
        drop_empty(ps.drop_last())
    } else {
        drop_empty(ps.drop_last()).push(ps.last())
    }
}

/// The words of `s`, as `str::split_whitespace` yields them: the non-empty
/// pieces between whitespace.
pub open spec fn words_spec(s: Seq<char>) -> Seq<Seq<char>> {
    drop_empty(split_spec(s, Delim::Whitespace))
}

/// The words of `s`.
pub fn words_of(s: &Vec<char>) -> (r: Vec<Vec<char>>)
    ensures
        r.deep_view() == words_spec(s@),
{
    let pieces = split_on(s, Delim::Whitespace);
    let ghost p = pieces.deep_view();
    let mut out: Vec<Vec<char>> = Vec::new();
    let mut i: usize = 0;
    while i < pieces.len()
        invariant
            p == pieces.deep_view(),
            p == split_spec(s@, Delim::Whitespace),
            i <= pieces.len(),
            out.deep_view() == drop_empty(p.take(i as int)),
        decreases pieces.len() - i,
    {
        assert(p.take(i + 1).drop_last() =~= p.take(i as int));
        proof { lemma_chars_dv(pieces[i as int]); }
        if pieces[i].len() > 0 {
            let w = pieces[i].clone();
            let ghost before = out;
            out.push(w);
            proof { lemma_dv_push(before, out, w); }
        }
        i += 1;
    }
    assert(p.take(pieces.len() as int) =~= p);
    out
}

/// How many characters at the start of `s` are delimiters.
pub open spec fn lead_len(s: Seq<char>, d: Delim) -> nat
    decreases s.len(),
{
    if s.len() > 0 && is_delim(d, s[0]) {
        1 + lead_len(s.drop_first(), d)
    } else {
        0
    }
}

/// How many characters at the end of `s` are delimiters.
pub open spec fn trail_len(s: Seq<char>, d: Delim) -> nat
    decreases s.len(),
{
    if s.len() > 0 && is_delim(d, s.last()) {
        1 + trail_len(s.drop_last(), d)
    } else {
        0
    }
}

pub proof fn lemma_lead_len(s: Seq<char>, d: Delim, k: int)
    requires
        0 <= k <= s.len(),
        forall|j: int| 0 <= j < k ==> is_delim(d, #[trigger] s[j]),
        k == s.len() || !is_delim(d, s[k]),
    ensures
        lead_len(s, d) == k,
    decreases k,
{
    if k > 0 {
        let t = s.drop_first();
        assert forall|j: int| 0 <= j < k - 1 implies is_delim(d, #[trigger] t[j]) by {
            assert(t[j] == s[j + 1]);
        }
        lemma_lead_len(t, d, k - 1);
    }
}

pub proof fn lemma_trail_len(s: Seq<char>, d: Delim, k: int)
    requires
        0 <= k <= s.len(),
        forall|j: int| s.len() - k <= j < s.len() ==> is_delim(d, #[trigger] s[j]),
        k == s.len() || !is_delim(d, s[s.len() - 1 - k]),
    ensures
        trail_len(s, d) == k,
    decreases k,
{
    if k > 0 {
        let t = s.drop_last();
        assert forall|j: int| t.len() - (k - 1) <= j < t.len() implies is_delim(
            d,
            #[trigger] t[j],
        ) by {
            assert(t[j] == s[j]);
        }
        lemma_trail_len(t, d, k - 1);
    }
}

pub proof fn lemma_lead_len_bound(s: Seq<char>, d: Delim)
    ensures
        lead_len(s, d) <= s.len(),
    decreases s.len(),
{
    if s.len() > 0 && is_delim(d, s[0]) {
        lemma_lead_len_bound(s.drop_first(), d);
    }
}

pub proof fn lemma_trail_len_bound(s: Seq<char>, d: Delim)
    ensures
        trail_len(s, d) <= s.len(),
    decreases s.len(),
{
    if s.len() > 0 && is_delim(d, s.last()) {
        lemma_trail_len_bound(s.drop_last(), d);
    }
}

/// `s` without its leading delimiters (`trim_start` for whitespace,
/// `trim_start_matches` for a character).
pub open spec fn trim_start_spec(s: Seq<char>, d: Delim) -> Seq<char> {
    s.skip(lead_len(s, d) as int)
}

/// `s` without its trailing delimiters.
pub open spec fn trim_end_spec(s: Seq<char>, d: Delim) -> Seq<char> {
    s.take(s.len() - trail_len(s, d))
}

/// `s` without leading and trailing delimiters (`trim`, `trim_matches`).
pub open spec fn trim_spec(s: Seq<char>, d: Delim) -> Seq<char> {
    trim_end_spec(trim_start_spec(s, d), d)
}

/// A copy of `s[lo..hi]`.
pub fn slice_of(s: &Vec<char>, lo: usize, hi: usize) -> (r: Vec<char>)
    requires
        lo <= hi <= s.len(),
    ensures
        r@ == s@.subrange(lo as int, hi as int),
{
    let mut r: Vec<char> = Vec::new();
    let mut i = lo;
    while i < hi
        invariant
            lo <= i <= hi <= s.len(),
            r@ == s@.subrange(lo as int, i as int),
        decreases hi - i,
    {
        r.push(s[i]);
        assert(r@ =~= s@.subrange(lo as int, i + 1));
        i += 1;
    }
    r
}

/// `s` without its leading delimiters.
pub fn trim_start_of(s: &Vec<char>, d: Delim) -> (r: Vec<char>)
    ensures
        r@ == trim_start_spec(s@, d),
{
    let mut i: usize = 0;
    while i < s.len() && delim_matches(d, s[i])
        invariant
            i <= s.len(),
            forall|j: int| 0 <= j < i ==> is_delim(d, #[trigger] s@[j]),
        decreases s.len() - i,
    {
        i += 1;
    }
    proof { lemma_lead_len(s@, d, i as int); }
    let r = slice_of(s, i, s.len());
    assert(r@ =~= trim_start_spec(s@, d));
    r
}

/// `s` without its trailing delimiters.
pub fn trim_end_of(s: &Vec<char>, d: Delim) -> (r: Vec<char>)
    ensures
        r@ == trim_end_spec(s@, d),
{
    let mut k: usize = 0;
    while k < s.len() && delim_matches(d, s[s.len() - 1 - k])
        invariant
            k <= s.len(),
            forall|j: int| s.len() - k <= j < s.len() ==> is_delim(d, #[trigger] s@[j]),
        decreases s.len() - k,
    {
        k += 1;
    }
    proof { lemma_trail_len(s@, d, k as int); }
    let r = slice_of(s, 0, s.len() - k);
    assert(r@ =~= trim_end_spec(s@, d));
    r
}

/// `s` without leading and trailing delimiters.
pub fn trim_of(s: &Vec<char>, d: Delim) -> (r: Vec<char>)
    ensures
        r@ == trim_spec(s@, d),
{
    let t = trim_start_of(s, d);
    trim_end_of(&t, d)
}

/// `p` occurs in `s` at position `i`.
pub open spec fn matches_at(s: Seq<char>, p: Seq<char>, i: int) -> bool {
    0 <= i && i + p.len() <= s.len() && s.subrange(i, i + p.len()) == p
}

/// `s` begins with `p`.
pub open spec fn starts_with_spec(s: Seq<char>, p: Seq<char>) -> bool {
    matches_at(s, p, 0)
}

/// Whether `p` occurs in `s` at position `i`.
pub fn matches_at_exec(s: &Vec<char>, p: &Vec<char>, i: usize) -> (b: bool)
    ensures
        b == matches_at(s@, p@, i as int),
{
    if i > s.len() || p.len() > s.len() - i {
        return false;
    }
    let mut j: usize = 0;
    while j < p.len()
        invariant
            i + p.len() <= s.len(),
            j <= p.len(),
            forall|k: int| 0 <= k < j ==> s@[i + k] == p@[k],
        decreases p.len() - j,
    {
        if s[i + j] != p[j] {
            assert(s@.subrange(i as int, i + p.len())[j as int] != p@[j as int]);
            return false;
        }
        j += 1;
    }
    assert(s@.subrange(i as int, i + p.len()) =~= p@);
    true
}

/// Whether `s` begins with `p`.
pub fn starts_with(s: &Vec<char>, p: &Vec<char>) -> (b: bool)
    ensures
        b == starts_with_spec(s@, p@),
{
    matches_at_exec(s, p, 0)
}

/// The first position at or after `i` where `p` occurs in `s`.
pub open spec fn find_from(s: Seq<char>, p: Seq<char>, i: int) -> Option<int>
    decreases s.len() + 1 - i,
{
    if i < 0 || i + p.len() > s.len() {
        None
    } else if matches_at(s, p, i) {
        Some(i)
    } else {
        find_from(s, p, i + 1)
    }
}

/// The first position where `p` occurs in `s` (`str::find`).
pub open spec fn find_spec(s: Seq<char>, p: Seq<char>) -> Option<int> {
    find_from(s, p, 0)
}

/// `p` occurs in `s` (`str::contains`).
pub open spec fn contains_spec(s: Seq<char>, p: Seq<char>) -> bool {
    find_spec(s, p) is Some
}

/// The first position where `p` occurs in `s`.
pub fn find_sub(s: &Vec<char>, p: &Vec<char>) -> (r: Option<usize>)
    ensures
        r matches Some(i) ==> find_spec(s@, p@) == Some(i as int),
        r is None ==> find_spec(s@, p@) is None,
{
    if p.len() > s.len() {
        return None;
    }
    let mut i: usize = 0;
    while i <= s.len() - p.len()
        invariant
            p.len() <= s.len(),
            i <= s.len() - p.len() + 1,
            find_spec(s@, p@) == find_from(s@, p@, i as int),
        decreases s.len() + 1 - i,
    {
        if matches_at_exec(s, p, i) {
            return Some(i);
        }
        if i == s.len() - p.len() {
            assert(find_from(s@, p@, i + 1) is None);
            return None;
        }
        i += 1;
    }
    None
}

/// Whether `p` occurs in `s`.
pub fn contains(s: &Vec<char>, p: &Vec<char>) -> (b: bool)
    ensures
        b == contains_spec(s@, p@),
{
    find_sub(s, p).is_some()
}

/// The position of the first delimiter in `s`, from position `i` on.
pub open spec fn first_delim_from(s: Seq<char>, d: Delim, i: int) -> Option<int>
    decreases s.len() - i,
{
    if i < 0 || i >= s.len() {
        None
    } else if is_delim(d, s[i]) {
        Some(i)
    } else {
        first_delim_from(s, d, i + 1)
    }
}

/// The position of the first delimiter in `s`.
pub open spec fn first_delim(s: Seq<char>, d: Delim) -> Option<int> {
    first_delim_from(s, d, 0)
}

pub proof fn lemma_first_delim_from(s: Seq<char>, d: Delim, i: int)
    requires
        0 <= i,
    ensures
        first_delim_from(s, d, i) matches Some(k) ==> i <= k < s.len() && is_delim(d, s[k])
            && forall|j: int| i <= j < k ==> !is_delim(d, #[trigger] s[j]),
        first_delim_from(s, d, i) is None ==> forall|j: int|
            i <= j < s.len() ==> !is_delim(d, #[trigger] s[j]),
    decreases s.len() - i,
{
    if i < s.len() && !is_delim(d, s[i]) {
        lemma_first_delim_from(s, d, i + 1);
    }
}

/// The position of the first delimiter in `s`.
pub fn first_delim_exec(s: &Vec<char>, d: Delim) -> (r: Option<usize>)
    ensures
        r matches Some(i) ==> first_delim(s@, d) == Some(i as int),
        r is None ==> first_delim(s@, d) is None,
{
    let mut i: usize = 0;
    while i < s.len()
        invariant
            i <= s.len(),
            first_delim(s@, d) == first_delim_from(s@, d, i as int),
        decreases s.len() - i,
    {
        if delim_matches(d, s[i]) {
            return Some(i);
        }
        i += 1;
    }
    None
}

/// The text before the first delimiter, or all of `s` (the first piece of a
/// split).
pub open spec fn before_first(s: Seq<char>, d: Delim) -> Seq<char> {
    match first_delim(s, d) {
        Some(i) => s.take(i),
        None => s,
    }
}

/// The text after the first delimiter, if there is one.
pub open spec fn after_first(s: Seq<char>, d: Delim) -> Option<Seq<char>> {
    match first_delim(s, d) {
        Some(i) => Some(s.skip(i + 1)),
        None => None,
    }
}

pub fn before_first_exec(s: &Vec<char>, d: Delim) -> (r: Vec<char>)
    ensures
        r@ == before_first(s@, d),
{
    match first_delim_exec(s, d) {
        Some(i) => {
            proof { lemma_first_delim_from(s@, d, 0); }
            slice_of(s, 0, i)
        },
        None => s.clone(),
    }
}

pub fn after_first_exec(s: &Vec<char>, d: Delim) -> (r: Option<Vec<char>>)
    ensures
        r.deep_view() == after_first(s@, d),
{
    match first_delim_exec(s, d) {
        Some(i) => {
            proof { lemma_first_delim_from(s@, d, 0); }
            assert(i < s.len());
            let t = slice_of(s, i + 1, s.len());
            proof { lemma_chars_dv(t); }
            Some(t)
        },
        None => None,
    }
}

/// The text after `n - 1` delimiters: the last piece of `splitn(n, ..)`.
pub open spec fn splitn_last(s: Seq<char>, n: nat, d: Delim) -> Seq<char>
    decreases n,
{
    if n <= 1 {
        s
    } else {
        match after_first(s, d) {
            Some(t) => splitn_last(t, (n - 1) as nat, d),
            None => s,
        }
    }
}

/// The last piece of `splitn(n, ..)`.
pub fn splitn_last_exec(s: &Vec<char>, n: usize, d: Delim) -> (r: Vec<char>)
    ensures
        r@ == splitn_last(s@, n as nat, d),
    decreases n,
{
    if n <= 1 {
        return s.clone();
    }
    match after_first_exec(s, d) {
        Some(t) => {
            proof { lemma_chars_dv(t); }
            splitn_last_exec(&t, n - 1, d)
        },
        None => s.clone(),
    }
}

/// The position of the last occurrence of `c` in `s` (`str::rfind`).
pub open spec fn rfind_spec(s: Seq<char>, c: char) -> Option<int>
    decreases s.len(),
{
    if s.len() == 0 {
        None
    } else if s.last() == c {
        Some(s.len() - 1)
    } else {
        rfind_spec(s.drop_last(), c)
    }
}

/// The position of the last occurrence of `c` in `s`.
pub fn rfind_char(s: &Vec<char>, c: char) -> (r: Option<usize>)
    ensures
        r matches Some(i) ==> rfind_spec(s@, c) == Some(i as int),
        r is None ==> rfind_spec(s@, c) is None,
{
    let mut k: usize = s.len();
    assert(s@.take(k as int) =~= s@);
    while k > 0
        invariant
            k <= s.len(),
            rfind_spec(s@, c) == rfind_spec(s@.take(k as int), c),
        decreases k,
    {
        assert(s@.take(k as int).drop_last() =~= s@.take(k - 1));
        if s[k - 1] == c {
            return Some(k - 1);
        }
        k -= 1;
    }
    None
}

pub proof fn lemma_rfind_bound(s: Seq<char>, c: char)
    ensures
        rfind_spec(s, c) matches Some(i) ==> 0 <= i < s.len() && s[i] == c,
    decreases s.len(),
{
    if s.len() > 0 && s.last() != c {
        lemma_rfind_bound(s.drop_last(), c);
    }
}

/// `s` with its first occurrence of `from` replaced by `to`
/// (`str::replacen(from, to, 1)`).
pub open spec fn replace_first(s: Seq<char>, from: Seq<char>, to: Seq<char>) -> Seq<char> {
    match find_spec(s, from) {
        Some(i) => s.take(i) + to + s.skip(i + from.len()),
        None => s,
    }
}

pub proof fn lemma_find_from(s: Seq<char>, p: Seq<char>, i: int)
    requires
        0 <= i,
    ensures
        find_from(s, p, i) matches Some(k) ==> i <= k && matches_at(s, p, k),
    decreases s.len() + 1 - i,
{
    if i + p.len() <= s.len() && !matches_at(s, p, i) {
        lemma_find_from(s, p, i + 1);
    }
}

/// `s` with its first occurrence of `from` replaced by `to`.
pub fn replace_first_exec(s: &Vec<char>, from: &Vec<char>, to: &Vec<char>) -> (r: Vec<char>)
    ensures
        r@ == replace_first(s@, from@, to@),
{
    match find_sub(s, from) {
        Some(i) => {
            proof { lemma_find_from(s@, from@, 0); }
            let mut r = slice_of(s, 0, i);
            let mut t = to.clone();
            r.append(&mut t);
            let mut rest = slice_of(s, i + from.len(), s.len());
            r.append(&mut rest);
            assert(r@ =~= replace_first(s@, from@, to@));
            r
        },
        None => s.clone(),
    }
}

/// `s` with every `a` replaced by `b`.
pub open spec fn replace_char_spec(s: Seq<char>, a: char, b: char) -> Seq<char> {
    s.map_values(|c: char| if c == a { b } else { c })
}

/// `s` with every `a` replaced by `b`.
pub fn replace_char(s: &Vec<char>, a: char, b: char) -> (r: Vec<char>)
    ensures
        r@ == replace_char_spec(s@, a, b),
{
    let mut r: Vec<char> = Vec::new();
    let mut i: usize = 0;
    while i < s.len()
        invariant
            i <= s.len(),
            r@ =~= replace_char_spec(s@.take(i as int), a, b),
        decreases s.len() - i,
    {
        let c = s[i];
        r.push(if c == a { b } else { c });
        assert(r@ =~= replace_char_spec(s@.take(i + 1), a, b));
        i += 1;
    }
    assert(s@.take(s.len() as int) =~= s@);
    r
}

/// `s` with every leading copy of `p` removed (`trim_start_matches` with a
/// string pattern).
pub open spec fn trim_start_str(s: Seq<char>, p: Seq<char>) -> Seq<char>
    decreases s.len(),
{
    if p.len() > 0 && starts_with_spec(s, p) {
        trim_start_str(s.skip(p.len() as int), p)
    } else {
        s
    }
}

/// `s` with every leading copy of `p` removed.
pub fn trim_start_str_exec(s: &Vec<char>, p: &Vec<char>) -> (r: Vec<char>)
    ensures
        r@ == trim_start_str(s@, p@),
{
    if p.len() == 0 {
        return s.clone();
    }
    let mut i: usize = 0;
    assert(s@.skip(0) =~= s@);
    while i <= s.len() && matches_at_exec(s, p, i)
        invariant
            p.len() > 0,
            i <= s.len(),
            trim_start_str(s@, p@) == trim_start_str(s@.skip(i as int), p@),
        decreases s.len() - i,
    {
        assert(s@.skip(i as int).subrange(0, p.len() as int) =~= s@.subrange(
            i as int,
            i + p.len(),
        ));
        assert(s@.skip(i as int).skip(p.len() as int) =~= s@.skip(i + p.len()));
        i += p.len();
    }
    assert(!starts_with_spec(s@.skip(i as int), p@)) by {
        if i + p.len() <= s.len() {
            assert(s@.skip(i as int).subrange(0, p.len() as int) =~= s@.subrange(
                i as int,
                i + p.len(),
            ));
        }
    }
    slice_of(s, i, s.len())
}

/// `s` without a leading `p`, if it begins with one (`str::strip_prefix`).
pub open spec fn strip_prefix_spec(s: Seq<char>, p: Seq<char>) -> Option<Seq<char>> {
    if starts_with_spec(s, p) {
        Some(s.skip(p.len() as int))
    } else {
        None
    }
}

/// `s` without a leading `p`, if it begins with one.
pub fn strip_prefix(s: &Vec<char>, p: &Vec<char>) -> (r: Option<Vec<char>>)
    ensures
        r.deep_view() == strip_prefix_spec(s@, p@),
{
    if starts_with(s, p) {
        let t = slice_of(s, p.len(), s.len());
        proof { lemma_chars_dv(t); }
        Some(t)
    } else {
        None
    }
}

/// The number that an ASCII letter stands for case-blind.
pub open spec fn ascii_fold(c: char) -> u32 {
    if 'A' <= c && c <= 'Z' {
        (c as u32 + 32) as u32
    } else {
        c as u32
    }
}

/// `a` and `b` are equal but for the case of ASCII letters
/// (`str::eq_ignore_ascii_case`).
pub open spec fn eq_ignore_ascii_case_spec(a: Seq<char>, b: Seq<char>) -> bool {
    a.len() == b.len() && forall|i: int| 0 <= i < a.len() ==> ascii_fold(#[trigger] a[i])
        == ascii_fold(b[i])
}

fn ascii_fold_exec(c: char) -> (r: u32)
    ensures
        r == ascii_fold(c),
{
    let x = c as u32;
    if 'A' <= c && c <= 'Z' {
        x + 32
    } else {
        x
    }
}

/// Whether `a` and `b` are equal but for the case of ASCII letters.
pub fn eq_ignore_ascii_case(a: &Vec<char>, b: &Vec<char>) -> (r: bool)
    ensures
        r == eq_ignore_ascii_case_spec(a@, b@),
{
    if a.len() != b.len() {
        return false;
    }
    let mut i: usize = 0;
    while i < a.len()
        invariant
            a.len() == b.len(),
            i <= a.len(),
            forall|j: int| 0 <= j < i ==> ascii_fold(#[trigger] a@[j]) == ascii_fold(b@[j]),
        decreases a.len() - i,
    {
        if ascii_fold_exec(a[i]) != ascii_fold_exec(b[i]) {
            return false;
        }
        i += 1;
    }
    true
}

/// A copy of `v` as a `String`.
pub fn string_of(v: &Vec<char>) -> (r: String)
    ensures
        r@ == v@,
{
    let mut r = String::new();
    let mut i: usize = 0;
    while i < v.len()
        invariant
            i <= v.len(),
            r@ =~= v@.take(i as int),
        decreases v.len() - i,
    {
        push_char(&mut r, v[i]);
        i += 1;
    }
    assert(v@.take(v.len() as int) =~= v@);
    r
}

/// Calls `String::push`. Claimed: afterwards the string is the old one with
/// `c` appended.
#[verifier::external_body]
pub(crate) fn push_char(s: &mut String, c: char)
    ensures
        final(s)@ == old(s)@.push(c),
{
    s.push(c);
}

/// The characters of `s`, in order.
pub fn chars_of(s: &str) -> (v: Vec<char>)
    ensures
        v@ == s@,
{
    let mut v: Vec<char> = Vec::new();
    for c in it: s.chars()
        invariant
            v@ == it.seq().take(it.index() as int),
            it.seq() == s@,
    {
        v.push(c);
    }
    v
}

/// `a` followed by `b`.
pub fn concat(a: &Vec<char>, b: &Vec<char>) -> (r: Vec<char>)
    ensures
        r@ == a@ + b@,
{
    let mut r = a.clone();
    let mut t = b.clone();
    r.append(&mut t);
    r
}

/// What `str::to_lowercase` returns for a text: the full Unicode lower-case
/// mapping, which takes tables to state.
pub uninterp spec fn str_to_lowercase(s: Seq<char>) -> Seq<char>;

/// Calls `str::to_lowercase` on the text of `s`. Claimed: the result is the
/// named value [`str_to_lowercase`] of `s`; the mapping itself is left
/// unstated.
#[verifier::external_body]
pub(crate) fn to_lowercase(s: &Vec<char>) -> (r: Vec<char>)
    ensures
        r@ == str_to_lowercase(s@),
{
    let text: String = s.iter().collect();
    text.to_lowercase().chars().collect()
}

pub open spec fn is_digit(c: char) -> bool {
    '0' <= c && c <= '9'
}

pub open spec fn digit_val(c: char) -> nat {
    (c as u32 - '0' as u32) as nat
}

/// Every character of `s` is a decimal digit.
pub open spec fn all_digits(s: Seq<char>) -> bool {
    forall|i: int| 0 <= i < s.len() ==> is_digit(#[trigger] s[i])
}

/// The number that the decimal digits `s` write.
pub open spec fn digits_value(s: Seq<char>) -> nat
    decreases s.len(),
{
    if s.len() == 0 {
        0
    } else {
        10 * digits_value(s.drop_last()) + digit_val(s.last())
    }
}

/// The number that `s` writes, as `from_str` of an unsigned integer type
/// whose largest value is `max` reads it: one optional `+`, then one or more
/// decimal digits, and a value no larger than `max`.
pub open spec fn parse_unsigned(s: Seq<char>, max: nat) -> Option<nat> {
    let t = if s.len() > 0 && s[0] == '+' { s.drop_first() } else { s };
    if t.len() > 0 && all_digits(t) && digits_value(t) <= max {
        Some(digits_value(t))
    } else {
        None
    }
}

pub proof fn lemma_digits_prefix(t: Seq<char>, k: int)
    requires
        0 <= k <= t.len(),
        all_digits(t),
    ensures
        digits_value(t.take(k)) <= digits_value(t),
    decreases t.len(),
{
    if k < t.len() {
        assert(t.drop_last().take(k) =~= t.take(k));
        lemma_digits_prefix(t.drop_last(), k);
    } else {
        assert(t.take(k) =~= t);
    }
}

/// Reads an unsigned number no larger than `max`.
fn parse_unsigned_exec(s: &Vec<char>, max: u64) -> (r: Option<u64>)
    ensures
        r matches Some(n) ==> parse_unsigned(s@, max as nat) == Some(n as nat),
        r is None ==> parse_unsigned(s@, max as nat) is None,
{
    let start: usize = if s.len() > 0 && s[0] == '+' { 1 } else { 0 };
    let ghost t = if s@.len() > 0 && s@[0] == '+' { s@.drop_first() } else { s@ };
    assert(t =~= s@.skip(start as int));
    if start >= s.len() {
        return None;
    }
    let mut acc: u64 = 0;
    let mut i: usize = start;
    while i < s.len()
        invariant
            start <= i <= s.len(),
            t == (if s@.len() > 0 && s@[0] == '+' { s@.drop_first() } else { s@ }),
            t =~= s@.skip(start as int),
            acc as nat == digits_value(t.take(i - start)),
            acc <= max,
            all_digits(t.take(i - start)),
        decreases s.len() - i,
    {
        let c = s[i];
        assert(t.take(i + 1 - start).drop_last() =~= t.take(i - start));
        assert(t[i - start] == c);
        if !('0' <= c && c <= '9') {
            assert(!is_digit(t[i - start]));
            return None;
        }
        let d = (c as u32 - '0' as u32) as u64;
        assert(all_digits(t.take(i + 1 - start)));
        let next = match acc.checked_mul(10) {
            Some(m) => m.checked_add(d),
            None => None,
        };
        match next {
            Some(v) if v <= max => {
                acc = v;
            },
            _ => {
                proof {
                    if all_digits(t) {
                        lemma_digits_prefix(t, i + 1 - start);
                    }
                }
                return None;
            },
        }
        i += 1;
    }
    assert(t.take(s.len() - start) =~= t);
    Some(acc)
}

/// `u64::from_str`.
pub fn parse_u64(s: &Vec<char>) -> (r: Option<u64>)
    ensures
        r matches Some(n) ==> parse_unsigned(s@, u64::MAX as nat) == Some(n as nat),
        r is None ==> parse_unsigned(s@, u64::MAX as nat) is None,
{
    parse_unsigned_exec(s, u64::MAX)
}

/// The number that `s` writes, as `i64::from_str` reads it: one optional
/// sign, then one or more decimal digits, and a value that fits.
pub open spec fn parse_i64_spec(s: Seq<char>) -> Option<int> {
    if s.len() > 0 && s[0] == '-' {
        let t = s.drop_first();
        if t.len() > 0 && all_digits(t) && digits_value(t) <= 0x8000_0000_0000_0000 {
            Some(-(digits_value(t) as int))
        } else {
            None
        }
    } else {
        match parse_unsigned(s, i64::MAX as nat) {
            Some(n) => Some(n as int),
            None => None,
        }
    }
}

/// `i64::from_str`.
pub fn parse_i64(s: &Vec<char>) -> (r: Option<i64>)
    ensures
        match r {
            Some(n) => parse_i64_spec(s@) == Some(n as int),
            None => parse_i64_spec(s@) is None,
        },
{
    if s.len() > 0 && s[0] == '-' {
        let t = slice_of(s, 1, s.len());
        assert(t@ =~= s@.drop_first());
        if t.len() == 0 || t[0] == '+' {
            return None;
        }
        match parse_unsigned_exec(&t, 0x8000_0000_0000_0000) {
            Some(n) => {
                if n == 0x8000_0000_0000_0000 {
                    Some(i64::MIN)
                } else {
                    Some(-(n as i64))
                }
            },
            None => None,
        }
    } else {
        match parse_unsigned_exec(s, 0x7FFF_FFFF_FFFF_FFFF) {
            Some(n) => Some(n as i64),
            None => None,
        }
    }
}

/// `u32::from_str`.
pub fn parse_u32(s: &Vec<char>) -> (r: Option<u32>)
    ensures
        r matches Some(n) ==> parse_unsigned(s@, u32::MAX as nat) == Some(n as nat),
        r is None ==> parse_unsigned(s@, u32::MAX as nat) is None,
{
    match parse_unsigned_exec(s, u32::MAX as u64) {
        Some(n) => Some(n as u32),
        None => None,
    }
}

/// The decimal digit for `d`.
pub open spec fn digit_char(d: nat) -> char {
    if d == 0 {
        '0'
    } else if d == 1 {
        '1'
    } else if d == 2 {
        '2'
    } else if d == 3 {
        '3'
    } else if d == 4 {
        '4'
    } else if d == 5 {
        '5'
    } else if d == 6 {
        '6'
    } else if d == 7 {
        '7'
    } else if d == 8 {
        '8'
    } else {
        '9'
    }
}

fn digit_char_exec(d: u64) -> (c: char)
    requires
        d < 10,
    ensures
        c == digit_char(d as nat),
{
    if d == 0 {
        '0'
    } else if d == 1 {
        '1'
    } else if d == 2 {
        '2'
    } else if d == 3 {
        '3'
    } else if d == 4 {
        '4'
    } else if d == 5 {
        '5'
    } else if d == 6 {
        '6'
    } else if d == 7 {
        '7'
    } else if d == 8 {
        '8'
    } else {
        '9'
    }
}

/// `n` written in decimal, as `Display` writes an integer.
pub open spec fn decimal(n: nat) -> Seq<char>
    decreases n,
{
    if n < 10 {
        seq![digit_char(n)]
    } else {
        decimal(n / 10).push(digit_char(n % 10))
    }
}

/// Appends `n` in decimal to `out`.
pub fn push_decimal(out: &mut Vec<char>, n: u64)
    ensures
        final(out)@ == old(out)@ + decimal(n as nat),
    decreases n,
{
    if n >= 10 {
        push_decimal(out, n / 10);
    }
    out.push(digit_char_exec(n % 10));
    assert(final(out)@ =~= old(out)@ + decimal(n as nat));
}

/// Whether `a` and `b` hold the same characters.
pub fn chars_eq(a: &Vec<char>, b: &Vec<char>) -> (r: bool)
    ensures
        r == (a@ == b@),
{
    if a.len() != b.len() {
        return false;
    }
    let r = matches_at_exec(a, b, 0);
    assert(r ==> a@ =~= b@) by {
        if r {
            assert(a@.subrange(0, b@.len() as int) =~= a@);
        }
    }
    assert(a@ == b@ ==> r) by {
        if a@ == b@ {
            assert(a@.subrange(0, b@.len() as int) =~= a@);
        }
    }
    r
}

/// The text before the first occurrence of `p`, or all of `s` (the first
/// piece of `str::split` with a text pattern).
pub open spec fn before_sub(s: Seq<char>, p: Seq<char>) -> Seq<char> {
    match find_spec(s, p) {
        Some(i) => s.take(i),
        None => s,
    }
}

/// The text after the first occurrence of `p`, if there is one.
pub open spec fn after_sub(s: Seq<char>, p: Seq<char>) -> Option<Seq<char>> {
    match find_spec(s, p) {
        Some(i) => Some(s.skip(i + p.len())),
        None => None,
    }
}

pub fn before_sub_exec(s: &Vec<char>, p: &Vec<char>) -> (r: Vec<char>)
    ensures
        r@ == before_sub(s@, p@),
{
    match find_sub(s, p) {
        Some(i) => {
            proof { lemma_find_from(s@, p@, 0); }
            slice_of(s, 0, i)
        },
        None => s.clone(),
    }
}

pub fn after_sub_exec(s: &Vec<char>, p: &Vec<char>) -> (r: Option<Vec<char>>)
    ensures
        r.deep_view() == after_sub(s@, p@),
{
    match find_sub(s, p) {
        Some(i) => {
            proof { lemma_find_from(s@, p@, 0); }
            assert(matches_at(s@, p@, i as int));
            let pl = p.len();
            assert(i + pl <= s.len());
            let t = slice_of(s, i + pl, s.len());
            proof { lemma_chars_dv(t); }
            Some(t)
        },
        None => None,
    }
}

/// The first word of `s`, or nothing.
pub open spec fn first_word(s: Seq<char>) -> Seq<char> {
    let ws = words_spec(s);
    if ws.len() > 0 {
        ws[0]
    } else {
        Seq::empty()
    }
}

pub fn first_word_exec(s: &Vec<char>) -> (r: Vec<char>)
    ensures
        r@ == first_word(s@),
{
    let ws = words_of(s);
    proof { lemma_dv_all(ws); }
    if ws.len() > 0 {
        ws[0].clone()
    } else {
        Vec::new()
    }
}

/// How many bytes the UTF-8 encoding of `c` takes.
pub open spec fn char_utf8_len(c: char) -> nat {
    if (c as u32) < 0x80 {
        1
    } else if (c as u32) < 0x800 {
        2
    } else if (c as u32) < 0x10000 {
        3
    } else {
        4
    }
}

/// How many bytes the UTF-8 encoding of `s` takes (`str::len`).
pub open spec fn utf8_len(s: Seq<char>) -> nat
    decreases s.len(),
{
    if s.len() == 0 {
        0
    } else {
        utf8_len(s.drop_last()) + char_utf8_len(s.last())
    }
}

pub proof fn lemma_utf8_len_prefix(s: Seq<char>, k: int)
    requires
        0 <= k <= s.len(),
    ensures
        utf8_len(s.take(k)) <= utf8_len(s),
    decreases s.len(),
{
    if k < s.len() {
        assert(s.drop_last().take(k) =~= s.take(k));
        lemma_utf8_len_prefix(s.drop_last(), k);
    } else {
        assert(s.take(k) =~= s);
    }
}

/// Every character of `s` is ASCII.
pub open spec fn all_ascii(s: Seq<char>) -> bool {
    forall|i: int| 0 <= i < s.len() ==> ((#[trigger] s[i]) as u32) < 0x80
}

/// An ASCII text takes one byte per character.
pub proof fn lemma_ascii_utf8_len(s: Seq<char>)
    requires
        all_ascii(s),
    ensures
        utf8_len(s) == s.len(),
    decreases s.len(),
{
    if s.len() > 0 {
        assert(all_ascii(s.drop_last())) by {
            assert forall|i: int| 0 <= i < s.drop_last().len() implies ((#[trigger] s.drop_last()[i]) as u32) < 0x80 by {
                assert(s.drop_last()[i] == s[i]);
            }
        }
        lemma_ascii_utf8_len(s.drop_last());
        assert((s.last() as u32) < 0x80);
    }
}

/// Whether the UTF-8 encoding of `s` takes more than `n` bytes.
pub fn utf8_len_exceeds(s: &Vec<char>, n: u64) -> (r: bool)
    ensures
        r == (utf8_len(s@) > n),
{
    let mut total: u64 = 0;
    let mut i: usize = 0;
    assert(s@.take(0) =~= Seq::<char>::empty());
    while i < s.len()
        invariant
            i <= s.len(),
            total == utf8_len(s@.take(i as int)),
            total <= n,
        decreases s.len() - i,
    {
        assert(s@.take(i + 1).drop_last() =~= s@.take(i as int));
        let c = s[i] as u32;
        let w: u64 = if c < 0x80 {
            1
        } else if c < 0x800 {
            2
        } else if c < 0x10000 {
            3
        } else {
            4
        };
        if w > n - total {
            proof { lemma_utf8_len_prefix(s@, i + 1); }
            return true;
        }
        total = total + w;
        i += 1;
    }
    assert(s@.take(s.len() as int) =~= s@);
    false
}

/// How many bytes the UTF-8 encoding of `s` takes (`str::len`), no more
/// than the largest `usize`.
pub fn utf8_len_of(s: &Vec<char>) -> (r: usize)
    ensures
        r == (if utf8_len(s@) > usize::MAX { usize::MAX as nat } else { utf8_len(s@) }),
{
    let mut total: usize = 0;
    let mut i: usize = 0;
    assert(s@.take(0) =~= Seq::<char>::empty());
    while i < s.len()
        invariant
            i <= s.len(),
            total == (if utf8_len(s@.take(i as int)) > usize::MAX { usize::MAX as nat } else { utf8_len(s@.take(i as int)) }),
        decreases s.len() - i,
    {
        assert(s@.take(i + 1).drop_last() =~= s@.take(i as int));
        let c = s[i] as u32;
        let w: usize = if c < 0x80 {
            1
        } else if c < 0x800 {
            2
        } else if c < 0x10000 {
            3
        } else {
            4
        };
        total = total.saturating_add(w);
        i += 1;
    }
    assert(s@.take(s.len() as int) =~= s@);
    total
}

/// The first line of `s`, if it has one.
pub open spec fn first_line(s: Seq<char>) -> Option<Seq<char>> {
    let ls = lines_spec(s);
    if ls.len() > 0 {
        Some(ls[0])
    } else {
        None
    }
}

pub fn first_line_exec(s: &str) -> (r: Option<Vec<char>>)
    ensures
        r.deep_view() == first_line(s@),
{
    let ls = lines_of(&chars_of(s));
    proof { lemma_dv_all(ls); }
    if ls.len() > 0 {
        let l = ls[0].clone();
        proof { lemma_chars_dv(l); }
        Some(l)
    } else {
        None
    }
}

/// Whether `s` is empty.
pub fn str_is_empty(s: &str) -> (r: bool)
    ensures
        r == (s@.len() == 0),
{
    s.unicode_len() == 0
}

/// Calls `String::pop`. Claimed: on an empty string it returns `None` and
/// leaves the string; otherwise it removes the last character and returns
/// it.
#[verifier::external_body]
pub(crate) fn pop_char(s: &mut String) -> (r: Option<char>)
    ensures
        old(s)@.len() == 0 ==> r is None && final(s)@ == old(s)@,
        old(s)@.len() > 0 ==> r == Some(old(s)@.last()) && final(s)@ == old(s)@.drop_last(),
{
    s.pop()
}

} // verus!
