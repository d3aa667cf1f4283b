//! The detail panel: what Perforce knows of one file, gathered from
//! `p4 fstat`, `p4 sizes`, `p4 changes` and `p4 opened`.
use vstd::prelude::*;
use crate::text::{self, Delim};
use crate::command::CommandRun;
use crate::changelist;
use crate::path;

verus! {

/// `2^e`.
pub open spec fn two_pow(e: nat) -> nat
    decreases e,
{
    if e == 0 {
        1
    } else {
        2 * two_pow((e - 1) as nat)
    }
}

/// `n / d` rounded to the nearest whole number, a tie to the even one.
pub open spec fn round_half_even(n: nat, d: nat) -> nat {
    let q = n / d;
    let r = n % d;
    if 2 * r > d {
        q + 1
    } else if 2 * r < d {
        q
    } else if q % 2 == 0 {
        q
    } else {
        q + 1
    }
}

/// How many binary digits `n` has.
pub open spec fn bit_len(n: nat) -> nat
    decreases n,
{
    if n == 0 {
        0
    } else {
        1 + bit_len(n / 2)
    }
}

/// The value of `n as f64`: `n` rounded to 53 significant binary digits,
/// a tie to the even one.
pub open spec fn f64_value(n: nat) -> nat {
    if bit_len(n) <= 53 {
        n
    } else {
        let s = (bit_len(n) - 53) as nat;
        round_half_even(n, two_pow(s)) * two_pow(s)
    }
}

/// A count of tenths written with one decimal: `12` as `1.2`.
pub open spec fn tenths(t: nat) -> Seq<char> {
    text::decimal(t / 10) + seq!['.', text::digit_char(t % 10)]
}

/// A byte count as the detail panel shows it: below 1024 in bytes, below
/// 1024 * 1024 in kilobytes, else in megabytes, with one decimal rounded
/// as `{:.1}` rounds the `f64` quotient.
pub open spec fn format_size_spec(bytes: nat) -> Seq<char> {
    if bytes < 1024 {
        text::decimal(bytes) + seq![' ', 'B']
    } else if bytes < 1048576 {
        tenths(round_half_even(bytes * 10, 1024)) + seq![' ', 'K', 'B']
    } else {
        tenths(round_half_even(f64_value(bytes) * 10, 1048576)) + seq![' ', 'M', 'B']
    }
}

fn round_half_even_exec(n: u128, d: u128) -> (r: u128)
    requires
        d > 0,
        n / d < u128::MAX,
    ensures
        r == round_half_even(n as nat, d as nat),
{
    let q = n / d;
    let r = n % d;
    assert(r < d) by (nonlinear_arith)
        requires
            r == n % d,
            d > 0,
    ;
    if r > d - r {
        q + 1
    } else if r < d - r {
        q
    } else if q % 2 == 0 {
        q
    } else {
        q + 1
    }
}

proof fn lemma_bit_len_bound(n: nat, k: nat)
    requires
        n < two_pow(k),
    ensures
        bit_len(n) <= k,
    decreases k,
{
    if n > 0 {
        assert(n / 2 < two_pow((k - 1) as nat));
        lemma_bit_len_bound(n / 2, (k - 1) as nat);
    }
}

proof fn lemma_bit_len_low(n: nat, k: nat)
    requires
        bit_len(n) > k,
    ensures
        n >= two_pow(k),
    decreases k,
{
    if k > 0 {
        lemma_bit_len_low(n / 2, (k - 1) as nat);
    }
}

proof fn lemma_two_pow_64()
    ensures
        two_pow(64) == 0x1_0000_0000_0000_0000,
        two_pow(53) == 0x20_0000_0000_0000,
{
    reveal_with_fuel(two_pow, 65);
}

proof fn lemma_bit_len_upper(n: nat)
    ensures
        n < two_pow(bit_len(n)),
    decreases n,
{
    if n > 0 {
        lemma_bit_len_upper(n / 2);
    }
}

proof fn lemma_two_pow_add(a: nat, b: nat)
    ensures
        two_pow(a + b) == two_pow(a) * two_pow(b),
    decreases a,
{
    if a > 0 {
        let a1 = (a - 1) as nat;
        lemma_two_pow_add(a1, b);
        assert(a + b == (a1 + b) + 1);
        assert(two_pow(a + b) == 2 * two_pow(a1 + b));
        assert(two_pow(a) == 2 * two_pow(a1));
        let x = two_pow(a1);
        let y = two_pow(b);
        assert(2 * (x * y) == (2 * x) * y) by (nonlinear_arith);
    } else {
        assert(a + b == b);
        assert(two_pow(a) == 1);
    }
}

/// The value of `n as f64`, which is a whole number.
fn f64_value_exec(n: u64) -> (r: u128)
    ensures
        r == f64_value(n as nat),
        r <= 0x1_0000_0000_0000_0000,
{
    proof {
        lemma_two_pow_64();
        lemma_bit_len_bound(n as nat, 64);
    }
    let mut m: u64 = n;
    let mut bits: u64 = 0;
    while m > 0
        invariant
            bit_len(n as nat) == bits + bit_len(m as nat),
            bit_len(n as nat) <= 64,
            m <= n,
        decreases m,
    {
        assert(bit_len(m as nat) == 1 + bit_len((m / 2) as nat));
        m = m / 2;
        bits = bits + 1;
    }
    if bits <= 53 {
        return n as u128;
    }
    let s = bits - 53;
    let mut p: u128 = 1;
    let mut k: u64 = 0;
    while k < s
        invariant
            k <= s,
            s <= 11,
            p == two_pow(k as nat),
            1 <= p <= 2048,
        decreases s - k,
    {
        proof {
            lemma_two_pow_mono(k as nat, 10);
            assert(two_pow(10) == 1024) by {
                reveal_with_fuel(two_pow, 11);
            }
        }
        p = p * 2;
        k = k + 1;
    }
    proof {
        lemma_bit_len_upper(n as nat);
        lemma_two_pow_add(s as nat, 53);
        assert((n as nat) / (p as nat) < 0x20_0000_0000_0000) by (nonlinear_arith)
            requires
                (n as nat) < (p as nat) * 0x20_0000_0000_0000,
                p >= 1,
        {
        }
    }
    let q = round_half_even_exec(n as u128, p);
    assert(q * p <= 0x20_0000_0000_0000 * 2048) by (nonlinear_arith)
        requires
            q <= 0x20_0000_0000_0000,
            p <= 2048,
    ;
    q * p
}

proof fn lemma_two_pow_mono(a: nat, b: nat)
    requires
        a <= b,
    ensures
        two_pow(a) <= two_pow(b),
    decreases b,
{
    if a < b {
        lemma_two_pow_mono(a, (b - 1) as nat);
    }
}

fn push_tenths(out: &mut Vec<char>, t: u64)
    ensures
        final(out)@ == old(out)@ + tenths(t as nat),
{
    text::push_decimal(out, t / 10);
    out.push('.');
    text::push_decimal(out, t % 10);
    assert(text::decimal((t % 10) as nat) =~= seq![text::digit_char((t % 10) as nat)]);
    assert(final(out)@ =~= old(out)@ + tenths(t as nat));
}

/// A byte count as the detail panel shows it (`12 B`, `1.2 KB`, `3.4 MB`).
pub fn format_size(bytes: u64) -> (r: String)
    ensures
        r@ == format_size_spec(bytes as nat),
{
    let mut out: Vec<char> = Vec::new();
    if bytes < 1024 {
        text::push_decimal(&mut out, bytes);
        out.push(' ');
        out.push('B');
    } else if bytes < 1048576 {
        let t = round_half_even_exec(bytes as u128 * 10, 1024);
        assert(t <= 10240) by (nonlinear_arith)
            requires
                t <= (bytes as u128 * 10) / 1024 + 1,
                bytes < 1048576,
        ;
        push_tenths(&mut out, t as u64);
        out.push(' ');
        out.push('K');
        out.push('B');
    } else {
        let v = f64_value_exec(bytes);
        let t = round_half_even_exec(v * 10, 1048576);
        assert(t <= 0x1_0000_0000_0000) by (nonlinear_arith)
            requires
                t <= (v * 10) / 1048576 + 1,
                v <= 0x1_0000_0000_0000_0000,
        ;
        push_tenths(&mut out, t as u64);
        out.push(' ');
        out.push('M');
        out.push('B');
    }
    assert(out@ =~= format_size_spec(bytes as nat));
    text::string_of(&out)
}

/// The name of the cache file of a path's detail: the path with every `/`
/// made `_`, after a version mark.
pub open spec fn cache_key_spec(p: Seq<char>) -> Seq<char> {
    seq!['v', '5', '_'] + text::replace_char_spec(p, '/', '_')
}

/// The name of the cache file of a path's detail.
pub fn md5_hash(s: &str) -> (r: String)
    ensures
        r@ == cache_key_spec(s@),
{
    let mut out = vec!['v', '5', '_'];
    let rest = text::replace_char(&text::chars_of(s), '/', '_');
    let out = text::concat(&out, &rest);
    text::string_of(&out)
}

/// What the detail panel shows of a file.
#[derive(Clone, Debug)]
pub struct FileDetail {
    pub filename: String,
    pub filesize: String,
    pub depot_path: String,
    pub revision: String,
    pub date_modified: String,
    pub changelist: String,
    pub action: String,
    pub latest_user: String,
    pub checkout_by: String,
}

pub struct FileDetailView {
    pub filename: Seq<char>,
    pub filesize: Seq<char>,
    pub depot_path: Seq<char>,
    pub revision: Seq<char>,
    pub date_modified: Seq<char>,
    pub changelist: Seq<char>,
    pub action: Seq<char>,
    pub latest_user: Seq<char>,
    pub checkout_by: Seq<char>,
}

impl View for FileDetail {
    type V = FileDetailView;

    open spec fn view(&self) -> FileDetailView {
        FileDetailView {
            filename: self.filename@,
            filesize: self.filesize@,
            depot_path: self.depot_path@,
            revision: self.revision@,
            date_modified: self.date_modified@,
            changelist: self.changelist@,
            action: self.action@,
            latest_user: self.latest_user@,
            checkout_by: self.checkout_by@,
        }
    }
}

/// Which field of the detail a key of `p4 fstat` output sets. The keys are
/// matched in this order, all but `otherOpen…` without regard to ASCII case.
#[derive(Clone, Copy, PartialEq, Eq, Structural, Debug)]
pub enum FstatKey {
    DepotFile,
    HeadRev,
    HaveRev,
    FileSize,
    HeadChange,
    OtherOpen,
    Action,
    Change,
    HeadAction,
    Other,
}

/// The field that key `k` sets, `lower` being `k` in lower case.
pub open spec fn classify_key(k: Seq<char>, lower: Seq<char>) -> FstatKey {
    if text::eq_ignore_ascii_case_spec(k, "depotFile"@) {
        FstatKey::DepotFile
    } else if text::eq_ignore_ascii_case_spec(k, "headRev"@) {
        FstatKey::HeadRev
    } else if text::eq_ignore_ascii_case_spec(k, "haveRev"@) {
        FstatKey::HaveRev
    } else if text::eq_ignore_ascii_case_spec(k, "fileSize"@) {
        FstatKey::FileSize
    } else if text::eq_ignore_ascii_case_spec(k, "headChange"@) {
        FstatKey::HeadChange
    } else if text::starts_with_spec(lower, "otheropen"@) {
        FstatKey::OtherOpen
    } else if text::eq_ignore_ascii_case_spec(k, "action"@) {
        FstatKey::Action
    } else if text::eq_ignore_ascii_case_spec(k, "change"@) {
        FstatKey::Change
    } else if text::eq_ignore_ascii_case_spec(k, "headAction"@) {
        FstatKey::HeadAction
    } else {
        FstatKey::Other
    }
}

/// The field that key `key` sets, `key_lower` being what `to_lowercase`
/// gave for it.
pub fn classify_fstat_key(key: &Vec<char>, key_lower: &Vec<char>) -> (r: FstatKey)
    ensures
        r == classify_key(key@, key_lower@),
{
    if text::eq_ignore_ascii_case(key, &text::chars_of("depotFile")) {
        FstatKey::DepotFile
    } else if text::eq_ignore_ascii_case(key, &text::chars_of("headRev")) {
        FstatKey::HeadRev
    } else if text::eq_ignore_ascii_case(key, &text::chars_of("haveRev")) {
        FstatKey::HaveRev
    } else if text::eq_ignore_ascii_case(key, &text::chars_of("fileSize")) {
        FstatKey::FileSize
    } else if text::eq_ignore_ascii_case(key, &text::chars_of("headChange")) {
        FstatKey::HeadChange
    } else if text::starts_with(key_lower, &text::chars_of("otheropen")) {
        FstatKey::OtherOpen
    } else if text::eq_ignore_ascii_case(key, &text::chars_of("action")) {
        FstatKey::Action
    } else if text::eq_ignore_ascii_case(key, &text::chars_of("change")) {
        FstatKey::Change
    } else if text::eq_ignore_ascii_case(key, &text::chars_of("headAction")) {
        FstatKey::HeadAction
    } else {
        FstatKey::Other
    }
}

/// The key and value of a line `... key value` of `p4 fstat` output, if
/// the line is one.
pub open spec fn fstat_kv(line: Seq<char>) -> Option<(Seq<char>, Seq<char>)> {
    let trimmed = text::trim_spec(line, Delim::Whitespace);
    if !text::starts_with_spec(trimmed, "..."@) {
        None
    } else {
        let content = text::trim_spec(
            text::trim_start_spec(trimmed, Delim::Char('.')),
            Delim::Whitespace,
        );
        let key = text::before_first(content, Delim::Char(' '));
        let rest = match text::after_first(content, Delim::Char(' ')) {
            Some(v) => v,
            None => Seq::empty(),
        };
        Some((key, text::trim_spec(rest, Delim::Whitespace)))
    }
}

/// What the `fstat` lines read so far have given.
pub struct FstatState {
    pub detail: FileDetailView,
    pub have_rev: Seq<char>,
    pub head_rev: Seq<char>,
}

/// `checkout_by` says nothing yet.
pub open spec fn checkout_unknown(c: Seq<char>) -> bool {
    c.len() == 0 || c == "Unknown"@
}

/// The directory of a depot file, shown with `//depot` as `...` and ending
/// in `/`; nothing if the path has no `/`.
pub open spec fn depot_dir(value: Seq<char>) -> Option<Seq<char>> {
    match text::rfind_spec(value, '/') {
        Some(i) => {
            let dir = value.take(i);
            let d = if text::starts_with_spec(dir, "//depot"@) {
                text::replace_first(dir, "//depot"@, "..."@)
            } else {
                dir
            };
            Some(
                if d.len() > 0 && d.last() == '/' {
                    d
                } else {
                    d.push('/')
                },
            )
        },
        None => None,
    }
}

/// Reading the value of one key of `p4 fstat` output.
pub open spec fn fstat_apply(st: FstatState, key: Seq<char>, kind: FstatKey, value: Seq<char>) -> FstatState {
    let d = st.detail;
    match kind {
        FstatKey::DepotFile => match depot_dir(value) {
            Some(dp) => FstatState { detail: FileDetailView { depot_path: dp, ..d }, ..st },
            None => st,
        },
        FstatKey::HeadRev => FstatState {
            head_rev: text::trim_start_spec(value, Delim::Char('#')),
            ..st
        },
        FstatKey::HaveRev => FstatState {
            have_rev: text::trim_start_spec(value, Delim::Char('#')),
            ..st
        },
        FstatKey::FileSize => {
            let n: nat = match text::parse_unsigned(value, u64::MAX as nat) {
                Some(n) => n,
                None => 0,
            };
            if n > 0 {
                FstatState { detail: FileDetailView { filesize: format_size_spec(n), ..d }, ..st }
            } else {
                st
            }
        },
        FstatKey::HeadChange => FstatState {
            detail: FileDetailView { changelist: value, ..d },
            ..st
        },
        FstatKey::OtherOpen => if text::utf8_len(key) > 9 && text::first_delim(
            value,
            Delim::Char('@'),
        ) is Some && checkout_unknown(d.checkout_by) {
            FstatState {
                detail: FileDetailView {
                    checkout_by: text::before_first(value, Delim::Char('@')),
                    ..d
                },
                ..st
            }
        } else {
            st
        },
        FstatKey::Action => {
            let c = if checkout_unknown(d.checkout_by) {
                "You"@
            } else {
                d.checkout_by
            };
            FstatState { detail: FileDetailView { checkout_by: c, action: value, ..d }, ..st }
        },
        FstatKey::Change => {
            let c = if checkout_unknown(d.checkout_by) {
                "You"@
            } else {
                d.checkout_by
            };
            FstatState { detail: FileDetailView { checkout_by: c, ..d }, ..st }
        },
        FstatKey::HeadAction => if d.action.len() == 0 {
            FstatState { detail: FileDetailView { action: value, ..d }, ..st }
        } else {
            st
        },
        FstatKey::Other => st,
    }
}

/// Reading one more line of `p4 fstat -Of` output.
pub open spec fn fstat_step(st: FstatState, line: Seq<char>) -> FstatState {
    match fstat_kv(line) {
        Some((k, v)) => fstat_apply(st, k, classify_key(k, text::str_to_lowercase(k)), v),
        None => st,
    }
}

pub open spec fn fstat_fold(init: FstatState, ls: Seq<Seq<char>>) -> FstatState
    decreases ls.len(),
{
    if ls.len() == 0 {
        init
    } else {
        fstat_step(fstat_fold(init, ls.drop_last()), ls.last())
    }
}

/// The revision field: `#have/head`, head raised to have where it is lower,
/// a revision that does not read as a number counting as 0.
pub open spec fn revision_text(have_rev: Seq<char>, head_rev: Seq<char>) -> Seq<char> {
    let have: nat = match text::parse_unsigned(have_rev, u32::MAX as nat) {
        Some(n) => n,
        None => 0,
    };
    let head0: nat = match text::parse_unsigned(head_rev, u32::MAX as nat) {
        Some(n) => n,
        None => 0,
    };
    let head = if head0 < have {
        have
    } else {
        head0
    };
    seq!['#'] + text::decimal(have) + seq!['/'] + text::decimal(head)
}

/// The detail that `p4 fstat -Of` output gives of the file named
/// `filename`.
pub open spec fn fstat_detail(filename: Seq<char>, out: Seq<char>) -> FileDetailView {
    let init = FstatState {
        detail: FileDetailView {
            filename,
            filesize: Seq::empty(),
            depot_path: Seq::empty(),
            revision: Seq::empty(),
            date_modified: Seq::empty(),
            changelist: Seq::empty(),
            action: Seq::empty(),
            latest_user: Seq::empty(),
            checkout_by: Seq::empty(),
        },
        have_rev: seq!['0'],
        head_rev: seq!['0'],
    };
    let st = fstat_fold(init, text::lines_spec(out));
    FileDetailView { revision: revision_text(st.have_rev, st.head_rev), ..st.detail }
}

/// The fields of a detail as characters, while it is being read.
struct DetailChars {
    filename: Vec<char>,
    filesize: Vec<char>,
    depot_path: Vec<char>,
    revision: Vec<char>,
    date_modified: Vec<char>,
    changelist: Vec<char>,
    action: Vec<char>,
    latest_user: Vec<char>,
    checkout_by: Vec<char>,
}

impl DetailChars {
    spec fn dv(&self) -> FileDetailView {
        FileDetailView {
            filename: self.filename@,
            filesize: self.filesize@,
            depot_path: self.depot_path@,
            revision: self.revision@,
            date_modified: self.date_modified@,
            changelist: self.changelist@,
            action: self.action@,
            latest_user: self.latest_user@,
            checkout_by: self.checkout_by@,
        }
    }

    fn to_detail(&self) -> (r: FileDetail)
        ensures
            r@ == self.dv(),
    {
        FileDetail {
            filename: text::string_of(&self.filename),
            filesize: text::string_of(&self.filesize),
            depot_path: text::string_of(&self.depot_path),
            revision: text::string_of(&self.revision),
            date_modified: text::string_of(&self.date_modified),
            changelist: text::string_of(&self.changelist),
            action: text::string_of(&self.action),
            latest_user: text::string_of(&self.latest_user),
            checkout_by: text::string_of(&self.checkout_by),
        }
    }
}

fn fstat_kv_exec(line: &Vec<char>) -> (r: Option<(Vec<char>, Vec<char>)>)
    ensures
        match r {
            Some((k, v)) => fstat_kv(line@) == Some((k@, v@)),
            None => fstat_kv(line@) is None,
        },
{
    let trimmed = text::trim_of(line, Delim::Whitespace);
    if !text::starts_with(&trimmed, &text::chars_of("...")) {
        return None;
    }
    let content = text::trim_of(&text::trim_start_of(&trimmed, Delim::Char('.')), Delim::Whitespace);
    let key = text::before_first_exec(&content, Delim::Char(' '));
    let rest = match text::after_first_exec(&content, Delim::Char(' ')) {
        Some(v) => {
            proof { text::lemma_chars_dv(v); }
            v
        },
        None => Vec::new(),
    };
    Some((key, text::trim_of(&rest, Delim::Whitespace)))
}

fn depot_dir_exec(value: &Vec<char>) -> (r: Option<Vec<char>>)
    ensures
        r.deep_view() == depot_dir(value@),
{
    match text::rfind_char(value, '/') {
        Some(i) => {
            proof { text::lemma_rfind_bound(value@, '/'); }
            let dir = text::slice_of(value, 0, i);
            assert(dir@ =~= value@.take(i as int));
            let mut d = if text::starts_with(&dir, &text::chars_of("//depot")) {
                text::replace_first_exec(&dir, &text::chars_of("//depot"), &text::chars_of("..."))
            } else {
                dir
            };
            if !(d.len() > 0 && d[d.len() - 1] == '/') {
                d.push('/');
            }
            proof { text::lemma_chars_dv(d); }
            Some(d)
        },
        None => None,
    }
}

fn is_checkout_unknown(c: &Vec<char>) -> (r: bool)
    ensures
        r == checkout_unknown(c@),
{
    c.len() == 0 || text::chars_eq(c, &text::chars_of("Unknown"))
}

fn fstat_apply_exec(
    d: &mut DetailChars,
    have: &mut Vec<char>,
    head: &mut Vec<char>,
    key: &Vec<char>,
    kind: FstatKey,
    value: &Vec<char>,
)
    ensures
        fstat_apply(
            FstatState { detail: old(d).dv(), have_rev: old(have)@, head_rev: old(head)@ },
            key@,
            kind,
            value@,
        ) == (FstatState { detail: final(d).dv(), have_rev: final(have)@, head_rev: final(head)@ }),
{
    match kind {
        FstatKey::DepotFile => {
            match depot_dir_exec(value) {
                Some(dp) => {
                    proof { text::lemma_chars_dv(dp); }
                    d.depot_path = dp;
                },
                None => {},
            }
        },
        FstatKey::HeadRev => {
            *head = text::trim_start_of(value, Delim::Char('#'));
        },
        FstatKey::HaveRev => {
            *have = text::trim_start_of(value, Delim::Char('#'));
        },
        FstatKey::FileSize => {
            let n: u64 = match text::parse_u64(value) {
                Some(n) => n,
                None => 0,
            };
            if n > 0 {
                d.filesize = text::chars_of(format_size(n).as_str());
            }
        },
        FstatKey::HeadChange => {
            d.changelist = value.clone();
        },
        FstatKey::OtherOpen => {
            if text::utf8_len_exceeds(key, 9) && text::first_delim_exec(value, Delim::Char('@')).is_some()
                && is_checkout_unknown(&d.checkout_by) {
                d.checkout_by = text::before_first_exec(value, Delim::Char('@'));
            }
        },
        FstatKey::Action => {
            if is_checkout_unknown(&d.checkout_by) {
                d.checkout_by = text::chars_of("You");
            }
            d.action = value.clone();
        },
        FstatKey::Change => {
            if is_checkout_unknown(&d.checkout_by) {
                d.checkout_by = text::chars_of("You");
            }
        },
        FstatKey::HeadAction => {
            if d.action.len() == 0 {
                d.action = value.clone();
            }
        },
        FstatKey::Other => {},
    }
}

fn revision_exec(have_rev: &Vec<char>, head_rev: &Vec<char>) -> (r: Vec<char>)
    ensures
        r@ == revision_text(have_rev@, head_rev@),
{
    let have: u32 = match text::parse_u32(have_rev) {
        Some(n) => n,
        None => 0,
    };
    let mut head: u32 = match text::parse_u32(head_rev) {
        Some(n) => n,
        None => 0,
    };
    if head < have {
        head = have;
    }
    let mut out = vec!['#'];
    text::push_decimal(&mut out, have as u64);
    out.push('/');
    text::push_decimal(&mut out, head as u64);
    assert(out@ =~= revision_text(have_rev@, head_rev@));
    out
}

/// The detail that `p4 fstat -Of <path>` gives of the file at `path`, or
/// why it gives none: the command could not be started, or the file is not
/// in the depot. The size, the date and the other users come after, from
/// the other commands.
pub fn fetch_file_detail(path: &str, run: &CommandRun) -> (r: Result<FileDetail, String>)
    ensures
        match run {
            CommandRun::Failed(e) => r matches Err(m) && m@ == "Failed to execute p4 fstat: "@
                + e@,
            CommandRun::Finished { success, stdout, .. } => if *success {
                r matches Ok(d) && d@ == fstat_detail(
                    match path::path_file_name(path@) {
                        Some(n) => n,
                        None => Seq::empty(),
                    },
                    stdout@,
                )
            } else {
                r matches Err(m) && m@ == "Not a Perforce-managed object"@
            },
        },
{
    match run {
        CommandRun::Failed(e) => {
            let mut m = String::from_str("Failed to execute p4 fstat: ");
            m.append(e.as_str());
            Err(m)
        },
        CommandRun::Finished { success, stdout, .. } => {
            if !*success {
                return Err(String::from_str("Not a Perforce-managed object"));
            }
            let filename = match path::file_name_of(path) {
                Some(n) => text::chars_of(n.as_str()),
                None => Vec::new(),
            };
            let mut d = DetailChars {
                filename,
                filesize: Vec::new(),
                depot_path: Vec::new(),
                revision: Vec::new(),
                date_modified: Vec::new(),
                changelist: Vec::new(),
                action: Vec::new(),
                latest_user: Vec::new(),
                checkout_by: Vec::new(),
            };
            let mut have = vec!['0'];
            let mut head = vec!['0'];
            assert(have@ =~= seq!['0']);
            assert(head@ =~= seq!['0']);
            let ghost init = FstatState { detail: d.dv(), have_rev: have@, head_rev: head@ };
            let ls = text::lines_of(&text::chars_of(stdout.as_str()));
            proof { text::lemma_dv_all(ls); }
            let ghost lsv = ls.deep_view();
            let mut i: usize = 0;
            assert(lsv.take(0) =~= Seq::<Seq<char>>::empty());
            while i < ls.len()
                invariant
                    lsv == ls.deep_view(),
                    lsv.len() == ls@.len(),
                    forall|j: int| 0 <= j < ls@.len() ==> #[trigger] lsv[j] == ls@[j]@,
                    i <= ls.len(),
                    fstat_fold(init, lsv.take(i as int)) == (FstatState {
                        detail: d.dv(),
                        have_rev: have@,
                        head_rev: head@,
                    }),
                decreases ls.len() - i,
            {
                assert(lsv.take(i + 1).drop_last() =~= lsv.take(i as int));
                assert(lsv.take(i + 1).last() == ls@[i as int]@);
                match fstat_kv_exec(&ls[i]) {
                    Some((k, v)) => {
                        let lower = text::to_lowercase(&k);
                        let kind = classify_fstat_key(&k, &lower);
                        fstat_apply_exec(&mut d, &mut have, &mut head, &k, kind, &v);
                    },
                    None => {},
                }
                i += 1;
            }
            assert(lsv.take(ls.len() as int) =~= lsv);
            d.revision = revision_exec(&have, &head);
            Ok(d.to_detail())
        },
    }
}

/// The size that a first line of `p4 sizes` output gives: the number before
/// the first word `bytes` (not the first word) that reads as one.
pub open spec fn sizes_bytes_from(parts: Seq<Seq<char>>, i: int) -> Option<nat>
    decreases parts.len() - i,
{
    if i < 1 || i >= parts.len() {
        None
    } else if parts[i] == "bytes"@ && text::parse_unsigned(parts[i - 1], u64::MAX as nat) is Some {
        text::parse_unsigned(parts[i - 1], u64::MAX as nat)
    } else {
        sizes_bytes_from(parts, i + 1)
    }
}

/// The size that the output of `p4 sizes` gives, if it gives one.
pub open spec fn sizes_bytes(out: Seq<char>) -> Option<nat> {
    match text::first_line(out) {
        Some(l) => sizes_bytes_from(text::words_spec(l), 1),
        None => None,
    }
}

/// The user that the first line of `p4 opened -a` output names as having
/// the file open: `You` where that is the given user on the given client.
pub open spec fn opened_by(out: Seq<char>, user: Seq<char>, client: Seq<char>) -> Option<Seq<char>> {
    match text::first_line(out) {
        Some(l) => match text::after_sub(l, " - "@) {
            Some(after) => {
                let parts = text::words_spec(after);
                match first_with_at(parts, 0) {
                    Some(k) => {
                        let p = parts[k];
                        let me = user + seq!['@'] + client;
                        if user.len() > 0 && client.len() > 0 && text::contains_spec(p, me) {
                            Some("You"@)
                        } else {
                            Some(text::before_first(p, Delim::Char('@')))
                        }
                    },
                    None => None,
                }
            },
            None => None,
        },
        None => None,
    }
}

/// The first of `parts`, from `i` on, that holds an `@`.
pub open spec fn first_with_at(parts: Seq<Seq<char>>, i: int) -> Option<int>
    decreases parts.len() - i,
{
    if i < 0 || i >= parts.len() {
        None
    } else if text::first_delim(parts[i], Delim::Char('@')) is Some {
        Some(i)
    } else {
        first_with_at(parts, i + 1)
    }
}

/// The date and user that the first line of `p4 changes -m 1 -t` output
/// gives, if it has seven words or more.
pub open spec fn latest_change(out: Seq<char>) -> Option<(Seq<char>, Seq<char>)> {
    match text::first_line(out) {
        Some(l) => {
            let parts = text::words_spec(l);
            if parts.len() >= 7 {
                Some((changelist::change_time(parts[3], parts[4]), changelist::author_of(parts[6])))
            } else {
                None
            }
        },
        None => None,
    }
}

impl FileDetail {
    /// The size is still unknown.
    pub fn needs_size(&self) -> (r: bool)
        ensures
            r == (self.filesize@.len() == 0),
    {
        text::str_is_empty(self.filesize.as_str())
    }

    /// Takes the size of the local file, where the size is still unknown
    /// and the file has one above zero.
    pub fn apply_local_size(&mut self, size: Option<u64>)
        ensures
            final(self)@ == (if old(self).filesize@.len() == 0 && size is Some && size->0 > 0 {
                FileDetailView { filesize: format_size_spec(size->0 as nat), ..old(self)@ }
            } else {
                old(self)@
            }),
    {
        if self.needs_size() {
            match size {
                Some(n) => {
                    if n > 0 {
                        self.filesize = format_size(n);
                    }
                },
                None => {},
            }
        }
    }

    /// Takes the size that `p4 sizes` gives, where the size is still
    /// unknown.
    #[verifier::loop_isolation(false)]
    pub fn apply_sizes_output(&mut self, run: &CommandRun)
        ensures
            final(self)@ == (match run {
                CommandRun::Finished { stdout, .. } => if old(self).filesize@.len() == 0
                    && sizes_bytes(stdout@) is Some {
                    FileDetailView {
                        filesize: format_size_spec(sizes_bytes(stdout@)->0),
                        ..old(self)@
                    }
                } else {
                    old(self)@
                },
                CommandRun::Failed(_) => old(self)@,
            }),
    {
        if !self.needs_size() {
            return;
        }
        match run {
            CommandRun::Finished { stdout, .. } => {
                match text::first_line_exec(stdout.as_str()) {
                    Some(l) => {
                        proof { text::lemma_chars_dv(l); }
                        let parts = text::words_of(&l);
                        proof { text::lemma_dv_all(parts); }
                        let ghost pv = parts.deep_view();
                        let bytes = text::chars_of("bytes");
                        let mut i: usize = 1;
                        while i < parts.len()
                            invariant
                                1 <= i,
                                pv == parts.deep_view(),
                                pv.len() == parts@.len(),
                                forall|j: int| 0 <= j < parts@.len() ==> #[trigger] pv[j] == parts@[j]@,
                                bytes@ == "bytes"@,
                                sizes_bytes(stdout@) == sizes_bytes_from(pv, i as int),
                                self.filesize@.len() == 0,
                                *self == *old(self),
                            decreases parts.len() - i,
                        {
                            if text::chars_eq(&parts[i], &bytes) {
                                match text::parse_u64(&parts[i - 1]) {
                                    Some(n) => {
                                        self.filesize = format_size(n);
                                        return;
                                    },
                                    None => {},
                                }
                            }
                            i += 1;
                        }
                    },
                    None => {},
                }
            },
            CommandRun::Failed(_) => {},
        }
    }

    /// Writes `0 B` where the size is still unknown.
    pub fn apply_size_fallback(&mut self)
        ensures
            final(self)@ == (if old(self).filesize@.len() == 0 {
                FileDetailView { filesize: seq!['0', ' ', 'B'], ..old(self)@ }
            } else {
                old(self)@
            }),
    {
        if self.needs_size() {
            self.filesize = text::string_of(&vec!['0', ' ', 'B']);
        }
    }

    /// Takes the date and the user of the latest change of the file from
    /// `p4 changes -m 1 -t` output.
    pub fn apply_changes_output(&mut self, run: &CommandRun)
        ensures
            final(self)@ == (match run {
                CommandRun::Finished { stdout, .. } => match latest_change(stdout@) {
                    Some((date, user)) => FileDetailView {
                        date_modified: date,
                        latest_user: user,
                        ..old(self)@
                    },
                    None => old(self)@,
                },
                CommandRun::Failed(_) => old(self)@,
            }),
    {
        match run {
            CommandRun::Finished { stdout, .. } => {
                match text::first_line_exec(stdout.as_str()) {
                    Some(l) => {
                        proof { text::lemma_chars_dv(l); }
                        let parts = text::words_of(&l);
                        proof { text::lemma_dv_all(parts); }
                        if parts.len() >= 7 {
                            self.latest_user = text::string_of(
                                &text::before_first_exec(&parts[6], Delim::Char('@')),
                            );
                            self.date_modified = text::string_of(
                                &changelist::change_time_exec(&parts[3], &parts[4]),
                            );
                        }
                    },
                    None => {},
                }
            },
            CommandRun::Failed(_) => {},
        }
    }

    /// Nobody is known to have the file open yet.
    pub fn needs_checkout_lookup(&self) -> (r: bool)
        ensures
            r == checkout_unknown(self.checkout_by@),
    {
        is_checkout_unknown(&text::chars_of(self.checkout_by.as_str()))
    }

    /// Takes who has the file open from `p4 opened -a` output, where nobody
    /// is known yet; `p4_user` and `p4_client` are this user and client.
    /// Says whether it took a name.
    pub fn apply_opened_output(&mut self, run: &CommandRun, p4_user: &str, p4_client: &str) -> (r:
        bool)
        ensures
            match run {
                CommandRun::Finished { stdout, .. } => if checkout_unknown(old(self).checkout_by@) {
                    match opened_by(stdout@, p4_user@, p4_client@) {
                        Some(c) => r && final(self)@ == FileDetailView {
                            checkout_by: c,
                            ..old(self)@
                        },
                        None => !r && final(self)@ == old(self)@,
                    }
                } else {
                    !r && final(self)@ == old(self)@
                },
                CommandRun::Failed(_) => !r && final(self)@ == old(self)@,
            },
    {
        if !self.needs_checkout_lookup() {
            return false;
        }
        match run {
            CommandRun::Finished { stdout, .. } => {
                match text::first_line_exec(stdout.as_str()) {
                    Some(l) => {
                        proof { text::lemma_chars_dv(l); }
                        match text::after_sub_exec(&l, &text::chars_of(" - ")) {
                            Some(after) => {
                                proof { text::lemma_chars_dv(after); }
                                let parts = text::words_of(&after);
                                proof { text::lemma_dv_all(parts); }
                                let ghost pv = parts.deep_view();
                                let mut k: usize = 0;
                                while k < parts.len() && text::first_delim_exec(
                                    &parts[k],
                                    Delim::Char('@'),
                                ).is_none()
                                    invariant
                                        k <= parts.len(),
                                        pv == parts.deep_view(),
                                        pv.len() == parts@.len(),
                                        forall|j: int| 0 <= j < parts@.len() ==> #[trigger] pv[j] == parts@[j]@,
                                        first_with_at(pv, 0) == first_with_at(pv, k as int),
                                    decreases parts.len() - k,
                                {
                                    k += 1;
                                }
                                if k == parts.len() {
                                    return false;
                                }
                                let p = &parts[k];
                                let mut me = text::chars_of(p4_user);
                                me.push('@');
                                let me = text::concat(&me, &text::chars_of(p4_client));
                                assert(me@ =~= p4_user@ + seq!['@'] + p4_client@);
                                if !text::str_is_empty(p4_user) && !text::str_is_empty(p4_client)
                                    && text::contains(p, &me) {
                                    self.checkout_by = String::from_str("You");
                                } else {
                                    self.checkout_by = text::string_of(
                                        &text::before_first_exec(p, Delim::Char('@')),
                                    );
                                }
                                true
                            },
                            None => false,
                        }
                    },
                    None => false,
                }
            },
            CommandRun::Failed(_) => false,
        }
    }
}

} // verus!
