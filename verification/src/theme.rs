//! The parts of the theme that are computed: colors written as hex codes,
//! and the default icons, each a character given by its code point in hex.
use vstd::prelude::*;
use crate::text;

verus! {

/// The value of a hex digit, if `c` is one (either case).
pub open spec fn hex_val(c: char) -> Option<nat> {
    if '0' <= c && c <= '9' {
        Some((c as u32 - '0' as u32) as nat)
    } else if 'a' <= c && c <= 'f' {
        Some((c as u32 - 'a' as u32 + 10) as nat)
    } else if 'A' <= c && c <= 'F' {
        Some((c as u32 - 'A' as u32 + 10) as nat)
    } else {
        None
    }
}

/// Every character of `s` is a hex digit.
pub open spec fn all_hex(s: Seq<char>) -> bool {
    forall|i: int| 0 <= i < s.len() ==> hex_val(#[trigger] s[i]) is Some
}

/// The number that the hex digits `s` write.
pub open spec fn hex_value(s: Seq<char>) -> nat
    decreases s.len(),
{
    if s.len() == 0 {
        0
    } else {
        16 * hex_value(s.drop_last()) + match hex_val(s.last()) {
            Some(v) => v,
            None => 0,
        }
    }
}

/// The number that `s` writes in hex, as `u32::from_str_radix(s, 16)`
/// reads it: one optional `+`, then one or more hex digits, and a value
/// that fits in a `u32`.
pub open spec fn parse_hex_u32(s: Seq<char>) -> Option<u32> {
    let t = if s.len() > 0 && s[0] == '+' { s.drop_first() } else { s };
    if t.len() > 0 && all_hex(t) && hex_value(t) <= u32::MAX {
        Some(hex_value(t) as u32)
    } else {
        None
    }
}

proof fn lemma_hex_prefix(t: Seq<char>, k: int)
    requires
        0 <= k <= t.len(),
        all_hex(t),
    ensures
        hex_value(t.take(k)) <= hex_value(t),
    decreases t.len(),
{
    if k < t.len() {
        assert(t.drop_last().take(k) =~= t.take(k));
        lemma_hex_prefix(t.drop_last(), k);
    } else {
        assert(t.take(k) =~= t);
    }
}

fn hex_val_exec(c: char) -> (r: Option<u32>)
    ensures
        match r {
            Some(v) => hex_val(c) == Some(v as nat) && v < 16,
            None => hex_val(c) is None,
        },
{
    if '0' <= c && c <= '9' {
        Some(c as u32 - '0' as u32)
    } else if 'a' <= c && c <= 'f' {
        Some(c as u32 - 'a' as u32 + 10)
    } else if 'A' <= c && c <= 'F' {
        Some(c as u32 - 'A' as u32 + 10)
    } else {
        None
    }
}

/// `u32::from_str_radix(s, 16)`.
pub fn from_hex(s: &str) -> (r: Option<u32>)
    ensures
        r == parse_hex_u32(s@),
{
    let v = text::chars_of(s);
    let start: usize = if v.len() > 0 && v[0] == '+' { 1 } else { 0 };
    let ghost t = if s@.len() > 0 && s@[0] == '+' { s@.drop_first() } else { s@ };
    assert(t =~= v@.skip(start as int));
    if start >= v.len() {
        return None;
    }
    let mut acc: u32 = 0;
    let mut i: usize = start;
    while i < v.len()
        invariant
            start <= i <= v.len(),
            v@ == s@,
            t == (if s@.len() > 0 && s@[0] == '+' { s@.drop_first() } else { s@ }),
            t =~= v@.skip(start as int),
            acc as nat == hex_value(t.take(i - start)),
            all_hex(t.take(i - start)),
        decreases v.len() - i,
    {
        assert(t.take(i + 1 - start).drop_last() =~= t.take(i - start));
        assert(t[i - start] == v@[i as int]);
        let d = match hex_val_exec(v[i]) {
            Some(d) => d,
            None => {
                assert(!all_hex(t));
                return None;
            },
        };
        assert(all_hex(t.take(i + 1 - start)));
        let next = match acc.checked_mul(16) {
            Some(m) => m.checked_add(d),
            None => None,
        };
        match next {
            Some(n) => {
                acc = n;
            },
            None => {
                proof {
                    if all_hex(t) {
                        lemma_hex_prefix(t, i + 1 - start);
                    }
                }
                return None;
            },
        }
        i += 1;
    }
    assert(t.take(v.len() - start) =~= t);
    Some(acc)
}

/// The red, green and blue parts of a `0xRRGGBB` number (the low 24 bits).
pub open spec fn rgb_of(c: u32) -> (u8, u8, u8) {
    (((c / 65536) % 256) as u8, ((c / 256) % 256) as u8, (c % 256) as u8)
}

/// The color that a hex code `#RRGGBB` (the `#` optional, any number of
/// them) gives: its red, green and blue parts; none where the rest does not
/// read as a hex number (the theme then falls back to white).
pub open spec fn hex_rgb_spec(hex: Seq<char>) -> Option<(u8, u8, u8)> {
    match parse_hex_u32(text::trim_start_spec(hex, text::Delim::Char('#'))) {
        Some(c) => Some(rgb_of(c)),
        None => None,
    }
}

/// The red, green and blue parts of a hex color code.
pub fn hex_rgb(hex: &str) -> (r: Option<(u8, u8, u8)>)
    ensures
        r == hex_rgb_spec(hex@),
{
    let t = text::trim_start_of(&text::chars_of(hex), text::Delim::Char('#'));
    match from_hex(text::string_of(&t).as_str()) {
        Some(c) => Some((((c / 65536) % 256) as u8, ((c / 256) % 256) as u8, (c % 256) as u8)),
        None => None,
    }
}

/// The color that a theme entry gives when it is written as a hex code:
/// the entry must begin with `#`; otherwise it is a color name.
pub open spec fn entry_rgb_spec(s: Seq<char>) -> Option<(u8, u8, u8)> {
    if s.len() > 0 && s[0] == '#' {
        hex_rgb_spec(s)
    } else {
        None
    }
}

/// The color that a theme entry gives when it is written as a hex code.
pub fn entry_rgb(s: &str) -> (r: Option<(u8, u8, u8)>)
    ensures
        r == entry_rgb_spec(s@),
{
    let v = text::chars_of(s);
    if v.len() > 0 && v[0] == '#' {
        hex_rgb(s)
    } else {
        None
    }
}

/// The character with code point `n`, where there is one: `n` is at most
/// `0x10FFFF` and no surrogate.
pub open spec fn char_of(n: u32) -> Option<char> {
    if n <= 0x10FFFF && !(0xD800 <= n && n <= 0xDFFF) {
        Some(n as char)
    } else {
        None
    }
}

/// Calls `char::from_u32`. Claimed, as its documentation says: the
/// character with code point `n` where `n` is a Unicode scalar value (at
/// most `0x10FFFF` and no surrogate), `None` otherwise.
#[verifier::external_body]
fn char_from_u32(n: u32) -> (r: Option<char>)
    ensures
        r == char_of(n),
{
    char::from_u32(n)
}

/// The character whose code point `hex` writes in hex, or `?`.
pub open spec fn char_from_hex_spec(hex: Seq<char>) -> char {
    match parse_hex_u32(hex) {
        Some(n) => match char_of(n) {
            Some(c) => c,
            None => '?',
        },
        None => '?',
    }
}

/// The character whose code point `hex` writes in hex, or `?`.
pub fn char_from_hex(hex: &str) -> (r: char)
    ensures
        r == char_from_hex_spec(hex@),
{
    match from_hex(hex) {
        Some(n) => match char_from_u32(n) {
            Some(c) => c,
            None => '?',
        },
        None => '?',
    }
}

fn icon(hex: &str) -> (r: String)
    ensures
        r@ == seq![char_from_hex_spec(hex@)],
{
    let mut s = String::new();
    text::push_char(&mut s, char_from_hex(hex));
    s
}

/// The icons of the file browser and the panels.
#[derive(Clone, Debug)]
pub struct Icons {
    pub own_edit: String,
    pub other_checkout: String,
    pub mark_add: String,
    pub mark_delete: String,
    pub folder: String,
    pub folder_empty: String,
    pub folder_open: String,
    pub changelist_head: String,
    pub pending_default: String,
    pub client_root: String,
    pub untracked: String,
    pub file_default: String,
}

impl Default for Icons {
    /// The default icons, each one character of a Nerd Font.
    fn default() -> (r: Icons)
        ensures
            r.own_edit@ == seq![char_from_hex_spec("f0208"@)],
            r.other_checkout@ == seq![char_from_hex_spec("f0420"@)],
            r.mark_add@ == seq![char_from_hex_spec("f4d0"@)],
            r.mark_delete@ == seq![char_from_hex_spec("f09e7"@)],
            r.folder@ == seq![char_from_hex_spec("f024b"@)],
            r.folder_empty@ == seq![char_from_hex_spec("f114"@)],
            r.folder_open@ == seq![char_from_hex_spec("f115"@)],
            r.changelist_head@ == seq![char_from_hex_spec("f0273"@)],
            r.pending_default@ == seq![char_from_hex_spec("f14b"@)],
            r.client_root@ == seq![char_from_hex_spec("f06d9"@)],
            r.untracked@ == seq![char_from_hex_spec("f1036"@)],
            r.file_default@ == seq![char_from_hex_spec("f0214"@)],
    {
        Icons {
            own_edit: icon("f0208"),
            other_checkout: icon("f0420"),
            mark_add: icon("f4d0"),
            mark_delete: icon("f09e7"),
            folder: icon("f024b"),
            folder_empty: icon("f114"),
            folder_open: icon("f115"),
            changelist_head: icon("f0273"),
            pending_default: icon("f14b"),
            client_root: icon("f06d9"),
            untracked: icon("f1036"),
            file_default: icon("f0214"),
        }
    }
}

} // verus!
