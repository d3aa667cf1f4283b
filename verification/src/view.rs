//! The text of the screen: what each panel writes, laid out to the widths
//! that the terminal gives. Colors and borders are the drawing's own.
use vstd::prelude::*;
use crate::text;
use crate::state::{ActivePanel, LogItem, Core, sat, id_in, ids_contain};
use crate::changelist::{ChangeListItem, ChangeListFile};
use crate::detail::FileDetail;
use crate::filetree::{FileItem, FileP4Status};
use crate::sync::{SyncFileInfo, SyncFileStatus};
use crate::path;

verus! {

/// `n` spaces.
pub open spec fn spaces(n: nat) -> Seq<char> {
    Seq::new(n, |i: int| ' ')
}

/// `a - b`, or 0 where `b` is larger (`saturating_sub`).
pub open spec fn sub0(a: int, b: int) -> nat {
    if a > b {
        (a - b) as nat
    } else {
        0
    }
}

/// Appends `n` copies of `c`.
pub fn push_repeat(out: &mut Vec<char>, c: char, n: usize)
    ensures
        final(out)@ == old(out)@ + Seq::new(n as nat, |i: int| c),
{
    let mut i: usize = 0;
    while i < n
        invariant
            i <= n,
            out@ =~= old(out)@ + Seq::new(i as nat, |j: int| c),
        decreases n - i,
    {
        out.push(c);
        i += 1;
    }
}

/// The key hints of the footer for the active panel.
pub open spec fn footer_hints(p: ActivePanel) -> Seq<char> {
    match p {
        ActivePanel::Scope => "[Enter] p4 info"@,
        ActivePanel::FileTree => "[c] checkout | [a] add | [d] delete | [r] revert"@,
        ActivePanel::Pending => "[S] submit | [r] revert"@,
        ActivePanel::ChangeList => "[s] fetch & sync | [f] fetch | [g] sync to selected | [F] show in filetree"@,
        ActivePanel::Detail => "[y] copy to clipboard"@,
        _ => Seq::empty(),
    }
}

/// The right end of the footer, always shown.
pub open spec fn footer_right() -> Seq<char> {
    "[Q] quit | [?] keybind | ver 0.0.1"@
}

/// The footer line for a terminal `width` characters wide: the hints on
/// the left (cut with `...` where they do not fit), the fixed text on the
/// right; the fixed text alone where the line is too narrow.
pub open spec fn footer_spec(p: ActivePanel, width: nat) -> Seq<char> {
    let right = footer_right();
    let rw = right.len();
    if width > rw + 5 {
        let avail = sub0(sub0(width as int, rw as int) as int, 2);
        let h = footer_hints(p);
        let left = if h.len() > avail {
            h.take(sub0(avail as int, 3) as int) + "..."@
        } else {
            h
        };
        left + spaces(sub0(sub0(width as int, left.len() as int) as int, rw as int)) + right
    } else {
        right
    }
}

fn hints_of(p: ActivePanel) -> (r: Vec<char>)
    ensures
        r@ == footer_hints(p),
{
    match p {
        ActivePanel::Scope => text::chars_of("[Enter] p4 info"),
        ActivePanel::FileTree => text::chars_of("[c] checkout | [a] add | [d] delete | [r] revert"),
        ActivePanel::Pending => text::chars_of("[S] submit | [r] revert"),
        ActivePanel::ChangeList => text::chars_of(
            "[s] fetch & sync | [f] fetch | [g] sync to selected | [F] show in filetree",
        ),
        ActivePanel::Detail => text::chars_of("[y] copy to clipboard"),
        _ => Vec::new(),
    }
}

/// The footer line for a terminal `width` characters wide.
pub fn footer_line(p: ActivePanel, width: usize) -> (r: String)
    ensures
        r@ == footer_spec(p, width as nat),
{
    let right = text::chars_of("[Q] quit | [?] keybind | ver 0.0.1");
    let rw = right.len();
    if rw < width && width - rw > 5 {
        let avail = width - rw - 2;
        let h = hints_of(p);
        let left = if h.len() > avail {
            let cut = if avail > 3 { avail - 3 } else { 0 };
            text::concat(&text::slice_of(&h, 0, cut), &text::chars_of("..."))
        } else {
            h
        };
        let mut out = left.clone();
        let gap = if width > left.len() { width - left.len() } else { 0 };
        let spacing = if gap > rw { gap - rw } else { 0 };
        push_repeat(&mut out, ' ', spacing);
        let out = text::concat(&out, &right);
        proof {
            let hs = footer_hints(p);
            assert(left@ == (if hs.len() > avail { hs.take(sub0(avail as int, 3) as int) + "..."@ } else { hs }));
            assert(Seq::new(spacing as nat, |i: int| ' ') =~= spaces(spacing as nat));
        }
        text::string_of(&out)
    } else {
        text::string_of(&right)
    }
}

/// The lines that the log panel writes for one entry: the time, the
/// command, each line of the output indented, and a blank line.
pub open spec fn log_item_lines(l: LogItem) -> Seq<Seq<char>> {
    seq![seq!['['] + l.time@ + seq![']'], seq!['>', ' '] + l.command@]
        + text::lines_spec(l.output@).map_values(|x: Seq<char>| seq![' ', ' '] + x)
        + seq![Seq::<char>::empty()]
}

/// How many lines the entries `logs` take in the log panel.
pub open spec fn log_rows(logs: Seq<LogItem>) -> nat
    decreases logs.len(),
{
    if logs.len() == 0 {
        0
    } else {
        log_rows(logs.drop_last()) + log_item_lines(logs.last()).len()
    }
}

/// The lines of one log entry.
pub fn log_lines(l: &LogItem) -> (r: Vec<String>)
    ensures
        text::strs_view(r@) == log_item_lines(*l),
{
    let mut r: Vec<String> = Vec::new();
    let mut t = vec!['['];
    t = text::concat(&t, &text::chars_of(l.time.as_str()));
    t.push(']');
    assert(t@ =~= seq!['['] + l.time@ + seq![']']);
    r.push(text::string_of(&t));
    let c = text::concat(&vec!['>', ' '], &text::chars_of(l.command.as_str()));
    assert(c@ =~= seq!['>', ' '] + l.command@);
    r.push(text::string_of(&c));
    let ls = text::lines_of(&text::chars_of(l.output.as_str()));
    proof { text::lemma_dv_all(ls); }
    let ghost lsv = ls.deep_view();
    let ghost head = seq![seq!['['] + l.time@ + seq![']'], seq!['>', ' '] + l.command@];
    assert(text::strs_view(r@) =~= head);
    let mut i: usize = 0;
    while i < ls.len()
        invariant
            i <= ls.len(),
            lsv == ls.deep_view(),
            lsv == text::lines_spec(l.output@),
            lsv.len() == ls@.len(),
            forall|j: int| 0 <= j < ls@.len() ==> #[trigger] lsv[j] == ls@[j]@,
            text::strs_view(r@) =~= head + lsv.take(i as int).map_values(|x: Seq<char>| seq![' ', ' '] + x),
        decreases ls.len() - i,
    {
        let line = text::concat(&vec![' ', ' '], &ls[i]);
        let ghost before = r@;
        r.push(text::string_of(&line));
        assert(lsv.take(i + 1).map_values(|x: Seq<char>| seq![' ', ' '] + x) =~= lsv.take(i as int).map_values(
            |x: Seq<char>| seq![' ', ' '] + x,
        ).push(seq![' ', ' '] + lsv[i as int]));
        assert(text::strs_view(r@) =~= text::strs_view(before).push(line@));
        i += 1;
    }
    assert(lsv.take(ls.len() as int) =~= lsv);
    r.push(String::new());
    assert(text::strs_view(r@) =~= log_item_lines(*l));
    r
}

/// How far the log panel scrolls to show the entry under the cursor at
/// the top: the lines of the entries before it (no more than the largest
/// `usize`).
pub fn log_scroll_offset(logs: &Vec<LogItem>, cursor: usize) -> (r: usize)
    ensures
        r == sat(log_rows(logs@.take(if cursor < logs@.len() { cursor as int } else { logs@.len() as int }))),
{
    let n = if cursor < logs.len() { cursor } else { logs.len() };
    let mut total: usize = 0;
    let mut i: usize = 0;
    while i < n
        invariant
            n <= logs.len(),
            i <= n,
            total == sat(log_rows(logs@.take(i as int))),
        decreases n - i,
    {
        let lines = log_lines(&logs[i]);
        let count = lines.len();
        proof {
            assert(logs@.take(i + 1).drop_last() =~= logs@.take(i as int));
            assert(text::strs_view(lines@).len() == lines@.len());
        }
        total = total.saturating_add(count);
        i += 1;
    }
    total
}

/// How many bytes the UTF-8 encoding of `s` takes.
pub open spec fn blen(s: Seq<char>) -> nat {
    text::utf8_len(s)
}

/// One row of the detail panel: a marker where selected, the label, and
/// the value at the right end of `cw` columns (padding counted in bytes,
/// as `str::len` counts).
pub open spec fn detail_row_spec(label: Seq<char>, value: Seq<char>, cw: nat, selected: bool) -> Seq<char> {
    (if selected { "> "@ } else { "  "@ }) + label + seq![' '] + spaces(
        sub0(sub0(cw as int, blen(label) as int) as int, blen(value) as int),
    ) + value
}

/// The labels of the detail rows, in order.
pub open spec fn detail_labels() -> Seq<Seq<char>> {
    seq![
        "FileName"@,
        "FileSize"@,
        "DepotPath"@,
        "Revision"@,
        "DateModified"@,
        "ChangeList"@,
        "Action"@,
        "LatestUser"@,
    ]
}

/// The values of the detail rows, in the order of the labels.
pub open spec fn detail_values(d: FileDetail) -> Seq<Seq<char>> {
    seq![
        d.filename@,
        d.filesize@,
        d.depot_path@,
        d.revision@,
        d.date_modified@,
        d.changelist@,
        d.action@,
        d.latest_user@,
    ]
}

fn detail_row(label: &str, value: &String, cw: usize, selected: bool) -> (r: String)
    ensures
        r@ == detail_row_spec(label@, value@, cw as nat, selected),
{
    let l = text::chars_of(label);
    let v = text::chars_of(value.as_str());
    let ll = text::utf8_len_of(&l);
    let vl = text::utf8_len_of(&v);
    let a = if cw > ll { cw - ll } else { 0 };
    let pad = if a > vl { a - vl } else { 0 };
    let mut out = if selected { vec!['>', ' '] } else { vec![' ', ' '] };
    out = text::concat(&out, &l);
    out.push(' ');
    push_repeat(&mut out, ' ', pad);
    let out = text::concat(&out, &v);
    proof {
        assert(pad == sub0(sub0(cw as int, blen(label@) as int) as int, blen(value@) as int));
        assert(Seq::new(pad as nat, |i: int| ' ') =~= spaces(pad as nat));
        reveal_strlit("> ");
        reveal_strlit("  ");
    }
    assert(out@ =~= detail_row_spec(label@, value@, cw as nat, selected));
    text::string_of(&out)
}

/// The rows of the detail panel for `d`, `cw` columns wide; with the
/// panel `active`, the row under `cursor` is marked.
pub fn detail_rows(d: &FileDetail, cw: usize, active: bool, cursor: usize) -> (r: Vec<String>)
    ensures
        r@.len() == 8,
        forall|i: int| 0 <= i < 8 ==> (#[trigger] r@[i])@ == detail_row_spec(
            detail_labels()[i],
            detail_values(*d)[i],
            cw as nat,
            active && cursor == i,
        ),
{
    let mut r: Vec<String> = Vec::new();
    r.push(detail_row("FileName", &d.filename, cw, active && cursor == 0));
    r.push(detail_row("FileSize", &d.filesize, cw, active && cursor == 1));
    r.push(detail_row("DepotPath", &d.depot_path, cw, active && cursor == 2));
    r.push(detail_row("Revision", &d.revision, cw, active && cursor == 3));
    r.push(detail_row("DateModified", &d.date_modified, cw, active && cursor == 4));
    r.push(detail_row("ChangeList", &d.changelist, cw, active && cursor == 5));
    r.push(detail_row("Action", &d.action, cw, active && cursor == 6));
    r.push(detail_row("LatestUser", &d.latest_user, cw, active && cursor == 7));
    r
}

/// The header of the detail panel where someone has the file open: the
/// label and the name at the right end of `cw` columns, then a rule.
pub open spec fn checkout_header_spec(checkout_by: Seq<char>, cw: nat) -> Option<(Seq<char>, Seq<char>)> {
    let c = text::trim_spec(checkout_by, text::Delim::Whitespace);
    if c.len() == 0 {
        None
    } else {
        Some(
            (
                "  "@ + "CheckoutBy:"@ + spaces(
                    sub0(sub0(cw as int, blen("CheckoutBy:"@) as int) as int, blen(c) as int),
                ) + c,
                "  "@ + Seq::new(cw, |i: int| '\u{2500}'),
            ),
        )
    }
}

/// The header of the detail panel, if someone has the file open.
pub fn checkout_header(d: &FileDetail, cw: usize) -> (r: Option<(String, String)>)
    ensures
        match r {
            Some((a, b)) => checkout_header_spec(d.checkout_by@, cw as nat) == Some((a@, b@)),
            None => checkout_header_spec(d.checkout_by@, cw as nat) is None,
        },
{
    let c = text::trim_of(&text::chars_of(d.checkout_by.as_str()), text::Delim::Whitespace);
    if c.len() == 0 {
        return None;
    }
    let label = text::chars_of("CheckoutBy:");
    let ll = text::utf8_len_of(&label);
    let cl = text::utf8_len_of(&c);
    let a = if cw > ll { cw - ll } else { 0 };
    let pad = if a > cl { a - cl } else { 0 };
    let mut line = text::concat(&text::chars_of("  "), &label);
    push_repeat(&mut line, ' ', pad);
    let line = text::concat(&line, &c);
    let mut rule = text::chars_of("  ");
    push_repeat(&mut rule, '\u{2500}', cw);
    proof {
        assert(Seq::new(pad as nat, |i: int| ' ') =~= spaces(pad as nat));
    }
    assert(line@ =~= "  "@ + "CheckoutBy:"@ + spaces(pad as nat) + c@);
    Some((text::string_of(&line), text::string_of(&rule)))
}

/// What the detail panel says when there is no detail: the message, or
/// just "Not a Perforce-managed object" where the message says so.
pub open spec fn detail_error_spec(err: Seq<char>) -> Seq<char> {
    if text::contains_spec(err, "Not a Perforce-managed object"@) {
        "Not a Perforce-managed object"@
    } else {
        err
    }
}

/// What the detail panel says when there is no detail.
pub fn detail_error_text(err: &str) -> (r: String)
    ensures
        r@ == detail_error_spec(err@),
{
    let e = text::chars_of(err);
    let m = text::chars_of("Not a Perforce-managed object");
    if text::contains(&e, &m) {
        text::string_of(&m)
    } else {
        text::string_of(&e)
    }
}

/// The workspace line of the domain panel, `width` columns wide: the
/// root, named as the virtual root or the client root, whole where its
/// bytes fit, else the root's last name after
/// `.../`, cut to `width` characters where even that does not fit; nothing
/// where the panel is 15 columns or narrower. Byte counts are taken as
/// `u16`, as the panel takes them.
pub open spec fn domain_spec(root: Seq<char>, is_virtual: bool, width: u16) -> Seq<char> {
    let prefix = if is_virtual { "Virtual Root: "@ } else { "Client Root: "@ };
    if width > 15 {
        let full = prefix + root;
        if blen(full) % 65536 <= width {
            full
        } else {
            let last = match crate::path::path_file_name(root) {
                Some(n) => n,
                None => root,
            };
            let ab = prefix + ".../"@ + last;
            if blen(ab) % 65536 <= width {
                ab
            } else if ab.len() <= width {
                ab
            } else {
                ab.take(width as int)
            }
        }
    } else {
        Seq::empty()
    }
}

fn fits_u16(s: &Vec<char>, width: u16) -> (r: bool)
    ensures
        r == (blen(s@) % 65536 <= width),
{
    let mut total: u32 = 0;
    let mut i: usize = 0;
    assert(s@.take(0) =~= Seq::<char>::empty());
    while i < s.len()
        invariant
            i <= s.len(),
            total < 65536,
            total == blen(s@.take(i as int)) % 65536,
        decreases s.len() - i,
    {
        assert(s@.take(i + 1).drop_last() =~= s@.take(i as int));
        let c = s[i] as u32;
        let w: u32 = if c < 0x80 {
            1
        } else if c < 0x800 {
            2
        } else if c < 0x10000 {
            3
        } else {
            4
        };
        proof {
            let a = blen(s@.take(i as int)) as int;
            vstd::arithmetic::div_mod::lemma_add_mod_noop(a, w as int, 65536);
            vstd::arithmetic::div_mod::lemma_small_mod(w as nat, 65536);
            assert(blen(s@.take(i + 1)) == a + w);
        }
        total = (total + w) % 65536;
        i += 1;
    }
    assert(s@.take(s.len() as int) =~= s@);
    total <= width as u32
}

/// The workspace line of the domain panel.
pub fn domain_text(root: &str, is_virtual: bool, width: u16) -> (r: String)
    ensures
        r@ == domain_spec(root@, is_virtual, width),
{
    if width <= 15 {
        return String::new();
    }
    let prefix = if is_virtual { text::chars_of("Virtual Root: ") } else { text::chars_of("Client Root: ") };
    let full = text::concat(&prefix, &text::chars_of(root));
    if fits_u16(&full, width) {
        return text::string_of(&full);
    }
    let last = match crate::path::file_name_of(root) {
        Some(n) => text::chars_of(n.as_str()),
        None => text::chars_of(root),
    };
    let ab = text::concat(&text::concat(&prefix, &text::chars_of(".../")), &last);
    if fits_u16(&ab, width) || ab.len() <= width as usize {
        text::string_of(&ab)
    } else {
        text::string_of(&text::slice_of(&ab, 0, width as usize))
    }
}

/// A row of the login overlay: the label on the left and the value on the
/// right of `width` columns, one column of margin on each side. Byte
/// counts are taken as `u16`, as the overlay takes them.
pub open spec fn login_row_spec(label: Seq<char>, value: Seq<char>, width: u16) -> Seq<char> {
    seq![' '] + label + spaces(
        sub0(
            sub0(sub0(width as int, (blen(label) % 65536) as int) as int, (blen(value) % 65536) as int) as int,
            2,
        ),
    ) + value + seq![' ']
}

fn len_u16(s: &Vec<char>) -> (r: u16)
    ensures
        r == blen(s@) % 65536,
{
    let mut total: u32 = 0;
    let mut i: usize = 0;
    assert(s@.take(0) =~= Seq::<char>::empty());
    while i < s.len()
        invariant
            i <= s.len(),
            total < 65536,
            total == blen(s@.take(i as int)) % 65536,
        decreases s.len() - i,
    {
        assert(s@.take(i + 1).drop_last() =~= s@.take(i as int));
        let c = s[i] as u32;
        let w: u32 = if c < 0x80 {
            1
        } else if c < 0x800 {
            2
        } else if c < 0x10000 {
            3
        } else {
            4
        };
        proof {
            let a = blen(s@.take(i as int)) as int;
            vstd::arithmetic::div_mod::lemma_add_mod_noop(a, w as int, 65536);
            vstd::arithmetic::div_mod::lemma_small_mod(w as nat, 65536);
            assert(blen(s@.take(i + 1)) == a + w);
        }
        total = (total + w) % 65536;
        i += 1;
    }
    assert(s@.take(s.len() as int) =~= s@);
    total as u16
}

/// A row of the login overlay.
pub fn login_row(label: &str, value: &str, width: u16) -> (r: String)
    ensures
        r@ == login_row_spec(label@, value@, width),
{
    let l = text::chars_of(label);
    let v = text::chars_of(value);
    let pad = width.saturating_sub(len_u16(&l)).saturating_sub(len_u16(&v)).saturating_sub(2);
    let mut out = vec![' '];
    out = text::concat(&out, &l);
    push_repeat(&mut out, ' ', pad as usize);
    out = text::concat(&out, &v);
    out.push(' ');
    proof {
        assert(Seq::new(pad as nat, |i: int| ' ') =~= spaces(pad as nat));
    }
    assert(out@ =~= login_row_spec(label@, value@, width));
    text::string_of(&out)
}

/// The password as the login overlay shows it: one `*` per byte.
pub fn masked(password: &str) -> (r: String)
    ensures
        r@ == Seq::new(
            if blen(password@) > usize::MAX { usize::MAX as nat } else { blen(password@) },
            |i: int| '*',
        ),
{
    let n = text::utf8_len_of(&text::chars_of(password));
    let mut out: Vec<char> = Vec::new();
    push_repeat(&mut out, '*', n);
    assert(out@ =~= Seq::new(n as nat, |i: int| '*'));
    text::string_of(&out)
}

/// The title of the description box of the submit overlay, with the
/// description's length in bytes.
pub fn description_title(description: &str) -> (r: String)
    ensures
        r@ == "\u{2500}Description ("@ + text::decimal(
            if blen(description@) > usize::MAX { usize::MAX as nat } else { blen(description@) },
        ) + ") "@,
{
    let n = text::utf8_len_of(&text::chars_of(description));
    let mut out = text::chars_of("\u{2500}Description (");
    text::push_decimal(&mut out, n as u64);
    let out = text::concat(&out, &text::chars_of(") "));
    text::string_of(&out)
}

/// The icons that the panels put before an entry.
#[derive(Clone, Copy, PartialEq, Eq, Structural, Debug)]
pub enum EntryIcon {
    ClientRoot,
    VirtualRoot,
    FolderOpen,
    Folder,
    MarkAdd,
    OwnEdit,
    MarkDelete,
    OtherCheckout,
    Untracked,
    FileDefault,
}

/// The icon of a file with status `s`.
pub open spec fn status_icon(s: FileP4Status) -> EntryIcon {
    match s {
        FileP4Status::Add => EntryIcon::MarkAdd,
        FileP4Status::Edit => EntryIcon::OwnEdit,
        FileP4Status::Delete => EntryIcon::MarkDelete,
        FileP4Status::OtherCheckout => EntryIcon::OtherCheckout,
        FileP4Status::Untracked => EntryIcon::Untracked,
        FileP4Status::NotOpened => EntryIcon::FileDefault,
    }
}

/// The icon of an entry of the parent column.
pub open spec fn parent_icon_spec(f: FileItem, root: Seq<char>) -> EntryIcon {
    if f.is_dir {
        if path::path_eq(f.path@, root) {
            EntryIcon::ClientRoot
        } else {
            EntryIcon::FolderOpen
        }
    } else {
        status_icon(f.p4_status)
    }
}

/// The icon of an entry of the current column, `selected` where the
/// cursor is on it.
pub open spec fn entry_icon_spec(f: FileItem, selected: bool, root: Seq<char>, vroot: Option<Seq<char>>) -> EntryIcon {
    if f.is_dir {
        if path::path_eq(f.path@, root) {
            EntryIcon::ClientRoot
        } else if vroot matches Some(v) && path::path_eq(v, f.path@) {
            EntryIcon::VirtualRoot
        } else if selected {
            EntryIcon::FolderOpen
        } else {
            EntryIcon::Folder
        }
    } else {
        status_icon(f.p4_status)
    }
}

fn status_icon_exec(s: FileP4Status) -> (r: EntryIcon)
    ensures
        r == status_icon(s),
{
    match s {
        FileP4Status::Add => EntryIcon::MarkAdd,
        FileP4Status::Edit => EntryIcon::OwnEdit,
        FileP4Status::Delete => EntryIcon::MarkDelete,
        FileP4Status::OtherCheckout => EntryIcon::OtherCheckout,
        FileP4Status::Untracked => EntryIcon::Untracked,
        FileP4Status::NotOpened => EntryIcon::FileDefault,
    }
}

/// The icon of an entry of the parent column; `root` is the client root.
pub fn parent_icon(f: &FileItem, root: &str) -> (r: EntryIcon)
    ensures
        r == parent_icon_spec(*f, root@),
{
    if f.is_dir {
        if path::same_path(f.path.as_str(), root) {
            EntryIcon::ClientRoot
        } else {
            EntryIcon::FolderOpen
        }
    } else {
        status_icon_exec(f.p4_status)
    }
}

/// The icon of an entry of the current column; `root` is the client root
/// and `vroot` the virtual root, where there is one.
pub fn entry_icon(f: &FileItem, selected: bool, root: &str, vroot: Option<&str>) -> (r: EntryIcon)
    ensures
        r == entry_icon_spec(*f, selected, root@, match vroot {
            Some(v) => Some(v@),
            None => None,
        }),
{
    if f.is_dir {
        let is_vroot = match vroot {
            Some(v) => path::same_path(v, f.path.as_str()),
            None => false,
        };
        if path::same_path(f.path.as_str(), root) {
            EntryIcon::ClientRoot
        } else if is_vroot {
            EntryIcon::VirtualRoot
        } else if selected {
            EntryIcon::FolderOpen
        } else {
            EntryIcon::Folder
        }
    } else {
        status_icon_exec(f.p4_status)
    }
}

/// Whether an entry of the current column shows the colored bar of an
/// opened file: it is opened (by anyone) and the cursor is not on it.
pub fn shows_status_bar(f: &FileItem, selected: bool) -> (r: bool)
    ensures
        r == (!selected && (f.p4_status == FileP4Status::Add || f.p4_status == FileP4Status::Edit
            || f.p4_status == FileP4Status::Delete || f.p4_status == FileP4Status::OtherCheckout)),
{
    !selected && match f.p4_status {
        FileP4Status::Add | FileP4Status::Edit | FileP4Status::Delete | FileP4Status::OtherCheckout => true,
        _ => false,
    }
}

/// The icon of a pending file with action `action`.
pub open spec fn action_icon_spec(action: Seq<char>) -> EntryIcon {
    if action == "add"@ {
        EntryIcon::MarkAdd
    } else if action == "edit"@ {
        EntryIcon::OwnEdit
    } else if action == "delete"@ {
        EntryIcon::MarkDelete
    } else {
        EntryIcon::FileDefault
    }
}

/// The icon of a pending file with action `action`.
pub fn action_icon(action: &str) -> (r: EntryIcon)
    ensures
        r == action_icon_spec(action@),
{
    let a = text::chars_of(action);
    if text::chars_eq(&a, &text::chars_of("add")) {
        EntryIcon::MarkAdd
    } else if text::chars_eq(&a, &text::chars_of("edit")) {
        EntryIcon::OwnEdit
    } else if text::chars_eq(&a, &text::chars_of("delete")) {
        EntryIcon::MarkDelete
    } else {
        EntryIcon::FileDefault
    }
}

/// The name that a sync row shows for a depot path: its last part, cut
/// with `...` and padded with spaces to `nw` characters.
pub open spec fn sync_name_spec(depot: Seq<char>, nw: nat) -> Seq<char> {
    let f = text::split_spec(depot, text::Delim::Char('/')).last();
    let t = if f.len() > nw {
        f.take(sub0(nw as int, 3) as int) + "..."@
    } else {
        f
    };
    t + spaces(sub0(nw as int, t.len() as int))
}

/// The rows of the sync overlay: the files syncing or done, in order, each
/// with its name `nw` characters wide.
pub open spec fn sync_rows_spec(files: Seq<SyncFileInfo>, nw: nat) -> Seq<(Seq<char>, SyncFileStatus)>
    decreases files.len(),
{
    if files.len() == 0 {
        Seq::empty()
    } else {
        let r = sync_rows_spec(files.drop_last(), nw);
        let f = files.last();
        if f.status == SyncFileStatus::Pending {
            r
        } else {
            r.push((sync_name_spec(f.depot_path@, nw), f.status))
        }
    }
}

fn sync_name(depot: &str, nw: usize) -> (r: Vec<char>)
    ensures
        r@ == sync_name_spec(depot@, nw as nat),
{
    let pieces = text::split_on(&text::chars_of(depot), text::Delim::Char('/'));
    proof {
        text::lemma_split_nonempty(depot@, text::Delim::Char('/'));
        text::lemma_dv_all(pieces);
    }
    let f = pieces[pieces.len() - 1].clone();
    let t = if f.len() > nw {
        let cut = if nw > 3 { nw - 3 } else { 0 };
        text::concat(&text::slice_of(&f, 0, cut), &text::chars_of("..."))
    } else {
        f
    };
    let mut out = t.clone();
    let pad = if nw > t.len() { nw - t.len() } else { 0 };
    push_repeat(&mut out, ' ', pad);
    proof {
        assert(Seq::new(pad as nat, |i: int| ' ') =~= spaces(pad as nat));
    }
    out
}

/// The rows of the sync overlay, names `nw` characters wide.
pub fn sync_rows(files: &Vec<SyncFileInfo>, nw: usize) -> (r: Vec<(String, SyncFileStatus)>)
    ensures
        r@.len() == sync_rows_spec(files@, nw as nat).len(),
        forall|i: int| 0 <= i < r@.len() ==> (#[trigger] r@[i]).0@ == sync_rows_spec(files@, nw as nat)[i].0
            && r@[i].1 == sync_rows_spec(files@, nw as nat)[i].1,
{
    let mut r: Vec<(String, SyncFileStatus)> = Vec::new();
    let mut i: usize = 0;
    while i < files.len()
        invariant
            i <= files.len(),
            r@.len() == sync_rows_spec(files@.take(i as int), nw as nat).len(),
            forall|j: int| 0 <= j < r@.len() ==> (#[trigger] r@[j]).0@ == sync_rows_spec(files@.take(i as int), nw as nat)[j].0
                && r@[j].1 == sync_rows_spec(files@.take(i as int), nw as nat)[j].1,
        decreases files.len() - i,
    {
        assert(files@.take(i + 1).drop_last() =~= files@.take(i as int));
        let f = &files[i];
        if f.status != SyncFileStatus::Pending {
            let name = sync_name(f.depot_path.as_str(), nw);
            r.push((text::string_of(&name), f.status));
        }
        i += 1;
    }
    assert(files@.take(files.len() as int) =~= files@);
    r
}

/// The name that a pending file row shows: the file name of the depot
/// path, or the whole path where it has none.
pub open spec fn pending_name(p: Seq<char>) -> Seq<char> {
    match path::path_file_name(p) {
        Some(n) => n,
        None => p,
    }
}

/// The directory that a pending file row shows, with `//depot` as `...`.
pub open spec fn pending_dir(p: Seq<char>) -> Seq<char> {
    let parent = match path::path_parent(p) {
        Some(q) => q,
        None => Seq::empty(),
    };
    text::replace_first(parent, "//depot"@, "..."@)
}

/// The number of characters of `s`, from `j` on, whose UTF-8 encoding
/// takes exactly `k` bytes: where a byte slice `&s[..k]` ends on a
/// character.
pub open spec fn byte_cut(s: Seq<char>, k: nat, j: int) -> Option<int>
    decreases s.len() - j,
{
    if j < 0 || j > s.len() {
        None
    } else if blen(s.take(j)) == k {
        Some(j)
    } else if blen(s.take(j)) > k || j == s.len() {
        None
    } else {
        byte_cut(s, k, j + 1)
    }
}

/// The right part of a file row in `avail` columns: right-aligned where it
/// fits, else its first `avail - 3` bytes and `...`; none where that cut
/// would fall inside a character.
pub open spec fn right_part(right: Seq<char>, avail: nat) -> Option<Seq<char>> {
    if right.len() > avail {
        match byte_cut(right, sub0(avail as int, 3), 0) {
            Some(j) => Some(right.take(j) + "..."@),
            None => None,
        }
    } else {
        Some(spaces(sub0(avail as int, right.len() as int)) + right)
    }
}

/// A row of the pending panel (and of the file list of the submit
/// overlay), `total` columns wide: the icon and the file name on the left;
/// where there is room, the revision and the directory on the right. None
/// where cutting the right part would split a character.
pub open spec fn file_row_spec(icon: Seq<char>, p: Seq<char>, revision: Seq<char>, total: nat) -> Option<
    (Seq<char>, Option<Seq<char>>),
> {
    let left = "   "@ + icon + seq![' '] + pending_name(p) + seq![' '];
    let right = revision + "  "@ + pending_dir(p) + "/ "@;
    if total > left.len() {
        match right_part(right, sub0(total as int, left.len() as int)) {
            Some(rp) => Some((left, Some(rp))),
            None => None,
        }
    } else {
        Some((left, None))
    }
}

fn byte_cut_exec(s: &Vec<char>, k: usize) -> (r: Option<usize>)
    ensures
        match r {
            Some(j) => byte_cut(s@, k as nat, 0) == Some(j as int),
            None => byte_cut(s@, k as nat, 0) is None,
        },
{
    let mut acc: u128 = 0;
    let mut j: usize = 0;
    assert(s@.take(0) =~= Seq::<char>::empty());
    loop
        invariant
            j <= s.len(),
            acc == blen(s@.take(j as int)),
            acc <= k as u128 + 4,
            byte_cut(s@, k as nat, 0) == byte_cut(s@, k as nat, j as int),
        decreases s.len() - j,
    {
        if acc == k as u128 {
            return Some(j);
        }
        if acc > k as u128 || j == s.len() {
            return None;
        }
        assert(s@.take(j + 1).drop_last() =~= s@.take(j as int));
        let c = s[j] as u32;
        let w: u128 = if c < 0x80 {
            1
        } else if c < 0x800 {
            2
        } else if c < 0x10000 {
            3
        } else {
            4
        };
        acc = acc + w;
        j += 1;
    }
}

/// A row of the pending panel, `total` columns wide, for the file at depot
/// path `p` with `revision`; `icon` is the icon of its action.
pub fn file_row(icon: &str, p: &str, revision: &str, total: usize) -> (r: Option<(String, Option<String>)>)
    ensures
        match r {
            Some((l, Some(rp))) => file_row_spec(icon@, p@, revision@, total as nat) == Some((l@, Some(rp@))),
            Some((l, None)) => file_row_spec(icon@, p@, revision@, total as nat) == Some((l@, None::<Seq<char>>)),
            None => file_row_spec(icon@, p@, revision@, total as nat) is None,
        },
        text::all_ascii(p@) && text::all_ascii(revision@) ==> r is Some,
{
    let name = match path::file_name_of(p) {
        Some(n) => text::chars_of(n.as_str()),
        None => text::chars_of(p),
    };
    let parent = match path::parent_of(p) {
        Some(q) => {
            proof {
                if text::all_ascii(p@) {
                    assert forall|i: int| 0 <= i < q@.len() implies ((#[trigger] q@[i]) as u32) < 0x80 by {
                        assert(q@[i] == p@[i]);
                    }
                }
            }
            text::chars_of(q.as_str())
        },
        None => Vec::new(),
    };
    let dots = text::chars_of("...");
    proof {
        reveal_strlit("...");
        assert(text::all_ascii(dots@));
        if text::all_ascii(p@) {
            lemma_replace_first_ascii(parent@, "//depot"@, dots@);
        }
    }
    let dir = text::replace_first_exec(&parent, &text::chars_of("//depot"), &dots);
    let mut left = text::concat(&text::chars_of("   "), &text::chars_of(icon));
    left.push(' ');
    left = text::concat(&left, &name);
    left.push(' ');
    let mut right = text::concat(&text::chars_of(revision), &text::chars_of("  "));
    right = text::concat(&right, &dir);
    right = text::concat(&right, &text::chars_of("/ "));
    let ghost lv = "   "@ + icon@ + seq![' '] + pending_name(p@) + seq![' '];
    let ghost rv = revision@ + "  "@ + pending_dir(p@) + "/ "@;
    assert(left@ =~= lv);
    assert(right@ =~= rv);
    if total > left.len() {
        let avail = total - left.len();
        if right.len() > avail {
            let k = if avail > 3 { avail - 3 } else { 0 };
            match byte_cut_exec(&right, k) {
                Some(j) => {
                    proof {
                        lemma_byte_cut_bound(right@, k as nat, 0);
                    }
                    let rp = text::concat(&text::slice_of(&right, 0, j), &text::chars_of("..."));
                    assert(rp@ =~= rv.take(j as int) + "..."@);
                    Some((text::string_of(&left), Some(text::string_of(&rp))))
                },
                None => {
                    proof {
                        if text::all_ascii(p@) && text::all_ascii(revision@) {
                            reveal_strlit("  ");
                            reveal_strlit("/ ");
                            assert(text::all_ascii(rv)) by {
                                assert forall|x: int| 0 <= x < rv.len() implies ((#[trigger] rv[x]) as u32) < 0x80 by {
                                    let a = revision@.len();
                                    let b = a + 2;
                                    let c = b + dir@.len();
                                    if x < a {
                                        assert(rv[x] == revision@[x]);
                                    } else if x < b {
                                        assert(rv[x] == "  "@[x - a]);
                                    } else if x < c {
                                        assert(rv[x] == dir@[x - b]);
                                    } else {
                                        assert(rv[x] == "/ "@[x - c]);
                                    }
                                }
                            }
                            lemma_ascii_byte_cut(right@, k as nat, 0);
                        }
                    }
                    None
                },
            }
        } else {
            let mut rp: Vec<char> = Vec::new();
            push_repeat(&mut rp, ' ', avail - right.len());
            let rp = text::concat(&rp, &right);
            proof {
                assert(Seq::new((avail - right.len()) as nat, |i: int| ' ') =~= spaces(
                    (avail - right.len()) as nat,
                ));
            }
            Some((text::string_of(&left), Some(text::string_of(&rp))))
        }
    } else {
        Some((text::string_of(&left), None))
    }
}

/// In an ASCII text, any number of bytes up to its length ends on a
/// character.
proof fn lemma_ascii_byte_cut(s: Seq<char>, k: nat, j: int)
    requires
        text::all_ascii(s),
        0 <= j <= k <= s.len(),
    ensures
        byte_cut(s, k, j) == Some(k as int),
    decreases k - j,
{
    assert(text::all_ascii(s.take(j))) by {
        assert forall|i: int| 0 <= i < s.take(j).len() implies ((#[trigger] s.take(j)[i]) as u32) < 0x80 by {
            assert(s.take(j)[i] == s[i]);
        }
    }
    text::lemma_ascii_utf8_len(s.take(j));
    if j < k {
        lemma_ascii_byte_cut(s, k, j + 1);
    }
}

/// Putting an ASCII text in place of the first occurrence of `from` in an
/// ASCII text gives an ASCII text.
proof fn lemma_replace_first_ascii(s: Seq<char>, from: Seq<char>, to: Seq<char>)
    requires
        text::all_ascii(s),
        text::all_ascii(to),
    ensures
        text::all_ascii(text::replace_first(s, from, to)),
{
    match text::find_spec(s, from) {
        Some(i) => {
            text::lemma_find_from(s, from, 0);
            let r = text::replace_first(s, from, to);
            assert forall|x: int| 0 <= x < r.len() implies ((#[trigger] r[x]) as u32) < 0x80 by {
                if x < i {
                    assert(r[x] == s[x]);
                } else if x < i + to.len() {
                    assert(r[x] == to[x - i]);
                } else {
                    assert(r[x] == s[x - to.len() + from.len()]);
                }
            }
        },
        None => {},
    }
}

proof fn lemma_byte_cut_bound(s: Seq<char>, k: nat, j: int)
    ensures
        byte_cut(s, k, j) matches Some(x) ==> 0 <= j <= x <= s.len(),
    decreases s.len() - j,
{
    if 0 <= j && j < s.len() && blen(s.take(j)) < k {
        lemma_byte_cut_bound(s, k, j + 1);
    }
}

/// A line of the changelist panel.
pub enum ClLine {
    /// A changelist: the icon column, its id (` id `), and the rest: the
    /// author, padding and the time. `is_new` where it is newer than the
    /// changelist synced.
    Head { symbol: String, id: String, rest: String, is_new: bool },
    /// A line of an unfolded changelist's description, or the rule under
    /// it.
    Note(String),
    /// A file of an unfolded changelist.
    File(String),
}

pub enum ClLineView {
    Head { symbol: Seq<char>, id: Seq<char>, rest: Seq<char>, is_new: bool },
    Note(Seq<char>),
    File(Seq<char>),
}

impl View for ClLine {
    type V = ClLineView;

    open spec fn view(&self) -> ClLineView {
        match self {
            ClLine::Head { symbol, id, rest, is_new } => ClLineView::Head {
                symbol: symbol@,
                id: id@,
                rest: rest@,
                is_new: *is_new,
            },
            ClLine::Note(t) => ClLineView::Note(t@),
            ClLine::File(t) => ClLineView::File(t@),
        }
    }
}

pub open spec fn cl_lines_view(v: Seq<ClLine>) -> Seq<ClLineView> {
    v.map_values(|l: ClLine| l@)
}

/// The number an id reads as, 0 where it reads as none.
pub open spec fn id_value(id: Seq<char>) -> int {
    match text::parse_i64_spec(id) {
        Some(n) => n,
        None => 0,
    }
}

/// The icon column of changelist `i`: the synced icon on the changelist
/// synced, the server icon on the newest, nothing else.
pub open spec fn head_symbol(cl: ChangeListItem, i: int, synced: Option<String>, icon: Seq<char>) -> Seq<char> {
    if synced matches Some(s) && s@ == cl.id@ {
        seq![' '] + icon
    } else if i == 0 {
        seq![' ', '\u{f0e95}']
    } else {
        "  "@
    }
}

/// The head line of changelist `i`, `cw` columns wide.
pub open spec fn head_line(cl: ChangeListItem, i: int, synced: Option<String>, cw: nat, icon: Seq<char>) -> ClLineView {
    let id_str = seq![' '] + cl.id@ + seq![' '];
    let author_str = "  "@ + cl.author@;
    let pad = sub0(
        sub0(sub0(cw as int, blen(id_str) as int) as int, blen(author_str) as int) as int,
        blen(cl.time@) as int,
    );
    ClLineView::Head {
        symbol: head_symbol(cl, i, synced, icon),
        id: id_str,
        rest: author_str + spaces(pad) + cl.time@,
        is_new: synced matches Some(s) && id_value(cl.id@) > id_value(s@),
    }
}

/// The line of a file of an unfolded changelist, `dcw` columns wide: the
/// revision and action, then the depot path (`//depot` as `...`) right
/// aligned where it fits.
pub open spec fn cl_file_line(f: ChangeListFile, dcw: nat) -> Seq<char> {
    let info = f.revision@ + " | "@ + f.action@ + " | "@;
    let dp = text::replace_first(f.path@, "//depot"@, "..."@);
    let avail = sub0(dcw as int, info.len() as int);
    if dp.len() <= avail {
        "      "@ + info + spaces(sub0(avail as int, dp.len() as int)) + dp + "  "@
    } else {
        "      "@ + info + dp + " "@
    }
}

/// The lines of changelist `i`: its head, then, where it is unfolded and
/// its files are known, its description, a rule, and its files.
pub open spec fn cl_block_lines(
    cl: ChangeListItem,
    i: int,
    ids: Seq<String>,
    synced: Option<String>,
    cw: nat,
    icon: Seq<char>,
) -> Seq<ClLineView> {
    seq![head_line(cl, i, synced, cw, icon)] + if id_in(ids, cl.id@) && cl.details is Some {
        let d = cl.details->0;
        let dcw = sub0(cw as int, 3);
        d.full_description@.map_values(|l: String| ClLineView::Note("     "@ + l@))
            + seq![ClLineView::Note("     "@ + Seq::new(dcw, |k: int| '\u{2500}'))]
            + d.files@.map_values(|f: ChangeListFile| ClLineView::File(cl_file_line(f, dcw)))
    } else {
        Seq::empty()
    }
}

/// The lines of the changelist panel.
pub open spec fn cl_lines(
    cls: Seq<ChangeListItem>,
    ids: Seq<String>,
    synced: Option<String>,
    cw: nat,
    icon: Seq<char>,
) -> Seq<ClLineView>
    decreases cls.len(),
{
    if cls.len() == 0 {
        Seq::empty()
    } else {
        cl_lines(cls.drop_last(), ids, synced, cw, icon) + cl_block_lines(
            cls.last(),
            cls.len() - 1,
            ids,
            synced,
            cw,
            icon,
        )
    }
}

/// A line the cursor can be on: a changelist or a file.
pub open spec fn selectable(l: ClLineView) -> bool {
    !(l is Note)
}

/// The line, from `j` on, of the `k`-th selectable line after `j`.
pub open spec fn find_selectable(lines: Seq<ClLineView>, k: int, j: int) -> Option<int>
    decreases lines.len() - j,
{
    if j < 0 || j >= lines.len() {
        None
    } else if selectable(lines[j]) {
        if k == 0 {
            Some(j)
        } else {
            find_selectable(lines, k - 1, j + 1)
        }
    } else {
        find_selectable(lines, k, j + 1)
    }
}

fn id_value_exec(id: &String) -> (r: i64)
    ensures
        r == id_value(id@),
{
    match text::parse_i64(&text::chars_of(id.as_str())) {
        Some(n) => n,
        None => 0,
    }
}

fn head_line_exec(cl: &ChangeListItem, i: usize, synced: &Option<String>, cw: usize, icon: &str) -> (r: ClLine)
    ensures
        r@ == head_line(*cl, i as int, *synced, cw as nat, icon@),
{
    let symbol = match synced {
        Some(s) if *s == cl.id => text::concat(&vec![' '], &text::chars_of(icon)),
        _ => if i == 0 {
            vec![' ', '\u{f0e95}']
        } else {
            vec![' ', ' ']
        },
    };
    proof { reveal_strlit("  "); }
    assert(symbol@ =~= head_symbol(*cl, i as int, *synced, icon@));
    let mut id_str = vec![' '];
    id_str = text::concat(&id_str, &text::chars_of(cl.id.as_str()));
    id_str.push(' ');
    let author_str = text::concat(&vec![' ', ' '], &text::chars_of(cl.author.as_str()));
    let time = text::chars_of(cl.time.as_str());
    let a = text::utf8_len_of(&id_str);
    let b = text::utf8_len_of(&author_str);
    let c = text::utf8_len_of(&time);
    let p1 = if cw > a { cw - a } else { 0 };
    let p2 = if p1 > b { p1 - b } else { 0 };
    let pad = if p2 > c { p2 - c } else { 0 };
    let mut rest = author_str.clone();
    push_repeat(&mut rest, ' ', pad);
    let rest = text::concat(&rest, &time);
    let is_new = match synced {
        Some(s) => id_value_exec(&cl.id) > id_value_exec(s),
        None => false,
    };
    proof {
        assert(Seq::new(pad as nat, |k: int| ' ') =~= spaces(pad as nat));
        assert(id_str@ =~= seq![' '] + cl.id@ + seq![' ']);
        assert(author_str@ =~= "  "@ + cl.author@);
    }
    ClLine::Head {
        symbol: text::string_of(&symbol),
        id: text::string_of(&id_str),
        rest: text::string_of(&rest),
        is_new,
    }
}

fn cl_file_line_exec(f: &ChangeListFile, dcw: usize) -> (r: String)
    ensures
        r@ == cl_file_line(*f, dcw as nat),
{
    let mut info = text::concat(&text::chars_of(f.revision.as_str()), &text::chars_of(" | "));
    info = text::concat(&info, &text::chars_of(f.action.as_str()));
    info = text::concat(&info, &text::chars_of(" | "));
    let dp = text::replace_first_exec(&text::chars_of(f.path.as_str()), &text::chars_of("//depot"), &text::chars_of("..."));
    let avail = if dcw > info.len() { dcw - info.len() } else { 0 };
    let mut out = text::concat(&text::chars_of("      "), &info);
    if dp.len() <= avail {
        push_repeat(&mut out, ' ', avail - dp.len());
        out = text::concat(&out, &dp);
        out = text::concat(&out, &text::chars_of("  "));
        proof {
            assert(Seq::new((avail - dp.len()) as nat, |k: int| ' ') =~= spaces((avail - dp.len()) as nat));
        }
    } else {
        out = text::concat(&out, &dp);
        out = text::concat(&out, &text::chars_of(" "));
    }
    text::string_of(&out)
}

fn push_block_lines(
    out: &mut Vec<ClLine>,
    cl: &ChangeListItem,
    i: usize,
    ids: &Vec<String>,
    synced: &Option<String>,
    cw: usize,
    icon: &str,
)
    ensures
        cl_lines_view(final(out)@) == cl_lines_view(old(out)@) + cl_block_lines(*cl, i as int, ids@, *synced, cw as nat, icon@),
{
    let ghost start = cl_lines_view(out@);
    let head = head_line_exec(cl, i, synced, cw, icon);
    out.push(head);
    assert(cl_lines_view(out@) =~= start + seq![head_line(*cl, i as int, *synced, cw as nat, icon@)]);
    if ids_contain(ids, &cl.id) {
        match &cl.details {
            Some(d) => {
                let dcw = if cw > 3 { cw - 3 } else { 0 };
                let ghost base = cl_lines_view(out@);
                let mut k: usize = 0;
                while k < d.full_description.len()
                    invariant
                        k <= d.full_description.len(),
                        cl_lines_view(out@) =~= base + d.full_description@.take(k as int).map_values(
                            |l: String| ClLineView::Note("     "@ + l@),
                        ),
                    decreases d.full_description.len() - k,
                {
                    let line = text::concat(&text::chars_of("     "), &text::chars_of(d.full_description[k].as_str()));
                    let ghost before = cl_lines_view(out@);
                    out.push(ClLine::Note(text::string_of(&line)));
                    assert(d.full_description@.take(k + 1).map_values(|l: String| ClLineView::Note("     "@ + l@))
                        =~= d.full_description@.take(k as int).map_values(|l: String| ClLineView::Note("     "@ + l@)).push(
                        ClLineView::Note("     "@ + d.full_description@[k as int]@),
                    ));
                    assert(cl_lines_view(out@) =~= before.push(ClLineView::Note(line@)));
                    k += 1;
                }
                assert(d.full_description@.take(d.full_description.len() as int) =~= d.full_description@);
                let mut rule = text::chars_of("     ");
                push_repeat(&mut rule, '\u{2500}', dcw);
                let ghost before_rule = cl_lines_view(out@);
                out.push(ClLine::Note(text::string_of(&rule)));
                assert(cl_lines_view(out@) =~= before_rule.push(ClLineView::Note("     "@ + Seq::new(dcw as nat, |k: int| '\u{2500}'))));
                let ghost base2 = cl_lines_view(out@);
                let mut m: usize = 0;
                while m < d.files.len()
                    invariant
                        m <= d.files.len(),
                        cl_lines_view(out@) =~= base2 + d.files@.take(m as int).map_values(
                            |f: ChangeListFile| ClLineView::File(cl_file_line(f, dcw as nat)),
                        ),
                    decreases d.files.len() - m,
                {
                    let line = cl_file_line_exec(&d.files[m], dcw);
                    let ghost before = cl_lines_view(out@);
                    out.push(ClLine::File(line));
                    assert(d.files@.take(m + 1).map_values(|f: ChangeListFile| ClLineView::File(cl_file_line(f, dcw as nat)))
                        =~= d.files@.take(m as int).map_values(|f: ChangeListFile| ClLineView::File(cl_file_line(f, dcw as nat))).push(
                        ClLineView::File(cl_file_line(d.files@[m as int], dcw as nat)),
                    ));
                    assert(cl_lines_view(out@) =~= before.push(ClLineView::File(line@)));
                    m += 1;
                }
                assert(d.files@.take(d.files.len() as int) =~= d.files@);
            },
            None => {},
        }
    }
}

/// The lines of the changelist panel, `cw` columns wide (`head_icon` marks
/// the changelist synced), and the line the cursor is on (0 where the
/// cursor is past the last selectable line).
pub fn changelist_view(c: &Core, cw: usize, head_icon: &str) -> (r: (Vec<ClLine>, usize))
    ensures
        cl_lines_view(r.0@) == cl_lines(c.changelists@, c.expanded_ids@, c.synced_change_id, cw as nat, head_icon@),
        r.1 == match find_selectable(cl_lines_view(r.0@), c.cl_cursor as int, 0) {
            Some(j) => j,
            None => 0,
        },
{
    let mut out: Vec<ClLine> = Vec::new();
    let mut i: usize = 0;
    while i < c.changelists.len()
        invariant
            i <= c.changelists.len(),
            cl_lines_view(out@) =~= cl_lines(
                c.changelists@.take(i as int),
                c.expanded_ids@,
                c.synced_change_id,
                cw as nat,
                head_icon@,
            ),
        decreases c.changelists.len() - i,
    {
        assert(c.changelists@.take(i + 1).drop_last() =~= c.changelists@.take(i as int));
        push_block_lines(&mut out, &c.changelists[i], i, &c.expanded_ids, &c.synced_change_id, cw, head_icon);
        i += 1;
    }
    assert(c.changelists@.take(c.changelists.len() as int) =~= c.changelists@);
    let ghost lv = cl_lines_view(out@);
    let mut k: usize = c.cl_cursor;
    let mut j: usize = 0;
    while j < out.len()
        invariant
            j <= out.len(),
            lv == cl_lines_view(out@),
            lv == cl_lines(c.changelists@, c.expanded_ids@, c.synced_change_id, cw as nat, head_icon@),
            lv.len() == out@.len(),
            find_selectable(lv, c.cl_cursor as int, 0) == find_selectable(lv, k as int, j as int),
        decreases out.len() - j,
    {
        let sel = match &out[j] {
            ClLine::Note(_) => false,
            _ => true,
        };
        assert(sel == selectable(lv[j as int]));
        if sel {
            if k == 0 {
                return (out, j);
            }
            k -= 1;
        }
        j += 1;
    }
    (out, 0)
}

/// The selectable lines of `lines`, in order: `true` for a changelist,
/// `false` for a file.
pub open spec fn line_kinds(lines: Seq<ClLineView>) -> Seq<bool>
    decreases lines.len(),
{
    if lines.len() == 0 {
        Seq::empty()
    } else {
        let r = line_kinds(lines.drop_last());
        match lines.last() {
            ClLineView::Head { .. } => r.push(true),
            ClLineView::File(_) => r.push(false),
            ClLineView::Note(_) => r,
        }
    }
}

/// `s` with spaces after it up to `w` characters, as `{:<w$}` formats it.
pub open spec fn pad_end(s: Seq<char>, w: nat) -> Seq<char> {
    s + spaces(sub0(w as int, s.len() as int))
}

/// `s` with spaces before it up to `w` characters, as `{:>w$}` formats it.
pub open spec fn pad_start(s: Seq<char>, w: nat) -> Seq<char> {
    spaces(sub0(w as int, s.len() as int)) + s
}

/// A row of the `p4 info` list, `width` columns wide: the key and a colon
/// in a column of 20, then the value on the right.
pub open spec fn info_detail_row_spec(key: Seq<char>, value: Seq<char>, width: u16) -> Seq<char> {
    seq![' '] + pad_end(key + seq![':'], 20) + seq![' '] + pad_start(value, sub0(width as int, 26))
}

/// A row of the `p4 info` list.
pub fn info_detail_row(key: &str, value: &str, width: u16) -> (r: String)
    ensures
        r@ == info_detail_row_spec(key@, value@, width),
{
    let mut out: Vec<char> = vec![' '];
    let k = text::chars_of(key);
    out = text::concat(&out, &k);
    out.push(':');
    if k.len() < 19 {
        push_repeat(&mut out, ' ', 19 - k.len());
    }
    out.push(' ');
    let v = text::chars_of(value);
    let w: usize = if width > 26 { (width - 26) as usize } else { 0 };
    if v.len() < w {
        push_repeat(&mut out, ' ', w - v.len());
    }
    out = text::concat(&out, &v);
    assert(out@ =~= info_detail_row_spec(key@, value@, width));
    text::string_of(&out)
}

/// The path column of a row of roots, `width` columns wide: the client
/// root's after three spaces in a column of `width - 27`, a virtual root's
/// after four in one of `width - 33`.
pub open spec fn root_path_column_spec(p: Seq<char>, is_client: bool, width: u16) -> Seq<char> {
    if is_client {
        spaces(3) + pad_start(p, sub0(width as int, 27))
    } else {
        spaces(4) + pad_start(p, sub0(width as int, 33))
    }
}

/// The path column of a row of roots.
pub fn root_path_column(p: &str, is_client: bool, width: u16) -> (r: String)
    ensures
        r@ == root_path_column_spec(p@, is_client, width),
{
    let mut out: Vec<char> = Vec::new();
    let cut: u16 = if is_client { 27 } else { 33 };
    push_repeat(&mut out, ' ', if is_client { 3 } else { 4 });
    let v = text::chars_of(p);
    let w: usize = if width > cut { (width - cut) as usize } else { 0 };
    if v.len() < w {
        push_repeat(&mut out, ' ', w - v.len());
    }
    out = text::concat(&out, &v);
    assert(out@ =~= root_path_column_spec(p@, is_client, width));
    text::string_of(&out)
}

/// Whether root `p` is the one in use: the virtual root `vroot` where
/// there is one (`p` being the client root otherwise).
pub fn root_in_use(vroot: Option<&str>, p: &str, is_client: bool) -> (r: bool)
    ensures
        r == if is_client { vroot is None } else { vroot matches Some(v) && path::path_eq(v@, p@) },
{
    match vroot {
        Some(v) => !is_client && path::same_path(v, p),
        None => is_client,
    }
}

/// The height of the `p4 info` list of the info overlay: a row per field
/// and its two borders, no fewer than 6 rows and no more than 17.
pub fn info_details_height(fields: usize) -> (r: u16)
    ensures
        r == (if fields + 2 < 6 { 6 } else if fields + 2 > 17 { 17 } else { fields + 2 }),
{
    if fields < 4 {
        6
    } else if fields > 15 {
        17
    } else {
        (fields + 2) as u16
    }
}

} // verus!
