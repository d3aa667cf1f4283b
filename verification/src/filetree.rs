//! The two-column file browser: the entries of the current directory and
//! of its parent, directories first, and a cursor over them.
use vstd::prelude::*;
use crate::text;
use crate::path;

verus! {

/// What Perforce says of a file in the workspace.
#[derive(Clone, Copy, PartialEq, Eq, Structural, Debug)]
pub enum FileP4Status {
    /// Known to the depot and not opened.
    NotOpened,
    Add,
    Edit,
    Delete,
    OtherCheckout,
    Untracked,
}

/// One entry of a directory.
#[derive(Clone, Debug)]
pub struct FileItem {
    pub name: String,
    pub path: String,
    pub is_dir: bool,
    pub p4_status: FileP4Status,
}

impl FileItem {
    /// A copy of this entry.
    pub fn copied(&self) -> (r: FileItem)
        ensures
            r == *self,
    {
        FileItem {
            name: self.name.clone(),
            path: self.path.clone(),
            is_dir: self.is_dir,
            p4_status: self.p4_status,
        }
    }
}

/// `a` comes before `b` in code-point order (the order of `str`).
pub open spec fn seq_lt(a: Seq<char>, b: Seq<char>) -> bool
    decreases a.len(),
{
    if a.len() == 0 {
        b.len() > 0
    } else if b.len() == 0 {
        false
    } else if a[0] != b[0] {
        a[0] < b[0]
    } else {
        seq_lt(a.drop_first(), b.drop_first())
    }
}

pub proof fn lemma_seq_lt_irrefl(a: Seq<char>)
    ensures
        !seq_lt(a, a),
    decreases a.len(),
{
    if a.len() > 0 {
        lemma_seq_lt_irrefl(a.drop_first());
    }
}

pub proof fn lemma_seq_lt_trans(a: Seq<char>, b: Seq<char>, c: Seq<char>)
    requires
        seq_lt(a, b),
        seq_lt(b, c),
    ensures
        seq_lt(a, c),
    decreases a.len(),
{
    if a.len() > 0 && b.len() > 0 && c.len() > 0 && a[0] == b[0] && b[0] == c[0] {
        lemma_seq_lt_trans(a.drop_first(), b.drop_first(), c.drop_first());
    }
}

pub proof fn lemma_seq_lt_total(a: Seq<char>, b: Seq<char>)
    ensures
        seq_lt(a, b) || seq_lt(b, a) || a == b,
    decreases a.len(),
{
    if a.len() > 0 && b.len() > 0 && a[0] == b[0] {
        lemma_seq_lt_total(a.drop_first(), b.drop_first());
        if a.drop_first() == b.drop_first() {
            assert(a =~= seq![a[0]] + a.drop_first());
            assert(b =~= seq![b[0]] + b.drop_first());
        }
    } else if a.len() == 0 && b.len() == 0 {
        assert(a =~= b);
    }
}

/// The order of a listing: directories before files, then by name.
pub open spec fn item_lt(a: FileItem, b: FileItem) -> bool {
    (a.is_dir && !b.is_dir) || (a.is_dir == b.is_dir && seq_lt(a.name@, b.name@))
}

pub proof fn lemma_item_lt_trans(a: FileItem, b: FileItem, c: FileItem)
    requires
        item_lt(a, b),
        item_lt(b, c),
    ensures
        item_lt(a, c),
{
    if a.is_dir == b.is_dir && b.is_dir == c.is_dir {
        lemma_seq_lt_trans(a.name@, b.name@, c.name@);
    }
}

/// Neither comes before the other: same kind and same name.
pub proof fn lemma_item_equiv(a: FileItem, b: FileItem)
    requires
        !item_lt(a, b),
        !item_lt(b, a),
    ensures
        a.is_dir == b.is_dir,
        a.name@ == b.name@,
{
    lemma_seq_lt_total(a.name@, b.name@);
}

/// No entry comes before one that precedes it.
pub open spec fn sorted_items(s: Seq<FileItem>) -> bool {
    forall|i: int, j: int| 0 <= i < j < s.len() ==> !item_lt(#[trigger] s[j], #[trigger] s[i])
}

/// `out[k]` is `input[perm[k]]`, `perm` is one-to-one, and entries that
/// neither comes before the other keep their order.
pub open spec fn stable_perm(input: Seq<FileItem>, out: Seq<FileItem>, perm: Seq<int>) -> bool {
    &&& perm.len() == input.len()
    &&& out.len() == input.len()
    &&& forall|k: int| 0 <= k < out.len() ==> 0 <= #[trigger] perm[k] < input.len()
    &&& forall|k: int| 0 <= k < out.len() ==> #[trigger] out[k] == input[perm[k]]
    &&& forall|k: int, l: int| 0 <= k < l < out.len() ==> #[trigger] perm[k] != #[trigger] perm[l]
    &&& forall|k: int, l: int|
        0 <= k < l < out.len() && !item_lt(#[trigger] out[k], #[trigger] out[l]) && !item_lt(
            out[l],
            out[k],
        ) ==> perm[k] < perm[l]
}

/// `out` is `input` in listing order, entries of the same kind and name
/// in the order they came: what a stable sort gives.
pub open spec fn is_sorted_listing(input: Seq<FileItem>, out: Seq<FileItem>) -> bool {
    sorted_items(out) && exists|perm: Seq<int>| stable_perm(input, out, perm)
}

/// Whether `a` comes before `b` in code-point order.
pub fn chars_lt(a: &Vec<char>, b: &Vec<char>) -> (r: bool)
    ensures
        r == seq_lt(a@, b@),
{
    let mut i: usize = 0;
    assert(a@.skip(0) =~= a@);
    assert(b@.skip(0) =~= b@);
    while i < a.len() && i < b.len() && a[i] == b[i]
        invariant
            i <= a.len(),
            i <= b.len(),
            seq_lt(a@, b@) == seq_lt(a@.skip(i as int), b@.skip(i as int)),
        decreases a.len() - i,
    {
        assert(a@.skip(i as int).drop_first() =~= a@.skip(i + 1));
        assert(b@.skip(i as int).drop_first() =~= b@.skip(i + 1));
        i += 1;
    }
    if i == a.len() {
        i < b.len()
    } else if i == b.len() {
        false
    } else {
        a[i] < b[i]
    }
}

/// Whether entry `a` comes before entry `b` in a listing.
pub fn item_before(a: &FileItem, b: &FileItem) -> (r: bool)
    ensures
        r == item_lt(*a, *b),
{
    if a.is_dir != b.is_dir {
        a.is_dir
    } else {
        chars_lt(&text::chars_of(a.name.as_str()), &text::chars_of(b.name.as_str()))
    }
}

/// A listing in its display order: directories first, then by name, as a
/// stable sort leaves it.
pub fn sort_listing(items: Vec<FileItem>) -> (out: Vec<FileItem>)
    ensures
        is_sorted_listing(items@, out@),
{
    let mut out: Vec<FileItem> = Vec::new();
    let ghost mut perm: Seq<int> = Seq::empty();
    let mut i: usize = 0;
    while i < items.len()
        invariant
            i <= items.len(),
            sorted_items(out@),
            stable_perm(items@.take(i as int), out@, perm),
        decreases items.len() - i,
    {
        let x = items[i].copied();
        let mut p: usize = 0;
        while p < out.len() && !item_before(&x, &out[p])
            invariant
                p <= out.len(),
                forall|k: int| 0 <= k < p ==> !item_lt(x, #[trigger] out@[k]),
            decreases out.len() - p,
        {
            p += 1;
        }
        let ghost old_out = out@;
        let ghost old_perm = perm;
        out.insert(p, x);
        proof {
            perm = old_perm.insert(p as int, i as int);
            let input = items@.take(i + 1);
            assert(input.take(i as int) =~= items@.take(i as int));
            assert forall|a: int, b: int| 0 <= a < b < out@.len() implies !item_lt(
                #[trigger] out@[b],
                #[trigger] out@[a],
            ) by {
                if a < p && b == p {
                } else if a == p && b > p {
                    if item_lt(out@[b], x) {
                        lemma_item_lt_trans(out@[b], x, old_out[p as int]);
                        if b - 1 == p {
                            lemma_seq_lt_irrefl(old_out[p as int].name@);
                        }
                        assert(!item_lt(old_out[b - 1], old_out[p as int]));
                    }
                } else if a < p && b > p {
                    assert(!item_lt(old_out[b - 1], old_out[a]));
                } else if a > p {
                    assert(!item_lt(old_out[b - 1], old_out[a - 1]));
                } else {
                    assert(!item_lt(old_out[b], old_out[a]));
                }
            }
            assert forall|k: int| 0 <= k < out@.len() implies 0 <= #[trigger] perm[k]
                < input.len() && out@[k] == input[perm[k]] by {
                if k < p {
                    assert(out@[k] == old_out[k]);
                } else if k > p {
                    assert(out@[k] == old_out[k - 1]);
                }
            }
            assert forall|k: int, l: int| 0 <= k < l < out@.len() implies #[trigger] perm[k]
                != #[trigger] perm[l] by {
                if k < p && l > p {
                    assert(perm[l] == old_perm[l - 1]);
                } else if k > p {
                    assert(perm[l] == old_perm[l - 1]);
                    assert(perm[k] == old_perm[k - 1]);
                }
            }
            assert forall|k: int, l: int|
                0 <= k < l < out@.len() && !item_lt(#[trigger] out@[k], #[trigger] out@[l])
                    && !item_lt(out@[l], out@[k]) implies perm[k] < perm[l] by {
                if k == p {
                    lemma_item_equiv(out@[k], out@[l]);
                    assert(item_lt(x, old_out[p as int]));
                    if l - 1 == p {
                        lemma_seq_lt_irrefl(old_out[p as int].name@);
                    }
                    assert(!item_lt(old_out[l - 1], old_out[p as int]));
                    lemma_item_equiv(out@[k], old_out[l - 1]);
                    if item_lt(x, old_out[l - 1]) {
                    } else {
                        lemma_seq_lt_total(x.name@, old_out[p as int].name@);
                    }
                } else if l == p {
                } else if k < p && l > p {
                    assert(perm[l] == old_perm[l - 1]);
                    assert(out@[l] == old_out[l - 1]);
                } else if k > p {
                    assert(perm[l] == old_perm[l - 1]);
                    assert(perm[k] == old_perm[k - 1]);
                    assert(out@[l] == old_out[l - 1]);
                    assert(out@[k] == old_out[k - 1]);
                }
            }
            assert(stable_perm(input, out@, perm));
        }
        i += 1;
    }
    assert(items@.take(items.len() as int) =~= items@);
    out
}

/// The first entry at or after `i` whose path is `p`.
pub open spec fn position_from(files: Seq<FileItem>, p: Seq<char>, i: int) -> Option<int>
    decreases files.len() - i,
{
    if i < 0 || i >= files.len() {
        None
    } else if path::path_eq(files[i].path@, p) {
        Some(i)
    } else {
        position_from(files, p, i + 1)
    }
}

/// The first entry whose path is `p`.
pub open spec fn position_of(files: Seq<FileItem>, p: Seq<char>) -> Option<int> {
    position_from(files, p, 0)
}

/// The first entry whose path is `p`, or the first entry if none is.
pub open spec fn position_or_zero(files: Seq<FileItem>, p: Seq<char>) -> int {
    match position_of(files, p) {
        Some(i) => i,
        None => 0,
    }
}

pub proof fn lemma_position_from(files: Seq<FileItem>, p: Seq<char>, i: int)
    requires
        0 <= i,
    ensures
        position_from(files, p, i) matches Some(k) ==> i <= k < files.len() && path::path_eq(
            files[k].path@,
            p,
        ),
    decreases files.len() - i,
{
    if i < files.len() && !path::path_eq(files[i].path@, p) {
        lemma_position_from(files, p, i + 1);
    }
}

/// The first entry whose path is `p`.
pub fn find_path(files: &Vec<FileItem>, p: &str) -> (r: Option<usize>)
    ensures
        match r {
            Some(i) => position_of(files@, p@) == Some(i as int),
            None => position_of(files@, p@) is None,
        },
        forall|k: int| 0 <= k < files@.len() && (#[trigger] files@[k]).path@ == p@ ==> (r matches Some(i) && i <= k),
{
    let mut i: usize = 0;
    while i < files.len()
        invariant
            i <= files.len(),
            position_of(files@, p@) == position_from(files@, p@, i as int),
            forall|j: int| 0 <= j < i ==> (#[trigger] files@[j]).path@ != p@,
        decreases files.len() - i,
    {
        if path::same_path(files[i].path.as_str(), p) {
            return Some(i);
        }
        i += 1;
    }
    None
}

/// The browser: the current directory's entries with a cursor, and the
/// parent directory's entries with the current directory marked.
pub struct FileTree {
    pub current_path: String,
    pub files: Vec<FileItem>,
    pub selected: usize,
    pub parent_files: Vec<FileItem>,
    pub parent_selected: usize,
}

/// `new` is `old` after reading the listings again: `listing` of the
/// current directory and, where it has a parent, `parent_listing` of that.
pub open spec fn refreshed(
    old: FileTree,
    new: FileTree,
    listing: Seq<FileItem>,
    parent_listing: Seq<FileItem>,
) -> bool {
    &&& new.current_path == old.current_path
    &&& new.selected == old.selected
    &&& is_sorted_listing(listing, new.files@)
    &&& match path::path_parent(old.current_path@) {
        Some(_) => is_sorted_listing(parent_listing, new.parent_files@) && new.parent_selected
            == position_or_zero(new.parent_files@, old.current_path@),
        None => new.parent_files@.len() == 0 && new.parent_selected == old.parent_selected,
    }
}

/// The cursor after moving down in a list of `len` entries: it stops at
/// the last one.
pub open spec fn cursor_down(selected: int, len: int) -> int {
    if len > 0 && selected < len - 1 {
        selected + 1
    } else {
        selected
    }
}

/// The cursor after moving up: it stops at the first entry.
pub open spec fn cursor_up(selected: int) -> int {
    if selected > 0 {
        selected - 1
    } else {
        selected
    }
}

/// The directory that entering would open: the selected entry, if it is a
/// directory.
pub open spec fn enter_target_spec(t: FileTree) -> Option<Seq<char>> {
    if t.selected < t.files@.len() && t.files@[t.selected as int].is_dir {
        Some(t.files@[t.selected as int].path@)
    } else {
        None
    }
}

/// `new` is `old` after opening the selected directory, with the cursor on
/// its first entry: `listing` is that directory's and `parent_listing` its
/// parent's. Where the selected entry is no directory, nothing changes.
pub open spec fn entered_dir(
    old: FileTree,
    new: FileTree,
    listing: Seq<FileItem>,
    parent_listing: Seq<FileItem>,
) -> bool {
    match enter_target_spec(old) {
        Some(p) => {
            &&& new.current_path@ == p
            &&& new.selected == 0
            &&& refreshed(
                FileTree { current_path: new.current_path, selected: 0, ..old },
                new,
                listing,
                parent_listing,
            )
        },
        None => new == old,
    }
}

/// `new` is `old` after opening the parent directory, with the cursor on
/// the directory left (or on the first entry if the listing lacks it; an
/// entry whose path has the same text is that directory): `listing` is
/// the parent's and `parent_listing` the parent's parent's. Where there is
/// no parent, nothing changes.
pub open spec fn left_dir(
    old: FileTree,
    new: FileTree,
    listing: Seq<FileItem>,
    parent_listing: Seq<FileItem>,
) -> bool {
    match path::path_parent(old.current_path@) {
        Some(p) => {
            &&& new.current_path@ == p
            &&& new.selected == position_or_zero(new.files@, old.current_path@)
            &&& forall|k: int| 0 <= k < new.files@.len() && (#[trigger] new.files@[k]).path@ == old.current_path@
                ==> (position_of(new.files@, old.current_path@) matches Some(i) && i <= k)
            &&& refreshed(
                FileTree { current_path: new.current_path, selected: old.selected, ..old },
                FileTree { selected: old.selected, ..new },
                listing,
                parent_listing,
            )
        },
        None => new == old,
    }
}

impl FileTree {
    /// A browser at `path`, its cursor on the first entry, with the
    /// listing of `path` and, where it has a parent, the parent's listing.
    pub fn new(path: String, listing: Vec<FileItem>, parent_listing: Vec<FileItem>) -> (t:
        FileTree)
        ensures
            t.current_path == path,
            t.selected == 0,
            is_sorted_listing(listing@, t.files@),
            match path::path_parent(path@) {
                Some(_) => is_sorted_listing(parent_listing@, t.parent_files@)
                    && t.parent_selected == position_or_zero(t.parent_files@, path@),
                None => t.parent_files@.len() == 0 && t.parent_selected == 0,
            },
    {
        let mut t = FileTree {
            current_path: path,
            files: Vec::new(),
            selected: 0,
            parent_files: Vec::new(),
            parent_selected: 0,
        };
        t.refresh(listing, parent_listing);
        t
    }

    /// Takes the listings read again: `listing` of the current directory
    /// and, where it has a parent, `parent_listing` of that. The cursor
    /// stays where it was.
    pub fn refresh(&mut self, listing: Vec<FileItem>, parent_listing: Vec<FileItem>)
        ensures
            refreshed(*old(self), *final(self), listing@, parent_listing@),
    {
        self.files = sort_listing(listing);
        match path::parent_of(self.current_path.as_str()) {
            Some(_) => {
                self.parent_files = sort_listing(parent_listing);
                self.parent_selected =
                match find_path(&self.parent_files, self.current_path.as_str()) {
                    Some(i) => i,
                    None => 0,
                };
            },
            None => {
                self.parent_files = Vec::new();
            },
        }
    }

    /// Moves the cursor one entry down, unless it is on the last one.
    pub fn move_down(&mut self)
        ensures
            final(self).selected == cursor_down(old(self).selected as int, old(self).files@.len() as int),
            final(self).files == old(self).files,
            final(self).current_path == old(self).current_path,
            final(self).parent_files == old(self).parent_files,
            final(self).parent_selected == old(self).parent_selected,
    {
        if self.files.len() > 0 && self.selected < self.files.len() - 1 {
            self.selected += 1;
        }
    }

    /// Moves the cursor one entry up, unless it is on the first one.
    pub fn move_up(&mut self)
        ensures
            final(self).selected == cursor_up(old(self).selected as int),
            final(self).files == old(self).files,
            final(self).current_path == old(self).current_path,
            final(self).parent_files == old(self).parent_files,
            final(self).parent_selected == old(self).parent_selected,
    {
        if self.selected > 0 {
            self.selected -= 1;
        }
    }

    /// The directory that `enter_dir` would open, if the selected entry is
    /// one.
    pub fn enter_target(&self) -> (r: Option<String>)
        ensures
            match r {
                Some(p) => enter_target_spec(*self) == Some(p@),
                None => enter_target_spec(*self) is None,
            },
    {
        if self.selected < self.files.len() && self.files[self.selected].is_dir {
            Some(self.files[self.selected].path.clone())
        } else {
            None
        }
    }

    /// Opens the selected directory, with the cursor on its first entry:
    /// `listing` is that directory's and `parent_listing` its parent's.
    /// Where the selected entry is no directory, nothing changes.
    pub fn enter_dir(&mut self, listing: Vec<FileItem>, parent_listing: Vec<FileItem>)
        ensures
            entered_dir(*old(self), *final(self), listing@, parent_listing@),
    {
        match self.enter_target() {
            Some(p) => {
                self.current_path = p;
                self.selected = 0;
                self.refresh(listing, parent_listing);
            },
            None => {},
        }
    }

    /// The directory that `leave_dir` would open: the parent of the
    /// current one, if it has one.
    pub fn leave_target(&self) -> (r: Option<String>)
        ensures
            match r {
                Some(p) => path::path_parent(self.current_path@) == Some(p@),
                None => path::path_parent(self.current_path@) is None,
            },
    {
        path::parent_of(self.current_path.as_str())
    }

    /// Opens the parent directory, with the cursor on the directory just
    /// left (or on the first entry if the listing lacks it): `listing` is
    /// the parent's and `parent_listing` the parent's parent's. Where there
    /// is no parent, nothing changes.
    pub fn leave_dir(&mut self, listing: Vec<FileItem>, parent_listing: Vec<FileItem>)
        ensures
            left_dir(*old(self), *final(self), listing@, parent_listing@),
    {
        match path::parent_of(self.current_path.as_str()) {
            Some(parent) => {
                let old_path = self.current_path.clone();
                self.current_path = parent;
                self.refresh(listing, parent_listing);
                self.selected = match find_path(&self.files, old_path.as_str()) {
                    Some(i) => i,
                    None => 0,
                };
            },
            None => {},
        }
    }
}

} // verus!
