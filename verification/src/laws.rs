//! Properties that hold across the operations of the library.
use vstd::prelude::*;
use crate::text;
use crate::filetree::{self, FileItem};
use crate::state::{self, ClTargetView, MAX_LOGS};
use crate::changelist::ChangeListItem;
use crate::sync::{self, SyncFileInfo, SyncFileStatus};
use crate::detail;
use crate::keys::{self, Command, Key};
use crate::view::{self, ClLineView};
use crate::changelist::ChangeListFile;

verus! {

/// Moving the file cursor down and then up brings it back, where it was
/// not on the last entry.
pub proof fn law_cursor_down_then_up(selected: int, len: int)
    requires
        0 <= selected,
        selected + 1 < len,
    ensures
        filetree::cursor_up(filetree::cursor_down(selected, len)) == selected,
        state::step_up(state::step_down(selected, len)) == selected,
{
}

/// The cursors never leave a list they are in: moving down or up from an
/// entry lands on an entry.
pub proof fn law_cursor_stays_in_list(selected: int, len: int)
    requires
        0 <= selected < len,
    ensures
        0 <= filetree::cursor_down(selected, len) < len,
        0 <= filetree::cursor_up(selected) < len,
        0 <= state::step_down(selected, len) < len,
        0 <= state::step_up(selected) < len,
{
}

/// A sorted listing shows every directory before every file, and the
/// entries of one kind by name.
pub proof fn law_listing_order(input: Seq<FileItem>, out: Seq<FileItem>)
    requires
        filetree::is_sorted_listing(input, out),
    ensures
        forall|i: int, j: int| 0 <= i < j < out.len() && (#[trigger] out[j]).is_dir ==> (#[trigger] out[i]).is_dir,
        forall|i: int, j: int|
            0 <= i < j < out.len() && (#[trigger] out[i]).is_dir == (#[trigger] out[j]).is_dir
                ==> !filetree::seq_lt(out[j].name@, out[i].name@),
        out.len() == input.len(),
{
    assert forall|i: int, j: int| 0 <= i < j < out.len() && (#[trigger] out[j]).is_dir implies (#[trigger] out[i]).is_dir by {
        assert(!filetree::item_lt(out[j], out[i]));
    }
    assert forall|i: int, j: int|
        0 <= i < j < out.len() && (#[trigger] out[i]).is_dir == (#[trigger] out[j]).is_dir implies
        !filetree::seq_lt(out[j].name@, out[i].name@) by {
        assert(!filetree::item_lt(out[j], out[i]));
    }
    let perm = choose|perm: Seq<int>| filetree::stable_perm(input, out, perm);
}

/// Every entry of a sorted listing comes from the listing read, and each
/// entry read appears once.
pub proof fn law_listing_keeps_entries(input: Seq<FileItem>, out: Seq<FileItem>)
    requires
        filetree::is_sorted_listing(input, out),
    ensures
        forall|k: int| 0 <= k < out.len() ==> input.contains(#[trigger] out[k]),
        forall|i: int| 0 <= i < input.len() ==> out.contains(#[trigger] input[i]),
{
    let perm = choose|perm: Seq<int>| filetree::stable_perm(input, out, perm);
    assert forall|k: int| 0 <= k < out.len() implies input.contains(#[trigger] out[k]) by {
        assert(out[k] == input[perm[k]]);
    }
    assert forall|i: int| 0 <= i < input.len() implies out.contains(#[trigger] input[i]) by {
        lemma_injective_covers(perm, input.len() as int);
        assert(perm.contains(i));
        let k = choose|k: int| 0 <= k < perm.len() && perm[k] == i;
        assert(out[k] == input[i]);
    }
}

/// A one-to-one map of `0..n` into `0..n` reaches every value.
proof fn lemma_injective_covers(perm: Seq<int>, n: int)
    requires
        perm.len() == n,
        forall|k: int| 0 <= k < n ==> 0 <= #[trigger] perm[k] < n,
        forall|k: int, l: int| 0 <= k < l < n ==> #[trigger] perm[k] != #[trigger] perm[l],
    ensures
        forall|i: int| 0 <= i < n ==> #[trigger] perm.contains(i),
{
    let f = |k: int| perm[k];
    let s = vstd::set_lib::set_int_range(0, n);
    let img = s.map(f);
    let full = vstd::set_lib::set_int_range(0, n);
    vstd::set_lib::lemma_int_range(0, n);
    assert(vstd::relations::injective_on(f, s)) by {
        assert forall|a: int, b: int| s.contains(a) && s.contains(b) && #[trigger] f(a) == #[trigger] f(b) implies a == b by {
            if a < b {
                assert(perm[a] != perm[b]);
            } else if b < a {
                assert(perm[b] != perm[a]);
            }
        }
    }
    vstd::set_lib::lemma_map_size(s, img, f);
    assert(img.subset_of(full)) by {
        assert forall|i: int| img.contains(i) implies full.contains(i) by {
            let k = choose|k: int| s.contains(k) && f(k) == i;
        }
    }
    vstd::set_lib::lemma_subset_equality(img, full);
    assert forall|i: int| 0 <= i < n implies #[trigger] perm.contains(i) by {
        assert(full.contains(i));
        assert(img.contains(i));
        let k = choose|k: int| s.contains(k) && f(k) == i;
        assert(perm[k] == i);
    }
}

/// The log keeps no more than [`MAX_LOGS`] entries once it is within
/// that, and the entry just added is its last.
pub proof fn law_log_bounded<T>(logs: Seq<T>, item: T)
    requires
        logs.len() <= MAX_LOGS,
    ensures
        state::logs_after_add(logs, item).len() <= MAX_LOGS,
        state::logs_after_add(logs, item).len() >= 1,
        state::logs_after_add(logs, item).last() == item,
{
}

/// Folding a changelist that was just unfolded leaves the unfolded set as
/// it was.
pub proof fn law_collapse_undoes_expand(ids: Seq<String>, s: String)
    requires
        !state::id_in(ids, s@),
    ensures
        state::remove_id(ids.push(s), s@) == ids,
{
    assert(ids.push(s).drop_last() =~= ids);
    lemma_remove_absent(ids, s@);
}

proof fn lemma_remove_absent(ids: Seq<String>, id: Seq<char>)
    requires
        !state::id_in(ids, id),
    ensures
        state::remove_id(ids, id) == ids,
    decreases ids.len(),
{
    if ids.len() > 0 {
        assert(ids.last() == ids[ids.len() - 1]);
        assert(!state::id_in(ids.drop_last(), id)) by {
            if state::id_in(ids.drop_last(), id) {
                let i = choose|i: int| 0 <= i < ids.drop_last().len() && (#[trigger] ids.drop_last()[i])@ == id;
                assert(ids[i]@ == id);
            }
        }
        lemma_remove_absent(ids.drop_last(), id);
        assert(ids.drop_last().push(ids.last()) =~= ids);
    }
}

/// A folded set holds no copy of the id folded.
pub proof fn law_collapse_removes(ids: Seq<String>, id: Seq<char>)
    ensures
        !state::id_in(state::remove_id(ids, id), id),
    decreases ids.len(),
{
    if ids.len() > 0 {
        law_collapse_removes(ids.drop_last(), id);
        let r = state::remove_id(ids, id);
        if state::id_in(r, id) {
            let i = choose|i: int| 0 <= i < r.len() && (#[trigger] r[i])@ == id;
            if ids.last()@ != id && i == r.len() - 1 {
            } else {
                assert(state::remove_id(ids.drop_last(), id)[i]@ == id);
            }
        }
    }
}

/// After folding, the cursor is on the folded changelist's own row: the
/// row counted for a changelist's position is that changelist's.
pub proof fn law_collapse_cursor_on_changelist(cls: Seq<ChangeListItem>, ids: Seq<String>, k: int)
    requires
        0 <= k < cls.len(),
    ensures
        state::cl_rows(cls.take(k), ids).len() < state::cl_rows(cls, ids).len(),
        state::cl_rows(cls, ids)[state::cl_rows(cls.take(k), ids).len() as int]
            == ClTargetView::Id(cls[k].id@),
{
    state::lemma_cl_rows_prefix(cls, ids, k + 1);
    assert(cls.take(k + 1).drop_last() =~= cls.take(k));
    let a = state::cl_rows(cls.take(k), ids);
    let b = state::cl_rows(cls.take(k + 1), ids);
    assert(b == a + state::cl_block(cls[k], ids));
    assert(b[a.len() as int] == ClTargetView::Id(cls[k].id@));
}

/// The files of a dry run carry their places in the list.
pub proof fn law_ztag_indices(out: Seq<char>)
    ensures
        forall|i: int|
            0 <= i < sync::parse_ztag_spec(out).len() && i <= usize::MAX ==> (#[trigger] sync::parse_ztag_spec(out)[i]).original_index == i,
{
    let ls = text::lines_spec(out);
    lemma_ztag_fold_indices(ls);
}

proof fn lemma_ztag_fold_indices(ls: Seq<Seq<char>>)
    ensures
        forall|i: int|
            0 <= i < sync::ztag_fold(ls).files.len() && i <= usize::MAX ==> (#[trigger] sync::ztag_fold(ls).files[i]).original_index == i,
    decreases ls.len(),
{
    if ls.len() > 0 {
        lemma_ztag_fold_indices(ls.drop_last());
    }
}

/// The name of a detail cache file holds no `/`: it names one file in the
/// cache directory.
pub proof fn law_cache_key_is_one_name(p: Seq<char>)
    ensures
        !detail::cache_key_spec(p).contains('/'),
{
    let k = detail::cache_key_spec(p);
    if k.contains('/') {
        let i = choose|i: int| 0 <= i < k.len() && k[i] == '/';
        if i >= 3 {
            assert(k[i] == text::replace_char_spec(p, '/', '_')[i - 3]);
        }
    }
}

/// How many files of a sync list are done.
pub open spec fn done_count(files: Seq<SyncFileInfo>) -> nat
    decreases files.len(),
{
    if files.len() == 0 {
        0
    } else {
        done_count(files.drop_last()) + if files.last().status == SyncFileStatus::Done {
            1nat
        } else {
            0nat
        }
    }
}

/// How many files of a sync list are syncing.
pub open spec fn syncing_count(files: Seq<SyncFileInfo>) -> nat
    decreases files.len(),
{
    if files.len() == 0 {
        0
    } else {
        syncing_count(files.drop_last()) + if files.last().status == SyncFileStatus::Syncing {
            1nat
        } else {
            0nat
        }
    }
}

proof fn lemma_count_update(files: Seq<SyncFileInfo>, i: int, s: SyncFileStatus)
    requires
        0 <= i < files.len(),
    ensures
        done_count(sync::set_status(files, i, s)) + (if files[i].status == SyncFileStatus::Done { 1nat } else { 0nat })
            == done_count(files) + (if s == SyncFileStatus::Done { 1nat } else { 0nat }),
        syncing_count(sync::set_status(files, i, s)) + (if files[i].status == SyncFileStatus::Syncing { 1nat } else { 0nat })
            == syncing_count(files) + (if s == SyncFileStatus::Syncing { 1nat } else { 0nat }),
    decreases files.len(),
{
    let u = sync::set_status(files, i, s);
    if i == files.len() - 1 {
        assert(u.drop_last() =~= files.drop_last());
    } else {
        lemma_count_update(files.drop_last(), i, s);
        assert(u.drop_last() =~= sync::set_status(files.drop_last(), i, s));
    }
}

proof fn lemma_first_status(files: Seq<SyncFileInfo>, s: SyncFileStatus, i: int)
    requires
        0 <= i,
    ensures
        sync::first_with_status(files, s, i) matches Some(k) ==> i <= k < files.len() && files[k].status == s,
        sync::first_with_status(files, s, i) is None ==> forall|j: int| i <= j < files.len() ==> (#[trigger] files[j]).status != s,
    decreases files.len() - i,
{
    if i < files.len() && files[i].status != s {
        lemma_first_status(files, s, i + 1);
    }
}

proof fn lemma_first_match(files: Seq<SyncFileInfo>, p: Seq<char>, i: int)
    requires
        0 <= i,
    ensures
        sync::first_done_match(files, p, i) matches Some(k) ==> i <= k < files.len(),
    decreases files.len() - i,
{
    if i < files.len() && !sync::done_matches(files[i], p) {
        lemma_first_match(files, p, i + 1);
    }
}

proof fn lemma_no_syncing(files: Seq<SyncFileInfo>)
    requires
        forall|j: int| 0 <= j < files.len() ==> (#[trigger] files[j]).status != SyncFileStatus::Syncing,
    ensures
        syncing_count(files) == 0,
    decreases files.len(),
{
    if files.len() > 0 {
        lemma_no_syncing(files.drop_last());
    }
}

/// A `FileDone` makes exactly one more file done when it counts one, and
/// none otherwise; and it never leaves more than one file syncing where
/// there was at most one.
pub proof fn law_file_done_counts(files: Seq<SyncFileInfo>, path: Seq<char>)
    requires
        syncing_count(files) <= 1,
    ensures
        ({
            let (f, counted) = sync::file_done_step(files, path);
            &&& done_count(f) == done_count(files) + if counted { 1nat } else { 0nat }
            &&& syncing_count(f) <= 1
            &&& f.len() == files.len()
        }),
{
    lemma_first_match(files, path, 0);
    lemma_first_status(files, SyncFileStatus::Syncing, 0);
    let f1 = match sync::first_done_match(files, path, 0) {
        Some(i) => if files[i].status != SyncFileStatus::Done {
            sync::set_status(files, i, SyncFileStatus::Done)
        } else {
            files
        },
        None => match sync::first_with_status(files, SyncFileStatus::Syncing, 0) {
            Some(i) => sync::set_status(files, i, SyncFileStatus::Done),
            None => files,
        },
    };
    match sync::first_done_match(files, path, 0) {
        Some(i) => if files[i].status != SyncFileStatus::Done {
            lemma_count_update(files, i, SyncFileStatus::Done);
        },
        None => match sync::first_with_status(files, SyncFileStatus::Syncing, 0) {
            Some(i) => {
                lemma_count_update(files, i, SyncFileStatus::Done);
            },
            None => {},
        },
    }
    lemma_first_status(f1, SyncFileStatus::Syncing, 0);
    lemma_first_status(f1, SyncFileStatus::Pending, 0);
    if sync::first_with_status(f1, SyncFileStatus::Syncing, 0) is None {
        lemma_no_syncing(f1);
        match sync::first_with_status(f1, SyncFileStatus::Pending, 0) {
            Some(j) => {
                lemma_count_update(f1, j, SyncFileStatus::Syncing);
            },
            None => {},
        }
    }
}

/// While a sync runs, a key does nothing but, for `Esc`, stop it.
pub proof fn law_sync_takes_only_esc(c: state::Core, k: Key)
    requires
        c.is_syncing,
    ensures
        keys::key_command(c, k) == (if k.code == keys::KeyCode::Esc {
            Command::CancelSync
        } else {
            Command::Nothing
        }),
{
}

/// `Q` quits from the main view whatever panel is active.
pub proof fn law_q_quits(c: state::Core)
    requires
        !c.is_syncing,
        !c.is_info_overlay_open,
        !c.is_login_overlay_open,
        !c.is_submit_overlay_open,
    ensures
        keys::key_command(c, Key { code: keys::KeyCode::Char('Q'), ctrl: false }) == Command::Quit,
{
}

/// The footer fills the terminal's width exactly wherever the width leaves
/// room for the hints.
pub proof fn law_footer_fills_width(p: state::ActivePanel, width: nat)
    requires
        width > view::footer_right().len() + 5,
    ensures
        view::footer_spec(p, width).len() == width,
{
    let right = view::footer_right();
    let rw = right.len();
    let avail = view::sub0(view::sub0(width as int, rw as int) as int, 2);
    assert(avail == width - rw - 2);
    let h = view::footer_hints(p);
    reveal_strlit("...");
    let left = if h.len() > avail {
        h.take(view::sub0(avail as int, 3) as int) + "..."@
    } else {
        h
    };
    assert(left.len() <= avail);
    let gap = view::sub0(view::sub0(width as int, left.len() as int) as int, rw as int);
    assert(gap == width - left.len() - rw);
    assert(view::footer_spec(p, width) == left + view::spaces(gap) + right);
}

proof fn lemma_line_kinds_add(a: Seq<ClLineView>, b: Seq<ClLineView>)
    ensures
        view::line_kinds(a + b) == view::line_kinds(a) + view::line_kinds(b),
    decreases b.len(),
{
    if b.len() == 0 {
        assert(a + b =~= a);
        assert(view::line_kinds(b) =~= Seq::<bool>::empty());
    } else {
        lemma_line_kinds_add(a, b.drop_last());
        assert((a + b).drop_last() =~= a + b.drop_last());
        assert((a + b).last() == b.last());
        match b.last() {
            ClLineView::Head { .. } => {
                assert(view::line_kinds(a) + view::line_kinds(b) =~= (view::line_kinds(a) + view::line_kinds(b.drop_last())).push(true));
            },
            ClLineView::File(_) => {
                assert(view::line_kinds(a) + view::line_kinds(b) =~= (view::line_kinds(a) + view::line_kinds(b.drop_last())).push(false));
            },
            ClLineView::Note(_) => {},
        }
    }
}

proof fn lemma_notes_no_kinds(ls: Seq<String>)
    ensures
        view::line_kinds(ls.map_values(|l: String| ClLineView::Note("     "@ + l@))) =~= Seq::<bool>::empty(),
    decreases ls.len(),
{
    if ls.len() > 0 {
        lemma_notes_no_kinds(ls.drop_last());
        assert(ls.map_values(|l: String| ClLineView::Note("     "@ + l@)).drop_last() =~= ls.drop_last().map_values(
            |l: String| ClLineView::Note("     "@ + l@),
        ));
    }
}

proof fn lemma_files_kinds(fs: Seq<ChangeListFile>, dcw: nat, id: Seq<char>)
    ensures
        view::line_kinds(fs.map_values(|f: ChangeListFile| ClLineView::File(view::cl_file_line(f, dcw))))
            =~= fs.map_values(|f: ChangeListFile| ClTargetView::File(id, f.path@)).map_values(
            |r: ClTargetView| r is Id,
        ),
    decreases fs.len(),
{
    if fs.len() > 0 {
        lemma_files_kinds(fs.drop_last(), dcw, id);
        assert(fs.map_values(|f: ChangeListFile| ClLineView::File(view::cl_file_line(f, dcw))).drop_last()
            =~= fs.drop_last().map_values(|f: ChangeListFile| ClLineView::File(view::cl_file_line(f, dcw))));
        assert(fs.map_values(|f: ChangeListFile| ClTargetView::File(id, f.path@)).map_values(|r: ClTargetView| r is Id)
            =~= fs.drop_last().map_values(|f: ChangeListFile| ClTargetView::File(id, f.path@)).map_values(
            |r: ClTargetView| r is Id,
        ).push(false));
    }
}

proof fn lemma_block_kinds(
    cl: ChangeListItem,
    i: int,
    ids: Seq<String>,
    synced: Option<String>,
    cw: nat,
    icon: Seq<char>,
)
    ensures
        view::line_kinds(view::cl_block_lines(cl, i, ids, synced, cw, icon)) == state::cl_block(cl, ids).map_values(
            |r: ClTargetView| r is Id,
        ),
{
    let head = seq![view::head_line(cl, i, synced, cw, icon)];
    assert(view::line_kinds(head) =~= seq![true]) by {
        assert(head.drop_last() =~= Seq::<ClLineView>::empty());
        assert(view::line_kinds(Seq::<ClLineView>::empty()) =~= Seq::<bool>::empty());
        assert(head.last() is Head);
    }
    if state::id_in(ids, cl.id@) && cl.details is Some {
        let d = cl.details->0;
        let dcw = view::sub0(cw as int, 3);
        let notes = d.full_description@.map_values(|l: String| ClLineView::Note("     "@ + l@));
        let rule = seq![ClLineView::Note("     "@ + Seq::new(dcw, |k: int| '\u{2500}'))];
        let files = d.files@.map_values(|f: ChangeListFile| ClLineView::File(view::cl_file_line(f, dcw)));
        assert(view::line_kinds(rule) =~= Seq::<bool>::empty()) by {
            assert(rule.drop_last() =~= Seq::<ClLineView>::empty());
            assert(view::line_kinds(Seq::<ClLineView>::empty()) =~= Seq::<bool>::empty());
            assert(rule.last() is Note);
        }
        lemma_notes_no_kinds(d.full_description@);
        lemma_files_kinds(d.files@, dcw, cl.id@);
        lemma_line_kinds_add(head, notes + rule + files);
        lemma_line_kinds_add(notes + rule, files);
        lemma_line_kinds_add(notes, rule);
        assert(view::cl_block_lines(cl, i, ids, synced, cw, icon) =~= head + (notes + rule + files));
        assert(state::cl_block(cl, ids).map_values(|r: ClTargetView| r is Id) =~= seq![true]
            + d.files@.map_values(|f: ChangeListFile| ClTargetView::File(cl.id@, f.path@)).map_values(
            |r: ClTargetView| r is Id,
        ));
    } else {
        assert(view::cl_block_lines(cl, i, ids, synced, cw, icon) =~= head);
        assert(state::cl_block(cl, ids).map_values(|r: ClTargetView| r is Id) =~= seq![true]);
    }
}

/// The rows the changelist panel lets the cursor on are the rows its
/// cursor moves over ([`state::cl_rows`]), in order: a changelist row
/// where a changelist is, a file row where a file is.
pub proof fn law_changelist_lines_follow_rows(
    cls: Seq<ChangeListItem>,
    ids: Seq<String>,
    synced: Option<String>,
    cw: nat,
    icon: Seq<char>,
)
    ensures
        view::line_kinds(view::cl_lines(cls, ids, synced, cw, icon)) == state::cl_rows(cls, ids).map_values(
            |r: ClTargetView| r is Id,
        ),
    decreases cls.len(),
{
    if cls.len() == 0 {
        assert(view::line_kinds(view::cl_lines(cls, ids, synced, cw, icon)) =~= Seq::<bool>::empty());
        assert(state::cl_rows(cls, ids).map_values(|r: ClTargetView| r is Id) =~= Seq::<bool>::empty());
    } else {
        law_changelist_lines_follow_rows(cls.drop_last(), ids, synced, cw, icon);
        lemma_block_kinds(cls.last(), cls.len() - 1, ids, synced, cw, icon);
        lemma_line_kinds_add(
            view::cl_lines(cls.drop_last(), ids, synced, cw, icon),
            view::cl_block_lines(cls.last(), cls.len() - 1, ids, synced, cw, icon),
        );
        assert(state::cl_rows(cls, ids).map_values(|r: ClTargetView| r is Id) =~= state::cl_rows(
            cls.drop_last(),
            ids,
        ).map_values(|r: ClTargetView| r is Id) + state::cl_block(cls.last(), ids).map_values(
            |r: ClTargetView| r is Id,
        ));
    }
}

/// How many files of a sync list have status `st`.
pub open spec fn status_count(files: Seq<SyncFileInfo>, st: SyncFileStatus) -> nat
    decreases files.len(),
{
    if files.len() == 0 {
        0
    } else {
        status_count(files.drop_last(), st) + if files.last().status == st {
            1nat
        } else {
            0nat
        }
    }
}

proof fn lemma_counts_named(files: Seq<SyncFileInfo>)
    ensures
        done_count(files) == status_count(files, SyncFileStatus::Done),
        syncing_count(files) == status_count(files, SyncFileStatus::Syncing),
    decreases files.len(),
{
    if files.len() > 0 {
        lemma_counts_named(files.drop_last());
    }
}

/// The places of the files of `files` with status `st`.
spec fn status_places(files: Seq<SyncFileInfo>, st: SyncFileStatus) -> Set<int> {
    Set::new(|k: int| 0 <= k < files.len() && files[k].status == st)
}

proof fn lemma_count_is_places(files: Seq<SyncFileInfo>, st: SyncFileStatus)
    ensures
        status_places(files, st).finite(),
        status_count(files, st) == status_places(files, st).len(),
    decreases files.len(),
{
    if files.len() == 0 {
        assert(status_places(files, st) =~= Set::<int>::empty());
    } else {
        let prev = files.drop_last();
        lemma_count_is_places(prev, st);
        let n = files.len() - 1;
        if files.last().status == st {
            assert(status_places(files, st) =~= status_places(prev, st).insert(n));
            assert(!status_places(prev, st).contains(n));
        } else {
            assert(status_places(files, st) =~= status_places(prev, st));
        }
    }
}

proof fn lemma_sort_keeps_count(
    input: Seq<SyncFileInfo>,
    out: Seq<SyncFileInfo>,
    lt: spec_fn(SyncFileInfo, SyncFileInfo) -> bool,
    st: SyncFileStatus,
)
    requires
        sync::is_stable_sort(input, out, lt),
    ensures
        status_count(out, st) == status_count(input, st),
{
    let perm = choose|perm: Seq<int>| sync::stable_perm_by(input, out, perm, lt);
    let n = input.len() as int;
    lemma_injective_covers(perm, n);
    let f = |k: int| perm[k];
    let a = status_places(out, st);
    let b = status_places(input, st);
    lemma_count_is_places(out, st);
    lemma_count_is_places(input, st);
    assert(vstd::relations::injective_on(f, a)) by {
        assert forall|x: int, y: int| a.contains(x) && a.contains(y) && #[trigger] f(x) == #[trigger] f(y) implies x == y by {
            if x < y {
                assert(perm[x] != perm[y]);
            } else if y < x {
                assert(perm[y] != perm[x]);
            }
        }
    }
    assert(a.map(f) =~= b) by {
        assert forall|i: int| a.map(f).contains(i) implies b.contains(i) by {
            let k = choose|k: int| a.contains(k) && f(k) == i;
            assert(out[k] == input[perm[k]]);
        }
        assert forall|i: int| b.contains(i) implies a.map(f).contains(i) by {
            assert(perm.contains(i));
            let k = choose|k: int| 0 <= k < perm.len() && perm[k] == i;
            assert(out[k] == input[perm[k]]);
            assert(a.contains(k));
            assert(f(k) == i);
        }
    }
    vstd::set_lib::lemma_map_size(a, b, f);
}

/// While a sync runs, the count of files done that the overlay shows is
/// the number of files marked done, and at most one file is syncing: a
/// dry run's list of pending files starts it so, and each line of the sync
/// keeps it so (while the count is below the largest `usize`).
pub proof fn law_sync_count_is_files_done(old: state::Core, new: state::Core, path: Seq<char>)
    requires
        old.sync_current == done_count(old.sync_files@),
        syncing_count(old.sync_files@) <= 1,
        old.sync_current < usize::MAX,
        sync::file_done_applied(old, new, path),
    ensures
        new.sync_current == done_count(new.sync_files@),
        syncing_count(new.sync_files@) <= 1,
{
    let (f, counted) = sync::file_done_step(old.sync_files@, path);
    law_file_done_counts(old.sync_files@, path);
    lemma_sort_keeps_count(f, new.sync_files@, sync::order_lt(sync::SyncOrder::Progress), SyncFileStatus::Done);
    lemma_sort_keeps_count(f, new.sync_files@, sync::order_lt(sync::SyncOrder::Progress), SyncFileStatus::Syncing);
    lemma_counts_named(f);
    lemma_counts_named(new.sync_files@);
}

/// A sync starts from a dry run's list of pending files with a count of
/// files done that is the number of files marked done (none), and one file
/// syncing at most.
pub proof fn law_sync_starts_counted(old: state::Core, new: state::Core, files: Seq<SyncFileInfo>)
    requires
        forall|i: int| 0 <= i < files.len() ==> (#[trigger] files[i]).status == SyncFileStatus::Pending,
        sync::sync_started(old, new, files),
    ensures
        new.sync_current == done_count(new.sync_files@),
        syncing_count(new.sync_files@) <= 1,
{
    let g = new.sync_files@;
    lemma_count_is_places(g, SyncFileStatus::Done);
    lemma_count_is_places(g, SyncFileStatus::Syncing);
    lemma_counts_named(g);
    assert(status_places(g, SyncFileStatus::Done) =~= Set::<int>::empty());
    if files.len() > 0 {
        assert(status_places(g, SyncFileStatus::Syncing) =~= set![0int]);
    } else {
        assert(status_places(g, SyncFileStatus::Syncing) =~= Set::<int>::empty());
    }
}

proof fn lemma_count_sum(f: Seq<SyncFileInfo>)
    ensures
        status_count(f, SyncFileStatus::Done) + status_count(f, SyncFileStatus::Syncing) + status_count(
            f,
            SyncFileStatus::Pending,
        ) == f.len(),
    decreases f.len(),
{
    if f.len() > 0 {
        lemma_count_sum(f.drop_last());
    }
}

proof fn lemma_count_none(f: Seq<SyncFileInfo>, st: SyncFileStatus)
    requires
        forall|j: int| 0 <= j < f.len() ==> (#[trigger] f[j]).status != st,
    ensures
        status_count(f, st) == 0,
    decreases f.len(),
{
    if f.len() > 0 {
        lemma_count_none(f.drop_last(), st);
    }
}

proof fn lemma_count_some(f: Seq<SyncFileInfo>, st: SyncFileStatus, k: int)
    requires
        0 <= k < f.len(),
        f[k].status == st,
    ensures
        status_count(f, st) >= 1,
    decreases f.len(),
{
    if k < f.len() - 1 {
        lemma_count_some(f.drop_last(), st, k);
    }
}

proof fn lemma_count_all(f: Seq<SyncFileInfo>, st: SyncFileStatus)
    requires
        forall|j: int| 0 <= j < f.len() ==> (#[trigger] f[j]).status == st,
    ensures
        status_count(f, st) == f.len(),
    decreases f.len(),
{
    if f.len() > 0 {
        lemma_count_all(f.drop_last(), st);
    }
}

proof fn lemma_sort_keeps_len(
    input: Seq<SyncFileInfo>,
    out: Seq<SyncFileInfo>,
    lt: spec_fn(SyncFileInfo, SyncFileInfo) -> bool,
)
    requires
        sync::is_stable_sort(input, out, lt),
    ensures
        out.len() == input.len(),
{
    let perm = choose|perm: Seq<int>| sync::stable_perm_by(input, out, perm, lt);
}

/// What a sync keeps while it runs: the total is the length of the list,
/// the count shown is the number of files done (so no more than the
/// total), and exactly one file is syncing while some file is not done,
/// none once all are.
pub open spec fn sync_consistent(c: state::Core) -> bool {
    let f = c.sync_files@;
    &&& c.sync_total == f.len()
    &&& c.sync_current == done_count(f)
    &&& done_count(f) <= f.len()
    &&& syncing_count(f) == (if done_count(f) == f.len() { 0nat } else { 1nat })
}

/// One event of a running sync after the dry run: a line naming a file,
/// the bytes synced so far, the end, or a failure.
pub open spec fn sync_event_step(old: state::Core, new: state::Core) -> bool {
    ||| exists|p: Seq<char>| #[trigger] sync::file_done_applied(old, new, p)
    ||| exists|v: Seq<u64>| #[trigger] sync::bytes_progressed(old, new, v)
    ||| sync::sync_ended(old, new)
    ||| exists|e: Seq<char>| #[trigger] sync::sync_failed(old, new, e)
}

proof fn lemma_start_consistent(old: state::Core, new: state::Core, files: Seq<SyncFileInfo>)
    requires
        files.len() <= usize::MAX,
        forall|i: int| 0 <= i < files.len() ==> (#[trigger] files[i]).status == SyncFileStatus::Pending,
        sync::sync_started(old, new, files),
    ensures
        sync_consistent(new),
{
    let g = new.sync_files@;
    lemma_counts_named(g);
    lemma_count_none(g, SyncFileStatus::Done);
    if files.len() > 0 {
        assert forall|j: int| 1 <= j < g.len() implies (#[trigger] g[j]).status == SyncFileStatus::Pending by {
            assert(g[j] == files[j]);
        }
        lemma_pending_tail(g);
    } else {
        lemma_count_none(g, SyncFileStatus::Syncing);
    }
}

proof fn lemma_pending_tail(g: Seq<SyncFileInfo>)
    requires
        g.len() > 0,
        g[0].status == SyncFileStatus::Syncing,
        forall|j: int| 1 <= j < g.len() ==> (#[trigger] g[j]).status == SyncFileStatus::Pending,
    ensures
        status_count(g, SyncFileStatus::Syncing) == 1,
    decreases g.len(),
{
    let p = g.drop_last();
    if g.len() == 1 {
        assert(p.len() == 0);
        assert(status_count(p, SyncFileStatus::Syncing) == 0);
    } else {
        assert forall|j: int| 1 <= j < p.len() implies (#[trigger] p[j]).status == SyncFileStatus::Pending by {
            assert(p[j] == g[j]);
        }
        lemma_pending_tail(p);
        assert(g.last().status == SyncFileStatus::Pending);
    }
}

proof fn lemma_file_done_consistent(old: state::Core, new: state::Core, path: Seq<char>)
    requires
        sync_consistent(old),
        sync::file_done_applied(old, new, path),
    ensures
        sync_consistent(new),
{
    let files = old.sync_files@;
    let (f, counted) = sync::file_done_step(files, path);
    lemma_counts_named(files);
    law_file_done_counts(files, path);
    lemma_counts_named(f);
    lemma_first_match(files, path, 0);
    lemma_first_status(files, SyncFileStatus::Syncing, 0);
    let f1 = match sync::first_done_match(files, path, 0) {
        Some(i) => if files[i].status != SyncFileStatus::Done {
            sync::set_status(files, i, SyncFileStatus::Done)
        } else {
            files
        },
        None => match sync::first_with_status(files, SyncFileStatus::Syncing, 0) {
            Some(i) => sync::set_status(files, i, SyncFileStatus::Done),
            None => files,
        },
    };
    assert(f1.len() == files.len());
    lemma_first_status(f1, SyncFileStatus::Syncing, 0);
    lemma_first_status(f1, SyncFileStatus::Pending, 0);
    lemma_count_sum(f);
    match sync::first_with_status(f1, SyncFileStatus::Syncing, 0) {
        Some(k) => {
            assert(f == f1);
            lemma_count_some(f, SyncFileStatus::Syncing, k);
        },
        None => {
            lemma_count_none(f1, SyncFileStatus::Syncing);
            match sync::first_with_status(f1, SyncFileStatus::Pending, 0) {
                Some(j) => {
                    assert(f == sync::set_status(f1, j, SyncFileStatus::Syncing));
                    assert(f[j].status == SyncFileStatus::Syncing);
                    lemma_count_some(f, SyncFileStatus::Syncing, j);
                },
                None => {
                    assert(f == f1);
                    lemma_count_none(f, SyncFileStatus::Pending);
                    lemma_count_none(f, SyncFileStatus::Syncing);
                },
            }
        },
    }
    let out = new.sync_files@;
    let lt = sync::order_lt(sync::SyncOrder::Progress);
    lemma_sort_keeps_len(f, out, lt);
    lemma_sort_keeps_count(f, out, lt, SyncFileStatus::Done);
    lemma_sort_keeps_count(f, out, lt, SyncFileStatus::Syncing);
    lemma_counts_named(out);
}

proof fn lemma_map_keeps_count(f: Seq<SyncFileInfo>, v: Seq<u64>, st: SyncFileStatus)
    ensures
        status_count(f.map_values(|x: SyncFileInfo| sync::with_progress(x, v)), st) == status_count(f, st),
    decreases f.len(),
{
    if f.len() > 0 {
        lemma_map_keeps_count(f.drop_last(), v, st);
        assert(f.map_values(|x: SyncFileInfo| sync::with_progress(x, v)).drop_last() =~= f.drop_last().map_values(
            |x: SyncFileInfo| sync::with_progress(x, v),
        ));
    }
}

proof fn lemma_bytes_consistent(old: state::Core, new: state::Core, v: Seq<u64>)
    requires
        sync_consistent(old),
        sync::bytes_progressed(old, new, v),
    ensures
        sync_consistent(new),
{
    let files = old.sync_files@;
    let m = files.map_values(|x: SyncFileInfo| sync::with_progress(x, v));
    let out = new.sync_files@;
    let lt = sync::order_lt(sync::SyncOrder::Started);
    lemma_map_keeps_count(files, v, SyncFileStatus::Done);
    lemma_map_keeps_count(files, v, SyncFileStatus::Syncing);
    lemma_sort_keeps_len(m, out, lt);
    lemma_sort_keeps_count(m, out, lt, SyncFileStatus::Done);
    lemma_sort_keeps_count(m, out, lt, SyncFileStatus::Syncing);
    lemma_counts_named(files);
    lemma_counts_named(out);
}

proof fn lemma_end_consistent(old: state::Core, new: state::Core)
    requires
        sync_consistent(old),
        sync::sync_ended(old, new),
    ensures
        sync_consistent(new),
{
    let g = new.sync_files@;
    lemma_counts_named(g);
    lemma_count_all(g, SyncFileStatus::Done);
    lemma_count_none(g, SyncFileStatus::Syncing);
}

proof fn lemma_step_consistent(old: state::Core, new: state::Core)
    requires
        sync_consistent(old),
        sync_event_step(old, new),
    ensures
        sync_consistent(new),
{
    if exists|p: Seq<char>| #[trigger] sync::file_done_applied(old, new, p) {
        let p = choose|p: Seq<char>| #[trigger] sync::file_done_applied(old, new, p);
        lemma_file_done_consistent(old, new, p);
    } else if exists|v: Seq<u64>| #[trigger] sync::bytes_progressed(old, new, v) {
        let v = choose|v: Seq<u64>| #[trigger] sync::bytes_progressed(old, new, v);
        lemma_bytes_consistent(old, new, v);
    } else if sync::sync_ended(old, new) {
        lemma_end_consistent(old, new);
    } else {
        let e = choose|e: Seq<char>| #[trigger] sync::sync_failed(old, new, e);
        assert(new.sync_files == old.sync_files);
    }
}

/// Through a whole sync, from a dry run's list of pending files and over
/// any run of events after it (lines naming files, bytes synced, the end,
/// a failure), the total is the length of the list, the count shown is the
/// number of files done and no more than the total, and exactly one file
/// is syncing while some file is not done.
pub proof fn law_sync_run_consistent(start: state::Core, files: Seq<SyncFileInfo>, states: Seq<state::Core>)
    requires
        files.len() <= usize::MAX,
        forall|i: int| 0 <= i < files.len() ==> (#[trigger] files[i]).status == SyncFileStatus::Pending,
        states.len() > 0,
        sync::sync_started(start, states[0], files),
        forall|i: int| 0 <= i < states.len() - 1 ==> sync_event_step(#[trigger] states[i], states[i + 1]),
    ensures
        forall|i: int| 0 <= i < states.len() ==> sync_consistent(#[trigger] states[i]),
    decreases states.len(),
{
    if states.len() == 1 {
        lemma_start_consistent(start, states[0], files);
    } else {
        let prev = states.drop_last();
        assert forall|i: int| 0 <= i < prev.len() - 1 implies sync_event_step(#[trigger] prev[i], prev[i + 1]) by {
            assert(prev[i] == states[i] && prev[i + 1] == states[i + 1]);
            assert(sync_event_step(states[i], states[i + 1]));
        }
        law_sync_run_consistent(start, files, prev);
        let n = states.len() - 1;
        assert(prev[n - 1] == states[n - 1]);
        assert(sync_event_step(states[n - 1], states[n]));
        lemma_step_consistent(states[n - 1], states[n]);
        assert forall|i: int| 0 <= i < states.len() implies sync_consistent(#[trigger] states[i]) by {
            if i < n {
                assert(states[i] == prev[i]);
            }
        }
    }
}

/// Pressing `V` twice on the same directory, with no virtual root in use,
/// ends with no virtual root in use, the directory in the history, and
/// nothing else changed.
pub proof fn law_toggle_virtual_root_twice(c0: state::Core, c1: state::Core, c2: state::Core, r1: bool, r2: bool)
    requires
        c0.virtual_root is None,
        c0.filetree.selected < c0.filetree.files@.len(),
        c0.filetree.files@[c0.filetree.selected as int].is_dir,
        state::virtual_root_toggled(c0, c1, r1),
        state::virtual_root_toggled(c1, c2, r2),
    ensures
        r1 && r2,
        c2.virtual_root is None,
        state::id_in(c2.virtual_root_history@, c0.filetree.files@[c0.filetree.selected as int].path@),
        c2 == (state::Core { virtual_root_history: c2.virtual_root_history, ..c0 }),
{
    let p = c0.filetree.files@[c0.filetree.selected as int].path;
    assert(c1.virtual_root == Some(p));
    assert(c1.filetree == c0.filetree);
    if !state::id_in(c0.virtual_root_history@, p@) {
        let h = c1.virtual_root_history@;
        assert(h[h.len() - 1] == p);
    }
}

/// The place that `perm` gives to input index `i`, once index `a` is taken
/// out of the input.
spec fn shifted(v: int, a: int) -> int {
    if v > a { v - 1 } else { v }
}

/// Taking the first entry off a stably sorted listing leaves a stably
/// sorted listing of the input without that entry.
proof fn lemma_stable_perm_drop_first(input: Seq<FileItem>, out: Seq<FileItem>, perm: Seq<int>)
    requires
        filetree::stable_perm(input, out, perm),
        out.len() > 0,
    ensures
        filetree::stable_perm(
            input.remove(perm[0]),
            out.drop_first(),
            perm.drop_first().map_values(|v: int| shifted(v, perm[0])),
        ),
{
    let a = perm[0];
    let inp = input.remove(a);
    let o = out.drop_first();
    let q = perm.drop_first().map_values(|v: int| shifted(v, a));
    assert forall|k: int| 0 <= k < o.len() implies 0 <= #[trigger] q[k] < inp.len() by {
        assert(perm[0] != perm[k + 1]);
    }
    assert forall|k: int| 0 <= k < o.len() implies #[trigger] o[k] == inp[q[k]] by {
        assert(perm[0] != perm[k + 1]);
        assert(out[k + 1] == input[perm[k + 1]]);
    }
    assert forall|k: int, l: int| 0 <= k < l < o.len() implies #[trigger] q[k] != #[trigger] q[l] by {
        assert(perm[k + 1] != perm[l + 1]);
        assert(perm[0] != perm[k + 1]);
        assert(perm[0] != perm[l + 1]);
    }
    assert forall|k: int, l: int|
        0 <= k < l < o.len() && !filetree::item_lt(#[trigger] o[k], #[trigger] o[l]) && !filetree::item_lt(o[l], o[k])
        implies q[k] < q[l] by {
        assert(out[k + 1] == o[k]);
        assert(out[l + 1] == o[l]);
        assert(perm[k + 1] < perm[l + 1]);
    }
}

/// Two stable sorts of one listing place the same entry first.
proof fn lemma_stable_first(
    input: Seq<FileItem>,
    o1: Seq<FileItem>,
    p1: Seq<int>,
    o2: Seq<FileItem>,
    p2: Seq<int>,
)
    requires
        filetree::sorted_items(o1),
        filetree::stable_perm(input, o1, p1),
        filetree::sorted_items(o2),
        filetree::stable_perm(input, o2, p2),
        input.len() > 0,
    ensures
        p1[0] == p2[0],
{
    let n = input.len() as int;
    lemma_injective_covers(p1, n);
    lemma_injective_covers(p2, n);
    if p1[0] != p2[0] {
        let a = p1[0];
        let b = p2[0];
        assert(p2.contains(a));
        let k2 = choose|k: int| 0 <= k < p2.len() && p2[k] == a;
        assert(p1.contains(b));
        let k1 = choose|k: int| 0 <= k < p1.len() && p1[k] == b;
        assert(k1 != 0);
        assert(k2 != 0);
        assert(o2[k2] == input[a]);
        assert(o2[0] == input[b]);
        assert(o1[k1] == input[b]);
        assert(o1[0] == input[a]);
        assert(!filetree::item_lt(o2[k2], o2[0]));
        assert(!filetree::item_lt(o1[k1], o1[0]));
        if a < b {
            assert(p2[0] < p2[k2]);
        } else {
            assert(p1[0] < p1[k1]);
        }
    }
}

/// A listing has one stable sort: two sorted listings of the same entries
/// are equal.
proof fn lemma_sorted_listing_unique(input: Seq<FileItem>, o1: Seq<FileItem>, o2: Seq<FileItem>)
    requires
        filetree::is_sorted_listing(input, o1),
        filetree::is_sorted_listing(input, o2),
    ensures
        o1 == o2,
    decreases input.len(),
{
    let p1 = choose|perm: Seq<int>| filetree::stable_perm(input, o1, perm);
    let p2 = choose|perm: Seq<int>| filetree::stable_perm(input, o2, perm);
    if input.len() == 0 {
        assert(o1 =~= o2);
    } else {
        lemma_stable_first(input, o1, p1, o2, p2);
        let a = p1[0];
        lemma_stable_perm_drop_first(input, o1, p1);
        lemma_stable_perm_drop_first(input, o2, p2);
        let q1 = p1.drop_first().map_values(|v: int| shifted(v, a));
        let q2 = p2.drop_first().map_values(|v: int| shifted(v, a));
        assert(filetree::sorted_items(o1.drop_first())) by {
            assert forall|i: int, j: int| 0 <= i < j < o1.drop_first().len() implies
                !filetree::item_lt(#[trigger] o1.drop_first()[j], #[trigger] o1.drop_first()[i]) by {
                assert(o1.drop_first()[j] == o1[j + 1]);
                assert(o1.drop_first()[i] == o1[i + 1]);
            }
        }
        assert(filetree::sorted_items(o2.drop_first())) by {
            assert forall|i: int, j: int| 0 <= i < j < o2.drop_first().len() implies
                !filetree::item_lt(#[trigger] o2.drop_first()[j], #[trigger] o2.drop_first()[i]) by {
                assert(o2.drop_first()[j] == o2[j + 1]);
                assert(o2.drop_first()[i] == o2[i + 1]);
            }
        }
        assert(filetree::is_sorted_listing(input.remove(a), o1.drop_first()));
        assert(filetree::is_sorted_listing(input.remove(a), o2.drop_first()));
        lemma_sorted_listing_unique(input.remove(a), o1.drop_first(), o2.drop_first());
        assert(o1[0] == o2[0]);
        assert(o1 =~= o2) by {
            assert forall|k: int| 0 <= k < o1.len() implies o1[k] == o2[k] by {
                if k > 0 {
                    assert(o1[k] == o1.drop_first()[k - 1]);
                    assert(o2[k] == o2.drop_first()[k - 1]);
                }
            }
        }
    }
}

/// Entering a directory and then leaving it, the disk unchanged, brings
/// the browser back: the same directory, entries and cursor. The browser
/// shows the listing `lc` of its directory, the selected directory is
/// listed there (its parent is that directory), and no other entry is the
/// same path; entering reads that directory's listing `lp` and `lc` as its
/// parent's, and leaving reads `lc` again.
pub proof fn law_leave_undoes_enter(
    t0: filetree::FileTree,
    t1: filetree::FileTree,
    t2: filetree::FileTree,
    lc: Seq<FileItem>,
    lp: Seq<FileItem>,
    lpp: Seq<FileItem>,
)
    requires
        filetree::is_sorted_listing(lc, t0.files@),
        t0.selected < t0.files@.len(),
        t0.files@[t0.selected as int].is_dir,
        crate::path::path_parent(t0.files@[t0.selected as int].path@) == Some(t0.current_path@),
        forall|k: int|
            0 <= k < t0.files@.len() && k != t0.selected ==> !crate::path::path_eq(
                (#[trigger] t0.files@[k]).path@,
                t0.files@[t0.selected as int].path@,
            ),
        filetree::entered_dir(t0, t1, lp, lc),
        filetree::left_dir(t1, t2, lc, lpp),
    ensures
        t2.current_path@ == t0.current_path@,
        t2.files@ == t0.files@,
        t2.selected == t0.selected,
{
    let s = t0.selected as int;
    let p = t0.files@[s].path@;
    assert(t1.current_path@ == p);
    assert(filetree::is_sorted_listing(lc, t2.files@));
    lemma_sorted_listing_unique(lc, t2.files@, t0.files@);
    assert(t2.files@[s].path@ == t1.current_path@);
    let i = filetree::position_of(t2.files@, t1.current_path@)->0;
    filetree::lemma_position_from(t2.files@, t1.current_path@, 0);
    assert(crate::path::path_eq(t2.files@[i].path@, p));
    if i != s {
        assert(!crate::path::path_eq(t0.files@[i].path@, p));
    }
}

/// The order of names in a listing is the order of `str`: `a` comes before
/// `b` exactly where `a` is a proper beginning of `b`, or where, at the
/// first place they differ, `a` has the smaller character.
pub proof fn law_name_order_is_str_order(a: Seq<char>, b: Seq<char>)
    ensures
        filetree::seq_lt(a, b) <==> ((a.len() < b.len() && b.take(a.len() as int) == a) || exists|k: int|
            #![trigger a[k], b[k]]
            0 <= k < a.len() && k < b.len() && a.take(k) == b.take(k) && a[k] < b[k]),
    decreases a.len(),
{
    if a.len() == 0 {
        if b.len() > 0 {
            assert(b.take(0) =~= a);
        }
    } else if b.len() == 0 {
    } else if a[0] != b[0] {
        if a[0] < b[0] {
            assert(a.take(0) =~= b.take(0));
            assert(a[0] < b[0]);
        } else {
            if a.len() < b.len() && b.take(a.len() as int) == a {
                assert(b.take(a.len() as int)[0] == b[0]);
            }
            if exists|k: int| #![trigger a[k], b[k]] 0 <= k < a.len() && k < b.len() && a.take(k) == b.take(k) && a[k] < b[k] {
                let k = choose|k: int| #![trigger a[k], b[k]] 0 <= k < a.len() && k < b.len() && a.take(k) == b.take(k) && a[k] < b[k];
                if k > 0 {
                    assert(a.take(k)[0] == b.take(k)[0]);
                }
            }
        }
    } else {
        let a1 = a.drop_first();
        let b1 = b.drop_first();
        law_name_order_is_str_order(a1, b1);
        // Proper beginnings correspond.
        if a.len() < b.len() && b.take(a.len() as int) == a {
            assert(b1.take(a1.len() as int) =~= a1) by {
                assert forall|x: int| 0 <= x < a1.len() implies b1.take(a1.len() as int)[x] == a1[x] by {
                    assert(b.take(a.len() as int)[x + 1] == a[x + 1]);
                }
            }
        }
        if a1.len() < b1.len() && b1.take(a1.len() as int) == a1 {
            assert(b.take(a.len() as int) =~= a) by {
                assert forall|x: int| 0 <= x < a.len() implies b.take(a.len() as int)[x] == a[x] by {
                    if x > 0 {
                        assert(b1.take(a1.len() as int)[x - 1] == a1[x - 1]);
                    }
                }
            }
        }
        // First differences correspond, one place apart.
        if exists|k: int| #![trigger a[k], b[k]] 0 <= k < a.len() && k < b.len() && a.take(k) == b.take(k) && a[k] < b[k] {
            let k = choose|k: int| #![trigger a[k], b[k]] 0 <= k < a.len() && k < b.len() && a.take(k) == b.take(k) && a[k] < b[k];
            assert(k != 0);
            let j = k - 1;
            assert(a1.take(j) =~= b1.take(j)) by {
                assert forall|x: int| 0 <= x < j implies a1.take(j)[x] == b1.take(j)[x] by {
                    assert(a.take(k)[x + 1] == b.take(k)[x + 1]);
                }
            }
            assert(a1[j] == a[k] && b1[j] == b[k]);
        }
        if exists|j: int| #![trigger a1[j], b1[j]] 0 <= j < a1.len() && j < b1.len() && a1.take(j) == b1.take(j) && a1[j] < b1[j] {
            let j = choose|j: int| #![trigger a1[j], b1[j]] 0 <= j < a1.len() && j < b1.len() && a1.take(j) == b1.take(j) && a1[j] < b1[j];
            let k = j + 1;
            assert(a.take(k) =~= b.take(k)) by {
                assert forall|x: int| 0 <= x < k implies a.take(k)[x] == b.take(k)[x] by {
                    if x > 0 {
                        assert(a1.take(j)[x - 1] == b1.take(j)[x - 1]);
                    }
                }
            }
            assert(a[k] == a1[j] && b[k] == b1[j]);
        }
    }
}

/// A name comes strictly before every longer name that begins with it.
pub proof fn law_name_before_its_extensions(a: Seq<char>, s: Seq<char>)
    requires
        s.len() > 0,
    ensures
        filetree::seq_lt(a, a + s),
        !filetree::seq_lt(a + s, a),
{
    assert((a + s).take(a.len() as int) =~= a);
    law_name_order_is_str_order(a, a + s);
    law_name_order_is_str_order(a + s, a);
    if exists|k: int| #![trigger (a + s)[k], a[k]] 0 <= k < (a + s).len() && k < a.len() && (a + s).take(k) == a.take(k) && (a + s)[k] < a[k] {
        let k = choose|k: int| #![trigger (a + s)[k], a[k]] 0 <= k < (a + s).len() && k < a.len() && (a + s).take(k) == a.take(k) && (a + s)[k] < a[k];
        assert((a + s)[k] == a[k]);
    }
}

/// In a sorted listing, of two entries of one kind where one's name is a
/// proper beginning of the other's, the shorter name comes first.
pub proof fn law_listing_puts_prefix_first(input: Seq<FileItem>, out: Seq<FileItem>, i: int, j: int)
    requires
        filetree::is_sorted_listing(input, out),
        0 <= i < out.len(),
        0 <= j < out.len(),
        out[i].is_dir == out[j].is_dir,
        out[i].name@.len() < out[j].name@.len(),
        out[j].name@.take(out[i].name@.len() as int) == out[i].name@,
    ensures
        i < j,
{
    law_name_order_is_str_order(out[i].name@, out[j].name@);
    law_listing_order(input, out);
    if j < i {
        assert(!filetree::seq_lt(out[i].name@, out[j].name@));
    }
}

} // verus!
