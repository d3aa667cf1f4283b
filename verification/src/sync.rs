//! Syncing the workspace: the file list of a dry run (`p4 -ztag sync -n`)
//! and the progress of the sync that follows.
use vstd::prelude::*;
use crate::text::{self, Delim};
use crate::state::{Core, logs_after_add};
use crate::command::CommandRun;

verus! {

/// Where one file of a sync stands.
#[derive(Clone, Copy, PartialEq, Eq, Structural, Debug)]
pub enum SyncFileStatus {
    Pending,
    Syncing,
    Done,
}

/// One file that a sync brings over.
#[derive(Clone, Debug)]
pub struct SyncFileInfo {
    pub depot_path: String,
    pub local_path: String,
    pub size: u64,
    pub synced: u64,
    pub status: SyncFileStatus,
    /// Its place in the dry run's list.
    pub original_index: usize,
}

pub struct SyncFileView {
    pub depot_path: Seq<char>,
    pub local_path: Seq<char>,
    pub size: u64,
    pub synced: u64,
    pub status: SyncFileStatus,
    pub original_index: usize,
}

impl View for SyncFileInfo {
    type V = SyncFileView;

    open spec fn view(&self) -> SyncFileView {
        SyncFileView {
            depot_path: self.depot_path@,
            local_path: self.local_path@,
            size: self.size,
            synced: self.synced,
            status: self.status,
            original_index: self.original_index,
        }
    }
}

pub open spec fn sync_files_view(s: Seq<SyncFileInfo>) -> Seq<SyncFileView> {
    s.map_values(|f: SyncFileInfo| f@)
}

/// What the lines of a `-ztag` dry run read so far have given: the files
/// completed, and the fields of the file being read.
pub struct ZtagState {
    pub files: Seq<SyncFileView>,
    pub depot: Seq<char>,
    pub local: Seq<char>,
    pub size: u64,
}

/// The file that the fields read so far describe, at place `index`.
pub open spec fn ztag_file(depot: Seq<char>, local: Seq<char>, size: u64, index: nat) -> SyncFileView {
    SyncFileView {
        depot_path: depot,
        local_path: local,
        size,
        synced: 0,
        status: SyncFileStatus::Pending,
        original_index: index as usize,
    }
}

/// Reading one more line: `... depotFile` begins a new file (completing
/// the one before, if any), `... clientFile` and `... fileSize` give the
/// fields of the current one; other lines are passed over.
pub open spec fn ztag_step(st: ZtagState, line: Seq<char>) -> ZtagState {
    match text::strip_prefix_spec(line, "... depotFile "@) {
        Some(rest) => if st.depot.len() > 0 {
            ZtagState {
                files: st.files.push(ztag_file(st.depot, st.local, st.size, st.files.len())),
                depot: rest,
                local: Seq::empty(),
                size: 0,
            }
        } else {
            ZtagState { depot: rest, ..st }
        },
        None => match text::strip_prefix_spec(line, "... clientFile "@) {
            Some(rest) => ZtagState { local: rest, ..st },
            None => match text::strip_prefix_spec(line, "... fileSize "@) {
                Some(rest) => ZtagState {
                    size: match text::parse_unsigned(rest, u64::MAX as nat) {
                        Some(n) => n as u64,
                        None => 0,
                    },
                    ..st
                },
                None => st,
            },
        },
    }
}

pub open spec fn ztag_fold(ls: Seq<Seq<char>>) -> ZtagState
    decreases ls.len(),
{
    if ls.len() == 0 {
        ZtagState { files: Seq::empty(), depot: Seq::empty(), local: Seq::empty(), size: 0 }
    } else {
        ztag_step(ztag_fold(ls.drop_last()), ls.last())
    }
}

/// The files that the output of `p4 -ztag sync -n` lists, in order, each
/// pending, with its place in the list.
pub open spec fn parse_ztag_spec(out: Seq<char>) -> Seq<SyncFileView> {
    let st = ztag_fold(text::lines_spec(out));
    if st.depot.len() > 0 {
        st.files.push(ztag_file(st.depot, st.local, st.size, st.files.len()))
    } else {
        st.files
    }
}

fn make_file(depot: &Vec<char>, local: &Vec<char>, size: u64, index: usize) -> (f: SyncFileInfo)
    ensures
        f@ == ztag_file(depot@, local@, size, index as nat),
{
    SyncFileInfo {
        depot_path: text::string_of(depot),
        local_path: text::string_of(local),
        size,
        synced: 0,
        status: SyncFileStatus::Pending,
        original_index: index,
    }
}

/// The files that the output of `p4 -ztag sync -n` lists.
pub fn parse_ztag_sync(output: &str) -> (r: Vec<SyncFileInfo>)
    ensures
        sync_files_view(r@) == parse_ztag_spec(output@),
{
    let text = text::chars_of(output);
    let ls = text::lines_of(&text);
    proof { text::lemma_dv_all(ls); }
    let ghost lsv = ls.deep_view();
    let depot_label = text::chars_of("... depotFile ");
    let client_label = text::chars_of("... clientFile ");
    let size_label = text::chars_of("... fileSize ");
    let mut files: Vec<SyncFileInfo> = Vec::new();
    let mut depot: Vec<char> = Vec::new();
    let mut local: Vec<char> = Vec::new();
    let mut size: u64 = 0;
    let mut i: usize = 0;
    assert(lsv.take(0) =~= Seq::<Seq<char>>::empty());
    assert(sync_files_view(files@) =~= Seq::empty());
    while i < ls.len()
        invariant
            lsv == ls.deep_view(),
            lsv.len() == ls@.len(),
            forall|j: int| 0 <= j < ls@.len() ==> #[trigger] lsv[j] == ls@[j]@,
            depot_label@ == "... depotFile "@,
            client_label@ == "... clientFile "@,
            size_label@ == "... fileSize "@,
            i <= ls.len(),
            ztag_fold(lsv.take(i as int)) == (ZtagState {
                files: sync_files_view(files@),
                depot: depot@,
                local: local@,
                size,
            }),
        decreases ls.len() - i,
    {
        assert(lsv.take(i + 1).drop_last() =~= lsv.take(i as int));
        assert(lsv.take(i + 1).last() == ls@[i as int]@);
        let line = &ls[i];
        match text::strip_prefix(line, &depot_label) {
            Some(rest) => {
                proof { text::lemma_chars_dv(rest); }
                if depot.len() > 0 {
                    let f = make_file(&depot, &local, size, files.len());
                    files.push(f);
                    assert(sync_files_view(files@) =~= ztag_fold(lsv.take(i + 1)).files);
                    local = Vec::new();
                    size = 0;
                }
                depot = rest;
            },
            None => match text::strip_prefix(line, &client_label) {
                Some(rest) => {
                    proof { text::lemma_chars_dv(rest); }
                    local = rest;
                },
                None => match text::strip_prefix(line, &size_label) {
                    Some(rest) => {
                        proof { text::lemma_chars_dv(rest); }
                        size = match text::parse_u64(&rest) {
                            Some(n) => n,
                            None => 0,
                        };
                    },
                    None => {},
                },
            },
        }
        i += 1;
    }
    assert(lsv.take(ls.len() as int) =~= lsv);
    if depot.len() > 0 {
        let f = make_file(&depot, &local, size, files.len());
        files.push(f);
        assert(sync_files_view(files@) =~= parse_ztag_spec(output@));
    }
    files
}

/// The place of a status in the sync list: the file syncing, then the
/// files done, then the files pending.
pub open spec fn status_rank(s: SyncFileStatus) -> nat {
    match s {
        SyncFileStatus::Syncing => 0,
        SyncFileStatus::Done => 1,
        SyncFileStatus::Pending => 2,
    }
}

/// The order within a status: done files latest first, pending files in
/// their dry-run order.
pub open spec fn status_second(f: SyncFileInfo) -> nat {
    match f.status {
        SyncFileStatus::Syncing => 0,
        SyncFileStatus::Done => (usize::MAX - f.original_index) as nat,
        SyncFileStatus::Pending => f.original_index as nat,
    }
}

/// `a` comes before `b` in the sync list.
pub open spec fn sync_lt(a: SyncFileInfo, b: SyncFileInfo) -> bool {
    status_rank(a.status) < status_rank(b.status) || (status_rank(a.status) == status_rank(b.status)
        && status_second(a) < status_second(b))
}

/// `a` comes before `b` once the sync has ended: latest first.
pub open spec fn end_lt(a: SyncFileInfo, b: SyncFileInfo) -> bool {
    a.original_index > b.original_index
}

/// `a` comes before `b` while bytes arrive: files with bytes synced first.
pub open spec fn started_lt(a: SyncFileInfo, b: SyncFileInfo) -> bool {
    a.synced > 0 && b.synced == 0
}

/// `out` is `input` reordered by `lt`, entries that neither comes before
/// the other keeping their order: what a stable sort gives.
pub open spec fn is_stable_sort(
    input: Seq<SyncFileInfo>,
    out: Seq<SyncFileInfo>,
    lt: spec_fn(SyncFileInfo, SyncFileInfo) -> bool,
) -> bool {
    &&& forall|i: int, j: int| 0 <= i < j < out.len() ==> !lt(#[trigger] out[j], #[trigger] out[i])
    &&& exists|perm: Seq<int>| stable_perm_by(input, out, perm, lt)
}

pub open spec fn stable_perm_by(
    input: Seq<SyncFileInfo>,
    out: Seq<SyncFileInfo>,
    perm: Seq<int>,
    lt: spec_fn(SyncFileInfo, SyncFileInfo) -> bool,
) -> bool {
    &&& perm.len() == input.len()
    &&& out.len() == input.len()
    &&& forall|k: int| 0 <= k < out.len() ==> 0 <= #[trigger] perm[k] < input.len()
    &&& forall|k: int| 0 <= k < out.len() ==> #[trigger] out[k] == input[perm[k]]
    &&& forall|k: int, l: int| 0 <= k < l < out.len() ==> #[trigger] perm[k] != #[trigger] perm[l]
    &&& forall|k: int, l: int|
        0 <= k < l < out.len() && !lt(#[trigger] out[k], #[trigger] out[l]) && !lt(out[l], out[k])
            ==> perm[k] < perm[l]
}

/// The orders a sync list is sorted by: strict, transitive, and two entries
/// that neither comes before the other compare alike with every third.
pub open spec fn is_strict_weak(lt: spec_fn(SyncFileInfo, SyncFileInfo) -> bool) -> bool {
    &&& forall|a: SyncFileInfo| #![trigger lt(a, a)] !lt(a, a)
    &&& forall|a: SyncFileInfo, b: SyncFileInfo, c: SyncFileInfo| #![trigger lt(a, b), lt(b, c)]
        lt(a, b) && lt(b, c) ==> lt(a, c)
    &&& forall|a: SyncFileInfo, b: SyncFileInfo, c: SyncFileInfo| #![trigger lt(a, b), lt(b, c)] #![trigger lt(a, c), lt(b, c)]
        !lt(a, b) && !lt(b, a) ==> (lt(a, c) == lt(b, c))
}

/// Which order a sync list is sorted by.
#[derive(Clone, Copy)]
pub enum SyncOrder {
    /// While syncing: see [`sync_lt`].
    Progress,
    /// After the end: see [`end_lt`].
    Latest,
    /// While bytes arrive: see [`started_lt`].
    Started,
}

pub open spec fn order_lt(o: SyncOrder) -> spec_fn(SyncFileInfo, SyncFileInfo) -> bool {
    match o {
        SyncOrder::Progress => |a: SyncFileInfo, b: SyncFileInfo| sync_lt(a, b),
        SyncOrder::Latest => |a: SyncFileInfo, b: SyncFileInfo| end_lt(a, b),
        SyncOrder::Started => |a: SyncFileInfo, b: SyncFileInfo| started_lt(a, b),
    }
}

proof fn lemma_orders_weak(o: SyncOrder)
    ensures
        is_strict_weak(order_lt(o)),
{
}

fn before(o: SyncOrder, a: &SyncFileInfo, b: &SyncFileInfo) -> (r: bool)
    ensures
        r == order_lt(o)(*a, *b),
{
    match o {
        SyncOrder::Latest => a.original_index > b.original_index,
        SyncOrder::Started => a.synced > 0 && b.synced == 0,
        SyncOrder::Progress => {
            let ra: u64 = match a.status {
                SyncFileStatus::Syncing => 0,
                SyncFileStatus::Done => 1,
                SyncFileStatus::Pending => 2,
            };
            let rb: u64 = match b.status {
                SyncFileStatus::Syncing => 0,
                SyncFileStatus::Done => 1,
                SyncFileStatus::Pending => 2,
            };
            if ra != rb {
                return ra < rb;
            }
            match a.status {
                SyncFileStatus::Syncing => false,
                SyncFileStatus::Done => a.original_index > b.original_index,
                SyncFileStatus::Pending => a.original_index < b.original_index,
            }
        },
    }
}

fn copy_file(f: &SyncFileInfo) -> (r: SyncFileInfo)
    ensures
        r == *f,
{
    SyncFileInfo {
        depot_path: f.depot_path.clone(),
        local_path: f.local_path.clone(),
        size: f.size,
        synced: f.synced,
        status: f.status,
        original_index: f.original_index,
    }
}

/// The sync list in the order `o`, as a stable sort leaves it.
pub fn sort_sync_files(items: Vec<SyncFileInfo>, o: SyncOrder) -> (out: Vec<SyncFileInfo>)
    ensures
        is_stable_sort(items@, out@, order_lt(o)),
{
    let ghost lt = order_lt(o);
    proof { lemma_orders_weak(o); }
    let mut out: Vec<SyncFileInfo> = Vec::new();
    let ghost mut perm: Seq<int> = Seq::empty();
    let mut i: usize = 0;
    while i < items.len()
        invariant
            i <= items.len(),
            lt == order_lt(o),
            is_strict_weak(lt),
            forall|a: int, b: int| 0 <= a < b < out@.len() ==> !lt(#[trigger] out@[b], #[trigger] out@[a]),
            stable_perm_by(items@.take(i as int), out@, perm, lt),
        decreases items.len() - i,
    {
        let x = copy_file(&items[i]);
        let mut p: usize = 0;
        while p < out.len() && !before(o, &x, &out[p])
            invariant
                p <= out.len(),
                lt == order_lt(o),
                forall|k: int| 0 <= k < p ==> !lt(x, #[trigger] out@[k]),
            decreases out.len() - p,
        {
            p += 1;
        }
        let ghost old_out = out@;
        let ghost old_perm = perm;
        out.insert(p, x);
        proof {
            perm = old_perm.insert(p as int, i as int);
            let input = items@.take(i + 1);
            assert(input.take(i as int) =~= items@.take(i as int));
            assert forall|a: int, b: int| 0 <= a < b < out@.len() implies !lt(
                #[trigger] out@[b],
                #[trigger] out@[a],
            ) by {
                if a < p && b == p {
                } else if a == p && b > p {
                    if lt(out@[b], x) {
                        assert(lt(x, old_out[p as int]));
                        assert(lt(out@[b], old_out[p as int]));
                        if b - 1 == p {
                        } else {
                            assert(!lt(old_out[b - 1], old_out[p as int]));
                        }
                    }
                } else if a < p && b > p {
                    assert(!lt(old_out[b - 1], old_out[a]));
                } else if a > p {
                    assert(!lt(old_out[b - 1], old_out[a - 1]));
                } else {
                    assert(!lt(old_out[b], old_out[a]));
                }
            }
            assert forall|k: int| 0 <= k < out@.len() implies 0 <= #[trigger] perm[k]
                < input.len() && out@[k] == input[perm[k]] by {
                if k < p {
                    assert(out@[k] == old_out[k]);
                } else if k > p {
                    assert(out@[k] == old_out[k - 1]);
                }
            }
            assert forall|k: int, l: int| 0 <= k < l < out@.len() implies #[trigger] perm[k]
                != #[trigger] perm[l] by {
                if k < p && l > p {
                    assert(perm[l] == old_perm[l - 1]);
                } else if k > p {
                    assert(perm[l] == old_perm[l - 1]);
                    assert(perm[k] == old_perm[k - 1]);
                }
            }
            assert forall|k: int, l: int|
                0 <= k < l < out@.len() && !lt(#[trigger] out@[k], #[trigger] out@[l])
                    && !lt(out@[l], out@[k]) implies perm[k] < perm[l] by {
                if k == p {
                    assert(lt(x, old_out[p as int]));
                    if l - 1 == p {
                        assert(lt(x, out@[l]));
                    } else {
                        assert(!lt(old_out[l - 1], old_out[p as int]));
                        if !lt(old_out[p as int], old_out[l - 1]) {
                            assert(lt(x, old_out[l - 1]));
                        } else {
                            assert(lt(x, old_out[l - 1]));
                        }
                    }
                } else if l == p {
                } else if k < p && l > p {
                    assert(perm[l] == old_perm[l - 1]);
                    assert(out@[l] == old_out[l - 1]);
                } else if k > p {
                    assert(perm[l] == old_perm[l - 1]);
                    assert(perm[k] == old_perm[k - 1]);
                    assert(out@[l] == old_out[l - 1]);
                    assert(out@[k] == old_out[k - 1]);
                }
            }
            assert(stable_perm_by(input, out@, perm, lt));
        }
        i += 1;
    }
    assert(items@.take(items.len() as int) =~= items@);
    out
}

/// A file that a `FileDone` naming `path` is taken to mean: its depot path
/// is `path` or is part of it, or its local path (if any) is part of it.
pub open spec fn done_matches(f: SyncFileInfo, path: Seq<char>) -> bool {
    f.depot_path@ == path || text::contains_spec(path, f.depot_path@) || (f.local_path@.len() > 0
        && text::contains_spec(path, f.local_path@))
}

/// The first file, from `i` on, that a `FileDone` naming `path` means.
pub open spec fn first_done_match(files: Seq<SyncFileInfo>, path: Seq<char>, i: int) -> Option<int>
    decreases files.len() - i,
{
    if i < 0 || i >= files.len() {
        None
    } else if done_matches(files[i], path) {
        Some(i)
    } else {
        first_done_match(files, path, i + 1)
    }
}

/// The first file, from `i` on, with status `s`.
pub open spec fn first_with_status(files: Seq<SyncFileInfo>, s: SyncFileStatus, i: int) -> Option<int>
    decreases files.len() - i,
{
    if i < 0 || i >= files.len() {
        None
    } else if files[i].status == s {
        Some(i)
    } else {
        first_with_status(files, s, i + 1)
    }
}

/// File `i` with status `s`.
pub open spec fn set_status(files: Seq<SyncFileInfo>, i: int, s: SyncFileStatus) -> Seq<SyncFileInfo> {
    files.update(i, SyncFileInfo { status: s, ..files[i] })
}

/// The files after a `FileDone` naming `path`, before sorting: the file it
/// means (or, where none is, the file syncing) is done, and where no file is
/// syncing then, the first pending one is; with whether a file became done.
pub open spec fn file_done_step(files: Seq<SyncFileInfo>, path: Seq<char>) -> (Seq<SyncFileInfo>, bool) {
    let (f1, counted) = match first_done_match(files, path, 0) {
        Some(i) => if files[i].status != SyncFileStatus::Done {
            (set_status(files, i, SyncFileStatus::Done), true)
        } else {
            (files, false)
        },
        None => match first_with_status(files, SyncFileStatus::Syncing, 0) {
            Some(i) => (set_status(files, i, SyncFileStatus::Done), true),
            None => (files, false),
        },
    };
    let f2 = if first_with_status(f1, SyncFileStatus::Syncing, 0) is None {
        match first_with_status(f1, SyncFileStatus::Pending, 0) {
            Some(j) => set_status(f1, j, SyncFileStatus::Syncing),
            None => f1,
        }
    } else {
        f1
    };
    (f2, counted)
}

fn first_with_status_exec(files: &Vec<SyncFileInfo>, s: SyncFileStatus) -> (r: Option<usize>)
    ensures
        match r {
            Some(i) => first_with_status(files@, s, 0) == Some(i as int) && i < files@.len(),
            None => first_with_status(files@, s, 0) is None,
        },
{
    let mut i: usize = 0;
    while i < files.len()
        invariant
            i <= files.len(),
            first_with_status(files@, s, 0) == first_with_status(files@, s, i as int),
        decreases files.len() - i,
    {
        if files[i].status == s {
            return Some(i);
        }
        i += 1;
    }
    None
}

fn first_done_match_exec(files: &Vec<SyncFileInfo>, path: &str) -> (r: Option<usize>)
    ensures
        match r {
            Some(i) => first_done_match(files@, path@, 0) == Some(i as int) && i < files@.len(),
            None => first_done_match(files@, path@, 0) is None,
        },
{
    let p = text::chars_of(path);
    let mut i: usize = 0;
    while i < files.len()
        invariant
            i <= files.len(),
            first_done_match(files@, path@, 0) == first_done_match(files@, path@, i as int),
            p@ == path@,
        decreases files.len() - i,
    {
        let f = &files[i];
        let dp = text::chars_of(f.depot_path.as_str());
        let lp = text::chars_of(f.local_path.as_str());
        if text::chars_eq(&dp, &p) || text::contains(&p, &dp) || (lp.len() > 0 && text::contains(&p, &lp)) {
            return Some(i);
        }
        i += 1;
    }
    None
}

fn set_status_exec(files: &mut Vec<SyncFileInfo>, i: usize, s: SyncFileStatus)
    requires
        i < old(files)@.len(),
    ensures
        final(files)@ == set_status(old(files)@, i as int, s),
{
    let f = files.remove(i);
    files.insert(i, SyncFileInfo { status: s, ..f });
    assert(files@ =~= set_status(old(files)@, i as int, s));
}

/// The files after a line naming `path`, before sorting, and whether a
/// file became done: see [`file_done_step`].
fn file_done_files(files: Vec<SyncFileInfo>, path: &str) -> (r: (Vec<SyncFileInfo>, bool))
    ensures
        (r.0@, r.1) == file_done_step(files@, path@),
{
    let mut files = files;
    let found = first_done_match_exec(&files, path);
    let mut counted = false;
    match found {
        Some(i) => {
            if files[i].status != SyncFileStatus::Done {
                set_status_exec(&mut files, i, SyncFileStatus::Done);
                counted = true;
            }
        },
        None => match first_with_status_exec(&files, SyncFileStatus::Syncing) {
            Some(i) => {
                set_status_exec(&mut files, i, SyncFileStatus::Done);
                counted = true;
            },
            None => {},
        },
    }
    if first_with_status_exec(&files, SyncFileStatus::Syncing).is_none() {
        match first_with_status_exec(&files, SyncFileStatus::Pending) {
            Some(j) => {
                set_status_exec(&mut files, j, SyncFileStatus::Syncing);
            },
            None => {},
        }
    }
    (files, counted)
}

/// The sum of `v`.
pub open spec fn seq_sum(v: Seq<u64>) -> nat
    decreases v.len(),
{
    if v.len() == 0 {
        0
    } else {
        seq_sum(v.drop_last()) + v.last() as nat
    }
}

/// A file with the bytes synced that `progress` gives for its place in the
/// dry run's list, where it gives one.
pub open spec fn with_progress(f: SyncFileInfo, progress: Seq<u64>) -> SyncFileInfo {
    if f.original_index < progress.len() {
        SyncFileInfo { synced: progress[f.original_index as int], ..f }
    } else {
        f
    }
}

/// `new` is `old` once the bytes synced of each file have been measured
/// (`progress`, by place in the dry run's list): the total synced is their
/// sum, each file takes its count, and the files with bytes synced move
/// first, the others keeping their order.
pub open spec fn bytes_progressed(old: Core, new: Core, progress: Seq<u64>) -> bool {
    &&& is_stable_sort(
        old.sync_files@.map_values(|f: SyncFileInfo| with_progress(f, progress)),
        new.sync_files@,
        order_lt(SyncOrder::Started),
    )
    &&& new == (Core { sync_files: new.sync_files, sync_synced_bytes: seq_sum(progress) as u64, ..old })
}

/// The sum of `v`, where it fits in a `u64`.
pub fn checked_sum(v: &Vec<u64>) -> (r: Option<u64>)
    ensures
        match r {
            Some(n) => n == seq_sum(v@),
            None => seq_sum(v@) > u64::MAX,
        },
{
    let mut total: u64 = 0;
    let mut i: usize = 0;
    while i < v.len()
        invariant
            i <= v.len(),
            total == seq_sum(v@.take(i as int)),
        decreases v.len() - i,
    {
        assert(v@.take(i + 1).drop_last() =~= v@.take(i as int));
        match total.checked_add(v[i]) {
            Some(t) => {
                total = t;
            },
            None => {
                proof { lemma_sum_prefix(v@, i + 1); }
                return None;
            },
        }
        i += 1;
    }
    assert(v@.take(v.len() as int) =~= v@);
    Some(total)
}

proof fn lemma_sum_prefix(v: Seq<u64>, k: int)
    requires
        0 <= k <= v.len(),
    ensures
        seq_sum(v.take(k)) <= seq_sum(v),
    decreases v.len(),
{
    if k < v.len() {
        assert(v.drop_last().take(k) =~= v.take(k));
        lemma_sum_prefix(v.drop_last(), k);
    } else {
        assert(v.take(k) =~= v);
    }
}

/// `new` is `old` once a sync has begun: the overlay open on an empty list.
pub open spec fn sync_begun(old: Core, new: Core) -> bool {
    &&& new.sync_files@.len() == 0
    &&& new == (Core {
        is_syncing: true,
        sync_files: new.sync_files,
        sync_total: 0,
        sync_current: 0,
        sync_total_bytes: 0,
        sync_synced_bytes: 0,
        ..old
    })
}

/// `new` is `old` once the dry run has listed `files`: the first syncing,
/// none done.
pub open spec fn sync_started(old: Core, new: Core, files: Seq<SyncFileInfo>) -> bool {
    &&& new.sync_files@ == (if files.len() > 0 {
        set_status(files, 0, SyncFileStatus::Syncing)
    } else {
        files
    })
    &&& new == (Core { sync_files: new.sync_files, sync_total: files.len() as usize, sync_current: 0, ..old })
}

/// `new` is `old` once a line of the sync has named `path`: the files after
/// [`file_done_step`], sorted syncing first, then done files latest first,
/// then pending files in order; the count of done files one up where a file
/// became done.
pub open spec fn file_done_applied(old: Core, new: Core, path: Seq<char>) -> bool {
    let (f, counted) = file_done_step(old.sync_files@, path);
    &&& is_stable_sort(f, new.sync_files@, order_lt(SyncOrder::Progress))
    &&& new == (Core {
        sync_files: new.sync_files,
        sync_current: if counted {
            crate::state::sat((old.sync_current + 1) as nat)
        } else {
            old.sync_current
        },
        ..old
    })
}

/// `new` is `old` once the sync has ended: every file done, the count full,
/// the overlay showing the end, and the list sorted latest first.
pub open spec fn sync_ended(old: Core, new: Core) -> bool {
    &&& new.sync_files@.len() == old.sync_files@.len()
    &&& forall|i: int| 0 <= i < new.sync_files@.len() ==> (#[trigger] new.sync_files@[i]).status == SyncFileStatus::Done
    &&& is_stable_sort(
        old.sync_files@.map_values(|f: SyncFileInfo| SyncFileInfo { status: SyncFileStatus::Done, ..f }),
        new.sync_files@,
        order_lt(SyncOrder::Latest),
    )
    &&& new == (Core { sync_files: new.sync_files, sync_current: old.sync_total, sync_finished: true, ..old })
}

/// `new` is `old` once the sync has failed with message `e`: the overlay
/// closed and the message logged.
pub open spec fn sync_failed(old: Core, new: Core, e: Seq<char>) -> bool {
    &&& new.logs@ == logs_after_add(old.logs@, new.logs@.last())
    &&& new.logs@.last().command@ == "Sync Error"@
    &&& new.logs@.last().output@ == e
    &&& new.log_cursor == new.logs@.len() - 1
    &&& new == (Core { is_syncing: false, logs: new.logs, log_cursor: new.log_cursor, ..old })
}

impl Core {
    /// Begins a sync, unless one is running: the overlay opens on an empty
    /// list. Says whether it began.
    pub fn begin_sync(&mut self) -> (r: bool)
        ensures
            r == !old(self).is_syncing,
            r ==> sync_begun(*old(self), *final(self)),
            !r ==> *final(self) == *old(self),
    {
        if self.is_syncing {
            return false;
        }
        self.is_syncing = true;
        self.sync_files = Vec::new();
        self.sync_total = 0;
        self.sync_current = 0;
        self.sync_total_bytes = 0;
        self.sync_synced_bytes = 0;
        true
    }

    /// The dry run has listed `files`: the first is syncing, none is done.
    pub fn sync_start(&mut self, files: Vec<SyncFileInfo>)
        ensures
            sync_started(*old(self), *final(self), files@),
    {
        let mut files = files;
        if files.len() > 0 {
            set_status_exec(&mut files, 0, SyncFileStatus::Syncing);
        }
        self.sync_total = files.len();
        self.sync_files = files;
        self.sync_current = 0;
    }

    /// A file has been synced, as a line naming `path` says: see
    /// [`file_done_step`]; the count of done files goes up where a file
    /// became done, and the list is sorted syncing first, then done files
    /// latest first, then pending files in order.
    pub fn sync_file_done(&mut self, path: &str)
        ensures
            file_done_applied(*old(self), *final(self), path@),
    {
        let mut files = Vec::new();
        std::mem::swap(&mut files, &mut self.sync_files);
        let (stepped, counted) = file_done_files(files, path);
        let sorted = sort_sync_files(stepped, SyncOrder::Progress);
        if counted {
            self.sync_current = self.sync_current.saturating_add(1);
        }
        self.sync_files = sorted;
    }

    /// The bytes synced of each file have been measured: `progress` gives
    /// them by place in the dry run's list.
    pub fn sync_byte_progress(&mut self, progress: &Vec<u64>)
        requires
            seq_sum(progress@) <= u64::MAX,
        ensures
            bytes_progressed(*old(self), *final(self), progress@),
    {
        let mut files = Vec::new();
        std::mem::swap(&mut files, &mut self.sync_files);
        let ghost f0 = files@;
        let mut measured: Vec<SyncFileInfo> = Vec::new();
        let mut i: usize = 0;
        while i < files.len()
            invariant
                i <= files.len(),
                f0 == files@,
                measured@ =~= f0.take(i as int).map_values(|f: SyncFileInfo| with_progress(f, progress@)),
            decreases files.len() - i,
        {
            let f = copy_file(&files[i]);
            if f.original_index < progress.len() {
                measured.push(SyncFileInfo { synced: progress[f.original_index], ..f });
            } else {
                measured.push(f);
            }
            i += 1;
        }
        assert(f0.take(f0.len() as int) =~= f0);
        let total = match checked_sum(progress) {
            Some(t) => t,
            None => 0,
        };
        self.sync_synced_bytes = total;
        self.sync_files = sort_sync_files(measured, SyncOrder::Started);
    }

    /// The sync has ended: every file is done, the count is full, the
    /// overlay shows the end, and the list is sorted latest first.
    pub fn sync_end(&mut self)
        ensures
            sync_ended(*old(self), *final(self)),
    {
        let mut files = Vec::new();
        std::mem::swap(&mut files, &mut self.sync_files);
        let ghost f0 = files@;
        let mut done: Vec<SyncFileInfo> = Vec::new();
        let mut i: usize = 0;
        while i < files.len()
            invariant
                i <= files.len(),
                f0 == files@,
                done@ =~= f0.take(i as int).map_values(|f: SyncFileInfo| SyncFileInfo { status: SyncFileStatus::Done, ..f }),
            decreases files.len() - i,
        {
            let f = copy_file(&files[i]);
            done.push(SyncFileInfo { status: SyncFileStatus::Done, ..f });
            i += 1;
        }
        assert(f0.take(f0.len() as int) =~= f0);
        self.sync_current = self.sync_total;
        self.sync_finished = true;
        let sorted = sort_sync_files(done, SyncOrder::Latest);
        proof {
            let input = f0.map_values(|f: SyncFileInfo| SyncFileInfo { status: SyncFileStatus::Done, ..f });
            let perm = choose|perm: Seq<int>| stable_perm_by(input, sorted@, perm, order_lt(SyncOrder::Latest));
            assert forall|k: int| 0 <= k < sorted@.len() implies (#[trigger] sorted@[k]).status == SyncFileStatus::Done by {
                assert(sorted@[k] == input[perm[k]]);
            }
        }
        self.sync_files = sorted;
    }

    /// The sync failed with message `e`: the overlay closes and the log
    /// keeps the message.
    pub fn sync_error(&mut self, time: String, e: &str)
        ensures
            sync_failed(*old(self), *final(self), e@),
    {
        self.is_syncing = false;
        self.add_log(time, "Sync Error", e);
    }
}

/// What the task that runs a sync reports.
pub enum SyncEvent {
    /// The dry run listed these files.
    Start(Vec<SyncFileInfo>),
    /// A line of the sync named this file.
    FileDone(String),
    /// The bytes synced of each file, by place in the dry run's list.
    ByteProgress(Vec<u64>),
    /// Every file has been synced.
    End,
    /// The sync failed with this message.
    Error(String),
}

/// What the caller does once an event of a sync has been applied.
#[derive(Clone, Copy, PartialEq, Eq, Structural, Debug)]
pub enum SyncFollowUp {
    /// The sync goes on.
    Continue,
    /// The sync is over: ask which changelist the workspace now has and
    /// hand the answer to `detect_synced_change`.
    DetectSyncedChange,
    /// The sync is over with an error.
    Stop,
}

impl Core {
    /// Applies one event of a running sync.
    pub fn apply_sync_event(&mut self, time: String, ev: SyncEvent) -> (r: SyncFollowUp)
        requires
            ev matches SyncEvent::ByteProgress(v) ==> seq_sum(v@) <= u64::MAX,
        ensures
            match ev {
                SyncEvent::Start(files) => r == SyncFollowUp::Continue && sync_started(*old(self), *final(self), files@),
                SyncEvent::FileDone(path) => r == SyncFollowUp::Continue && file_done_applied(*old(self), *final(self), path@),
                SyncEvent::ByteProgress(v) => r == SyncFollowUp::Continue && bytes_progressed(*old(self), *final(self), v@),
                SyncEvent::End => r == SyncFollowUp::DetectSyncedChange && sync_ended(*old(self), *final(self)),
                SyncEvent::Error(e) => r == SyncFollowUp::Stop && sync_failed(*old(self), *final(self), e@),
            },
    {
        match ev {
            SyncEvent::Start(files) => {
                self.sync_start(files);
                SyncFollowUp::Continue
            },
            SyncEvent::FileDone(path) => {
                self.sync_file_done(path.as_str());
                SyncFollowUp::Continue
            },
            SyncEvent::ByteProgress(v) => {
                self.sync_byte_progress(&v);
                SyncFollowUp::Continue
            },
            SyncEvent::End => {
                self.sync_end();
                SyncFollowUp::DetectSyncedChange
            },
            SyncEvent::Error(e) => {
                self.sync_error(time, e.as_str());
                SyncFollowUp::Stop
            },
        }
    }
}

/// The arguments of the dry run that lists the files of a sync: to the
/// head, or to changelist `cl_id`; under virtual root `vr` only, where
/// there is one.
pub fn sync_dry_run_args(cl_id: Option<&str>, vr: Option<&str>) -> (r: Vec<String>)
    ensures
        text::strs_view(r@) == seq!["-ztag"@, "sync"@, "-n"@] + match cl_id {
            Some(id) => seq![seq!['@'] + id@],
            None => Seq::empty(),
        } + match vr {
            Some(v) => seq![v@ + "/..."@],
            None => Seq::empty(),
        },
{
    let mut r: Vec<String> = Vec::new();
    r.push(String::from_str("-ztag"));
    r.push(String::from_str("sync"));
    r.push(String::from_str("-n"));
    let ghost base = text::strs_view(r@);
    assert(base =~= seq!["-ztag"@, "sync"@, "-n"@]);
    match cl_id {
        Some(id) => {
            let mut a: Vec<char> = Vec::new();
            a.push('@');
            a = text::concat(&a, &text::chars_of(id));
            assert(a@ =~= seq!['@'] + id@);
            r.push(text::string_of(&a));
            assert(text::strs_view(r@) =~= base.push(seq!['@'] + id@));
        },
        None => {},
    }
    let ghost mid = text::strs_view(r@);
    assert(mid =~= seq!["-ztag"@, "sync"@, "-n"@] + match cl_id {
        Some(id) => seq![seq!['@'] + id@],
        None => Seq::empty(),
    });
    match vr {
        Some(v) => {
            let a = text::concat(&text::chars_of(v), &text::chars_of("/..."));
            r.push(text::string_of(&a));
            assert(text::strs_view(r@) =~= mid.push(v@ + "/..."@));
        },
        None => {},
    }
    assert(text::strs_view(r@) =~= mid + match vr {
        Some(v) => seq![v@ + "/..."@],
        None => Seq::empty(),
    });
    r
}

/// The argument that syncs one file: its depot path, at changelist `cl_id`
/// where there is one.
pub fn sync_file_arg(depot_path: &str, cl_id: Option<&str>) -> (r: String)
    ensures
        r@ == match cl_id {
            Some(id) => depot_path@ + seq!['@'] + id@,
            None => depot_path@,
        },
{
    match cl_id {
        Some(id) => {
            let mut a = text::chars_of(depot_path);
            a.push('@');
            let a = text::concat(&a, &text::chars_of(id));
            assert(a@ =~= depot_path@ + seq!['@'] + id@);
            text::string_of(&a)
        },
        None => text::string_of(&text::chars_of(depot_path)),
    }
}

} // verus!
