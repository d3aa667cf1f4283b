//! The state of the whole browser: which panel is active, the cursors of
//! the panels, the changelists and which are unfolded, the pending files,
//! the log, and the overlays.
use vstd::prelude::*;
use crate::text;
use crate::command::CommandRun;
use crate::changelist::{ChangeListItem, ChangeListDetail, ChangeListFile};
use crate::detail::FileDetail;
use crate::filetree::{self, FileTree, FileItem, FileP4Status};
use crate::path;
use crate::changelist;
use crate::info::P4Info;
use crate::sync::SyncFileInfo;
use crate::status;

verus! {

/// The panels and input modes of the screen.
#[derive(Clone, Copy, PartialEq, Eq, Structural, Debug)]
pub enum ActivePanel {
    Scope,
    FileTree,
    Pending,
    ChangeList,
    Detail,
    Log,
    Input,
    Confirm,
}

/// Which part of the info overlay takes keys.
#[derive(Clone, Copy, PartialEq, Eq, Structural, Debug)]
pub enum InfoFocus {
    Roots,
    Details,
}

/// Which part of the submit overlay takes keys.
#[derive(Clone, Copy, PartialEq, Eq, Structural, Debug)]
pub enum SubmitFocus {
    Description,
    FileList,
}

/// One entry of the command log.
#[derive(Clone, Debug)]
pub struct LogItem {
    pub time: String,
    pub command: String,
    pub output: String,
}

/// A selectable row of the changelist panel: a changelist, or one file of
/// an unfolded changelist (its id and the file's depot path).
#[derive(Clone, Debug)]
pub enum ClTarget {
    Id(String),
    File(String, String),
}

pub enum ClTargetView {
    Id(Seq<char>),
    File(Seq<char>, Seq<char>),
}

impl View for ClTarget {
    type V = ClTargetView;

    open spec fn view(&self) -> ClTargetView {
        match self {
            ClTarget::Id(id) => ClTargetView::Id(id@),
            ClTarget::File(id, p) => ClTargetView::File(id@, p@),
        }
    }
}

/// The most entries the log keeps.
pub const MAX_LOGS: usize = 100;

/// The browser's state.
pub struct Core {
    pub active_panel: ActivePanel,
    pub filetree: FileTree,
    pub client_root: String,
    pub changelists: Vec<ChangeListItem>,
    /// The ids of the unfolded changelists, each once.
    pub expanded_ids: Vec<String>,
    pub cl_cursor: usize,
    pub current_detail: Option<FileDetail>,
    pub detail_error: Option<String>,
    pub detail_cursor: usize,
    pub logs: Vec<LogItem>,
    pub log_cursor: usize,
    pub pending_files: Vec<ChangeListFile>,
    pub is_pending_expanded: bool,
    pub pending_cursor: usize,
    pub is_submit_overlay_open: bool,
    pub submit_description: String,
    pub submit_cursor: usize,
    pub submit_focus: SubmitFocus,
    pub scope_panel: ActivePanel,
    pub filetree_panel: ActivePanel,
    pub pending_panel: ActivePanel,
    pub changelist_panel: ActivePanel,
    pub detail_panel: ActivePanel,
    pub log_panel: ActivePanel,
    pub input: ActivePanel,
    pub confirm: ActivePanel,
    pub is_login_overlay_open: bool,
    pub login_password: String,
    pub login_info: String,
    pub login_user: String,
    pub login_server: String,
    pub is_syncing: bool,
    pub sync_files: Vec<SyncFileInfo>,
    pub sync_total: usize,
    pub sync_current: usize,
    pub sync_total_bytes: u64,
    pub sync_synced_bytes: u64,
    pub sync_finished: bool,
    pub synced_change_id: Option<String>,
    pub is_info_overlay_open: bool,
    pub info_focus: InfoFocus,
    /// Whether the roots list of the info overlay shows the virtual roots.
    pub is_roots_expanded: bool,
    pub info_roots_cursor: usize,
    pub info_details_cursor: usize,
    /// The fields that `p4 info` printed, in order.
    pub info_details: Vec<(String, String)>,
    /// The directory that syncs are narrowed to, if any.
    pub virtual_root: Option<String>,
    /// The directories chosen as virtual roots, each once, oldest first.
    pub virtual_root_history: Vec<String>,
}

/// `id` is among `ids`.
pub open spec fn id_in(ids: Seq<String>, id: Seq<char>) -> bool {
    exists|i: int| 0 <= i < ids.len() && (#[trigger] ids[i])@ == id
}

/// The rows of one changelist: its own, then, where it is unfolded and its
/// files are known, one per file.
pub open spec fn cl_block(cl: ChangeListItem, ids: Seq<String>) -> Seq<ClTargetView> {
    seq![ClTargetView::Id(cl.id@)] + if id_in(ids, cl.id@) && cl.details is Some {
        cl.details->0.files@.map_values(|f: ChangeListFile| ClTargetView::File(cl.id@, f.path@))
    } else {
        Seq::empty()
    }
}

/// The selectable rows of the changelist panel, in order.
pub open spec fn cl_rows(cls: Seq<ChangeListItem>, ids: Seq<String>) -> Seq<ClTargetView>
    decreases cls.len(),
{
    if cls.len() == 0 {
        Seq::empty()
    } else {
        cl_rows(cls.drop_last(), ids) + cl_block(cls.last(), ids)
    }
}

/// `n`, or the largest `usize` where it is larger.
pub open spec fn sat(n: nat) -> usize {
    if n > usize::MAX {
        usize::MAX
    } else {
        n as usize
    }
}

/// The first changelist, from `i` on, whose id is `id`.
pub open spec fn cl_index_from(cls: Seq<ChangeListItem>, id: Seq<char>, i: int) -> Option<int>
    decreases cls.len() - i,
{
    if i < 0 || i >= cls.len() {
        None
    } else if cls[i].id@ == id {
        Some(i)
    } else {
        cl_index_from(cls, id, i + 1)
    }
}

pub proof fn lemma_cl_rows_prefix(cls: Seq<ChangeListItem>, ids: Seq<String>, j: int)
    requires
        0 <= j <= cls.len(),
    ensures
        cl_rows(cls.take(j), ids).len() <= cl_rows(cls, ids).len(),
        forall|k: int|
            0 <= k < cl_rows(cls.take(j), ids).len() ==> #[trigger] cl_rows(cls.take(j), ids)[k]
                == cl_rows(cls, ids)[k],
    decreases cls.len() - j,
{
    if j < cls.len() {
        lemma_cl_rows_prefix(cls, ids, j + 1);
        assert(cls.take(j + 1).drop_last() =~= cls.take(j));
        let a = cl_rows(cls.take(j), ids);
        let b = cl_rows(cls.take(j + 1), ids);
        assert(b == a + cl_block(cls.take(j + 1).last(), ids));
        assert forall|k: int| 0 <= k < a.len() implies #[trigger] a[k] == cl_rows(cls, ids)[k] by {
            assert(b[k] == a[k]);
        }
    } else {
        assert(cls.take(j) =~= cls);
    }
}

/// The row of the cursor after moving down in `count` rows.
pub open spec fn step_down(cursor: int, count: int) -> int {
    if count > 0 && cursor < count - 1 {
        cursor + 1
    } else {
        cursor
    }
}

/// The row of the cursor after moving up.
pub open spec fn step_up(cursor: int) -> int {
    if cursor > 0 {
        cursor - 1
    } else {
        cursor
    }
}

/// A fetch error that asks for a login.
pub open spec fn asks_login_again(e: Seq<char>) -> bool {
    text::contains_spec(e, "please login again"@) || text::contains_spec(e, "password"@)
}

/// The log after adding `item`: the oldest entry goes where there would be
/// more than [`MAX_LOGS`].
pub open spec fn logs_after_add<T>(logs: Seq<T>, item: T) -> Seq<T> {
    let l = logs.push(item);
    if l.len() > MAX_LOGS {
        l.drop_first()
    } else {
        l
    }
}

/// What a `p4` command gave, as the log keeps it: its output, and its error
/// output after `ERROR:` where there is any; or why it could not start.
pub open spec fn p4_output_text(run: CommandRun) -> Seq<char> {
    match run {
        CommandRun::Finished { stdout, stderr, .. } => if stderr@.len() == 0 {
            stdout@
        } else {
            stdout@ + "\nERROR: "@ + stderr@
        },
        CommandRun::Failed(e) => "Execution failed: "@ + e@,
    }
}

/// What a `p4` command gave, as the log keeps it.
pub fn p4_output_log_text(run: &CommandRun) -> (r: String)
    ensures
        r@ == p4_output_text(*run),
{
    match run {
        CommandRun::Finished { stdout, stderr, .. } => {
            if text::str_is_empty(stderr.as_str()) {
                stdout.clone()
            } else {
                let mut m = stdout.clone();
                m.append("\nERROR: ");
                m.append(stderr.as_str());
                m
            }
        },
        CommandRun::Failed(e) => {
            let mut m = String::from_str("Execution failed: ");
            m.append(e.as_str());
            m
        },
    }
}

/// Whether `ids` holds `id`.
pub fn ids_contain(ids: &Vec<String>, id: &String) -> (r: bool)
    ensures
        r == id_in(ids@, id@),
{
    let mut i: usize = 0;
    while i < ids.len()
        invariant
            i <= ids.len(),
            forall|j: int| 0 <= j < i ==> (#[trigger] ids@[j])@ != id@,
        decreases ids.len() - i,
    {
        if ids[i] == *id {
            return true;
        }
        i += 1;
    }
    false
}

impl Core {
    /// The browser as it starts: `info` is what `p4 info` said,
    /// `changelists` what fetching the changelists gave, `logs` the kept
    /// log, `filetree` the browser opened at the client root. A fetch error that
    /// asks for a login, or any fetch error where a login is needed anyway,
    /// opens the login overlay with no changelists; any other fetch error
    /// is returned.
    pub fn new(
        info: P4Info,
        changelists: Result<Vec<ChangeListItem>, String>,
        logs: Vec<LogItem>,
        filetree: FileTree,
    ) -> (r: Result<Core, String>)
        requires
            filetree.current_path@ == info.client_root@,
        ensures
            match changelists {
                Ok(cls) => r matches Ok(c) && c.changelists == cls
                    && c.is_login_overlay_open == info.needs_login,
                Err(e) => if asks_login_again(e@) || info.needs_login {
                    r matches Ok(c) && c.changelists@.len() == 0 && c.is_login_overlay_open
                } else {
                    r matches Err(m) && m == e
                },
            },
            r matches Ok(c) ==> {
                &&& c.active_panel == ActivePanel::FileTree
                &&& c.filetree == filetree
                &&& c.client_root == info.client_root
                &&& c.filetree.current_path@ == c.client_root@
                &&& c.expanded_ids@.len() == 0
                &&& c.cl_cursor == 0
                &&& c.current_detail is None
                &&& c.detail_error is None
                &&& c.detail_cursor == 0
                &&& c.logs == logs
                &&& c.log_cursor == (if logs@.len() > 0 { logs@.len() - 1 } else { 0 })
                &&& c.pending_files@.len() == 0
                &&& c.is_pending_expanded
                &&& c.pending_cursor == 0
                &&& !c.is_submit_overlay_open
                &&& c.submit_description@.len() == 0
                &&& c.submit_cursor == 0
                &&& c.submit_focus == SubmitFocus::Description
                &&& c.login_password@.len() == 0
                &&& c.login_info@ == "Your session has expired, please login again"@
                &&& c.login_user == info.user
                &&& c.login_server == info.server
                &&& !c.is_syncing
                &&& c.sync_files@.len() == 0
                &&& c.sync_total == 0
                &&& c.sync_current == 0
                &&& !c.sync_finished
                &&& c.sync_total_bytes == 0
                &&& c.sync_synced_bytes == 0
                &&& c.synced_change_id is None
                &&& c.scope_panel == ActivePanel::Scope
                &&& c.filetree_panel == ActivePanel::FileTree
                &&& c.pending_panel == ActivePanel::Pending
                &&& c.changelist_panel == ActivePanel::ChangeList
                &&& c.detail_panel == ActivePanel::Detail
                &&& c.log_panel == ActivePanel::Log
                &&& c.input == ActivePanel::Input
                &&& c.confirm == ActivePanel::Confirm
                &&& !c.is_info_overlay_open
                &&& c.info_focus == InfoFocus::Roots
                &&& !c.is_roots_expanded
                &&& c.info_roots_cursor == 0
                &&& c.info_details_cursor == 0
                &&& c.info_details@.len() == 0
                &&& c.virtual_root is None
                &&& c.virtual_root_history@.len() == 0
            },
    {
        let mut needs_login = info.needs_login;
        let cls = match changelists {
            Ok(cls) => cls,
            Err(e) => {
                let ec = text::chars_of(e.as_str());
                if text::contains(&ec, &text::chars_of("please login again")) || text::contains(
                    &ec,
                    &text::chars_of("password"),
                ) {
                    needs_login = true;
                    Vec::new()
                } else if needs_login {
                    Vec::new()
                } else {
                    return Err(e);
                }
            },
        };
        let log_cursor = logs.len().saturating_sub(1);
        Ok(
            Core {
                active_panel: ActivePanel::FileTree,
                filetree,
                client_root: info.client_root,
                changelists: cls,
                expanded_ids: Vec::new(),
                cl_cursor: 0,
                current_detail: None,
                detail_error: None,
                detail_cursor: 0,
                logs,
                log_cursor,
                pending_files: Vec::new(),
                is_pending_expanded: true,
                pending_cursor: 0,
                is_submit_overlay_open: false,
                submit_description: String::new(),
                submit_cursor: 0,
                submit_focus: SubmitFocus::Description,
                scope_panel: ActivePanel::Scope,
                filetree_panel: ActivePanel::FileTree,
                pending_panel: ActivePanel::Pending,
                changelist_panel: ActivePanel::ChangeList,
                detail_panel: ActivePanel::Detail,
                log_panel: ActivePanel::Log,
                input: ActivePanel::Input,
                confirm: ActivePanel::Confirm,
                is_login_overlay_open: needs_login,
                login_password: String::new(),
                login_info: String::from_str("Your session has expired, please login again"),
                login_user: info.user,
                login_server: info.server,
                is_syncing: false,
                sync_files: Vec::new(),
                sync_total: 0,
                sync_current: 0,
                sync_total_bytes: 0,
                sync_synced_bytes: 0,
                sync_finished: false,
                synced_change_id: None,
                is_info_overlay_open: false,
                info_focus: InfoFocus::Roots,
                is_roots_expanded: false,
                info_roots_cursor: 0,
                info_details_cursor: 0,
                info_details: Vec::new(),
                virtual_root: None,
                virtual_root_history: Vec::new(),
            },
        )
    }

    /// Adds an entry to the log, dropping the oldest where there would be
    /// more than [`MAX_LOGS`], and puts the log cursor on the last entry.
    /// `time` is the local time, as `HH:MM:SS MM/DD`.
    pub fn add_log(&mut self, time: String, command: &str, output: &str)
        ensures
            final(self).logs@ == logs_after_add(old(self).logs@, final(self).logs@.last()),
            final(self).log_cursor == final(self).logs@.len() - 1,
            final(self).logs@.last().time == time,
            final(self).logs@.last().command@ == command@,
            final(self).logs@.last().output@ == output@,
            *final(self) == (Core { logs: final(self).logs, log_cursor: final(self).log_cursor, ..*old(self) }),
    {
        let item = LogItem { time, command: command.to_owned(), output: output.to_owned() };
        self.logs.push(item);
        if self.logs.len() > MAX_LOGS {
            self.logs.remove(0);
        }
        self.log_cursor = self.logs.len() - 1;
        assert(self.logs@ =~= logs_after_add(old(self).logs@, item));
    }

    /// Logs what a `p4` command gave, under `cmd_name`.
    pub fn handle_p4_output(&mut self, time: String, cmd_name: &str, run: &CommandRun)
        ensures
            final(self).logs@ == logs_after_add(old(self).logs@, final(self).logs@.last()),
            final(self).log_cursor == final(self).logs@.len() - 1,
            final(self).logs@.last().time == time,
            final(self).logs@.last().command@ == cmd_name@,
            final(self).logs@.last().output@ == p4_output_text(*run),
            *final(self) == (Core { logs: final(self).logs, log_cursor: final(self).log_cursor, ..*old(self) }),
    {
        let text = p4_output_log_text(run);
        self.add_log(time, cmd_name, text.as_str());
    }

    /// Moves the log cursor one entry down, unless it is on the last.
    pub fn log_move_down(&mut self)
        ensures
            final(self).log_cursor == step_down(
                old(self).log_cursor as int,
                old(self).logs@.len() as int,
            ),
            *final(self) == (Core { log_cursor: final(self).log_cursor, ..*old(self) }),
    {
        if self.logs.len() > 0 && self.log_cursor < self.logs.len() - 1 {
            self.log_cursor += 1;
        }
    }

    /// Moves the log cursor one entry up, unless it is on the first.
    pub fn log_move_up(&mut self)
        ensures
            final(self).log_cursor == step_up(old(self).log_cursor as int),
            *final(self) == (Core { log_cursor: final(self).log_cursor, ..*old(self) }),
    {
        if self.log_cursor > 0 {
            self.log_cursor -= 1;
        }
    }

    /// How many rows the pending panel has: its header, and its files
    /// where it is unfolded.
    pub open spec fn pending_rows(&self) -> int {
        if self.is_pending_expanded {
            self.pending_files@.len() + 1 as int
        } else {
            1
        }
    }

    /// Moves the pending cursor one row down, unless it is on the last.
    pub fn pd_move_down(&mut self)
        ensures
            final(self).pending_cursor == step_down(
                old(self).pending_cursor as int,
                old(self).pending_rows(),
            ),
            *final(self) == (Core { pending_cursor: final(self).pending_cursor, ..*old(self) }),
    {
        let last = if self.is_pending_expanded {
            self.pending_files.len()
        } else {
            0
        };
        if self.pending_cursor < last {
            self.pending_cursor += 1;
        }
    }

    /// Moves the pending cursor one row up, unless it is on the header.
    pub fn pd_move_up(&mut self)
        ensures
            final(self).pending_cursor == step_up(old(self).pending_cursor as int),
            *final(self) == (Core { pending_cursor: final(self).pending_cursor, ..*old(self) }),
    {
        if self.pending_cursor > 0 {
            self.pending_cursor -= 1;
        }
    }

    /// Unfolds the pending list, where the cursor is on its header.
    pub fn pd_expand(&mut self)
        ensures
            final(self).is_pending_expanded == (old(self).is_pending_expanded
                || old(self).pending_cursor == 0),
            *final(self) == (Core { is_pending_expanded: final(self).is_pending_expanded, ..*old(self) }),
    {
        if self.pending_cursor == 0 {
            self.is_pending_expanded = true;
        }
    }

    /// Folds the pending list and puts the cursor on its header.
    pub fn pd_collapse(&mut self)
        ensures
            !final(self).is_pending_expanded,
            final(self).pending_cursor == 0,
            *final(self) == (Core {
                is_pending_expanded: false,
                pending_cursor: 0,
                ..*old(self)
            }),
    {
        self.is_pending_expanded = false;
        self.pending_cursor = 0;
    }

    /// Moves the detail cursor one field down, where there is a detail and
    /// the cursor is above the last of its nine fields.
    pub fn dt_move_down(&mut self)
        ensures
            final(self).detail_cursor == (if old(self).current_detail is Some
                && old(self).detail_cursor < 8 {
                old(self).detail_cursor + 1
            } else {
                old(self).detail_cursor as int
            }),
            *final(self) == (Core { detail_cursor: final(self).detail_cursor, ..*old(self) }),
    {
        if self.current_detail.is_some() && self.detail_cursor < 8 {
            self.detail_cursor += 1;
        }
    }

    /// Moves the detail cursor one field up, unless it is on the first.
    pub fn dt_move_up(&mut self)
        ensures
            final(self).detail_cursor == step_up(old(self).detail_cursor as int),
            *final(self) == (Core { detail_cursor: final(self).detail_cursor, ..*old(self) }),
    {
        if self.detail_cursor > 0 {
            self.detail_cursor -= 1;
        }
    }

    /// The text of the detail field under the cursor, to copy: file name,
    /// size, depot path, revision, date, changelist, action, latest user,
    /// checked out by.
    pub fn dt_copy_selected(&self) -> (r: Option<String>)
        ensures
            match self.current_detail {
                Some(d) => {
                    let vals = seq![
                        d.filename@,
                        d.filesize@,
                        d.depot_path@,
                        d.revision@,
                        d.date_modified@,
                        d.changelist@,
                        d.action@,
                        d.latest_user@,
                        d.checkout_by@,
                    ];
                    if self.detail_cursor < 9 {
                        r matches Some(v) && v@ == vals[self.detail_cursor as int]
                    } else {
                        r is None
                    }
                },
                None => r is None,
            },
    {
        match &self.current_detail {
            Some(d) => {
                let c = self.detail_cursor;
                if c == 0 {
                    Some(d.filename.clone())
                } else if c == 1 {
                    Some(d.filesize.clone())
                } else if c == 2 {
                    Some(d.depot_path.clone())
                } else if c == 3 {
                    Some(d.revision.clone())
                } else if c == 4 {
                    Some(d.date_modified.clone())
                } else if c == 5 {
                    Some(d.changelist.clone())
                } else if c == 6 {
                    Some(d.action.clone())
                } else if c == 7 {
                    Some(d.latest_user.clone())
                } else if c == 8 {
                    Some(d.checkout_by.clone())
                } else {
                    None
                }
            },
            None => None,
        }
    }

    /// Whether the changelist with id `id` is unfolded.
    pub fn is_expanded(&self, id: &String) -> (r: bool)
        ensures
            r == id_in(self.expanded_ids@, id@),
    {
        ids_contain(&self.expanded_ids, id)
    }

    /// How many selectable rows the changelist panel has (no more than the
    /// largest `usize`).
    pub fn get_cl_selectable_count(&self) -> (r: usize)
        ensures
            r == sat(cl_rows(self.changelists@, self.expanded_ids@).len()),
    {
        let ghost ids = self.expanded_ids@;
        let ghost cls = self.changelists@;
        let mut count: usize = 0;
        let mut i: usize = 0;
        assert(cls.take(0) =~= Seq::<ChangeListItem>::empty());
        while i < self.changelists.len()
            invariant
                i <= self.changelists.len(),
                cls == self.changelists@,
                ids == self.expanded_ids@,
                count == sat(cl_rows(cls.take(i as int), ids).len()),
            decreases self.changelists.len() - i,
        {
            let cl = &self.changelists[i];
            assert(cls.take(i + 1).drop_last() =~= cls.take(i as int));
            count = count.saturating_add(1);
            if self.is_expanded(&cl.id) {
                match &cl.details {
                    Some(d) => {
                        count = count.saturating_add(d.files.len());
                    },
                    None => {},
                }
            }
            i += 1;
        }
        assert(cls.take(cls.len() as int) =~= cls);
        count
    }

    /// The selectable row at `idx` of the changelist panel, if there is one.
    pub fn get_cl_target_at(&self, idx: usize) -> (r: Option<ClTarget>)
        ensures
            match r {
                Some(t) => idx < cl_rows(self.changelists@, self.expanded_ids@).len() && t@
                    == cl_rows(self.changelists@, self.expanded_ids@)[idx as int],
                None => idx >= cl_rows(self.changelists@, self.expanded_ids@).len(),
            },
    {
        let ghost ids = self.expanded_ids@;
        let ghost cls = self.changelists@;
        let mut current: usize = 0;
        let mut i: usize = 0;
        assert(cls.take(0) =~= Seq::<ChangeListItem>::empty());
        while i < self.changelists.len()
            invariant
                i <= self.changelists.len(),
                cls == self.changelists@,
                ids == self.expanded_ids@,
                current == cl_rows(cls.take(i as int), ids).len(),
                current <= idx,
            decreases self.changelists.len() - i,
        {
            let cl = &self.changelists[i];
            assert(cls.take(i + 1).drop_last() =~= cls.take(i as int));
            proof { lemma_cl_rows_prefix(cls, ids, i + 1); }
            let ghost block = cl_block(cls[i as int], ids);
            assert(cl_rows(cls.take(i + 1), ids) =~= cl_rows(cls.take(i as int), ids) + block);
            if current == idx {
                assert(cl_rows(cls.take(i + 1), ids)[idx as int] == block[0]);
                return Some(ClTarget::Id(cl.id.clone()));
            }
            current += 1;
            if self.is_expanded(&cl.id) {
                match &cl.details {
                    Some(d) => {
                        if idx - current < d.files.len() {
                            let k = idx - current;
                            assert(cl_rows(cls.take(i + 1), ids)[idx as int] == block[k + 1]);
                            return Some(ClTarget::File(cl.id.clone(), d.files[k].path.clone()));
                        }
                        current += d.files.len();
                    },
                    None => {},
                }
            }
            i += 1;
        }
        assert(cls.take(cls.len() as int) =~= cls);
        None
    }

    /// Moves the changelist cursor one row down, unless it is on the last.
    pub fn cl_move_down(&mut self)
        ensures
            final(self).cl_cursor == step_down(
                old(self).cl_cursor as int,
                sat(cl_rows(old(self).changelists@, old(self).expanded_ids@).len()) as int,
            ),
            *final(self) == (Core { cl_cursor: final(self).cl_cursor, ..*old(self) }),
    {
        let count = self.get_cl_selectable_count();
        if count > 0 && self.cl_cursor < count - 1 {
            self.cl_cursor += 1;
        }
    }

    /// Moves the changelist cursor one row up, unless it is on the first.
    pub fn cl_move_up(&mut self)
        ensures
            final(self).cl_cursor == step_up(old(self).cl_cursor as int),
            *final(self) == (Core { cl_cursor: final(self).cl_cursor, ..*old(self) }),
    {
        if self.cl_cursor > 0 {
            self.cl_cursor -= 1;
        }
    }
}

/// No id is unfolded twice: the ids of `ids` are distinct.
pub open spec fn ids_unique(ids: Seq<String>) -> bool {
    forall|i: int, j: int| 0 <= i < j < ids.len() ==> (#[trigger] ids[i])@ != (#[trigger] ids[j])@
}

/// Every id that `remove_id` keeps is one of `ids`.
pub proof fn lemma_remove_id_from(ids: Seq<String>, id: Seq<char>)
    ensures
        forall|k: int| 0 <= k < remove_id(ids, id).len() ==> exists|j: int| 0 <= j < ids.len() && #[trigger] remove_id(ids, id)[k] == ids[j],
        ids_unique(ids) ==> ids_unique(remove_id(ids, id)),
    decreases ids.len(),
{
    if ids.len() > 0 {
        let prev = ids.drop_last();
        lemma_remove_id_from(prev, id);
        let r0 = remove_id(prev, id);
        assert forall|k: int| 0 <= k < r0.len() implies exists|j: int| 0 <= j < ids.len() && #[trigger] r0[k] == ids[j] by {
            let j = choose|j: int| 0 <= j < prev.len() && r0[k] == prev[j];
            assert(r0[k] == ids[j]);
        }
        if ids.last()@ != id {
            let r = r0.push(ids.last());
            assert forall|k: int| 0 <= k < r.len() implies exists|j: int| 0 <= j < ids.len() && #[trigger] r[k] == ids[j] by {
                if k < r0.len() {
                    assert(r[k] == r0[k]);
                } else {
                    assert(r[k] == ids[ids.len() - 1]);
                }
            }
            if ids_unique(ids) {
                assert(ids_unique(prev));
                assert forall|i: int, j: int| 0 <= i < j < r.len() implies (#[trigger] r[i])@ != (#[trigger] r[j])@ by {
                    if j == r.len() - 1 {
                        let m = choose|m: int| 0 <= m < prev.len() && r0[i] == prev[m];
                        assert(r[i] == ids[m]);
                        assert(r[j] == ids[ids.len() - 1]);
                    } else {
                        assert(r[i] == r0[i] && r[j] == r0[j]);
                    }
                }
            }
        } else {
            if ids_unique(ids) {
                assert(ids_unique(prev));
            }
        }
    }
}

/// `ids` without `id`.
pub open spec fn remove_id(ids: Seq<String>, id: Seq<char>) -> Seq<String>
    decreases ids.len(),
{
    if ids.len() == 0 {
        ids
    } else if ids.last()@ == id {
        remove_id(ids.drop_last(), id)
    } else {
        remove_id(ids.drop_last(), id).push(ids.last())
    }
}

/// The changelist id of a row.
pub open spec fn row_id(t: ClTargetView) -> Seq<char> {
    match t {
        ClTargetView::Id(id) => id,
        ClTargetView::File(id, _) => id,
    }
}

/// What unfolding the changelist under the cursor did.
#[derive(Debug)]
pub enum ClExpand {
    /// Nothing: the cursor is on no changelist row, or it is unfolded.
    Unchanged,
    /// It is unfolded, and its files are known.
    Expanded,
    /// It is unfolded; its files are to be fetched (`p4 describe`).
    NeedsDetail(String),
}

/// The file that a line of `p4 opened` output, `//depot/path#rev - action
/// ...`, names, if it names one.
pub open spec fn pending_file(line: Seq<char>) -> Option<changelist::ChangeListFileView> {
    match text::after_sub(line, " - "@) {
        None => None,
        Some(rest) => {
            let path_rev = text::before_sub(line, " - "@);
            let action = text::first_word(text::before_sub(rest, " - "@));
            let sub = text::split_spec(path_rev, text::Delim::Char('#'));
            if sub.len() >= 2 {
                Some(
                    changelist::ChangeListFileView {
                        path: sub[0],
                        revision: seq!['#'] + sub[1],
                        action,
                    },
                )
            } else {
                None
            }
        },
    }
}

/// The files that lines of `p4 opened` output name, in order.
pub open spec fn pending_files_spec(ls: Seq<Seq<char>>) -> Seq<changelist::ChangeListFileView>
    decreases ls.len(),
{
    if ls.len() == 0 {
        Seq::empty()
    } else {
        let r = pending_files_spec(ls.drop_last());
        match pending_file(ls.last()) {
            Some(f) => r.push(f),
            None => r,
        }
    }
}

/// The status that the last pair for path `p` gives, if any.
pub open spec fn status_lookup(st: Seq<(String, FileP4Status)>, p: Seq<char>) -> Option<FileP4Status>
    decreases st.len(),
{
    if st.len() == 0 {
        None
    } else if path::path_eq(st.last().0@, p) {
        Some(st.last().1)
    } else {
        status_lookup(st.drop_last(), p)
    }
}

/// An entry after taking the statuses: a file gets the status given for
/// its path, `Untracked` if none is; a directory stays as it was.
pub open spec fn with_status(f: FileItem, st: Seq<(String, FileP4Status)>) -> FileItem {
    if f.is_dir {
        f
    } else {
        FileItem {
            p4_status: match status_lookup(st, f.path@) {
                Some(s) => s,
                None => FileP4Status::Untracked,
            },
            ..f
        }
    }
}

/// The paths of the files (not directories) among `items`, in order.
pub open spec fn file_paths(items: Seq<FileItem>) -> Seq<Seq<char>>
    decreases items.len(),
{
    if items.len() == 0 {
        Seq::empty()
    } else if items.last().is_dir {
        file_paths(items.drop_last())
    } else {
        file_paths(items.drop_last()).push(items.last().path@)
    }
}

fn lookup_status(st: &Vec<(String, FileP4Status)>, p: &String) -> (r: Option<FileP4Status>)
    ensures
        r == status_lookup(st@, p@),
{
    let mut i: usize = st.len();
    assert(st@.take(i as int) =~= st@);
    while i > 0
        invariant
            i <= st.len(),
            status_lookup(st@, p@) == status_lookup(st@.take(i as int), p@),
        decreases i,
    {
        assert(st@.take(i as int).drop_last() =~= st@.take(i - 1));
        if path::same_path(st[i - 1].0.as_str(), p.as_str()) {
            return Some(st[i - 1].1);
        }
        i -= 1;
    }
    None
}

fn restatus(items: &Vec<FileItem>, st: &Vec<(String, FileP4Status)>) -> (r: Vec<FileItem>)
    ensures
        r@ == items@.map_values(|f: FileItem| with_status(f, st@)),
{
    let mut out: Vec<FileItem> = Vec::new();
    let mut i: usize = 0;
    while i < items.len()
        invariant
            i <= items.len(),
            out@ =~= items@.take(i as int).map_values(|f: FileItem| with_status(f, st@)),
        decreases items.len() - i,
    {
        let mut it = items[i].copied();
        if !it.is_dir {
            it.p4_status = match lookup_status(st, &it.path) {
                Some(s) => s,
                None => FileP4Status::Untracked,
            };
        }
        out.push(it);
        i += 1;
    }
    assert(items@.take(items.len() as int) =~= items@);
    out
}

fn push_file_paths(out: &mut Vec<String>, items: &Vec<FileItem>)
    ensures
        text::strs_view(final(out)@) == text::strs_view(old(out)@) + file_paths(items@),
{
    let mut i: usize = 0;
    assert(items@.take(0) =~= Seq::<FileItem>::empty());
    assert(text::strs_view(out@) =~= text::strs_view(old(out)@) + file_paths(items@.take(0)));
    while i < items.len()
        invariant
            i <= items.len(),
            text::strs_view(out@) =~= text::strs_view(old(out)@) + file_paths(items@.take(i as int)),
        decreases items.len() - i,
    {
        assert(items@.take(i + 1).drop_last() =~= items@.take(i as int));
        if !items[i].is_dir {
            let ghost prev = out@;
            out.push(items[i].path.clone());
            assert(text::strs_view(out@) =~= text::strs_view(prev).push(items@[i as int].path@));
        }
        i += 1;
    }
    assert(items@.take(items.len() as int) =~= items@);
}

/// `new` and `r` are what [`Core::update_detail`] makes of `old`: nothing
/// changes while the login overlay is open; with an entry under the cursor
/// its path is returned; with none the detail panel is cleared.
pub open spec fn detail_updated(old: Core, new: Core, r: Option<String>) -> bool {
    if old.is_login_overlay_open {
        r is None && new == old
    } else if old.filetree.selected < old.filetree.files@.len() {
        r matches Some(p) && p == old.filetree.files@[old.filetree.selected as int].path && new == old
    } else {
        r is None && new == (Core { current_detail: None, detail_error: None, ..old })
    }
}

/// The changelist that `p4 changes -m 1 #have` output names as synced: the
/// second word of its first line.
pub open spec fn synced_id_spec(run: CommandRun) -> Option<Seq<char>> {
    match run {
        CommandRun::Finished { stdout, .. } => match text::first_line(stdout@) {
            Some(l) if text::words_spec(l).len() >= 2 => Some(text::words_spec(l)[1]),
            _ => None,
        },
        CommandRun::Failed(_) => None,
    }
}

fn synced_id_of(run: &CommandRun) -> (r: Option<String>)
    ensures
        match r {
            Some(s) => synced_id_spec(*run) == Some(s@),
            None => synced_id_spec(*run) is None,
        },
{
    match run {
        CommandRun::Finished { stdout, .. } => {
            match text::first_line_exec(stdout.as_str()) {
                Some(l) => {
                    proof { text::lemma_chars_dv(l); }
                    let parts = text::words_of(&l);
                    proof { text::lemma_dv_all(parts); }
                    if parts.len() >= 2 {
                        Some(text::string_of(&parts[1]))
                    } else {
                        None
                    }
                },
                None => None,
            }
        },
        CommandRun::Failed(_) => None,
    }
}

/// The first changelist whose id is `id`.
pub fn cl_index_of(cls: &Vec<ChangeListItem>, id: &String) -> (r: Option<usize>)
    ensures
        match r {
            Some(k) => cl_index_from(cls@, id@, 0) == Some(k as int),
            None => cl_index_from(cls@, id@, 0) is None,
        },
{
    let mut k: usize = 0;
    while k < cls.len()
        invariant
            k <= cls.len(),
            cl_index_from(cls@, id@, 0) == cl_index_from(cls@, id@, k as int),
        decreases cls.len() - k,
    {
        if cls[k].id == *id {
            return Some(k);
        }
        k += 1;
    }
    None
}

impl Core {
    /// Unfolds the changelist under the cursor, where the cursor is on a
    /// changelist row and it is folded; says whether its files are still to
    /// be fetched.
    #[verifier::loop_isolation(false)]
    pub fn cl_expand(&mut self) -> (r: ClExpand)
        ensures
            ({
                let rows = cl_rows(old(self).changelists@, old(self).expanded_ids@);
                let c = old(self).cl_cursor as int;
                if c < rows.len() && rows[c] is Id && !id_in(old(self).expanded_ids@, row_id(rows[c])) {
                    let id = row_id(rows[c]);
                    &&& final(self).expanded_ids@.len() == old(self).expanded_ids@.len() + 1
                    &&& final(self).expanded_ids@.drop_last() == old(self).expanded_ids@
                    &&& final(self).expanded_ids@.last()@ == id
                    &&& *final(self) == (Core { expanded_ids: final(self).expanded_ids, ..*old(self) })
                    &&& match cl_index_from(old(self).changelists@, id, 0) {
                        Some(k) if old(self).changelists@[k].details is None => r matches ClExpand::NeedsDetail(s) && s@ == id,
                        _ => r is Expanded,
                    }
                } else {
                    r is Unchanged && *final(self) == *old(self)
                }
            }),
            ids_unique(old(self).expanded_ids@) ==> ids_unique(final(self).expanded_ids@),
    {
        match self.get_cl_target_at(self.cl_cursor) {
            Some(ClTarget::Id(id)) => {
                if self.is_expanded(&id) {
                    return ClExpand::Unchanged;
                }
                self.expanded_ids.push(id.clone());
                let mut k: usize = 0;
                while k < self.changelists.len()
                    invariant
                        k <= self.changelists.len(),
                        cl_index_from(self.changelists@, id@, 0) == cl_index_from(self.changelists@, id@, k as int),
                    decreases self.changelists.len() - k,
                {
                    if self.changelists[k].id == id {
                        if self.changelists[k].details.is_none() {
                            return ClExpand::NeedsDetail(id);
                        }
                        return ClExpand::Expanded;
                    }
                    k += 1;
                }
                ClExpand::Expanded
            },
            _ => ClExpand::Unchanged,
        }
    }

    /// Takes the files of changelist `id` that `p4 describe` gave: the first
    /// changelist with that id gets them, where its files are not known yet.
    pub fn set_cl_details(&mut self, id: &String, details: ChangeListDetail)
        ensures
            match cl_index_from(old(self).changelists@, id@, 0) {
                Some(k) if old(self).changelists@[k].details is None => {
                    &&& final(self).changelists@ == old(self).changelists@.update(
                        k,
                        ChangeListItem { details: Some(details), ..old(self).changelists@[k] },
                    )
                    &&& *final(self) == (Core { changelists: final(self).changelists, ..*old(self) })
                },
                _ => *final(self) == *old(self),
            },
    {
        let mut k: usize = 0;
        while k < self.changelists.len()
            invariant
                k <= self.changelists.len(),
                *self == *old(self),
                cl_index_from(self.changelists@, id@, 0) == cl_index_from(self.changelists@, id@, k as int),
            decreases self.changelists.len() - k,
        {
            if self.changelists[k].id == *id {
                if self.changelists[k].details.is_none() {
                    let cl = self.changelists.remove(k);
                    let ghost before = self.changelists@;
                    self.changelists.insert(k, ChangeListItem { details: Some(details), ..cl });
                    assert(self.changelists@ =~= old(self).changelists@.update(
                        k as int,
                        ChangeListItem { details: Some(details), ..old(self).changelists@[k as int] },
                    ));
                }
                return;
            }
            k += 1;
        }
    }

    /// Folds the changelist of the row under the cursor, where it is
    /// unfolded, and puts the cursor on that changelist's own row.
    pub fn cl_collapse(&mut self)
        ensures
            ({
                let rows = cl_rows(old(self).changelists@, old(self).expanded_ids@);
                let c = old(self).cl_cursor as int;
                if c < rows.len() && id_in(old(self).expanded_ids@, row_id(rows[c])) {
                    let id = row_id(rows[c]);
                    let ids = remove_id(old(self).expanded_ids@, id);
                    &&& final(self).expanded_ids@ == ids
                    &&& final(self).cl_cursor == match cl_index_from(old(self).changelists@, id, 0) {
                        Some(k) => sat(cl_rows(old(self).changelists@.take(k), ids).len()),
                        None => old(self).cl_cursor,
                    }
                    &&& *final(self) == (Core {
                        expanded_ids: final(self).expanded_ids,
                        cl_cursor: final(self).cl_cursor,
                        ..*old(self)
                    })
                } else {
                    *final(self) == *old(self)
                }
            }),
            ids_unique(old(self).expanded_ids@) ==> ids_unique(final(self).expanded_ids@),
    {
        let id = match self.get_cl_target_at(self.cl_cursor) {
            Some(ClTarget::Id(id)) => id,
            Some(ClTarget::File(id, _)) => id,
            None => return,
        };
        if !self.is_expanded(&id) {
            return;
        }
        let mut kept: Vec<String> = Vec::new();
        let mut i: usize = 0;
        let ghost ids = self.expanded_ids@;
        assert(ids.take(0) =~= Seq::<String>::empty());
        while i < self.expanded_ids.len()
            invariant
                i <= self.expanded_ids.len(),
                ids == self.expanded_ids@,
                kept@ == remove_id(ids.take(i as int), id@),
            decreases self.expanded_ids.len() - i,
        {
            assert(ids.take(i + 1).drop_last() =~= ids.take(i as int));
            if self.expanded_ids[i] != id {
                kept.push(self.expanded_ids[i].clone());
            }
            i += 1;
        }
        assert(ids.take(ids.len() as int) =~= ids);
        proof {
            assert(ids.take(ids.len() as int) =~= ids);
            lemma_remove_id_from(ids, id@);
        }
        self.expanded_ids = kept;
        self.sync_cl_cursor_after_collapse(&id);
    }

    /// Puts the changelist cursor on the own row of the first changelist
    /// whose id is `collapsed_id`, if there is one.
    fn sync_cl_cursor_after_collapse(&mut self, collapsed_id: &String)
        ensures
            final(self).cl_cursor == match cl_index_from(old(self).changelists@, collapsed_id@, 0) {
                Some(k) => sat(cl_rows(old(self).changelists@.take(k), old(self).expanded_ids@).len()),
                None => old(self).cl_cursor,
            },
            *final(self) == (Core { cl_cursor: final(self).cl_cursor, ..*old(self) }),
    {
        let ghost ids = self.expanded_ids@;
        let ghost cls = self.changelists@;
        let mut idx: usize = 0;
        let mut i: usize = 0;
        assert(cls.take(0) =~= Seq::<ChangeListItem>::empty());
        while i < self.changelists.len()
            invariant
                i <= self.changelists.len(),
                cls == self.changelists@,
                ids == self.expanded_ids@,
                *self == *old(self),
                idx == sat(cl_rows(cls.take(i as int), ids).len()),
                cl_index_from(cls, collapsed_id@, 0) == cl_index_from(cls, collapsed_id@, i as int),
            decreases self.changelists.len() - i,
        {
            let cl = &self.changelists[i];
            if cl.id == *collapsed_id {
                self.cl_cursor = idx;
                return;
            }
            assert(cls.take(i + 1).drop_last() =~= cls.take(i as int));
            idx = idx.saturating_add(1);
            if self.is_expanded(&cl.id) {
                match &cl.details {
                    Some(d) => {
                        idx = idx.saturating_add(d.files.len());
                    },
                    None => {},
                }
            }
            i += 1;
        }
    }

    /// Takes the synced changelist from `p4 changes -m 1 #have` output: the
    /// second word of its first line. The cursor goes to the first
    /// changelist with that id, if one is listed.
    pub fn detect_synced_change(&mut self, run: &CommandRun)
        ensures
            match synced_id_spec(*run) {
                Some(id) => {
                    &&& final(self).synced_change_id matches Some(s) && s@ == id
                    &&& final(self).cl_cursor == match cl_index_from(old(self).changelists@, id, 0) {
                        Some(k) => k as usize,
                        None => old(self).cl_cursor,
                    }
                    &&& *final(self) == (Core {
                        synced_change_id: final(self).synced_change_id,
                        cl_cursor: final(self).cl_cursor,
                        ..*old(self)
                    })
                },
                None => *final(self) == *old(self),
            },
    {
        match synced_id_of(run) {
            Some(id) => {
                let cursor = match cl_index_of(&self.changelists, &id) {
                    Some(k) => k,
                    None => self.cl_cursor,
                };
                let ghost before = *self;
                self.cl_cursor = cursor;
                self.synced_change_id = Some(id);
                assert(*self == (Core { synced_change_id: self.synced_change_id, cl_cursor: cursor, ..before }));
            },
            None => {},
        }
    }

    /// Takes the pending files from `p4 opened` output. Output that asks for
    /// a login opens the login overlay and leaves no pending files; a command
    /// that could not start leaves none either.
    pub fn update_pending_files(&mut self, run: &CommandRun)
        ensures
            match run {
                CommandRun::Finished { stdout, stderr, .. } => if text::contains_spec(stdout@, "please login again"@)
                    || text::contains_spec(stderr@, "please login again"@) {
                    &&& final(self).pending_files@.len() == 0
                    &&& final(self).is_login_overlay_open
                    &&& *final(self) == (Core {
                        pending_files: final(self).pending_files,
                        is_login_overlay_open: true,
                        ..*old(self)
                    })
                } else {
                    &&& changelist::files_view(final(self).pending_files@) == pending_files_spec(text::lines_spec(stdout@))
                    &&& *final(self) == (Core { pending_files: final(self).pending_files, ..*old(self) })
                },
                CommandRun::Failed(_) => final(self).pending_files@.len() == 0 && *final(self)
                    == (Core { pending_files: final(self).pending_files, ..*old(self) }),
            },
    {
        self.pending_files = Vec::new();
        match run {
            CommandRun::Finished { stdout, stderr, .. } => {
                let login = text::chars_of("please login again");
                if text::contains(&text::chars_of(stdout.as_str()), &login) || text::contains(
                    &text::chars_of(stderr.as_str()),
                    &login,
                ) {
                    self.is_login_overlay_open = true;
                    return;
                }
                let ls = text::lines_of(&text::chars_of(stdout.as_str()));
                proof { text::lemma_dv_all(ls); }
                let ghost lsv = ls.deep_view();
                let dash = text::chars_of(" - ");
                let mut files: Vec<ChangeListFile> = Vec::new();
                let mut i: usize = 0;
                assert(lsv.take(0) =~= Seq::<Seq<char>>::empty());
                assert(changelist::files_view(files@) =~= Seq::empty());
                while i < ls.len()
                    invariant
                        lsv == ls.deep_view(),
                        lsv == text::lines_spec(stdout@),
                        lsv.len() == ls@.len(),
                        forall|j: int| 0 <= j < ls@.len() ==> #[trigger] lsv[j] == ls@[j]@,
                        dash@ == " - "@,
                        i <= ls.len(),
                        changelist::files_view(files@) == pending_files_spec(lsv.take(i as int)),
                    decreases ls.len() - i,
                {
                    assert(lsv.take(i + 1).drop_last() =~= lsv.take(i as int));
                    assert(lsv.take(i + 1).last() == ls@[i as int]@);
                    let line = &ls[i];
                    match text::after_sub_exec(line, &dash) {
                        Some(rest) => {
                            proof { text::lemma_chars_dv(rest); }
                            let path_rev = text::before_sub_exec(line, &dash);
                            let action = text::first_word_exec(&text::before_sub_exec(&rest, &dash));
                            let sub = text::split_on(&path_rev, text::Delim::Char('#'));
                            proof { text::lemma_dv_all(sub); }
                            if sub.len() >= 2 {
                                let mut rev = vec!['#'];
                                rev = text::concat(&rev, &sub[1]);
                                assert(rev@ =~= seq!['#'] + sub@[1]@);
                                files.push(ChangeListFile {
                                    path: text::string_of(&sub[0]),
                                    revision: text::string_of(&rev),
                                    action: text::string_of(&action),
                                });
                                assert(changelist::files_view(files@) =~= pending_files_spec(lsv.take(i + 1)));
                            }
                        },
                        None => {},
                    }
                    i += 1;
                }
                assert(lsv.take(ls.len() as int) =~= lsv);
                self.pending_files = files;
            },
            CommandRun::Failed(_) => {},
        }
    }

    /// The paths whose statuses are to be fetched: the files (not
    /// directories) of the current directory, then of its parent. None
    /// while the login overlay is open.
    pub fn status_paths(&self) -> (r: Option<Vec<String>>)
        ensures
            match r {
                Some(v) => !self.is_login_overlay_open && text::strs_view(v@) == file_paths(
                    self.filetree.files@,
                ) + file_paths(self.filetree.parent_files@),
                None => self.is_login_overlay_open,
            },
    {
        if self.is_login_overlay_open {
            return None;
        }
        let mut v: Vec<String> = Vec::new();
        assert(text::strs_view(v@) =~= Seq::empty());
        push_file_paths(&mut v, &self.filetree.files);
        push_file_paths(&mut v, &self.filetree.parent_files);
        Some(v)
    }

    /// Takes the statuses fetched for the files on screen: each file of the
    /// current and the parent directory gets the status given for its path,
    /// `Untracked` if none is.
    pub fn update_file_p4_statuses(&mut self, statuses: &Vec<(String, FileP4Status)>)
        ensures
            final(self).filetree.files@ == old(self).filetree.files@.map_values(
                |f: FileItem| with_status(f, statuses@),
            ),
            final(self).filetree.parent_files@ == old(self).filetree.parent_files@.map_values(
                |f: FileItem| with_status(f, statuses@),
            ),
            *final(self) == (Core {
                filetree: FileTree {
                    files: final(self).filetree.files,
                    parent_files: final(self).filetree.parent_files,
                    ..old(self).filetree
                },
                ..*old(self)
            }),
    {
        let files = restatus(&self.filetree.files, statuses);
        let parent_files = restatus(&self.filetree.parent_files, statuses);
        self.filetree.files = files;
        self.filetree.parent_files = parent_files;
    }

    /// What the detail panel is to show next: nothing changes while the
    /// login overlay is open; with an entry under the cursor its path is
    /// returned, to fetch its detail; with none the panel is cleared.
    pub fn update_detail(&mut self) -> (r: Option<String>)
        ensures
            detail_updated(*old(self), *final(self), r),
    {
        if self.is_login_overlay_open {
            return None;
        }
        if self.filetree.selected < self.filetree.files.len() {
            Some(self.filetree.files[self.filetree.selected].path.clone())
        } else {
            self.current_detail = None;
            self.detail_error = None;
            None
        }
    }

    /// Takes a fetched detail, or the reason there is none.
    pub fn apply_detail(&mut self, result: Result<FileDetail, String>)
        ensures
            match result {
                Ok(d) => final(self).current_detail == Some(d) && final(self).detail_error is None,
                Err(e) => final(self).current_detail is None && final(self).detail_error == Some(e),
            },
            *final(self) == (Core {
                current_detail: final(self).current_detail,
                detail_error: final(self).detail_error,
                ..*old(self)
            }),
    {
        match result {
            Ok(d) => {
                self.current_detail = Some(d);
                self.detail_error = None;
            },
            Err(e) => {
                self.current_detail = None;
                self.detail_error = Some(e);
            },
        }
    }

    /// Moves the file cursor down; returns the path whose detail to fetch,
    /// as [`Core::update_detail`] does.
    pub fn ft_move_down(&mut self) -> (r: Option<String>)
        ensures
            detail_updated(
                Core {
                    filetree: FileTree {
                        selected: filetree::cursor_down(
                            old(self).filetree.selected as int,
                            old(self).filetree.files@.len() as int,
                        ) as usize,
                        ..old(self).filetree
                    },
                    ..*old(self)
                },
                *final(self),
                r,
            ),
    {
        self.filetree.move_down();
        self.update_detail()
    }

    /// Moves the file cursor up; returns the path whose detail to fetch.
    pub fn ft_move_up(&mut self) -> (r: Option<String>)
        ensures
            detail_updated(
                Core {
                    filetree: FileTree {
                        selected: filetree::cursor_up(old(self).filetree.selected as int) as usize,
                        ..old(self).filetree
                    },
                    ..*old(self)
                },
                *final(self),
                r,
            ),
    {
        self.filetree.move_up();
        self.update_detail()
    }

    /// Opens the selected directory (see [`FileTree::enter_dir`]) and puts
    /// the pending cursor on its header.
    pub fn ft_enter_dir(&mut self, listing: Vec<FileItem>, parent_listing: Vec<FileItem>)
        ensures
            filetree::entered_dir(old(self).filetree, final(self).filetree, listing@, parent_listing@),
            *final(self) == (Core { filetree: final(self).filetree, pending_cursor: 0, ..*old(self) }),
    {
        self.filetree.enter_dir(listing, parent_listing);
        self.pending_cursor = 0;
    }

    /// Opens the parent directory (see [`FileTree::leave_dir`]) and puts
    /// the pending cursor on its header.
    pub fn ft_leave_dir(&mut self, listing: Vec<FileItem>, parent_listing: Vec<FileItem>)
        ensures
            filetree::left_dir(old(self).filetree, final(self).filetree, listing@, parent_listing@),
            *final(self) == (Core { filetree: final(self).filetree, pending_cursor: 0, ..*old(self) }),
    {
        self.filetree.leave_dir(listing, parent_listing);
        self.pending_cursor = 0;
    }

    /// The file that `p4 edit`, `delete`, `revert` or `add` acts on: the
    /// entry under the file cursor, unless it is a directory.
    pub fn ft_p4_target(&self) -> (r: Option<String>)
        ensures
            match r {
                Some(p) => self.filetree.selected < self.filetree.files@.len()
                    && !self.filetree.files@[self.filetree.selected as int].is_dir
                    && p == self.filetree.files@[self.filetree.selected as int].path,
                None => self.filetree.selected >= self.filetree.files@.len()
                    || self.filetree.files@[self.filetree.selected as int].is_dir,
            },
    {
        if self.filetree.selected < self.filetree.files.len() && !self.filetree.files[self.filetree.selected].is_dir {
            Some(self.filetree.files[self.filetree.selected].path.clone())
        } else {
            None
        }
    }

    /// After a delete: the file cursor goes back onto the last entry where
    /// it is past the end of a non-empty list.
    pub fn ft_clamp_after_delete(&mut self)
        ensures
            final(self).filetree.selected == (if old(self).filetree.selected
                >= old(self).filetree.files@.len() && old(self).filetree.files@.len() > 0 {
                old(self).filetree.files@.len() - 1
            } else {
                old(self).filetree.selected as int
            }),
            *final(self) == (Core {
                filetree: FileTree { selected: final(self).filetree.selected, ..old(self).filetree },
                ..*old(self)
            }),
    {
        if self.filetree.selected >= self.filetree.files.len() && self.filetree.files.len() > 0 {
            self.filetree.selected = self.filetree.files.len() - 1;
        }
    }

    /// The pending file that `p4 revert` acts on: the one under the pending
    /// cursor (the header is row 0).
    pub fn pd_revert_target(&self) -> (r: Option<String>)
        ensures
            match r {
                Some(p) => self.pending_cursor > 0 && self.pending_cursor - 1 < self.pending_files@.len()
                    && p == self.pending_files@[self.pending_cursor - 1].path,
                None => self.pending_cursor == 0 || self.pending_cursor - 1 >= self.pending_files@.len(),
            },
    {
        if self.pending_cursor > 0 && self.pending_cursor - 1 < self.pending_files.len() {
            Some(self.pending_files[self.pending_cursor - 1].path.clone())
        } else {
            None
        }
    }

    /// After a revert: the pending cursor goes back onto the last row where
    /// it is past it.
    pub fn pd_clamp_after_revert(&mut self)
        ensures
            final(self).pending_cursor == (if old(self).pending_cursor > old(self).pending_files@.len() {
                old(self).pending_files@.len() as int
            } else {
                old(self).pending_cursor as int
            }),
            *final(self) == (Core { pending_cursor: final(self).pending_cursor, ..*old(self) }),
    {
        if self.pending_cursor > self.pending_files.len() {
            self.pending_cursor = self.pending_files.len();
        }
    }

    /// Takes changelists fetched again, where the fetch succeeded.
    pub fn refresh_changelists(&mut self, fetched: Result<Vec<ChangeListItem>, String>)
        ensures
            match fetched {
                Ok(cls) => *final(self) == (Core { changelists: cls, ..*old(self) }),
                Err(_) => *final(self) == *old(self),
            },
    {
        match fetched {
            Ok(cls) => {
                self.changelists = cls;
            },
            Err(_) => {},
        }
    }
}

/// The local path that `p4 where <depot path>` output gives: its last
/// word, where the command succeeded and printed three words or more
/// (depot, client and local path).
pub open spec fn where_local_path(run: CommandRun) -> Option<Seq<char>> {
    match run {
        CommandRun::Finished { success, stdout, .. } => if success && text::words_spec(stdout@).len() >= 3 {
            Some(text::words_spec(stdout@).last())
        } else {
            None
        },
        CommandRun::Failed(_) => None,
    }
}

impl Core {
    /// The local path of a file of a changelist, from what
    /// `p4 where <depot path>` gave.
    pub fn cl_get_local_path(&self, run: &CommandRun) -> (r: Option<String>)
        ensures
            match r {
                Some(p) => where_local_path(*run) == Some(p@),
                None => where_local_path(*run) is None,
            },
    {
        match run {
            CommandRun::Finished { success, stdout, .. } => {
                if !*success {
                    return None;
                }
                let parts = text::words_of(&text::chars_of(stdout.as_str()));
                proof { text::lemma_dv_all(parts); }
                if parts.len() >= 3 {
                    Some(text::string_of(&parts[parts.len() - 1]))
                } else {
                    None
                }
            },
            CommandRun::Failed(_) => None,
        }
    }
}

/// A field of `p4 info` output: the text before the first `: ` of a line
/// and the text after it.
pub open spec fn info_field(line: Seq<char>) -> Option<(Seq<char>, Seq<char>)> {
    match text::after_sub(line, ": "@) {
        Some(v) => Some((text::before_sub(line, ": "@), v)),
        None => None,
    }
}

/// The fields of the lines `ls`, in order.
pub open spec fn info_fields(ls: Seq<Seq<char>>) -> Seq<(Seq<char>, Seq<char>)>
    decreases ls.len(),
{
    if ls.len() == 0 {
        Seq::empty()
    } else {
        let r = info_fields(ls.drop_last());
        match info_field(ls.last()) {
            Some(f) => r.push(f),
            None => r,
        }
    }
}

/// The root that the info cursor is on: the client root first, then the
/// virtual roots of the history.
pub open spec fn info_target(c: Core) -> Option<Seq<char>> {
    if c.info_roots_cursor == 0 {
        Some(c.client_root@)
    } else if c.info_roots_cursor - 1 < c.virtual_root_history@.len() {
        Some(c.virtual_root_history@[c.info_roots_cursor - 1]@)
    } else {
        None
    }
}

/// `new` is `old` after `V` on the file browser (`r` says whether the
/// selected entry is a directory): the selected directory stops being the
/// virtual root where it is it, else becomes it and joins the history
/// unless it is there; a virtual root with the same text as the directory
/// is it.
pub open spec fn virtual_root_toggled(old: Core, new: Core, r: bool) -> bool {
    let t = old.filetree;
    if t.selected < t.files@.len() && t.files@[t.selected as int].is_dir {
        let p = t.files@[t.selected as int].path;
        &&& r
        &&& (old.virtual_root matches Some(v) ==> (v@ == p@ ==> path::path_eq(v@, p@)))
        &&& if old.virtual_root matches Some(v) && path::path_eq(v@, p@) {
            new == (Core { virtual_root: None, ..old })
        } else {
            &&& new.virtual_root == Some(p)
            &&& new.virtual_root_history@ == (if id_in(old.virtual_root_history@, p@) {
                old.virtual_root_history@
            } else {
                old.virtual_root_history@.push(p)
            })
            &&& new == (Core {
                virtual_root: new.virtual_root,
                virtual_root_history: new.virtual_root_history,
                ..old
            })
        }
    } else {
        !r && new == old
    }
}

/// The virtual root and its history after toggling directory `p`.
fn toggled_root(vr: &Option<String>, hist: Vec<String>, p: String) -> (r: (Option<String>, Vec<String>))
    ensures
        vr matches Some(v) ==> (v@ == p@ ==> path::path_eq(v@, p@)),
        if vr matches Some(v) && path::path_eq(v@, p@) {
            r.0 is None && r.1 == hist
        } else {
            &&& r.0 == Some(p)
            &&& r.1@ == (if id_in(hist@, p@) { hist@ } else { hist@.push(p) })
        },
        ids_unique(hist@) ==> ids_unique(r.1@),
{
    let same = match vr {
        Some(v) => path::same_path(v.as_str(), p.as_str()),
        None => false,
    };
    if same {
        (None, hist)
    } else {
        let mut hist = hist;
        if !ids_contain(&hist, &p) {
            hist.push(p.clone());
        }
        (Some(p), hist)
    }
}

impl Core {
    /// Takes the fields that `p4 info` printed, for the info overlay; a
    /// command that could not start gives none.
    pub fn set_info_details(&mut self, run: &CommandRun)
        ensures
            status::pairs_view(final(self).info_details@) == match run {
                CommandRun::Finished { stdout, .. } => info_fields(text::lines_spec(stdout@)),
                CommandRun::Failed(_) => Seq::empty(),
            },
            *final(self) == (Core { info_details: final(self).info_details, ..*old(self) }),
    {
        let mut out: Vec<(String, String)> = Vec::new();
        match run {
            CommandRun::Finished { stdout, .. } => {
                let ls = text::lines_of(&text::chars_of(stdout.as_str()));
                proof { text::lemma_dv_all(ls); }
                let ghost lsv = ls.deep_view();
                let sep = text::chars_of(": ");
                let mut i: usize = 0;
                while i < ls.len()
                    invariant
                        i <= ls.len(),
                        lsv == ls.deep_view(),
                        lsv == text::lines_spec(stdout@),
                        lsv.len() == ls@.len(),
                        forall|j: int| 0 <= j < ls@.len() ==> #[trigger] lsv[j] == ls@[j]@,
                        sep@ == ": "@,
                        status::pairs_view(out@) =~= info_fields(lsv.take(i as int)),
                    decreases ls.len() - i,
                {
                    assert(lsv.take(i + 1).drop_last() =~= lsv.take(i as int));
                    assert(lsv.take(i + 1).last() == ls@[i as int]@);
                    let r = text::after_sub_exec(&ls[i], &sep);
                    match r {
                        Some(v) => {
                            proof { text::lemma_chars_dv(v); }
                            let k = text::before_sub_exec(&ls[i], &sep);
                            assert(info_field(lsv[i as int]) == Some((k@, v@)));
                            let ghost before = status::pairs_view(out@);
                            out.push((text::string_of(&k), text::string_of(&v)));
                            assert(status::pairs_view(out@) =~= before.push((k@, v@)));
                        },
                        None => {
                            assert(info_field(lsv[i as int]) is None);
                        },
                    }
                    i += 1;
                }
                assert(lsv.take(ls.len() as int) =~= lsv);
            },
            CommandRun::Failed(_) => {
                assert(status::pairs_view(out@) =~= Seq::empty());
            },
        }
        self.info_details = out;
    }

    /// The value of the info field under the cursor, to copy.
    pub fn info_copy_value(&self) -> (r: Option<String>)
        ensures
            match r {
                Some(v) => self.info_details_cursor < self.info_details@.len()
                    && v == self.info_details@[self.info_details_cursor as int].1,
                None => self.info_details_cursor >= self.info_details@.len(),
            },
    {
        if self.info_details_cursor < self.info_details.len() {
            Some(self.info_details[self.info_details_cursor].1.clone())
        } else {
            None
        }
    }

    /// Switches to the root under the info cursor, where there is one: the
    /// client root clears the virtual root, a root of the history becomes
    /// it; the overlay closes. Returns the directory to open.
    pub fn info_enter(&mut self) -> (r: Option<String>)
        ensures
            match info_target(*old(self)) {
                Some(p) => r matches Some(q) && q@ == p && *final(self) == (Core {
                    virtual_root: if old(self).info_roots_cursor == 0 { None } else { Some(q) },
                    is_info_overlay_open: false,
                    ..*old(self)
                }),
                None => r is None && *final(self) == *old(self),
            },
    {
        if self.info_roots_cursor == 0 {
            let p = self.client_root.clone();
            self.virtual_root = None;
            self.is_info_overlay_open = false;
            Some(p)
        } else if self.info_roots_cursor - 1 < self.virtual_root_history.len() {
            let p = self.virtual_root_history[self.info_roots_cursor - 1].clone();
            self.virtual_root = Some(p.clone());
            self.is_info_overlay_open = false;
            Some(p)
        } else {
            None
        }
    }

    /// Opens directory `path` in the file browser, the cursor on its first
    /// entry: `listing` is that directory's and `parent_listing` its
    /// parent's.
    pub fn enter_path(&mut self, path: String, listing: Vec<FileItem>, parent_listing: Vec<FileItem>)
        ensures
            filetree::refreshed(
                FileTree { current_path: path, selected: 0, ..old(self).filetree },
                final(self).filetree,
                listing@,
                parent_listing@,
            ),
            *final(self) == (Core { filetree: final(self).filetree, ..*old(self) }),
    {
        self.filetree.current_path = path;
        self.filetree.selected = 0;
        self.filetree.refresh(listing, parent_listing);
    }

    /// Makes the selected directory the virtual root, or clears the virtual
    /// root where it is that directory already; a new virtual root joins the
    /// history unless it is there. Says whether the selected entry was a
    /// directory; where it is not, nothing changes.
    pub fn toggle_virtual_root(&mut self) -> (r: bool)
        ensures
            virtual_root_toggled(*old(self), *final(self), r),
            ids_unique(old(self).virtual_root_history@) ==> ids_unique(final(self).virtual_root_history@),
    {
        if !(self.filetree.selected < self.filetree.files.len() && self.filetree.files[self.filetree.selected].is_dir) {
            return false;
        }
        let p = self.filetree.files[self.filetree.selected].path.clone();
        let mut hist: Vec<String> = Vec::new();
        std::mem::swap(&mut hist, &mut self.virtual_root_history);
        let (v, h) = toggled_root(&self.virtual_root, hist, p);
        let ghost before = *old(self);
        self.virtual_root = v;
        self.virtual_root_history = h;
        assert(*self == (Core { virtual_root: self.virtual_root, virtual_root_history: self.virtual_root_history, ..before }));
        true
    }

    /// Takes changelists fetched anew after the root changed: where the
    /// fetch succeeded, the list is replaced, the cursor goes to the first
    /// and all are folded.
    pub fn reset_changelists(&mut self, fetched: Result<Vec<ChangeListItem>, String>)
        ensures
            match fetched {
                Ok(cls) => final(self).expanded_ids@.len() == 0 && *final(self) == (Core {
                    changelists: cls,
                    cl_cursor: 0,
                    expanded_ids: final(self).expanded_ids,
                    ..*old(self)
                }),
                Err(_) => *final(self) == *old(self),
            },
    {
        match fetched {
            Ok(cls) => {
                self.changelists = cls;
                self.cl_cursor = 0;
                self.expanded_ids = Vec::new();
            },
            Err(_) => {},
        }
    }
}

/// Whether the changelists are due to be fetched again, `elapsed_ms`
/// milliseconds after they last were: once a minute has passed.
pub fn changelist_refresh_due(elapsed_ms: u128) -> (r: bool)
    ensures
        r == (elapsed_ms >= 60000),
{
    elapsed_ms >= 60000
}

/// The directory that jumping to `local_path` opens: its parent, or `/`.
pub open spec fn jump_dir(local_path: Seq<char>) -> Seq<char> {
    match path::path_parent(local_path) {
        Some(p) => p,
        None => seq!['/'],
    }
}

/// The directory that jumping to `local_path` opens.
pub fn jump_target(local_path: &str) -> (r: String)
    ensures
        r@ == jump_dir(local_path@),
{
    match path::parent_of(local_path) {
        Some(p) => p,
        None => text::string_of(&vec!['/']),
    }
}

/// The submit description says nothing but whitespace.
pub open spec fn blank(s: Seq<char>) -> bool {
    text::trim_spec(s, text::Delim::Whitespace).len() == 0
}

impl Core {
    /// Shows the file at `local_path` (which exists) in the file browser:
    /// the browser opens its directory (see [`jump_target`]), `listing`
    /// being that directory's and `parent_listing` its parent's. Where the
    /// listing holds the file, the cursor goes onto it, the file panel
    /// becomes active, and the path whose detail to fetch comes back.
    pub fn jump_to_file(&mut self, local_path: &str, listing: Vec<FileItem>, parent_listing: Vec<FileItem>) -> (r: (
        bool,
        Option<String>,
    ))
        ensures
            final(self).filetree.current_path@ == jump_dir(local_path@),
            filetree::refreshed(
                FileTree { current_path: final(self).filetree.current_path, ..old(self).filetree },
                FileTree { selected: old(self).filetree.selected, ..final(self).filetree },
                listing@,
                parent_listing@,
            ),
            match filetree::position_of(final(self).filetree.files@, local_path@) {
                Some(k) => {
                    &&& r.0
                    &&& final(self).filetree.selected == k
                    &&& final(self).active_panel == ActivePanel::FileTree
                    &&& (!old(self).is_login_overlay_open ==> (r.1 matches Some(p) && p
                        == final(self).filetree.files@[k].path))
                    &&& (old(self).is_login_overlay_open ==> r.1 is None)
                },
                None => !r.0 && r.1 is None && final(self).filetree.selected == old(self).filetree.selected
                    && final(self).active_panel == old(self).active_panel,
            },
            *final(self) == (Core {
                filetree: final(self).filetree,
                active_panel: final(self).active_panel,
                ..*old(self)
            }),
    {
        let dir = jump_target(local_path);
        self.filetree.current_path = dir;
        self.filetree.refresh(listing, parent_listing);
        match filetree::find_path(&self.filetree.files, local_path) {
            Some(pos) => {
                proof { filetree::lemma_position_from(self.filetree.files@, local_path@, 0); }
                self.filetree.selected = pos;
                self.active_panel = ActivePanel::FileTree;
                let fetch = self.update_detail();
                (true, fetch)
            },
            None => (false, None),
        }
    }

    /// Whether a submit may go ahead: a description that is blank is
    /// refused, with a log entry saying so.
    pub fn submit_check(&mut self, time: String) -> (r: bool)
        ensures
            r == !blank(old(self).submit_description@),
            r ==> *final(self) == *old(self),
            !r ==> final(self).logs@ == logs_after_add(old(self).logs@, final(self).logs@.last())
                && final(self).logs@.last().command@ == "p4 submit"@
                && final(self).logs@.last().output@ == "Error: Description cannot be empty"@
                && final(self).log_cursor == final(self).logs@.len() - 1
                && *final(self) == (Core { logs: final(self).logs, log_cursor: final(self).log_cursor, ..*old(self) }),
    {
        let d = text::trim_of(&text::chars_of(self.submit_description.as_str()), text::Delim::Whitespace);
        if d.len() == 0 {
            self.add_log(time, "p4 submit", "Error: Description cannot be empty");
            false
        } else {
            true
        }
    }

    /// After `p4 submit`: logs what it gave, clears the description, closes
    /// the overlay, and takes the changelists fetched again (cursor on the
    /// first, all folded) where the fetch succeeded.
    pub fn finish_submit(
        &mut self,
        time: String,
        run: &CommandRun,
        fetched: Result<Vec<ChangeListItem>, String>,
    )
        ensures
            final(self).logs@ == logs_after_add(old(self).logs@, final(self).logs@.last()),
            final(self).logs@.last().command@ == "p4 submit"@,
            final(self).logs@.last().output@ == p4_output_text(*run),
            final(self).submit_description@.len() == 0,
            !final(self).is_submit_overlay_open,
            match fetched {
                Ok(cls) => final(self).changelists == cls && final(self).cl_cursor == 0
                    && final(self).expanded_ids@.len() == 0,
                Err(_) => final(self).changelists == old(self).changelists && final(self).cl_cursor
                    == old(self).cl_cursor && final(self).expanded_ids == old(self).expanded_ids,
            },
            final(self).log_cursor == final(self).logs@.len() - 1,
            *final(self) == (Core {
                logs: final(self).logs,
                log_cursor: final(self).log_cursor,
                submit_description: final(self).submit_description,
                is_submit_overlay_open: false,
                changelists: final(self).changelists,
                cl_cursor: final(self).cl_cursor,
                expanded_ids: final(self).expanded_ids,
                ..*old(self)
            }),
    {
        self.handle_p4_output(time, "p4 submit", run);
        self.submit_description = String::new();
        self.is_submit_overlay_open = false;
        match fetched {
            Ok(cls) => {
                self.changelists = cls;
                self.cl_cursor = 0;
                self.expanded_ids = Vec::new();
            },
            Err(_) => {},
        }
    }

    /// After `p4 login`: output that says `logged in` closes the overlay and
    /// clears the password; any other says the password is invalid. Both
    /// outputs go to the log. Says whether the login succeeded.
    pub fn p4_login(&mut self, time: String, stdout: &str, stderr: &str) -> (r: bool)
        ensures
            r == text::contains_spec(stdout@, "logged in"@),
            r ==> !final(self).is_login_overlay_open && final(self).login_password@.len() == 0
                && final(self).login_info == old(self).login_info,
            !r ==> final(self).login_info@ == "Password Invalid"@ && final(self).is_login_overlay_open
                == old(self).is_login_overlay_open && final(self).login_password
                == old(self).login_password,
            final(self).logs@ == logs_after_add(old(self).logs@, final(self).logs@.last()),
            final(self).logs@.last().command@ == "p4 login"@,
            final(self).logs@.last().output@ == stdout@ + seq!['\n'] + stderr@,
            final(self).log_cursor == final(self).logs@.len() - 1,
            *final(self) == (Core {
                logs: final(self).logs,
                log_cursor: final(self).log_cursor,
                is_login_overlay_open: final(self).is_login_overlay_open,
                login_password: final(self).login_password,
                login_info: final(self).login_info,
                ..*old(self)
            }),
    {
        let ok = text::contains(&text::chars_of(stdout), &text::chars_of("logged in"));
        if ok {
            self.is_login_overlay_open = false;
            self.login_password = String::new();
        } else {
            self.login_info = String::from_str("Password Invalid");
        }
        let mut out = text::chars_of(stdout);
        out.push('\n');
        let out = text::concat(&out, &text::chars_of(stderr));
        assert(out@ =~= stdout@ + seq!['\n'] + stderr@);
        self.add_log(time, "p4 login", text::string_of(&out).as_str());
        ok
    }
}

} // verus!
