//! What a key press does: which command it stands for in the current mode
//! and panel, and the changes of state that need nothing from outside.
//! Commands that run `p4`, read directories or touch the clipboard are
//! returned for the caller to carry out.
use vstd::prelude::*;
use crate::text;
use crate::state::{self, Core, ActivePanel, SubmitFocus, InfoFocus, step_down, step_up};

verus! {

/// The key of a key press.
#[derive(Clone, Copy, PartialEq, Eq, Structural, Debug)]
pub enum KeyCode {
    Char(char),
    Esc,
    Enter,
    Tab,
    Backspace,
    Other,
}

/// A key press: the key, and whether Control alone was held.
#[derive(Clone, Copy, PartialEq, Eq, Structural, Debug)]
pub struct Key {
    pub code: KeyCode,
    pub ctrl: bool,
}

/// What a key press stands for.
#[derive(Clone, Copy, PartialEq, Eq, Structural, Debug)]
pub enum Command {
    Nothing,
    Quit,
    Panel(ActivePanel),
    OpenSubmit,
    FtDown,
    FtUp,
    FtEnter,
    FtLeave,
    FtEdit,
    FtDelete,
    FtRevert,
    FtAdd,
    PdDown,
    PdUp,
    PdExpand,
    PdCollapse,
    PdRevert,
    ClDown,
    ClUp,
    ClExpand,
    ClCollapse,
    ClFetch,
    ClJump,
    ClSyncAll,
    ClSyncTo,
    DtDown,
    DtUp,
    DtCopy,
    LogDown,
    LogUp,
    /// Stop the running sync.
    CancelSync,
    /// Log in with the password typed.
    Login,
    PasswordChar(char),
    PasswordBack,
    CloseSubmit,
    ToggleSubmitFocus,
    SubmitDown,
    SubmitUp,
    Submit,
    DescriptionChar(char),
    DescriptionBack,
    /// Open the info overlay; its `p4 info` fields are the caller's to read.
    OpenInfo,
    /// Make the selected directory the virtual root, or clear it.
    ToggleVirtualRoot,
    CloseInfo,
    ToggleInfoFocus,
    InfoDown,
    InfoUp,
    ExpandRoots,
    CollapseRoots,
    /// Switch to the root under the info cursor.
    InfoEnter,
    /// Copy the info field under the cursor.
    InfoCopy,
}

pub open spec fn is_char(k: Key, c: char) -> bool {
    k.code == KeyCode::Char(c)
}

/// The command of a key in the main view, with `panel` active and
/// `has_pending` saying whether there are pending files. The first rule
/// that fits wins.
pub open spec fn main_command(panel: ActivePanel, has_pending: bool, k: Key) -> Command {
    if is_char(k, 'Q') {
        Command::Quit
    } else if is_char(k, 'c') && k.ctrl {
        Command::Quit
    } else if is_char(k, '1') {
        Command::Panel(ActivePanel::Scope)
    } else if is_char(k, '2') {
        Command::Panel(ActivePanel::FileTree)
    } else if is_char(k, '3') {
        Command::Panel(ActivePanel::Pending)
    } else if is_char(k, '4') {
        Command::Panel(ActivePanel::ChangeList)
    } else if k.code == KeyCode::Tab {
        Command::Panel(ActivePanel::Detail)
    } else if is_char(k, '@') {
        Command::Panel(ActivePanel::Log)
    } else if is_char(k, 'S') && panel == ActivePanel::Pending && has_pending {
        Command::OpenSubmit
    } else if panel == ActivePanel::FileTree {
        if is_char(k, 'j') {
            Command::FtDown
        } else if is_char(k, 'k') {
            Command::FtUp
        } else if is_char(k, 'l') {
            Command::FtEnter
        } else if is_char(k, 'h') {
            Command::FtLeave
        } else if is_char(k, 'c') {
            Command::FtEdit
        } else if is_char(k, 'd') {
            Command::FtDelete
        } else if is_char(k, 'r') {
            Command::FtRevert
        } else if is_char(k, 'a') {
            Command::FtAdd
        } else if is_char(k, 'V') {
            Command::ToggleVirtualRoot
        } else {
            Command::Nothing
        }
    } else if panel == ActivePanel::Pending {
        if is_char(k, 'j') {
            Command::PdDown
        } else if is_char(k, 'k') {
            Command::PdUp
        } else if is_char(k, 'l') {
            Command::PdExpand
        } else if is_char(k, 'h') {
            Command::PdCollapse
        } else if is_char(k, 'r') {
            Command::PdRevert
        } else {
            Command::Nothing
        }
    } else if panel == ActivePanel::ChangeList {
        if is_char(k, 'j') {
            Command::ClDown
        } else if is_char(k, 'k') {
            Command::ClUp
        } else if is_char(k, 'l') || k.code == KeyCode::Enter {
            Command::ClExpand
        } else if is_char(k, 'h') {
            Command::ClCollapse
        } else if is_char(k, 'f') {
            Command::ClFetch
        } else if is_char(k, 'F') {
            Command::ClJump
        } else if is_char(k, 's') {
            Command::ClSyncAll
        } else if is_char(k, 'g') {
            Command::ClSyncTo
        } else {
            Command::Nothing
        }
    } else if panel == ActivePanel::Detail {
        if is_char(k, 'j') {
            Command::DtDown
        } else if is_char(k, 'k') {
            Command::DtUp
        } else if is_char(k, 'Y') {
            Command::DtCopy
        } else {
            Command::Nothing
        }
    } else if panel == ActivePanel::Log {
        if is_char(k, 'j') {
            Command::LogDown
        } else if is_char(k, 'k') {
            Command::LogUp
        } else {
            Command::Nothing
        }
    } else if panel == ActivePanel::Scope && k.code == KeyCode::Enter {
        Command::OpenInfo
    } else {
        Command::Nothing
    }
}

/// The command of a key in the login overlay.
pub open spec fn login_command(k: Key) -> Command {
    match k.code {
        KeyCode::Esc => Command::Quit,
        KeyCode::Enter => Command::Login,
        KeyCode::Char(c) => Command::PasswordChar(c),
        KeyCode::Backspace => Command::PasswordBack,
        _ => Command::Nothing,
    }
}

/// The command of a key in the submit overlay, `focus` taking keys.
pub open spec fn submit_command(focus: SubmitFocus, k: Key) -> Command {
    match k.code {
        KeyCode::Esc => Command::CloseSubmit,
        KeyCode::Tab => Command::ToggleSubmitFocus,
        KeyCode::Char(c) => if c == 'j' && focus == SubmitFocus::FileList {
            Command::SubmitDown
        } else if c == 'k' && focus == SubmitFocus::FileList {
            Command::SubmitUp
        } else if focus == SubmitFocus::Description {
            Command::DescriptionChar(c)
        } else {
            Command::Nothing
        },
        KeyCode::Enter => Command::Submit,
        KeyCode::Backspace => if focus == SubmitFocus::Description {
            Command::DescriptionBack
        } else {
            Command::Nothing
        },
        KeyCode::Other => Command::Nothing,
    }
}

/// The command of a key in the info overlay, `focus` taking keys.
pub open spec fn info_command(focus: InfoFocus, k: Key) -> Command {
    if k.code == KeyCode::Esc {
        Command::CloseInfo
    } else if k.code == KeyCode::Tab {
        Command::ToggleInfoFocus
    } else if is_char(k, 'j') {
        Command::InfoDown
    } else if is_char(k, 'k') {
        Command::InfoUp
    } else if is_char(k, 'l') && focus == InfoFocus::Roots {
        Command::ExpandRoots
    } else if is_char(k, 'h') && focus == InfoFocus::Roots {
        Command::CollapseRoots
    } else if k.code == KeyCode::Enter && focus == InfoFocus::Roots {
        Command::InfoEnter
    } else if is_char(k, 'y') && focus == InfoFocus::Details {
        Command::InfoCopy
    } else {
        Command::Nothing
    }
}

/// The command of a key: a running sync takes only `Esc`; then the info
/// overlay, the login overlay, the submit overlay and the main view, in
/// that order.
pub open spec fn key_command(c: Core, k: Key) -> Command {
    if c.is_syncing {
        if k.code == KeyCode::Esc {
            Command::CancelSync
        } else {
            Command::Nothing
        }
    } else if c.is_info_overlay_open {
        info_command(c.info_focus, k)
    } else if c.is_login_overlay_open {
        login_command(k)
    } else if c.is_submit_overlay_open {
        submit_command(c.submit_focus, k)
    } else {
        main_command(c.active_panel, c.pending_files@.len() > 0, k)
    }
}

fn ch(k: Key, c: char) -> (r: bool)
    ensures
        r == is_char(k, c),
{
    match k.code {
        KeyCode::Char(x) => x == c,
        _ => false,
    }
}

/// The command of a key in the main view.
pub fn main_key_command(panel: ActivePanel, has_pending: bool, k: Key) -> (r: Command)
    ensures
        r == main_command(panel, has_pending, k),
{
    if ch(k, 'Q') {
        Command::Quit
    } else if ch(k, 'c') && k.ctrl {
        Command::Quit
    } else if ch(k, '1') {
        Command::Panel(ActivePanel::Scope)
    } else if ch(k, '2') {
        Command::Panel(ActivePanel::FileTree)
    } else if ch(k, '3') {
        Command::Panel(ActivePanel::Pending)
    } else if ch(k, '4') {
        Command::Panel(ActivePanel::ChangeList)
    } else if k.code == KeyCode::Tab {
        Command::Panel(ActivePanel::Detail)
    } else if ch(k, '@') {
        Command::Panel(ActivePanel::Log)
    } else if ch(k, 'S') && panel == ActivePanel::Pending && has_pending {
        Command::OpenSubmit
    } else if panel == ActivePanel::FileTree {
        if ch(k, 'j') {
            Command::FtDown
        } else if ch(k, 'k') {
            Command::FtUp
        } else if ch(k, 'l') {
            Command::FtEnter
        } else if ch(k, 'h') {
            Command::FtLeave
        } else if ch(k, 'c') {
            Command::FtEdit
        } else if ch(k, 'd') {
            Command::FtDelete
        } else if ch(k, 'r') {
            Command::FtRevert
        } else if ch(k, 'a') {
            Command::FtAdd
        } else if ch(k, 'V') {
            Command::ToggleVirtualRoot
        } else {
            Command::Nothing
        }
    } else if panel == ActivePanel::Pending {
        if ch(k, 'j') {
            Command::PdDown
        } else if ch(k, 'k') {
            Command::PdUp
        } else if ch(k, 'l') {
            Command::PdExpand
        } else if ch(k, 'h') {
            Command::PdCollapse
        } else if ch(k, 'r') {
            Command::PdRevert
        } else {
            Command::Nothing
        }
    } else if panel == ActivePanel::ChangeList {
        if ch(k, 'j') {
            Command::ClDown
        } else if ch(k, 'k') {
            Command::ClUp
        } else if ch(k, 'l') || k.code == KeyCode::Enter {
            Command::ClExpand
        } else if ch(k, 'h') {
            Command::ClCollapse
        } else if ch(k, 'f') {
            Command::ClFetch
        } else if ch(k, 'F') {
            Command::ClJump
        } else if ch(k, 's') {
            Command::ClSyncAll
        } else if ch(k, 'g') {
            Command::ClSyncTo
        } else {
            Command::Nothing
        }
    } else if panel == ActivePanel::Detail {
        if ch(k, 'j') {
            Command::DtDown
        } else if ch(k, 'k') {
            Command::DtUp
        } else if ch(k, 'Y') {
            Command::DtCopy
        } else {
            Command::Nothing
        }
    } else if panel == ActivePanel::Log {
        if ch(k, 'j') {
            Command::LogDown
        } else if ch(k, 'k') {
            Command::LogUp
        } else {
            Command::Nothing
        }
    } else if panel == ActivePanel::Scope && k.code == KeyCode::Enter {
        Command::OpenInfo
    } else {
        Command::Nothing
    }
}

/// The command of a key in the browser's current mode.
pub fn key_command_of(c: &Core, k: Key) -> (r: Command)
    ensures
        r == key_command(*c, k),
{
    if c.is_syncing {
        if k.code == KeyCode::Esc {
            Command::CancelSync
        } else {
            Command::Nothing
        }
    } else if c.is_info_overlay_open {
        let f = c.info_focus;
        if k.code == KeyCode::Esc {
            Command::CloseInfo
        } else if k.code == KeyCode::Tab {
            Command::ToggleInfoFocus
        } else if ch(k, 'j') {
            Command::InfoDown
        } else if ch(k, 'k') {
            Command::InfoUp
        } else if ch(k, 'l') && f == InfoFocus::Roots {
            Command::ExpandRoots
        } else if ch(k, 'h') && f == InfoFocus::Roots {
            Command::CollapseRoots
        } else if k.code == KeyCode::Enter && f == InfoFocus::Roots {
            Command::InfoEnter
        } else if ch(k, 'y') && f == InfoFocus::Details {
            Command::InfoCopy
        } else {
            Command::Nothing
        }
    } else if c.is_login_overlay_open {
        match k.code {
            KeyCode::Esc => Command::Quit,
            KeyCode::Enter => Command::Login,
            KeyCode::Char(x) => Command::PasswordChar(x),
            KeyCode::Backspace => Command::PasswordBack,
            _ => Command::Nothing,
        }
    } else if c.is_submit_overlay_open {
        let f = c.submit_focus;
        match k.code {
            KeyCode::Esc => Command::CloseSubmit,
            KeyCode::Tab => Command::ToggleSubmitFocus,
            KeyCode::Char(x) => if x == 'j' && f == SubmitFocus::FileList {
                Command::SubmitDown
            } else if x == 'k' && f == SubmitFocus::FileList {
                Command::SubmitUp
            } else if f == SubmitFocus::Description {
                Command::DescriptionChar(x)
            } else {
                Command::Nothing
            },
            KeyCode::Enter => Command::Submit,
            KeyCode::Backspace => if f == SubmitFocus::Description {
                Command::DescriptionBack
            } else {
                Command::Nothing
            },
            KeyCode::Other => Command::Nothing,
        }
    } else {
        main_key_command(c.active_panel, c.pending_files.len() > 0, k)
    }
}

/// `new` is `old` after the command `cmd`, where it needs nothing from
/// outside; else `new` is `old`.
#[verifier::opaque]
pub open spec fn applied(old: Core, new: Core, cmd: Command) -> bool {
    match cmd {
        Command::Panel(p) => new == (Core { active_panel: p, ..old }),
        Command::OpenSubmit => new.submit_description@.len() == 0 && new == (Core {
            is_submit_overlay_open: true,
            submit_focus: SubmitFocus::Description,
            submit_cursor: 0,
            submit_description: new.submit_description,
            ..old
        }),
        Command::PdDown => new == (Core {
            pending_cursor: step_down(old.pending_cursor as int, old.pending_rows()) as usize,
            ..old
        }),
        Command::PdUp => new == (Core { pending_cursor: step_up(old.pending_cursor as int) as usize, ..old }),
        Command::PdExpand => new == (Core {
            is_pending_expanded: old.is_pending_expanded || old.pending_cursor == 0,
            ..old
        }),
        Command::PdCollapse => new == (Core { is_pending_expanded: false, pending_cursor: 0, ..old }),
        Command::ClDown => new == (Core {
            cl_cursor: step_down(
                old.cl_cursor as int,
                state::sat(state::cl_rows(old.changelists@, old.expanded_ids@).len()) as int,
            ) as usize,
            ..old
        }),
        Command::ClUp => new == (Core { cl_cursor: step_up(old.cl_cursor as int) as usize, ..old }),
        Command::ClCollapse => {
            let rows = state::cl_rows(old.changelists@, old.expanded_ids@);
            let c = old.cl_cursor as int;
            if c < rows.len() && state::id_in(old.expanded_ids@, state::row_id(rows[c])) {
                let id = state::row_id(rows[c]);
                let ids = state::remove_id(old.expanded_ids@, id);
                &&& new.expanded_ids@ == ids
                &&& new.cl_cursor == match state::cl_index_from(old.changelists@, id, 0) {
                    Some(k) => state::sat(state::cl_rows(old.changelists@.take(k), ids).len()),
                    None => old.cl_cursor,
                }
                &&& new == (Core { expanded_ids: new.expanded_ids, cl_cursor: new.cl_cursor, ..old })
            } else {
                new == old
            }
        },
        Command::DtDown => new == (Core {
            detail_cursor: if old.current_detail is Some && old.detail_cursor < 8 {
                (old.detail_cursor + 1) as usize
            } else {
                old.detail_cursor
            },
            ..old
        }),
        Command::DtUp => new == (Core { detail_cursor: step_up(old.detail_cursor as int) as usize, ..old }),
        Command::LogDown => new == (Core {
            log_cursor: step_down(old.log_cursor as int, old.logs@.len() as int) as usize,
            ..old
        }),
        Command::LogUp => new == (Core { log_cursor: step_up(old.log_cursor as int) as usize, ..old }),
        Command::CancelSync => new == (Core { is_syncing: false, ..old }),
        Command::PasswordChar(c) => new.login_password@ == old.login_password@.push(c) && new == (Core {
            login_password: new.login_password,
            ..old
        }),
        Command::PasswordBack => new.login_password@ == (if old.login_password@.len() > 0 {
            old.login_password@.drop_last()
        } else {
            old.login_password@
        }) && new == (Core { login_password: new.login_password, ..old }),
        Command::CloseSubmit => new == (Core { is_submit_overlay_open: false, ..old }),
        Command::ToggleSubmitFocus => new == (Core {
            submit_focus: match old.submit_focus {
                SubmitFocus::Description => SubmitFocus::FileList,
                SubmitFocus::FileList => SubmitFocus::Description,
            },
            ..old
        }),
        Command::SubmitDown => new == (Core {
            submit_cursor: if old.pending_files@.len() > 0 && old.submit_cursor < old.pending_files@.len() - 1 {
                (old.submit_cursor + 1) as usize
            } else {
                old.submit_cursor
            },
            ..old
        }),
        Command::SubmitUp => new == (Core { submit_cursor: step_up(old.submit_cursor as int) as usize, ..old }),
        Command::DescriptionChar(c) => new.submit_description@ == old.submit_description@.push(c)
            && new == (Core { submit_description: new.submit_description, ..old }),
        Command::DescriptionBack => new.submit_description@ == (if old.submit_description@.len() > 0 {
            old.submit_description@.drop_last()
        } else {
            old.submit_description@
        }) && new == (Core { submit_description: new.submit_description, ..old }),
        Command::OpenInfo => new == (Core { is_info_overlay_open: true, info_focus: InfoFocus::Roots, ..old }),
        Command::CloseInfo => new == (Core { is_info_overlay_open: false, ..old }),
        Command::ToggleInfoFocus => new == (Core {
            info_focus: match old.info_focus {
                InfoFocus::Roots => InfoFocus::Details,
                InfoFocus::Details => InfoFocus::Roots,
            },
            ..old
        }),
        Command::InfoDown => match old.info_focus {
            InfoFocus::Roots => new == (Core {
                info_roots_cursor: if old.info_roots_cursor < (if old.is_roots_expanded {
                    old.virtual_root_history@.len() as int
                } else {
                    0
                }) {
                    (old.info_roots_cursor + 1) as usize
                } else {
                    old.info_roots_cursor
                },
                ..old
            }),
            InfoFocus::Details => new == (Core {
                info_details_cursor: if old.info_details@.len() > 0 && old.info_details_cursor
                    < old.info_details@.len() - 1 {
                    (old.info_details_cursor + 1) as usize
                } else {
                    old.info_details_cursor
                },
                ..old
            }),
        },
        Command::InfoUp => match old.info_focus {
            InfoFocus::Roots => new == (Core { info_roots_cursor: step_up(old.info_roots_cursor as int) as usize, ..old }),
            InfoFocus::Details => new == (Core {
                info_details_cursor: step_up(old.info_details_cursor as int) as usize,
                ..old
            }),
        },
        Command::ExpandRoots => new == (Core { is_roots_expanded: true, ..old }),
        Command::CollapseRoots => new == (Core { is_roots_expanded: false, info_roots_cursor: 0, ..old }),
        _ => new == old,
    }
}

pub open spec fn is_view_command(cmd: Command) -> bool {
    match cmd {
        Command::Panel(_) | Command::OpenSubmit | Command::PdDown | Command::PdUp
        | Command::PdExpand | Command::PdCollapse | Command::ClDown | Command::ClUp
        | Command::ClCollapse | Command::DtDown | Command::DtUp | Command::LogDown
        | Command::LogUp | Command::OpenInfo => true,
        _ => false,
    }
}

pub open spec fn is_overlay_command(cmd: Command) -> bool {
    match cmd {
        Command::CancelSync | Command::PasswordChar(_) | Command::PasswordBack
        | Command::CloseSubmit | Command::ToggleSubmitFocus | Command::SubmitDown
        | Command::SubmitUp | Command::DescriptionChar(_) | Command::DescriptionBack
        | Command::CloseInfo | Command::ToggleInfoFocus | Command::InfoDown | Command::InfoUp
        | Command::ExpandRoots | Command::CollapseRoots => true,
        _ => false,
    }
}

fn set_panel(c: &mut Core, p: ActivePanel)
    ensures
        applied(*old(c), *final(c), Command::Panel(p)),
{
    c.active_panel = p;
    proof { reveal(applied); }
}

fn open_submit(c: &mut Core)
    ensures
        applied(*old(c), *final(c), Command::OpenSubmit),
{
    c.is_submit_overlay_open = true;
    c.submit_focus = SubmitFocus::Description;
    c.submit_cursor = 0;
    c.submit_description = String::new();
    proof { reveal(applied); }
}

fn pd_down(c: &mut Core)
    ensures
        applied(*old(c), *final(c), Command::PdDown),
{
    c.pd_move_down();
    proof { reveal(applied); }
}

fn pd_up(c: &mut Core)
    ensures
        applied(*old(c), *final(c), Command::PdUp),
{
    c.pd_move_up();
    proof { reveal(applied); }
}

fn pd_expand(c: &mut Core)
    ensures
        applied(*old(c), *final(c), Command::PdExpand),
{
    c.pd_expand();
    proof { reveal(applied); }
}

fn pd_collapse(c: &mut Core)
    ensures
        applied(*old(c), *final(c), Command::PdCollapse),
{
    c.pd_collapse();
    proof { reveal(applied); }
}

fn cl_down(c: &mut Core)
    ensures
        applied(*old(c), *final(c), Command::ClDown),
{
    c.cl_move_down();
    proof { reveal(applied); }
}

fn cl_up(c: &mut Core)
    ensures
        applied(*old(c), *final(c), Command::ClUp),
{
    c.cl_move_up();
    proof { reveal(applied); }
}

fn cl_collapse(c: &mut Core)
    ensures
        applied(*old(c), *final(c), Command::ClCollapse),
{
    c.cl_collapse();
    proof { reveal(applied); }
}

fn dt_down(c: &mut Core)
    ensures
        applied(*old(c), *final(c), Command::DtDown),
{
    c.dt_move_down();
    proof { reveal(applied); }
}

fn dt_up(c: &mut Core)
    ensures
        applied(*old(c), *final(c), Command::DtUp),
{
    c.dt_move_up();
    proof { reveal(applied); }
}

fn log_down(c: &mut Core)
    ensures
        applied(*old(c), *final(c), Command::LogDown),
{
    c.log_move_down();
    proof { reveal(applied); }
}

fn log_up(c: &mut Core)
    ensures
        applied(*old(c), *final(c), Command::LogUp),
{
    c.log_move_up();
    proof { reveal(applied); }
}

fn cancel_sync(c: &mut Core)
    ensures
        applied(*old(c), *final(c), Command::CancelSync),
{
    c.is_syncing = false;
    proof { reveal(applied); }
}

fn password_char(c: &mut Core, x: char)
    ensures
        applied(*old(c), *final(c), Command::PasswordChar(x)),
{
    text::push_char(&mut c.login_password, x);
    proof { reveal(applied); }
}

fn password_back(c: &mut Core)
    ensures
        applied(*old(c), *final(c), Command::PasswordBack),
{
    text::pop_char(&mut c.login_password);
    proof { reveal(applied); }
}

fn close_submit(c: &mut Core)
    ensures
        applied(*old(c), *final(c), Command::CloseSubmit),
{
    c.is_submit_overlay_open = false;
    proof { reveal(applied); }
}

fn toggle_submit_focus(c: &mut Core)
    ensures
        applied(*old(c), *final(c), Command::ToggleSubmitFocus),
{
    c.submit_focus = match c.submit_focus {
        SubmitFocus::Description => SubmitFocus::FileList,
        SubmitFocus::FileList => SubmitFocus::Description,
    };
    proof { reveal(applied); }
}

fn submit_down(c: &mut Core)
    ensures
        applied(*old(c), *final(c), Command::SubmitDown),
{
    if c.submit_cursor < c.pending_files.len().saturating_sub(1) {
        c.submit_cursor += 1;
    }
    proof { reveal(applied); }
}

fn submit_up(c: &mut Core)
    ensures
        applied(*old(c), *final(c), Command::SubmitUp),
{
    if c.submit_cursor > 0 {
        c.submit_cursor -= 1;
    }
    proof { reveal(applied); }
}

fn description_char(c: &mut Core, x: char)
    ensures
        applied(*old(c), *final(c), Command::DescriptionChar(x)),
{
    text::push_char(&mut c.submit_description, x);
    proof { reveal(applied); }
}

fn description_back(c: &mut Core)
    ensures
        applied(*old(c), *final(c), Command::DescriptionBack),
{
    text::pop_char(&mut c.submit_description);
    proof { reveal(applied); }
}

fn open_info(c: &mut Core)
    ensures
        applied(*old(c), *final(c), Command::OpenInfo),
{
    c.is_info_overlay_open = true;
    c.info_focus = InfoFocus::Roots;
    proof { reveal(applied); }
}

fn close_info(c: &mut Core)
    ensures
        applied(*old(c), *final(c), Command::CloseInfo),
{
    c.is_info_overlay_open = false;
    proof { reveal(applied); }
}

fn toggle_info_focus(c: &mut Core)
    ensures
        applied(*old(c), *final(c), Command::ToggleInfoFocus),
{
    c.info_focus = match c.info_focus {
        InfoFocus::Roots => InfoFocus::Details,
        InfoFocus::Details => InfoFocus::Roots,
    };
    proof { reveal(applied); }
}

fn info_down(c: &mut Core)
    ensures
        applied(*old(c), *final(c), Command::InfoDown),
{
    match c.info_focus {
        InfoFocus::Roots => {
            let max = if c.is_roots_expanded { c.virtual_root_history.len() } else { 0 };
            if c.info_roots_cursor < max {
                c.info_roots_cursor += 1;
            }
        },
        InfoFocus::Details => {
            if c.info_details.len() > 0 && c.info_details_cursor < c.info_details.len() - 1 {
                c.info_details_cursor += 1;
            }
        },
    }
    proof { reveal(applied); }
}

fn info_up(c: &mut Core)
    ensures
        applied(*old(c), *final(c), Command::InfoUp),
{
    match c.info_focus {
        InfoFocus::Roots => {
            if c.info_roots_cursor > 0 {
                c.info_roots_cursor -= 1;
            }
        },
        InfoFocus::Details => {
            if c.info_details_cursor > 0 {
                c.info_details_cursor -= 1;
            }
        },
    }
    proof { reveal(applied); }
}

fn expand_roots(c: &mut Core)
    ensures
        applied(*old(c), *final(c), Command::ExpandRoots),
{
    c.is_roots_expanded = true;
    proof { reveal(applied); }
}

fn collapse_roots(c: &mut Core)
    ensures
        applied(*old(c), *final(c), Command::CollapseRoots),
{
    c.is_roots_expanded = false;
    c.info_roots_cursor = 0;
    proof { reveal(applied); }
}

fn apply_view_command(c: &mut Core, cmd: Command)
    requires
        is_view_command(cmd),
    ensures
        applied(*old(c), *final(c), cmd),
{
    match cmd {
        Command::Panel(p) => set_panel(c, p),
        Command::OpenSubmit => open_submit(c),
        Command::PdDown => pd_down(c),
        Command::PdUp => pd_up(c),
        Command::PdExpand => pd_expand(c),
        Command::PdCollapse => pd_collapse(c),
        Command::ClDown => cl_down(c),
        Command::ClUp => cl_up(c),
        Command::ClCollapse => cl_collapse(c),
        Command::DtDown => dt_down(c),
        Command::DtUp => dt_up(c),
        Command::LogDown => log_down(c),
        Command::LogUp => log_up(c),
        Command::OpenInfo => open_info(c),
        _ => {},
    }
}

fn apply_overlay_command(c: &mut Core, cmd: Command)
    requires
        is_overlay_command(cmd),
    ensures
        applied(*old(c), *final(c), cmd),
{
    match cmd {
        Command::CancelSync => cancel_sync(c),
        Command::PasswordChar(x) => password_char(c, x),
        Command::PasswordBack => password_back(c),
        Command::CloseSubmit => close_submit(c),
        Command::ToggleSubmitFocus => toggle_submit_focus(c),
        Command::SubmitDown => submit_down(c),
        Command::SubmitUp => submit_up(c),
        Command::DescriptionChar(x) => description_char(c, x),
        Command::DescriptionBack => description_back(c),
        Command::CloseInfo => close_info(c),
        Command::ToggleInfoFocus => toggle_info_focus(c),
        Command::InfoDown => info_down(c),
        Command::InfoUp => info_up(c),
        Command::ExpandRoots => expand_roots(c),
        Command::CollapseRoots => collapse_roots(c),
        _ => {},
    }
}

/// Handles a key press: returns its command, and carries it out where it
/// needs nothing from outside; the others are the caller's to carry out.
pub fn handle_key(c: &mut Core, k: Key) -> (r: Command)
    ensures
        r == key_command(*old(c), k),
        applied(*old(c), *final(c), r),
{
    let cmd = key_command_of(c, k);
    if is_view_command_exec(cmd) {
        apply_view_command(c, cmd);
    } else if is_overlay_command_exec(cmd) {
        apply_overlay_command(c, cmd);
    } else {
        proof { reveal(applied); }
    }
    cmd
}

fn is_view_command_exec(cmd: Command) -> (r: bool)
    ensures
        r == is_view_command(cmd),
{
    match cmd {
        Command::Panel(_) | Command::OpenSubmit | Command::PdDown | Command::PdUp
        | Command::PdExpand | Command::PdCollapse | Command::ClDown | Command::ClUp
        | Command::ClCollapse | Command::DtDown | Command::DtUp | Command::LogDown
        | Command::LogUp | Command::OpenInfo => true,
        _ => false,
    }
}

fn is_overlay_command_exec(cmd: Command) -> (r: bool)
    ensures
        r == is_overlay_command(cmd),
{
    match cmd {
        Command::CancelSync | Command::PasswordChar(_) | Command::PasswordBack
        | Command::CloseSubmit | Command::ToggleSubmitFocus | Command::SubmitDown
        | Command::SubmitUp | Command::DescriptionChar(_) | Command::DescriptionBack
        | Command::CloseInfo | Command::ToggleInfoFocus | Command::InfoDown | Command::InfoUp
        | Command::ExpandRoots | Command::CollapseRoots => true,
        _ => false,
    }
}

} // verus!
