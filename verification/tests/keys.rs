use pier::changelist::ChangeListFile;
use pier::command::CommandRun;
use pier::filetree::{FileItem, FileP4Status, FileTree};
use pier::info::P4Info;
use pier::keys::{handle_key, main_key_command, Command, Key, KeyCode};
use pier::state::{ActivePanel, Core, InfoFocus, SubmitFocus};
use pier::ui::{Quit, UiState};

fn key(c: char) -> Key {
    Key { code: KeyCode::Char(c), ctrl: false }
}

fn code(code: KeyCode) -> Key {
    Key { code, ctrl: false }
}

fn new_core() -> Core {
    let info = P4Info {
        client_root: "/ws".to_string(),
        user: "alice".to_string(),
        server: "p4:1666".to_string(),
        needs_login: false,
    };
    let tree = FileTree::new(
        "/ws".to_string(),
        vec![FileItem { name: "a".to_string(), path: "/ws/a".to_string(), is_dir: false, p4_status: FileP4Status::NotOpened }],
        Vec::new(),
    );
    Core::new(info, Ok(Vec::new()), Vec::new(), tree).ok().unwrap()
}

#[test]
fn main_view_keys() {
    assert_eq!(main_key_command(ActivePanel::FileTree, false, key('Q')), Command::Quit);
    assert_eq!(main_key_command(ActivePanel::FileTree, false, Key { code: KeyCode::Char('c'), ctrl: true }), Command::Quit);
    assert_eq!(main_key_command(ActivePanel::FileTree, false, key('c')), Command::FtEdit);
    assert_eq!(main_key_command(ActivePanel::Log, false, key('1')), Command::Panel(ActivePanel::Scope));
    assert_eq!(main_key_command(ActivePanel::Log, false, key('2')), Command::Panel(ActivePanel::FileTree));
    assert_eq!(main_key_command(ActivePanel::Log, false, key('3')), Command::Panel(ActivePanel::Pending));
    assert_eq!(main_key_command(ActivePanel::Log, false, key('4')), Command::Panel(ActivePanel::ChangeList));
    assert_eq!(main_key_command(ActivePanel::Log, false, code(KeyCode::Tab)), Command::Panel(ActivePanel::Detail));
    assert_eq!(main_key_command(ActivePanel::Scope, false, key('@')), Command::Panel(ActivePanel::Log));
    assert_eq!(main_key_command(ActivePanel::Pending, true, key('S')), Command::OpenSubmit);
    assert_eq!(main_key_command(ActivePanel::Pending, false, key('S')), Command::Nothing);
    assert_eq!(main_key_command(ActivePanel::FileTree, true, key('S')), Command::Nothing);
    assert_eq!(main_key_command(ActivePanel::FileTree, false, key('j')), Command::FtDown);
    assert_eq!(main_key_command(ActivePanel::FileTree, false, key('k')), Command::FtUp);
    assert_eq!(main_key_command(ActivePanel::FileTree, false, key('l')), Command::FtEnter);
    assert_eq!(main_key_command(ActivePanel::FileTree, false, key('h')), Command::FtLeave);
    assert_eq!(main_key_command(ActivePanel::FileTree, false, key('d')), Command::FtDelete);
    assert_eq!(main_key_command(ActivePanel::FileTree, false, key('r')), Command::FtRevert);
    assert_eq!(main_key_command(ActivePanel::FileTree, false, key('a')), Command::FtAdd);
    assert_eq!(main_key_command(ActivePanel::Pending, false, key('j')), Command::PdDown);
    assert_eq!(main_key_command(ActivePanel::Pending, false, key('k')), Command::PdUp);
    assert_eq!(main_key_command(ActivePanel::Pending, false, key('l')), Command::PdExpand);
    assert_eq!(main_key_command(ActivePanel::Pending, false, key('h')), Command::PdCollapse);
    assert_eq!(main_key_command(ActivePanel::Pending, false, key('r')), Command::PdRevert);
    assert_eq!(main_key_command(ActivePanel::ChangeList, false, key('j')), Command::ClDown);
    assert_eq!(main_key_command(ActivePanel::ChangeList, false, key('k')), Command::ClUp);
    assert_eq!(main_key_command(ActivePanel::ChangeList, false, key('l')), Command::ClExpand);
    assert_eq!(main_key_command(ActivePanel::ChangeList, false, code(KeyCode::Enter)), Command::ClExpand);
    assert_eq!(main_key_command(ActivePanel::ChangeList, false, key('h')), Command::ClCollapse);
    assert_eq!(main_key_command(ActivePanel::ChangeList, false, key('f')), Command::ClFetch);
    assert_eq!(main_key_command(ActivePanel::ChangeList, false, key('F')), Command::ClJump);
    assert_eq!(main_key_command(ActivePanel::ChangeList, false, key('s')), Command::ClSyncAll);
    assert_eq!(main_key_command(ActivePanel::ChangeList, false, key('g')), Command::ClSyncTo);
    assert_eq!(main_key_command(ActivePanel::Detail, false, key('j')), Command::DtDown);
    assert_eq!(main_key_command(ActivePanel::Detail, false, key('k')), Command::DtUp);
    assert_eq!(main_key_command(ActivePanel::Detail, false, key('Y')), Command::DtCopy);
    assert_eq!(main_key_command(ActivePanel::Detail, false, key('y')), Command::Nothing);
    assert_eq!(main_key_command(ActivePanel::Log, false, key('j')), Command::LogDown);
    assert_eq!(main_key_command(ActivePanel::Log, false, key('k')), Command::LogUp);
    assert_eq!(main_key_command(ActivePanel::Scope, false, key('j')), Command::Nothing);
    assert_eq!(main_key_command(ActivePanel::Scope, false, code(KeyCode::Enter)), Command::OpenInfo);
    assert_eq!(main_key_command(ActivePanel::FileTree, false, code(KeyCode::Enter)), Command::Nothing);
    assert_eq!(main_key_command(ActivePanel::FileTree, false, key('V')), Command::ToggleVirtualRoot);
    assert_eq!(main_key_command(ActivePanel::Pending, false, key('V')), Command::Nothing);
    assert_eq!(main_key_command(ActivePanel::Log, false, code(KeyCode::Other)), Command::Nothing);
}

#[test]
fn keys_change_panels_and_cursors() {
    let mut c = new_core();
    assert_eq!(handle_key(&mut c, key('3')), Command::Panel(ActivePanel::Pending));
    assert!(c.active_panel == ActivePanel::Pending);
    // Without pending files no submit opens.
    assert_eq!(handle_key(&mut c, key('S')), Command::Nothing);
    assert!(!c.is_submit_overlay_open);
    c.update_pending_files(&CommandRun::Finished {
        success: true,
        stdout: "//depot/a#1 - edit default change (text)\n".to_string(),
        stderr: String::new(),
    });
    assert_eq!(handle_key(&mut c, key('j')), Command::PdDown);
    assert_eq!(c.pending_cursor, 1);
    c.submit_description = "old".to_string();
    assert_eq!(handle_key(&mut c, key('S')), Command::OpenSubmit);
    assert!(c.is_submit_overlay_open);
    assert!(c.submit_description.is_empty());
    assert!(c.submit_focus == SubmitFocus::Description);
    assert_eq!(c.submit_cursor, 0);
    assert_eq!(handle_key(&mut c, key('Q')), Command::DescriptionChar('Q'));
    assert_eq!(handle_key(&mut c, key('j')), Command::DescriptionChar('j'));
    assert_eq!(c.submit_description, "Qj");
    assert_eq!(handle_key(&mut c, code(KeyCode::Backspace)), Command::DescriptionBack);
    assert_eq!(c.submit_description, "Q");
    assert_eq!(handle_key(&mut c, code(KeyCode::Tab)), Command::ToggleSubmitFocus);
    assert!(c.submit_focus == SubmitFocus::FileList);
    assert_eq!(handle_key(&mut c, key('x')), Command::Nothing);
    assert_eq!(handle_key(&mut c, code(KeyCode::Backspace)), Command::Nothing);
    assert_eq!(c.submit_description, "Q");
    assert_eq!(handle_key(&mut c, key('j')), Command::SubmitDown);
    assert_eq!(c.submit_cursor, 0); // one pending file: the cursor stays
    assert_eq!(handle_key(&mut c, key('k')), Command::SubmitUp);
    assert_eq!(handle_key(&mut c, code(KeyCode::Enter)), Command::Submit);
    assert_eq!(handle_key(&mut c, code(KeyCode::Esc)), Command::CloseSubmit);
    assert!(!c.is_submit_overlay_open);
}

#[test]
fn submit_cursor_moves_over_files() {
    let mut c = new_core();
    c.pending_files = vec![
        ChangeListFile { path: "//a".to_string(), revision: "#1".to_string(), action: "edit".to_string() },
        ChangeListFile { path: "//b".to_string(), revision: "#1".to_string(), action: "edit".to_string() },
    ];
    c.is_submit_overlay_open = true;
    c.submit_focus = SubmitFocus::FileList;
    handle_key(&mut c, key('j'));
    handle_key(&mut c, key('j'));
    assert_eq!(c.submit_cursor, 1);
    handle_key(&mut c, key('k'));
    handle_key(&mut c, key('k'));
    assert_eq!(c.submit_cursor, 0);
}

#[test]
fn login_overlay_keys() {
    let mut c = new_core();
    c.is_login_overlay_open = true;
    assert_eq!(handle_key(&mut c, key('p')), Command::PasswordChar('p'));
    assert_eq!(handle_key(&mut c, key('w')), Command::PasswordChar('w'));
    assert_eq!(c.login_password, "pw");
    assert_eq!(handle_key(&mut c, code(KeyCode::Backspace)), Command::PasswordBack);
    assert_eq!(c.login_password, "p");
    assert_eq!(handle_key(&mut c, code(KeyCode::Enter)), Command::Login);
    assert_eq!(handle_key(&mut c, code(KeyCode::Tab)), Command::Nothing);
    assert_eq!(handle_key(&mut c, code(KeyCode::Esc)), Command::Quit);
}

#[test]
fn a_running_sync_takes_only_escape() {
    let mut c = new_core();
    assert!(c.begin_sync());
    assert!(!c.begin_sync());
    assert_eq!(handle_key(&mut c, key('Q')), Command::Nothing);
    assert_eq!(handle_key(&mut c, key('2')), Command::Nothing);
    assert_eq!(handle_key(&mut c, code(KeyCode::Esc)), Command::CancelSync);
    assert!(!c.is_syncing);
}

#[test]
fn other_panels_move_their_cursors() {
    let mut c = new_core();
    c.add_log("t".to_string(), "a", "1");
    c.add_log("t".to_string(), "b", "2");
    handle_key(&mut c, key('@'));
    assert!(c.active_panel == ActivePanel::Log);
    assert_eq!(handle_key(&mut c, key('k')), Command::LogUp);
    assert_eq!(c.log_cursor, 0);
    assert_eq!(handle_key(&mut c, key('j')), Command::LogDown);
    assert_eq!(c.log_cursor, 1);
    handle_key(&mut c, code(KeyCode::Tab));
    assert!(c.active_panel == ActivePanel::Detail);
    assert_eq!(handle_key(&mut c, key('j')), Command::DtDown);
    assert_eq!(c.detail_cursor, 0); // no detail shown
    // Commands that need the outside world change nothing here.
    handle_key(&mut c, key('2'));
    assert_eq!(handle_key(&mut c, key('j')), Command::FtDown);
    assert_eq!(c.filetree.selected, 0);
}

#[test]
fn screen_state_and_quit() {
    assert!(!UiState::new().is_scope_expanded);
    assert!(Quit::new(true).no_cwd_file);
    assert!(!Quit::new(false).no_cwd_file);
}

#[test]
fn info_overlay_keys() {
    let mut c = new_core();
    c.virtual_root_history = vec!["/ws/src".to_string(), "/ws/lib".to_string()];
    assert_eq!(handle_key(&mut c, key('1')), Command::Panel(ActivePanel::Scope));
    c.info_focus = InfoFocus::Details;
    assert_eq!(handle_key(&mut c, code(KeyCode::Enter)), Command::OpenInfo);
    assert!(c.is_info_overlay_open);
    assert!(c.info_focus == InfoFocus::Roots);
    // Folded, the roots list holds the client root alone.
    assert_eq!(handle_key(&mut c, key('j')), Command::InfoDown);
    assert_eq!(c.info_roots_cursor, 0);
    assert_eq!(handle_key(&mut c, key('l')), Command::ExpandRoots);
    assert!(c.is_roots_expanded);
    for _ in 0..3 {
        assert_eq!(handle_key(&mut c, key('j')), Command::InfoDown);
    }
    assert_eq!(c.info_roots_cursor, 2);
    assert_eq!(handle_key(&mut c, key('k')), Command::InfoUp);
    assert_eq!(c.info_roots_cursor, 1);
    assert_eq!(handle_key(&mut c, key('y')), Command::Nothing);
    assert_eq!(handle_key(&mut c, key('Q')), Command::Nothing);
    assert_eq!(handle_key(&mut c, code(KeyCode::Enter)), Command::InfoEnter);
    assert_eq!(handle_key(&mut c, key('h')), Command::CollapseRoots);
    assert!(!c.is_roots_expanded);
    assert_eq!(c.info_roots_cursor, 0);
    assert_eq!(handle_key(&mut c, code(KeyCode::Tab)), Command::ToggleInfoFocus);
    assert!(c.info_focus == InfoFocus::Details);
    c.set_info_details(&CommandRun::Finished {
        success: true,
        stdout: "User name: alice\nClient root: /ws\n".to_string(),
        stderr: String::new(),
    });
    assert_eq!(handle_key(&mut c, key('j')), Command::InfoDown);
    assert_eq!(handle_key(&mut c, key('j')), Command::InfoDown);
    assert_eq!(c.info_details_cursor, 1);
    assert_eq!(handle_key(&mut c, key('k')), Command::InfoUp);
    assert_eq!(handle_key(&mut c, key('k')), Command::InfoUp);
    assert_eq!(c.info_details_cursor, 0);
    assert_eq!(handle_key(&mut c, key('l')), Command::Nothing);
    assert_eq!(handle_key(&mut c, code(KeyCode::Enter)), Command::Nothing);
    assert_eq!(handle_key(&mut c, key('y')), Command::InfoCopy);
    assert_eq!(c.info_copy_value().as_deref(), Some("alice"));
    assert_eq!(handle_key(&mut c, code(KeyCode::Tab)), Command::ToggleInfoFocus);
    assert!(c.info_focus == InfoFocus::Roots);
    assert_eq!(handle_key(&mut c, code(KeyCode::Esc)), Command::CloseInfo);
    assert!(!c.is_info_overlay_open);
    assert!(c.active_panel == ActivePanel::Scope);
}
