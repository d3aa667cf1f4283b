use pier::changelist::{ChangeListDetail, ChangeListFile, ChangeListItem};
use pier::command::CommandRun;
use pier::detail::FileDetail;
use pier::filetree::{FileItem, FileP4Status, FileTree};
use pier::info::P4Info;
use pier::state::{changelist_refresh_due, ids_contain, jump_target, p4_output_log_text, ActivePanel, ClExpand, ClTarget, Core, LogItem, SubmitFocus, MAX_LOGS};

fn finished(stdout: &str) -> CommandRun {
    CommandRun::Finished { success: true, stdout: stdout.to_string(), stderr: String::new() }
}

fn item(name: &str, path: &str, is_dir: bool) -> FileItem {
    FileItem { name: name.to_string(), path: path.to_string(), is_dir, p4_status: FileP4Status::NotOpened }
}

fn info(needs_login: bool) -> P4Info {
    P4Info {
        client_root: "/ws".to_string(),
        user: "alice".to_string(),
        server: "ssl:p4:1666".to_string(),
        needs_login,
    }
}

fn tree() -> FileTree {
    FileTree::new(
        "/ws".to_string(),
        vec![item("b.txt", "/ws/b.txt", false), item("src", "/ws/src", true), item("a.txt", "/ws/a.txt", false)],
        vec![item("ws", "/ws", true), item("other", "/other", true), item("top.txt", "/top.txt", false)],
    )
}

fn cl(id: &str, details: Option<ChangeListDetail>) -> ChangeListItem {
    ChangeListItem {
        id: id.to_string(),
        author: "bob".to_string(),
        time: "05/11 16:33".to_string(),
        description: "msg".to_string(),
        details,
    }
}

fn file(path: &str) -> ChangeListFile {
    ChangeListFile { path: path.to_string(), revision: "#1".to_string(), action: "edit".to_string() }
}

fn two_files() -> ChangeListDetail {
    ChangeListDetail {
        full_description: vec!["msg".to_string()],
        files: vec![file("//depot/x.c"), file("//depot/y.c")],
    }
}

fn core_with(cls: Vec<ChangeListItem>) -> Core {
    Core::new(info(false), Ok(cls), Vec::new(), tree()).ok().unwrap()
}

fn detail() -> FileDetail {
    FileDetail {
        filename: "a.txt".to_string(),
        filesize: "1.0 KB".to_string(),
        depot_path: ".../main/".to_string(),
        revision: "#1/2".to_string(),
        date_modified: "05/11 16:33".to_string(),
        changelist: "12".to_string(),
        action: "edit".to_string(),
        latest_user: "bob".to_string(),
        checkout_by: "You".to_string(),
    }
}

#[test]
fn core_starts_on_the_file_tree() {
    let logs = vec![
        LogItem { time: "t".to_string(), command: "c".to_string(), output: "o".to_string() },
        LogItem { time: "t2".to_string(), command: "c2".to_string(), output: "o2".to_string() },
    ];
    let c = Core::new(info(false), Ok(vec![cl("1", None)]), logs, tree()).ok().unwrap();
    assert!(c.active_panel == ActivePanel::FileTree);
    assert_eq!(c.client_root, "/ws");
    assert_eq!(c.changelists.len(), 1);
    assert_eq!(c.log_cursor, 1);
    assert!(c.is_pending_expanded);
    assert!(!c.is_login_overlay_open);
    assert_eq!(c.login_info, "Your session has expired, please login again");
    assert_eq!(c.login_user, "alice");
    assert_eq!(c.login_server, "ssl:p4:1666");
    assert!(c.submit_focus == SubmitFocus::Description);
    assert_eq!(c.filetree.files.iter().map(|f| f.name.as_str()).collect::<Vec<_>>(), vec!["src", "a.txt", "b.txt"]);
    assert_eq!(c.filetree.parent_files.iter().map(|f| f.name.as_str()).collect::<Vec<_>>(), vec!["other", "ws", "top.txt"]);
    assert_eq!(c.filetree.parent_selected, 1);
}

#[test]
fn core_start_with_fetch_errors() {
    let c = Core::new(info(false), Err("Your session has expired, please login again.".to_string()), Vec::new(), tree()).ok().unwrap();
    assert!(c.is_login_overlay_open);
    assert!(c.changelists.is_empty());
    let c = Core::new(info(false), Err("Perforce password (P4PASSWD) invalid".to_string()), Vec::new(), tree()).ok().unwrap();
    assert!(c.is_login_overlay_open);
    let c = Core::new(info(true), Err("connect failed".to_string()), Vec::new(), tree()).ok().unwrap();
    assert!(c.is_login_overlay_open);
    match Core::new(info(false), Err("connect failed".to_string()), Vec::new(), tree()) {
        Err(e) => assert_eq!(e, "connect failed"),
        Ok(_) => panic!("expected an error"),
    }
    assert_eq!(Core::new(info(false), Ok(Vec::new()), Vec::new(), tree()).ok().unwrap().log_cursor, 0);
}

#[test]
fn log_keeps_the_last_hundred() {
    let mut c = core_with(Vec::new());
    for i in 0..(MAX_LOGS + 5) {
        c.add_log(format!("t{}", i), "cmd", &format!("out{}", i));
        assert_eq!(c.log_cursor, c.logs.len() - 1);
    }
    assert_eq!(c.logs.len(), 100);
    assert_eq!(c.logs[0].output, "out5");
    assert_eq!(c.logs[99].output, "out104");
    assert_eq!(c.logs[99].time, "t104");
    assert_eq!(c.log_cursor, 99);
    c.log_move_down();
    assert_eq!(c.log_cursor, 99);
    c.log_move_up();
    assert_eq!(c.log_cursor, 98);
}

#[test]
fn p4_output_is_logged() {
    assert_eq!(p4_output_log_text(&finished("ok")), "ok");
    let with_err = CommandRun::Finished { success: false, stdout: "ok".to_string(), stderr: "bad".to_string() };
    assert_eq!(p4_output_log_text(&with_err), "ok\nERROR: bad");
    assert_eq!(p4_output_log_text(&CommandRun::Failed("no p4".to_string())), "Execution failed: no p4");
    let mut c = core_with(Vec::new());
    c.handle_p4_output("12:00:00 01/02".to_string(), "p4 edit", &with_err);
    assert_eq!(c.logs.len(), 1);
    assert_eq!(c.logs[0].command, "p4 edit");
    assert_eq!(c.logs[0].output, "ok\nERROR: bad");
    assert_eq!(c.logs[0].time, "12:00:00 01/02");
}

#[test]
fn changelist_rows_follow_unfolding() {
    let mut c = core_with(vec![cl("3", None), cl("2", Some(two_files())), cl("1", None)]);
    assert_eq!(c.get_cl_selectable_count(), 3);
    c.cl_move_down();
    assert_eq!(c.cl_cursor, 1);
    match c.cl_expand() {
        ClExpand::Expanded => {}
        other => panic!("unexpected {:?}", other),
    }
    assert!(c.is_expanded(&"2".to_string()));
    assert!(ids_contain(&c.expanded_ids, &"2".to_string()));
    assert_eq!(c.get_cl_selectable_count(), 5);
    match c.get_cl_target_at(2) {
        Some(ClTarget::File(id, p)) => {
            assert_eq!(id, "2");
            assert_eq!(p, "//depot/x.c");
        }
        _ => panic!("expected a file row"),
    }
    match c.get_cl_target_at(4) {
        Some(ClTarget::Id(id)) => assert_eq!(id, "1"),
        _ => panic!("expected a changelist row"),
    }
    assert!(c.get_cl_target_at(5).is_none());
    // Unfolding again changes nothing.
    match c.cl_expand() {
        ClExpand::Unchanged => {}
        other => panic!("unexpected {:?}", other),
    }
    c.cl_move_down();
    c.cl_move_down();
    assert_eq!(c.cl_cursor, 3);
    c.cl_collapse();
    assert!(!c.is_expanded(&"2".to_string()));
    assert_eq!(c.cl_cursor, 1);
    assert_eq!(c.get_cl_selectable_count(), 3);
    for _ in 0..10 {
        c.cl_move_down();
    }
    assert_eq!(c.cl_cursor, 2);
    for _ in 0..10 {
        c.cl_move_up();
    }
    assert_eq!(c.cl_cursor, 0);
}

#[test]
fn unfolding_a_changelist_without_files_asks_for_them() {
    let mut c = core_with(vec![cl("3", None), cl("2", None)]);
    match c.cl_expand() {
        ClExpand::NeedsDetail(id) => assert_eq!(id, "3"),
        other => panic!("unexpected {:?}", other),
    }
    c.set_cl_details(&"3".to_string(), two_files());
    assert_eq!(c.changelists[0].details.as_ref().unwrap().files.len(), 2);
    // Known files are not replaced.
    c.set_cl_details(&"3".to_string(), ChangeListDetail { full_description: Vec::new(), files: Vec::new() });
    assert_eq!(c.changelists[0].details.as_ref().unwrap().files.len(), 2);
    assert_eq!(c.get_cl_selectable_count(), 4);
}

#[test]
fn synced_change_is_detected() {
    let mut c = core_with(vec![cl("3", None), cl("2", None), cl("1", None)]);
    c.detect_synced_change(&finished("Change 2 on 2023/05/11 by x@y 'msg'\n"));
    assert_eq!(c.synced_change_id.as_deref(), Some("2"));
    assert_eq!(c.cl_cursor, 1);
    c.detect_synced_change(&finished("Change 9 on 2023/05/11 by x@y 'msg'\n"));
    assert_eq!(c.synced_change_id.as_deref(), Some("9"));
    assert_eq!(c.cl_cursor, 1);
    c.detect_synced_change(&finished("Change\n"));
    assert_eq!(c.synced_change_id.as_deref(), Some("9"));
    c.detect_synced_change(&CommandRun::Failed("x".to_string()));
    assert_eq!(c.synced_change_id.as_deref(), Some("9"));
}

#[test]
fn pending_files_are_read_from_opened() {
    let mut c = core_with(Vec::new());
    let out = "//depot/a.txt#3 - edit default change (text)\n\
               //depot/b.txt#1 - add change 12 (binary) - extra\n\
               no dash line\n\
               //depot/nohash - edit x\n";
    c.update_pending_files(&finished(out));
    assert_eq!(c.pending_files.len(), 2);
    assert_eq!(c.pending_files[0].path, "//depot/a.txt");
    assert_eq!(c.pending_files[0].revision, "#3");
    assert_eq!(c.pending_files[0].action, "edit");
    assert_eq!(c.pending_files[1].path, "//depot/b.txt");
    assert_eq!(c.pending_files[1].action, "add");
    // Pending panel cursor: header plus two files.
    for _ in 0..5 {
        c.pd_move_down();
    }
    assert_eq!(c.pending_cursor, 2);
    assert_eq!(c.pd_revert_target().as_deref(), Some("//depot/b.txt"));
    c.pd_expand();
    c.pd_collapse();
    assert!(!c.is_pending_expanded);
    assert_eq!(c.pending_cursor, 0);
    assert!(c.pd_revert_target().is_none());
    c.pd_move_down();
    assert_eq!(c.pending_cursor, 0);
    c.pd_expand();
    assert!(c.is_pending_expanded);

    let login = CommandRun::Finished { success: false, stdout: String::new(), stderr: "Your session has expired, please login again.".to_string() };
    c.update_pending_files(&login);
    assert!(c.pending_files.is_empty());
    assert!(c.is_login_overlay_open);
}

#[test]
fn revert_cursor_is_clamped() {
    let mut c = core_with(Vec::new());
    c.update_pending_files(&finished("//depot/a.txt#3 - edit default change (text)\n//depot/b.txt#1 - add x\n"));
    c.pd_move_down();
    c.pd_move_down();
    c.update_pending_files(&finished("//depot/a.txt#3 - edit default change (text)\n"));
    c.pd_clamp_after_revert();
    assert_eq!(c.pending_cursor, 1);
}

#[test]
fn statuses_land_on_the_files_shown() {
    let mut c = core_with(Vec::new());
    let paths = c.status_paths().unwrap();
    assert_eq!(paths, vec!["/ws/a.txt".to_string(), "/ws/b.txt".to_string(), "/top.txt".to_string()]);
    c.update_file_p4_statuses(&vec![("/ws/a.txt".to_string(), FileP4Status::Edit), ("/top.txt".to_string(), FileP4Status::Add)]);
    assert_eq!(c.filetree.files[0].p4_status, FileP4Status::NotOpened); // the directory keeps its own
    assert_eq!(c.filetree.files[1].p4_status, FileP4Status::Edit);
    assert_eq!(c.filetree.files[2].p4_status, FileP4Status::Untracked);
    assert_eq!(c.filetree.parent_files[2].p4_status, FileP4Status::Add);
    c.is_login_overlay_open = true;
    assert!(c.status_paths().is_none());
}

#[test]
fn detail_cursor_and_copy() {
    let mut c = core_with(Vec::new());
    c.dt_move_down();
    assert_eq!(c.detail_cursor, 0);
    assert!(c.dt_copy_selected().is_none());
    c.apply_detail(Ok(detail()));
    assert!(c.detail_error.is_none());
    assert_eq!(c.dt_copy_selected().as_deref(), Some("a.txt"));
    for _ in 0..20 {
        c.dt_move_down();
    }
    assert_eq!(c.detail_cursor, 8);
    assert_eq!(c.dt_copy_selected().as_deref(), Some("You"));
    c.dt_move_up();
    assert_eq!(c.dt_copy_selected().as_deref(), Some("bob"));
    c.apply_detail(Err("Not a Perforce-managed object".to_string()));
    assert!(c.current_detail.is_none());
    assert_eq!(c.detail_error.as_deref(), Some("Not a Perforce-managed object"));
}

#[test]
fn file_cursor_and_targets() {
    let mut c = core_with(Vec::new());
    assert!(c.ft_p4_target().is_none()); // the cursor is on a directory
    assert_eq!(c.update_detail().as_deref(), Some("/ws/src"));
    assert_eq!(c.ft_move_down().as_deref(), Some("/ws/a.txt"));
    assert_eq!(c.ft_p4_target().as_deref(), Some("/ws/a.txt"));
    c.ft_move_down();
    c.ft_move_down();
    assert_eq!(c.filetree.selected, 2);
    assert_eq!(c.ft_move_up().as_deref(), Some("/ws/a.txt"));
    c.filetree.selected = 7;
    c.ft_clamp_after_delete();
    assert_eq!(c.filetree.selected, 2);
    c.is_login_overlay_open = true;
    assert!(c.update_detail().is_none());
}

#[test]
fn entering_and_leaving_directories() {
    let mut c = core_with(Vec::new());
    c.pending_cursor = 2;
    c.ft_enter_dir(vec![item("m.rs", "/ws/src/m.rs", false)], vec![item("src", "/ws/src", true), item("a.txt", "/ws/a.txt", false)]);
    assert_eq!(c.filetree.current_path, "/ws/src");
    assert_eq!(c.filetree.selected, 0);
    assert_eq!(c.filetree.parent_selected, 0);
    assert_eq!(c.pending_cursor, 0);
    c.ft_leave_dir(vec![item("a.txt", "/ws/a.txt", false), item("src", "/ws/src", true)], vec![item("ws", "/ws", true)]);
    assert_eq!(c.filetree.current_path, "/ws");
    assert_eq!(c.filetree.files[0].name, "src");
    assert_eq!(c.filetree.selected, 0);
}

#[test]
fn jumping_to_a_file() {
    let mut c = core_with(Vec::new());
    c.active_panel = ActivePanel::ChangeList;
    assert_eq!(jump_target("/ws/src/m.rs"), "/ws/src");
    assert_eq!(jump_target("/"), "/");
    let (found, fetch) = c.jump_to_file(
        "/ws/src/m.rs",
        vec![item("z.rs", "/ws/src/z.rs", false), item("m.rs", "/ws/src/m.rs", false)],
        vec![item("src", "/ws/src", true)],
    );
    assert!(found);
    assert_eq!(fetch.as_deref(), Some("/ws/src/m.rs"));
    assert_eq!(c.filetree.current_path, "/ws/src");
    assert_eq!(c.filetree.selected, 0);
    assert!(c.active_panel == ActivePanel::FileTree);
    c.active_panel = ActivePanel::ChangeList;
    let (found, fetch) = c.jump_to_file("/ws/gone.rs", vec![item("a.txt", "/ws/a.txt", false)], Vec::new());
    assert!(!found);
    assert!(fetch.is_none());
    assert!(c.active_panel == ActivePanel::ChangeList);
}

#[test]
fn where_output_gives_the_local_path() {
    let c = core_with(Vec::new());
    let out = finished("//depot/a.txt //ws1/a.txt /home/alice/ws/a.txt\n");
    assert_eq!(c.cl_get_local_path(&out).as_deref(), Some("/home/alice/ws/a.txt"));
    assert!(c.cl_get_local_path(&finished("//depot/a.txt //ws1/a.txt\n")).is_none());
    let failed = CommandRun::Finished { success: false, stdout: "a b c".to_string(), stderr: String::new() };
    assert!(c.cl_get_local_path(&failed).is_none());
    assert!(c.cl_get_local_path(&CommandRun::Failed("x".to_string())).is_none());
}

#[test]
fn submit_flow() {
    let mut c = core_with(vec![cl("1", None)]);
    c.submit_description = "  \n ".to_string();
    assert!(!c.submit_check("t".to_string()));
    assert_eq!(c.logs.last().unwrap().command, "p4 submit");
    assert_eq!(c.logs.last().unwrap().output, "Error: Description cannot be empty");
    c.submit_description = "Fix".to_string();
    c.is_submit_overlay_open = true;
    let logs_before = c.logs.len();
    assert!(c.submit_check("t".to_string()));
    assert_eq!(c.logs.len(), logs_before);
    c.expanded_ids.push("1".to_string());
    c.cl_cursor = 0;
    c.finish_submit("t".to_string(), &finished("Change 5 submitted."), Ok(vec![cl("5", None), cl("1", None)]));
    assert!(!c.is_submit_overlay_open);
    assert!(c.submit_description.is_empty());
    assert_eq!(c.changelists.len(), 2);
    assert!(c.expanded_ids.is_empty());
    assert_eq!(c.logs.last().unwrap().output, "Change 5 submitted.");
    c.finish_submit("t".to_string(), &finished("x"), Err("offline".to_string()));
    assert_eq!(c.changelists.len(), 2);
}

#[test]
fn login_flow() {
    let mut c = Core::new(info(true), Ok(Vec::new()), Vec::new(), tree()).ok().unwrap();
    assert!(c.is_login_overlay_open);
    c.login_password = "secret".to_string();
    assert!(!c.p4_login("t".to_string(), "Password invalid.", "err"));
    assert_eq!(c.login_info, "Password Invalid");
    assert!(c.is_login_overlay_open);
    assert_eq!(c.logs.last().unwrap().command, "p4 login");
    assert_eq!(c.logs.last().unwrap().output, "Password invalid.\nerr");
    assert!(c.p4_login("t".to_string(), "User alice logged in.", ""));
    assert!(!c.is_login_overlay_open);
    assert!(c.login_password.is_empty());
    assert_eq!(c.logs.last().unwrap().output, "User alice logged in.\n");
}

#[test]
fn refreshed_changelists_replace_the_list() {
    let mut c = core_with(vec![cl("1", None)]);
    c.refresh_changelists(Err("x".to_string()));
    assert_eq!(c.changelists.len(), 1);
    c.refresh_changelists(Ok(vec![cl("2", None), cl("1", None)]));
    assert_eq!(c.changelists[0].id, "2");
}

#[test]
fn virtual_roots_toggle_and_are_remembered() {
    let mut c = core_with(vec![cl("1", None)]);
    let dir_idx = c.filetree.files.iter().position(|f| f.is_dir).unwrap();
    let file_idx = c.filetree.files.iter().position(|f| !f.is_dir).unwrap();
    c.filetree.selected = file_idx;
    assert!(!c.toggle_virtual_root());
    assert!(c.virtual_root.is_none());
    assert!(c.virtual_root_history.is_empty());
    c.filetree.selected = dir_idx;
    assert!(c.toggle_virtual_root());
    assert_eq!(c.virtual_root.as_deref(), Some("/ws/src"));
    assert_eq!(c.virtual_root_history, vec!["/ws/src".to_string()]);
    assert!(c.toggle_virtual_root());
    assert!(c.virtual_root.is_none());
    assert_eq!(c.virtual_root_history, vec!["/ws/src".to_string()]);
    assert!(c.toggle_virtual_root());
    assert_eq!(c.virtual_root.as_deref(), Some("/ws/src"));
    assert_eq!(c.virtual_root_history, vec!["/ws/src".to_string()]);
    c.virtual_root = Some("/ws/src/".to_string());
    assert!(c.toggle_virtual_root());
    assert!(c.virtual_root.is_none());

    c.expanded_ids.push("1".to_string());
    c.reset_changelists(Err("p4 died".to_string()));
    assert_eq!(c.changelists.len(), 1);
    assert_eq!(c.expanded_ids, vec!["1".to_string()]);
    c.reset_changelists(Ok(vec![cl("5", None), cl("6", None)]));
    assert_eq!(c.changelists.iter().map(|x| x.id.clone()).collect::<Vec<_>>(), vec!["5", "6"]);
    assert_eq!(c.cl_cursor, 0);
    assert!(c.expanded_ids.is_empty());
}

#[test]
fn info_overlay_switches_roots() {
    let mut c = core_with(Vec::new());
    c.virtual_root_history = vec!["/ws/src".to_string()];
    c.is_info_overlay_open = true;
    c.info_roots_cursor = 1;
    assert_eq!(c.info_enter().as_deref(), Some("/ws/src"));
    assert_eq!(c.virtual_root.as_deref(), Some("/ws/src"));
    assert!(!c.is_info_overlay_open);
    c.filetree.selected = 2;
    c.enter_path(
        "/ws/src".to_string(),
        vec![item("y.c", "/ws/src/y.c", false), item("x.c", "/ws/src/x.c", false)],
        vec![item("src", "/ws/src", true), item("b.txt", "/ws/b.txt", false)],
    );
    assert_eq!(c.filetree.current_path, "/ws/src");
    assert_eq!(c.filetree.selected, 0);
    assert_eq!(c.filetree.files.iter().map(|f| f.name.clone()).collect::<Vec<_>>(), vec!["x.c", "y.c"]);
    assert_eq!(c.filetree.parent_files.len(), 2);

    c.is_info_overlay_open = true;
    c.info_roots_cursor = 0;
    assert_eq!(c.info_enter().as_deref(), Some("/ws"));
    assert!(c.virtual_root.is_none());
    assert!(!c.is_info_overlay_open);

    c.is_info_overlay_open = true;
    c.info_roots_cursor = 2;
    assert_eq!(c.info_enter(), None);
    assert!(c.is_info_overlay_open);
    assert!(c.virtual_root.is_none());
}

#[test]
fn info_details_come_from_p4_info() {
    let mut c = core_with(Vec::new());
    c.set_info_details(&finished("User name: alice\nClient root: /ws\nServer uptime: 01:02:03\nnothing here\n"));
    assert_eq!(
        c.info_details,
        vec![
            ("User name".to_string(), "alice".to_string()),
            ("Client root".to_string(), "/ws".to_string()),
            ("Server uptime".to_string(), "01:02:03".to_string()),
        ]
    );
    c.info_details_cursor = 2;
    assert_eq!(c.info_copy_value().as_deref(), Some("01:02:03"));
    c.info_details_cursor = 3;
    assert_eq!(c.info_copy_value(), None);
    c.set_info_details(&CommandRun::Failed("no p4".to_string()));
    assert!(c.info_details.is_empty());
}

#[test]
fn changelists_refresh_once_a_minute() {
    assert!(!changelist_refresh_due(0));
    assert!(!changelist_refresh_due(59_999));
    assert!(changelist_refresh_due(60_000));
    assert!(changelist_refresh_due(3_600_000));
}
