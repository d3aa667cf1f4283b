use pier::changelist::{ChangeListDetail, ChangeListFile, ChangeListItem};
use pier::detail::FileDetail;
use pier::filetree::{FileItem, FileP4Status, FileTree};
use pier::info::P4Info;
use pier::state::{ActivePanel, Core, LogItem};
use pier::sync::{SyncFileInfo, SyncFileStatus};
use pier::view::{
    action_icon, changelist_view, checkout_header, description_title, detail_error_text, detail_rows,
    domain_text, entry_icon, file_row, footer_line, info_detail_row, info_details_height, log_lines, log_scroll_offset, login_row,
    masked, parent_icon, root_in_use, root_path_column, shows_status_bar, sync_rows, ClLine, EntryIcon,
};

// The footer as the panel composes it.
fn footer_reference(panel: ActivePanel, total_width: usize) -> String {
    let left_hints = match panel {
        ActivePanel::Scope => "[Enter] p4 info",
        ActivePanel::FileTree => "[c] checkout | [a] add | [d] delete | [r] revert",
        ActivePanel::Pending => "[S] submit | [r] revert",
        ActivePanel::ChangeList => "[s] fetch & sync | [f] fetch | [g] sync to selected | [F] show in filetree",
        ActivePanel::Detail => "[y] copy to clipboard",
        _ => "",
    };
    let right_fixed = "[Q] quit | [?] keybind | ver 0.0.1";
    let right_width = right_fixed.chars().count();
    if total_width > right_width + 5 {
        let avail_left = total_width.saturating_sub(right_width).saturating_sub(2);
        let left_part = if left_hints.chars().count() > avail_left {
            let mut s: String = left_hints.chars().take(avail_left.saturating_sub(3)).collect();
            s.push_str("...");
            s
        } else {
            left_hints.to_string()
        };
        let spacing = total_width.saturating_sub(left_part.chars().count()).saturating_sub(right_width);
        format!("{}{}{}", left_part, " ".repeat(spacing), right_fixed)
    } else {
        right_fixed.to_string()
    }
}

#[test]
fn footer_matches_the_panel_layout() {
    let panels = [
        ActivePanel::Scope,
        ActivePanel::FileTree,
        ActivePanel::Pending,
        ActivePanel::ChangeList,
        ActivePanel::Detail,
        ActivePanel::Log,
    ];
    for p in panels.iter() {
        for w in 0..160usize {
            assert_eq!(footer_line(*p, w), footer_reference(*p, w), "width {}", w);
        }
    }
    assert_eq!(footer_line(ActivePanel::Log, 10), "[Q] quit | [?] keybind | ver 0.0.1");
    assert_eq!(footer_line(ActivePanel::Detail, 60), "[y] copy to clipboard     [Q] quit | [?] keybind | ver 0.0.1");
}

#[test]
fn log_lines_and_scroll() {
    let logs = vec![
        LogItem { time: "10:00:00 01/02".to_string(), command: "p4 edit".to_string(), output: "a\nb\r\n".to_string() },
        LogItem { time: "t".to_string(), command: "c".to_string(), output: String::new() },
        LogItem { time: "u".to_string(), command: "d".to_string(), output: "x".to_string() },
    ];
    assert_eq!(log_lines(&logs[0]), vec!["[10:00:00 01/02]", "> p4 edit", "  a", "  b", ""]);
    assert_eq!(log_lines(&logs[1]), vec!["[t]", "> c", ""]);
    assert_eq!(log_scroll_offset(&logs, 0), 0);
    assert_eq!(log_scroll_offset(&logs, 1), 5);
    assert_eq!(log_scroll_offset(&logs, 2), 8);
    assert_eq!(log_scroll_offset(&logs, 9), 12);
}

fn detail() -> FileDetail {
    FileDetail {
        filename: "a.txt".to_string(),
        filesize: "1.0 KB".to_string(),
        depot_path: ".../main/".to_string(),
        revision: "#1/2".to_string(),
        date_modified: "05/11 16:33".to_string(),
        changelist: "12".to_string(),
        action: "edit".to_string(),
        latest_user: "bøb".to_string(),
        checkout_by: "  bob ".to_string(),
    }
}

#[test]
fn detail_rows_pad_values_to_the_right() {
    let d = detail();
    let rows = detail_rows(&d, 30, true, 1);
    assert_eq!(rows.len(), 8);
    assert_eq!(rows[0], format!("  FileName {}a.txt", " ".repeat(30 - 8 - 5)));
    assert_eq!(rows[1], format!("> FileSize {}1.0 KB", " ".repeat(30 - 8 - 6)));
    // Padding counts bytes: "bøb" takes four.
    assert_eq!(rows[7], format!("  LatestUser {}bøb", " ".repeat(30 - 10 - 4)));
    let narrow = detail_rows(&d, 3, false, 1);
    assert_eq!(narrow[4], "  DateModified 05/11 16:33");
    let (head, rule) = checkout_header(&d, 20).unwrap();
    assert_eq!(head, format!("  CheckoutBy:{}bob", " ".repeat(20 - 11 - 3)));
    assert_eq!(rule, format!("  {}", "\u{2500}".repeat(20)));
    let mut nobody = detail();
    nobody.checkout_by = " \t".to_string();
    assert!(checkout_header(&nobody, 20).is_none());
    assert_eq!(detail_error_text("error: Not a Perforce-managed object here"), "Not a Perforce-managed object");
    assert_eq!(detail_error_text("p4 died"), "p4 died");
}

#[test]
fn domain_line_shortens_the_root() {
    assert_eq!(domain_text("/home/alice/ws", false, 40), "Client Root: /home/alice/ws");
    assert_eq!(domain_text("/home/alice/workspace", false, 26), "Client Root: .../workspace");
    assert_eq!(domain_text("/home/alice/workspace", false, 25), "Client Root: .../workspac");
    assert_eq!(domain_text("/home/alice/workspace", false, 20), "Client Root: .../wor");
    assert_eq!(domain_text("/home/alice/ws", false, 15), "");
    assert_eq!(domain_text("/", false, 16), "Client Root: /");
    assert_eq!(domain_text("/home/alice/ws/src", true, 40), "Virtual Root: /home/alice/ws/src");
    assert_eq!(domain_text("/home/alice/ws/src", true, 22), "Virtual Root: .../src");
    assert_eq!(domain_text("/home/alice/ws/src", true, 18), "Virtual Root: .../");
}

#[test]
fn virtual_root_icon_and_info_rows() {
    let dir = |p: &str| FileItem { name: "d".to_string(), path: p.to_string(), is_dir: true, p4_status: FileP4Status::NotOpened };
    assert_eq!(entry_icon(&dir("/ws/src"), false, "/ws", Some("/ws/src")), EntryIcon::VirtualRoot);
    assert_eq!(entry_icon(&dir("/ws/src"), true, "/ws", Some("/ws/src/")), EntryIcon::VirtualRoot);
    assert_eq!(entry_icon(&dir("/ws/lib"), false, "/ws", Some("/ws/src")), EntryIcon::Folder);
    assert_eq!(entry_icon(&dir("/ws"), false, "/ws", Some("/ws")), EntryIcon::ClientRoot);
    assert_eq!(
        info_detail_row("User name", "alice", 40),
        format!(" {:<20} {:>14}", "User name:", "alice")
    );
    assert_eq!(
        info_detail_row("Client root", "/home/alice/workspace", 30),
        format!(" {:<20} {}", "Client root:", "/home/alice/workspace")
    );
    assert_eq!(root_path_column("/ws", true, 35), format!("   {:>8}", "/ws"));
    assert_eq!(root_path_column("/ws/src", false, 45), format!("    {:>12}", "/ws/src"));
    assert_eq!(root_path_column("/ws/src", false, 20), "    /ws/src");
    assert!(root_in_use(None, "/ws", true));
    assert!(!root_in_use(Some("/ws/src"), "/ws", true));
    assert!(root_in_use(Some("/ws/src"), "/ws/src/", false));
    assert!(!root_in_use(Some("/ws/src"), "/ws/lib", false));
    assert!(!root_in_use(None, "/ws/src", false));
}

#[test]
fn login_rows_and_masks() {
    assert_eq!(login_row("user", "alice", 20), format!(" user{}alice ", " ".repeat(20 - 4 - 5 - 2)));
    assert_eq!(login_row("target server", "a-very-long-server-name", 10), " target servera-very-long-server-name ");
    assert_eq!(masked("pässword"), "*********");
    assert_eq!(description_title("Fix ü"), "\u{2500}Description (6) ");
}

#[test]
fn entry_icons() {
    let dir = |p: &str| FileItem { name: "d".to_string(), path: p.to_string(), is_dir: true, p4_status: FileP4Status::NotOpened };
    let file = |s: FileP4Status| FileItem { name: "f".to_string(), path: "/ws/f".to_string(), is_dir: false, p4_status: s };
    assert_eq!(parent_icon(&dir("/ws"), "/ws"), EntryIcon::ClientRoot);
    assert_eq!(parent_icon(&dir("/ws/"), "/ws"), EntryIcon::ClientRoot);
    assert_eq!(parent_icon(&dir("/other"), "/ws"), EntryIcon::FolderOpen);
    assert_eq!(entry_icon(&dir("/other"), false, "/ws", None), EntryIcon::Folder);
    assert_eq!(entry_icon(&dir("/other"), true, "/ws", None), EntryIcon::FolderOpen);
    assert_eq!(entry_icon(&file(FileP4Status::Add), false, "/ws", None), EntryIcon::MarkAdd);
    assert_eq!(entry_icon(&file(FileP4Status::Edit), false, "/ws", None), EntryIcon::OwnEdit);
    assert_eq!(entry_icon(&file(FileP4Status::Delete), false, "/ws", None), EntryIcon::MarkDelete);
    assert_eq!(entry_icon(&file(FileP4Status::OtherCheckout), false, "/ws", None), EntryIcon::OtherCheckout);
    assert_eq!(entry_icon(&file(FileP4Status::Untracked), false, "/ws", None), EntryIcon::Untracked);
    assert_eq!(parent_icon(&file(FileP4Status::NotOpened), "/ws"), EntryIcon::FileDefault);
    assert!(shows_status_bar(&file(FileP4Status::Edit), false));
    assert!(!shows_status_bar(&file(FileP4Status::Edit), true));
    assert!(!shows_status_bar(&file(FileP4Status::Untracked), false));
    assert_eq!(action_icon("add"), EntryIcon::MarkAdd);
    assert_eq!(action_icon("edit"), EntryIcon::OwnEdit);
    assert_eq!(action_icon("delete"), EntryIcon::MarkDelete);
    assert_eq!(action_icon("integrate"), EntryIcon::FileDefault);
}

// A pending row as the panel composes it.
fn file_row_reference(icon: &str, path: &str, revision: &str, total_width: usize) -> (String, Option<String>) {
    let filename = std::path::Path::new(path)
        .file_name()
        .map(|n| n.to_string_lossy().to_string())
        .unwrap_or_else(|| path.to_string());
    let parent_path = std::path::Path::new(path)
        .parent()
        .map(|p| p.to_string_lossy().to_string())
        .unwrap_or_default();
    let display_path = parent_path.replacen("//depot", "...", 1);
    let left_content = format!("  {}{} {} ", " ", icon, filename);
    let right_content = format!("{}  {}/ ", revision, display_path);
    let left_len = left_content.chars().count();
    let right_len = right_content.chars().count();
    if total_width > left_len {
        let avail_right = total_width.saturating_sub(left_len);
        let final_right = if right_len > avail_right {
            format!("{}...", &right_content[..avail_right.saturating_sub(3)])
        } else {
            let padding = avail_right.saturating_sub(right_len);
            format!("{}{}", " ".repeat(padding), right_content)
        };
        (left_content, Some(final_right))
    } else {
        (left_content, None)
    }
}

#[test]
fn pending_rows_match_the_panel_layout() {
    for w in 0..70usize {
        assert_eq!(
            file_row("E", "//depot/main/src/lib.rs", "#4", w),
            Some(file_row_reference("E", "//depot/main/src/lib.rs", "#4", w)),
            "width {}",
            w
        );
    }
    // A cut inside a character is refused.
    assert_eq!(file_row("E", "//depot/ü/ü/x", "#1", 19), None);
    for w in [5usize, 7, 8, 12, 18, 20, 40].iter() {
        assert_eq!(file_row("E", "//depot/ü/ü/x", "#1", *w), Some(file_row_reference("E", "//depot/ü/ü/x", "#1", *w)), "width {}", w);
    }
}

#[test]
fn sync_rows_show_started_files() {
    let f = |d: &str, s: SyncFileStatus| SyncFileInfo {
        depot_path: d.to_string(),
        local_path: String::new(),
        size: 0,
        synced: 0,
        status: s,
        original_index: 0,
    };
    let files = vec![
        f("//depot/a/short.c", SyncFileStatus::Syncing),
        f("//depot/a/pending.c", SyncFileStatus::Pending),
        f("//depot/b/a_very_long_file_name.c", SyncFileStatus::Done),
        f("noslash", SyncFileStatus::Done),
    ];
    let rows = sync_rows(&files, 12);
    assert_eq!(rows.len(), 3);
    assert_eq!(rows[0], ("short.c     ".to_string(), SyncFileStatus::Syncing));
    assert_eq!(rows[1], ("a_very_lo...".to_string(), SyncFileStatus::Done));
    assert_eq!(rows[2], ("noslash     ".to_string(), SyncFileStatus::Done));
}

fn cl(id: &str, author: &str, details: Option<ChangeListDetail>) -> ChangeListItem {
    ChangeListItem {
        id: id.to_string(),
        author: author.to_string(),
        time: "05/11 16:33".to_string(),
        description: "msg".to_string(),
        details,
    }
}

#[test]
fn changelist_lines_and_cursor() {
    let info = P4Info { client_root: "/ws".to_string(), user: "a".to_string(), server: "s".to_string(), needs_login: false };
    let details = ChangeListDetail {
        full_description: vec!["Fix".to_string(), "more".to_string()],
        files: vec![
            ChangeListFile { path: "//depot/x.c".to_string(), revision: "#3".to_string(), action: "edit".to_string() },
            ChangeListFile { path: "//depot/a/very/long/path/name.c".to_string(), revision: "#1".to_string(), action: "add".to_string() },
        ],
    };
    let cls = vec![cl("12", "bob", None), cl("11", "carol", Some(details)), cl("9", "dave", None)];
    let mut c = Core::new(info, Ok(cls), Vec::new(), FileTree::new("/ws".to_string(), Vec::new(), Vec::new())).ok().unwrap();
    c.synced_change_id = Some("11".to_string());
    c.expanded_ids.push("11".to_string());
    c.cl_cursor = 3; // the second file of changelist 11
    let (lines, sel) = changelist_view(&c, 35, "H");
    assert_eq!(lines.len(), 8);
    match &lines[0] {
        ClLine::Head { symbol, id, rest, is_new } => {
            assert_eq!(symbol, " \u{f0e95}");
            assert_eq!(id, " 12 ");
            assert_eq!(rest, &format!("  bob{}05/11 16:33", " ".repeat(35 - 4 - 5 - 11)));
            assert!(*is_new);
        }
        _ => panic!("expected a head line"),
    }
    match &lines[1] {
        ClLine::Head { symbol, is_new, .. } => {
            assert_eq!(symbol, " H");
            assert!(!*is_new);
        }
        _ => panic!("expected a head line"),
    }
    match &lines[2] {
        ClLine::Note(t) => assert_eq!(t, "     Fix"),
        _ => panic!("expected a note"),
    }
    match &lines[4] {
        ClLine::Note(t) => assert_eq!(t, &format!("     {}", "\u{2500}".repeat(32))),
        _ => panic!("expected the rule"),
    }
    match &lines[5] {
        ClLine::File(t) => assert_eq!(t, &format!("      #3 | edit | {}.../x.c  ", " ".repeat(32 - 12 - 7))),
        _ => panic!("expected a file"),
    }
    match &lines[6] {
        ClLine::File(t) => assert_eq!(t, "      #1 | add | .../a/very/long/path/name.c "),
        _ => panic!("expected a file"),
    }
    match &lines[7] {
        ClLine::Head { symbol, is_new, .. } => {
            assert_eq!(symbol, "  ");
            assert!(!*is_new);
        }
        _ => panic!("expected a head line"),
    }
    assert_eq!(sel, 6);
    c.cl_cursor = 4;
    assert_eq!(changelist_view(&c, 35, "H").1, 7);
    c.cl_cursor = 9;
    assert_eq!(changelist_view(&c, 35, "H").1, 0);
}

#[test]
fn ascii_pending_rows_always_lay_out() {
    for w in 0..90usize {
        for p in ["//depot/a/b/c.txt", "//depot/x", "/", "", "rel/name", "//depot/very/long/path/to/some/deeply/nested/file.rs"] {
            let row = file_row("\u{f0208}", p, "#12", w);
            assert!(row.is_some(), "width {} path {}", w, p);
        }
    }
}

#[test]
fn info_list_height_is_clamped() {
    assert_eq!(info_details_height(0), 6);
    assert_eq!(info_details_height(4), 6);
    assert_eq!(info_details_height(5), 7);
    assert_eq!(info_details_height(15), 17);
    assert_eq!(info_details_height(40), 17);
    for n in 0..30usize {
        assert_eq!(info_details_height(n), (n + 2).clamp(6, 17) as u16);
    }
}
