use pier::changelist::{fetch_changelist_detail, fetch_changelists, parse_changes, parse_describe};
use pier::command::CommandRun;
use pier::info::detect_p4_info;
use pier::sync::parse_ztag_sync;
use pier::sync::SyncFileStatus;

fn finished(stdout: &str) -> CommandRun {
    CommandRun::Finished { success: true, stdout: stdout.to_string(), stderr: String::new() }
}

#[test]
fn changes_lines_become_items() {
    let out = "Change 12345 on 2023/05/11 16:33:14 by alice@ws1 'Fix the build'\n\
               Change 12344 on 2023/05/10 09:01:02 by bob@ws2 'Add docs'\n";
    let items = parse_changes(out);
    assert_eq!(items.len(), 2);
    assert_eq!(items[0].id, "12345");
    assert_eq!(items[0].author, "alice");
    assert_eq!(items[0].time, "05/11 16:33");
    assert_eq!(items[0].description, "Fix the build");
    assert!(items[0].details.is_none());
    assert_eq!(items[1].id, "12344");
    assert_eq!(items[1].author, "bob");
    assert_eq!(items[1].time, "05/10 09:01");
    assert_eq!(items[1].description, "Add docs");
}

#[test]
fn short_change_lines_are_skipped() {
    let items = parse_changes("\nChange 1 on\n\r\nnot a change line at all\n");
    assert_eq!(items.len(), 0);
}

#[test]
fn changes_with_odd_date_and_time_keep_them() {
    let items = parse_changes("Change 7 on 2023-05-11 1633 by carol 'x y'");
    assert_eq!(items.len(), 1);
    assert_eq!(items[0].author, "carol");
    assert_eq!(items[0].time, "2023-05-11 1633");
    assert_eq!(items[0].description, "x y");
}

#[test]
fn fetch_changelists_errors() {
    match fetch_changelists(&CommandRun::Failed("no such file".to_string())) {
        Err(m) => assert_eq!(m, "Failed to execute p4 changes: no such file"),
        Ok(_) => panic!("expected an error"),
    }
    let failed = CommandRun::Finished { success: false, stdout: String::new(), stderr: "x".to_string() };
    match fetch_changelists(&failed) {
        Err(m) => assert_eq!(m, "Failed to get p4 changes."),
        Ok(_) => panic!("expected an error"),
    }
    let ok = fetch_changelists(&finished("Change 3 on 2024/01/02 03:04:05 by d@w 'e'")).unwrap();
    assert_eq!(ok.len(), 1);
    assert_eq!(ok[0].time, "01/02 03:04");
}

#[test]
fn describe_reads_description_and_files() {
    let out = "Change 12345 by alice@ws1 on 2023/05/11 16:33:14\n\
               \n\
               \tFix the build\n\
               \tsecond line\n\
               \n\
               Affected files ...\n\
               \n\
               ... //depot/main/a.txt#3 edit\n\
               ... //depot/main/b.txt#1 add\n\
               ... malformed\n";
    let d = parse_describe(out);
    assert_eq!(d.full_description, vec!["Fix the build".to_string(), "second line".to_string()]);
    assert_eq!(d.files.len(), 2);
    assert_eq!(d.files[0].path, "//depot/main/a.txt");
    assert_eq!(d.files[0].revision, "#3");
    assert_eq!(d.files[0].action, "edit");
    assert_eq!(d.files[1].path, "//depot/main/b.txt");
    assert_eq!(d.files[1].revision, "#1");
    assert_eq!(d.files[1].action, "add");
}

#[test]
fn describe_errors() {
    match fetch_changelist_detail("42", &CommandRun::Finished { success: false, stdout: String::new(), stderr: String::new() }) {
        Err(m) => assert_eq!(m, "Failed to describe changelist 42."),
        Ok(_) => panic!("expected an error"),
    }
    match fetch_changelist_detail("42", &CommandRun::Failed("boom".to_string())) {
        Err(m) => assert_eq!(m, "Failed to execute p4 describe: boom"),
        Ok(_) => panic!("expected an error"),
    }
}

#[test]
fn p4_info_is_read() {
    let out = "User name: alice\nClient name: ws1\nClient root: /home/alice/ws \nServer address: ssl:p4:1666\n";
    let info = detect_p4_info(&finished(out)).unwrap();
    assert_eq!(info.client_root, "/home/alice/ws");
    assert_eq!(info.user, "alice");
    assert_eq!(info.server, "ssl:p4:1666");
    assert!(!info.needs_login);
}

#[test]
fn p4_info_without_root_is_an_error() {
    let out = "User name: alice\nClient root: null\n";
    match detect_p4_info(&finished(out)) {
        Err(m) => assert_eq!(m, "Could not find 'Client root' in p4 info output."),
        Ok(_) => panic!("expected an error"),
    }
    let run = CommandRun::Finished {
        success: false,
        stdout: "Client root: /r\n".to_string(),
        stderr: "Perforce password (P4PASSWD) invalid or unset.".to_string(),
    };
    let info = detect_p4_info(&run).unwrap();
    assert!(info.needs_login);
    match detect_p4_info(&CommandRun::Failed("nope".to_string())) {
        Err(m) => assert_eq!(m, "Failed to execute p4 command: nope"),
        Ok(_) => panic!("expected an error"),
    }
}

#[test]
fn ztag_dry_run_lists_files_in_order() {
    let out = "... depotFile //depot/a.txt\n... clientFile /ws/a.txt\n... fileSize 120\n\
               ... rev 2\n\n... depotFile //depot/b.txt\n... clientFile /ws/b.txt\n";
    let files = parse_ztag_sync(out);
    assert_eq!(files.len(), 2);
    assert_eq!(files[0].depot_path, "//depot/a.txt");
    assert_eq!(files[0].local_path, "/ws/a.txt");
    assert_eq!(files[0].size, 120);
    assert_eq!(files[0].original_index, 0);
    assert_eq!(files[0].status, SyncFileStatus::Pending);
    assert_eq!(files[1].depot_path, "//depot/b.txt");
    assert_eq!(files[1].local_path, "/ws/b.txt");
    assert_eq!(files[1].size, 0);
    assert_eq!(files[1].original_index, 1);
    assert!(parse_ztag_sync("").is_empty());
}
