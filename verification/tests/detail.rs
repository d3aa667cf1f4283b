use pier::command::CommandRun;
use pier::detail::{classify_fstat_key, fetch_file_detail, FileDetail, FstatKey};

fn finished(stdout: &str) -> CommandRun {
    CommandRun::Finished { success: true, stdout: stdout.to_string(), stderr: String::new() }
}

fn blank_detail() -> FileDetail {
    FileDetail {
        filename: "a.txt".to_string(),
        filesize: String::new(),
        depot_path: String::new(),
        revision: String::new(),
        date_modified: String::new(),
        changelist: String::new(),
        action: String::new(),
        latest_user: String::new(),
        checkout_by: String::new(),
    }
}

#[test]
fn fstat_fields_fill_the_detail() {
    let out = "... depotFile //depot/main/src/a.txt\n\
               ... clientFile /ws/main/src/a.txt\n\
               ... headAction edit\n\
               ... headChange 123\n\
               ... headRev 5\n\
               ... haveRev 4\n\
               ... fileSize 2048\n\
               ... otherOpen0 bob@ws2\n\
               ... otherOpen 1\n";
    let d = fetch_file_detail("/ws/main/src/a.txt", &finished(out)).unwrap();
    assert_eq!(d.filename, "a.txt");
    assert_eq!(d.depot_path, ".../main/src/");
    assert_eq!(d.revision, "#4/5");
    assert_eq!(d.filesize, "2.0 KB");
    assert_eq!(d.changelist, "123");
    assert_eq!(d.action, "edit");
    assert_eq!(d.checkout_by, "bob");
    assert_eq!(d.date_modified, "");
    assert_eq!(d.latest_user, "");
}

#[test]
fn fstat_own_open_and_odd_revisions() {
    let out = "  ... depotFile //other/x/y.c  \n\
               ... action add\n\
               ... headAction delete\n\
               ... headRev #2\n\
               ... haveRev #7\n\
               ... fileSize 0\n\
               not a field\n";
    let d = fetch_file_detail("/w/y.c", &finished(out)).unwrap();
    assert_eq!(d.filename, "y.c");
    assert_eq!(d.depot_path, "//other/x/");
    // A head revision below the one held is raised to it.
    assert_eq!(d.revision, "#7/7");
    assert_eq!(d.filesize, "");
    assert_eq!(d.action, "add");
    assert_eq!(d.checkout_by, "You");
}

#[test]
fn fstat_empty_output_and_errors() {
    let d = fetch_file_detail("/w/z", &finished("")).unwrap();
    assert_eq!(d.filename, "z");
    assert_eq!(d.revision, "#0/0");
    assert_eq!(d.depot_path, "");
    let not_managed = CommandRun::Finished { success: false, stdout: String::new(), stderr: "x".to_string() };
    match fetch_file_detail("/w/z", &not_managed) {
        Err(m) => assert_eq!(m, "Not a Perforce-managed object"),
        Ok(_) => panic!("expected an error"),
    }
    match fetch_file_detail("/w/z", &CommandRun::Failed("gone".to_string())) {
        Err(m) => assert_eq!(m, "Failed to execute p4 fstat: gone"),
        Ok(_) => panic!("expected an error"),
    }
}

#[test]
fn fstat_keys_ignore_case() {
    let k = |s: &str| {
        let v: Vec<char> = s.chars().collect();
        let l: Vec<char> = s.to_lowercase().chars().collect();
        classify_fstat_key(&v, &l)
    };
    assert_eq!(k("DEPOTFILE"), FstatKey::DepotFile);
    assert_eq!(k("headrev"), FstatKey::HeadRev);
    assert_eq!(k("HaveRev"), FstatKey::HaveRev);
    assert_eq!(k("filesize"), FstatKey::FileSize);
    assert_eq!(k("headChange"), FstatKey::HeadChange);
    assert_eq!(k("OtherOpen3"), FstatKey::OtherOpen);
    assert_eq!(k("action"), FstatKey::Action);
    assert_eq!(k("CHANGE"), FstatKey::Change);
    assert_eq!(k("headAction"), FstatKey::HeadAction);
    assert_eq!(k("clientFile"), FstatKey::Other);
}

#[test]
fn sizes_fill_only_an_unknown_size() {
    let mut d = blank_detail();
    assert!(d.needs_size());
    d.apply_local_size(Some(0));
    assert!(d.needs_size());
    d.apply_local_size(None);
    assert!(d.needs_size());
    d.apply_sizes_output(&finished("//depot/a.txt#3 3145728 bytes\n//depot/b 9 bytes\n"));
    assert_eq!(d.filesize, "3.0 MB");
    d.apply_local_size(Some(10));
    assert_eq!(d.filesize, "3.0 MB");
    d.apply_size_fallback();
    assert_eq!(d.filesize, "3.0 MB");

    let mut e = blank_detail();
    e.apply_local_size(Some(100));
    assert_eq!(e.filesize, "100 B");

    let mut f = blank_detail();
    f.apply_sizes_output(&finished("bytes 12 bytes\n"));
    assert_eq!(f.filesize, "12 B");
    let mut h = blank_detail();
    h.apply_sizes_output(&finished("x 1 bytes 99 bytes\n"));
    assert_eq!(h.filesize, "1 B");
    let mut g = blank_detail();
    g.apply_sizes_output(&finished("nothing here\n"));
    assert!(g.needs_size());
    g.apply_sizes_output(&CommandRun::Failed("x".to_string()));
    assert!(g.needs_size());
    g.apply_size_fallback();
    assert_eq!(g.filesize, "0 B");
}

#[test]
fn changes_give_date_and_user() {
    let mut d = blank_detail();
    d.apply_changes_output(&finished("Change 12 on 2023/05/11 16:33:14 by alice@ws 'msg'\n"));
    assert_eq!(d.date_modified, "05/11 16:33");
    assert_eq!(d.latest_user, "alice");
    let mut e = blank_detail();
    e.apply_changes_output(&finished("too short\n"));
    assert_eq!(e.date_modified, "");
    assert_eq!(e.latest_user, "");
}

#[test]
fn opened_gives_who_has_the_file() {
    let line = "//depot/a.txt#3 - edit change 5 (text) by bob@ws2\n";
    let mut d = blank_detail();
    assert!(d.needs_checkout_lookup());
    assert!(d.apply_opened_output(&finished(line), "alice", "ws1"));
    assert_eq!(d.checkout_by, "bob");
    // Once known, it stays.
    assert!(!d.needs_checkout_lookup());
    assert!(!d.apply_opened_output(&finished(line), "alice", "ws1"));
    assert_eq!(d.checkout_by, "bob");

    let mut me = blank_detail();
    me.checkout_by = "Unknown".to_string();
    assert!(me.apply_opened_output(&finished("//depot/a.txt#3 - edit default change (text) by alice@ws1\n"), "alice", "ws1"));
    assert_eq!(me.checkout_by, "You");

    let mut none = blank_detail();
    assert!(!none.apply_opened_output(&finished("//depot/a.txt - file(s) not opened anywhere.\n"), "a", "b"));
    assert!(!none.apply_opened_output(&finished("no dash here\n"), "a", "b"));
    assert!(!none.apply_opened_output(&CommandRun::Failed("x".to_string()), "a", "b"));
    assert_eq!(none.checkout_by, "");
}
