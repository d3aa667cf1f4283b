use pier::command::CommandRun;
use pier::filetree::{find_path, sort_listing, FileItem, FileP4Status, FileTree};
use pier::status::{fetch_file_statuses, fstat_pairs, normalize, parse_opened_all};

fn finished(stdout: &str) -> CommandRun {
    CommandRun::Finished { success: true, stdout: stdout.to_string(), stderr: String::new() }
}

fn item(name: &str, path: &str, is_dir: bool) -> FileItem {
    FileItem { name: name.to_string(), path: path.to_string(), is_dir, p4_status: FileP4Status::NotOpened }
}

const OPENED: &str = "//depot/a.txt#3 - edit default change (text) by alice@ws1\n\
                      //depot/b.txt#1 - add change 5 (text) by bob@ws2\n\
                      //depot/c.txt#2 - integrate default change (text) by alice@ws1\n\
                      no hash here - edit\n";

const FSTAT: &str = "... depotFile //depot/a.txt\n... clientFile /WS/A.txt\n\n\
                     ... depotFile //depot/b.txt\n... clientFile C:\\ws\\b.txt\n\n\
                     ... depotFile //depot/c.txt\n... clientFile /ws/c.txt\n\n\
                     ... depotFile //depot/d.txt\n... clientFile /ws/d.txt\n";

#[test]
fn statuses_of_paths() {
    let paths: Vec<String> = ["/ws/a.txt", "C:\\WS\\b.txt", "/ws/c.txt", "/ws/d.txt", "/ws/e.txt"]
        .iter()
        .map(|s| s.to_string())
        .collect();
    let st = fetch_file_statuses(&paths, &finished(OPENED), Some(&finished(FSTAT)), "alice", "ws1");
    assert_eq!(st.len(), 5);
    for (i, (p, _)) in st.iter().enumerate() {
        assert_eq!(p, &paths[i]);
    }
    assert_eq!(st[0].1, FileP4Status::Edit);
    assert_eq!(st[1].1, FileP4Status::OtherCheckout);
    assert_eq!(st[2].1, FileP4Status::NotOpened);
    assert_eq!(st[3].1, FileP4Status::NotOpened);
    assert_eq!(st[4].1, FileP4Status::Untracked);
}

#[test]
fn without_user_nothing_is_own() {
    let paths = vec!["/ws/a.txt".to_string()];
    let st = fetch_file_statuses(&paths, &finished(OPENED), Some(&finished(FSTAT)), "", "ws1");
    assert_eq!(st[0].1, FileP4Status::OtherCheckout);
    let st = fetch_file_statuses(&paths, &CommandRun::Failed("x".to_string()), Some(&finished(FSTAT)), "alice", "ws1");
    assert_eq!(st[0].1, FileP4Status::NotOpened);
}

#[test]
fn no_statuses_without_paths_or_fstat() {
    assert!(fetch_file_statuses(&Vec::new(), &finished(OPENED), Some(&finished(FSTAT)), "alice", "ws1").is_empty());
    let paths = vec!["/ws/a.txt".to_string()];
    assert!(fetch_file_statuses(&paths, &finished(OPENED), None, "alice", "ws1").is_empty());
    assert!(fetch_file_statuses(&paths, &finished(OPENED), Some(&CommandRun::Failed("x".to_string())), "alice", "ws1").is_empty());
}

#[test]
fn opened_lines_split_by_owner() {
    let m = parse_opened_all(OPENED, "alice", "ws1");
    assert_eq!(m.own, vec![("//depot/a.txt".to_string(), "edit".to_string()), ("//depot/c.txt".to_string(), "integrate".to_string())]);
    assert_eq!(m.other, vec![("//depot/b.txt".to_string(), "add".to_string())]);
}

#[test]
fn fstat_blocks_pair_client_and_depot_files() {
    let pairs = fstat_pairs(FSTAT);
    assert_eq!(pairs.len(), 4);
    assert_eq!(pairs[1], ("C:\\ws\\b.txt".to_string(), "//depot/b.txt".to_string()));
    assert_eq!(fstat_pairs("... depotFile //x\n\n... clientFile /y\n").len(), 0);
    assert_eq!(normalize("C:\\Users\\Bob\\A.TXT"), "c:/users/bob/a.txt");
}

#[test]
fn listings_sort_directories_first_then_by_name() {
    let out = sort_listing(vec![
        item("b", "/d/b", false),
        item("Z", "/d/Z", true),
        item("a", "/d/a", false),
        item("c", "/d/c", true),
        item("a", "/d2/a", false),
    ]);
    let names: Vec<(String, String)> = out.iter().map(|x| (x.name.clone(), x.path.clone())).collect();
    assert_eq!(
        names,
        vec![
            ("Z".to_string(), "/d/Z".to_string()),
            ("c".to_string(), "/d/c".to_string()),
            ("a".to_string(), "/d/a".to_string()),
            ("a".to_string(), "/d2/a".to_string()),
            ("b".to_string(), "/d/b".to_string()),
        ]
    );
    assert_eq!(find_path(&out, "/d/b"), Some(4));
    assert_eq!(find_path(&out, "/d/b/"), Some(4));
    assert_eq!(find_path(&out, "/nowhere"), None);
}

#[test]
fn the_tree_moves_and_stops_at_the_ends() {
    let mut t = FileTree::new("/".to_string(), vec![item("x", "/x", false), item("y", "/y", false)], vec![item("zz", "/zz", true)]);
    assert!(t.parent_files.is_empty());
    assert_eq!(t.selected, 0);
    t.move_up();
    assert_eq!(t.selected, 0);
    t.move_down();
    t.move_down();
    assert_eq!(t.selected, 1);
    assert!(t.enter_target().is_none());
    assert!(t.leave_target().is_none());
    let before = t.current_path.clone();
    t.leave_dir(Vec::new(), Vec::new());
    assert_eq!(t.current_path, before);
    t.enter_dir(Vec::new(), Vec::new());
    assert_eq!(t.current_path, before);
    t.refresh(vec![item("q", "/q", true)], Vec::new());
    assert_eq!(t.files.len(), 1);
    assert_eq!(t.selected, 1);
    assert_eq!(t.enter_target(), None);
    t.move_up();
    assert_eq!(t.enter_target().as_deref(), Some("/q"));
    t.enter_dir(vec![item("r", "/q/r", false)], vec![item("q", "/q", true)]);
    assert_eq!(t.current_path, "/q");
    assert_eq!(t.leave_target().as_deref(), Some("/"));
    t.leave_dir(vec![item("q", "/q", true), item("a", "/a", true)], Vec::new());
    assert_eq!(t.current_path, "/");
    assert_eq!(t.files[t.selected].path, "/q");
}
