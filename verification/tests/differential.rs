// Each parser against the same reading written with std's string methods,
// on many generated outputs.
use pier::changelist::{parse_changes, parse_describe, ChangeListDetail, ChangeListFile, ChangeListItem};
use pier::view::{changelist_view, ClLine};
use pier::command::CommandRun;
use pier::detail::{fetch_file_detail, format_size, FileDetail};
use pier::filetree::{FileP4Status, FileTree};
use pier::info::{detect_p4_info, P4Info};
use pier::state::Core;
use pier::status::fetch_file_statuses;
use pier::sync::parse_ztag_sync;

struct Rng(u64);

impl Rng {
    fn next(&mut self) -> u64 {
        self.0 ^= self.0 << 13;
        self.0 ^= self.0 >> 7;
        self.0 ^= self.0 << 17;
        self.0
    }
    fn pick<'a>(&mut self, xs: &[&'a str]) -> &'a str {
        xs[(self.next() % xs.len() as u64) as usize]
    }
    fn text(&mut self, xs: &[&str], max: u64) -> String {
        let n = self.next() % (max + 1);
        let mut s = String::new();
        for _ in 0..n {
            s.push_str(self.pick(xs));
        }
        s
    }
}

fn finished(stdout: &str, stderr: &str, success: bool) -> CommandRun {
    CommandRun::Finished { success, stdout: stdout.to_string(), stderr: stderr.to_string() }
}

const CHANGE_TOKENS: &[&str] = &[
    "Change", " ", " ", "12345", "on", "2023/05/11", "2023-05", "16:33:14", "1633", "by", "alice@ws",
    "bob", "'Fix it'", "'", "\t", "\n", "\r\n", "x", "@", "/", ":", "\u{3000}", "é",
];

fn std_changes(stdout: &str) -> Vec<(String, String, String, String)> {
    let mut items = Vec::new();
    for line in stdout.lines() {
        if line.is_empty() {
            continue;
        }
        let parts: Vec<&str> = line.split_whitespace().collect();
        if parts.len() < 7 {
            continue;
        }
        let id = parts[1].to_string();
        let date = parts[3];
        let time_full = parts[4];
        let author_full = parts[6];
        let author = author_full.split('@').next().unwrap_or(author_full).to_string();
        let date_parts: Vec<&str> = date.split('/').collect();
        let formatted_date = if date_parts.len() == 3 { format!("{}/{}", date_parts[1], date_parts[2]) } else { date.to_string() };
        let time_parts: Vec<&str> = time_full.split(':').collect();
        let formatted_time = if time_parts.len() >= 2 { format!("{}:{}", time_parts[0], time_parts[1]) } else { time_full.to_string() };
        let description = line.splitn(8, |c: char| c.is_whitespace()).last().unwrap_or("").trim_matches('\'').to_string();
        items.push((id, author, format!("{} {}", formatted_date, formatted_time), description));
    }
    items
}

#[test]
fn changes_agree_on_generated_output() {
    let mut rng = Rng(0x1234_5678_9abc_def1);
    for _ in 0..3000 {
        let out = rng.text(CHANGE_TOKENS, 40);
        let got: Vec<(String, String, String, String)> = parse_changes(&out)
            .into_iter()
            .map(|c| (c.id, c.author, c.time, c.description))
            .collect();
        assert_eq!(got, std_changes(&out), "output {:?}", out);
    }
}

const DESCRIBE_TOKENS: &[&str] = &[
    "Change 1 by a@b on 2023/01/01\n", "\n", "\tFix\n", "  more text\n", "Affected files ...\n",
    "Differences ...\n", "... //depot/a.txt#3 edit\n", "... //depot/b#1\n", "... x#y#z add\n", "...\n",
    " ... //depot/c#2 delete\n", "text", "#", " ", "\r\n", "\t",
];

fn std_describe(stdout: &str) -> (Vec<String>, Vec<(String, String, String)>) {
    let mut full_description = Vec::new();
    let mut files = Vec::new();
    let mut section = 0;
    for line in stdout.lines() {
        let trimmed = line.trim();
        if section == 0 && line.is_empty() {
            section = 1;
            continue;
        }
        if section == 1 && (trimmed.starts_with("Affected files ...") || trimmed.starts_with("Differences ...")) {
            section = 2;
            continue;
        }
        match section {
            1 => {
                if !line.is_empty() {
                    full_description.push(line.trim_start().to_string());
                }
            }
            2 => {
                if trimmed.starts_with("...") {
                    let parts: Vec<&str> = trimmed.split_whitespace().collect();
                    if parts.len() >= 3 {
                        let sub: Vec<&str> = parts[1].split('#').collect();
                        if sub.len() >= 2 {
                            files.push((sub[0].to_string(), format!("#{}", sub[1]), parts[2].to_string()));
                        }
                    }
                }
            }
            _ => {}
        }
    }
    (full_description, files)
}

#[test]
fn describe_agrees_on_generated_output() {
    let mut rng = Rng(0x0bad_cafe_f00d_1234);
    for _ in 0..3000 {
        let out = rng.text(DESCRIBE_TOKENS, 25);
        let d = parse_describe(&out);
        let files: Vec<(String, String, String)> = d.files.into_iter().map(|f| (f.path, f.revision, f.action)).collect();
        assert_eq!((d.full_description, files), std_describe(&out), "output {:?}", out);
    }
}

const INFO_TOKENS: &[&str] = &[
    "User name: alice\n", "Client root: /home/ws\n", "Client root: null\n", "Client root:  \n",
    "Server address: ssl:p4:1666\n", "Client root: /x \n", "please login again", "password", "\n",
    "User name:bob\n", " Client root: /y\n", "\r\n", "junk", "Server address:  s \t\n",
];

fn std_info(stdout: &str, stderr: &str) -> Result<(String, String, String, bool), String> {
    let combined = format!("{}\n{}", stdout, stderr);
    let needs_login = combined.contains("please login again") || combined.contains("password");
    let mut client_root = None;
    let mut user = String::new();
    let mut server = String::new();
    for line in combined.lines() {
        if line.starts_with("Client root: ") {
            let p = line.trim_start_matches("Client root: ").trim();
            if p != "null" && !p.is_empty() {
                client_root = Some(p.to_string());
            }
        } else if line.starts_with("User name: ") {
            user = line.trim_start_matches("User name: ").trim().to_string();
        } else if line.starts_with("Server address: ") {
            server = line.trim_start_matches("Server address: ").trim().to_string();
        }
    }
    let root = client_root.ok_or_else(|| "Could not find 'Client root' in p4 info output.".to_string())?;
    Ok((root, user, server, needs_login))
}

#[test]
fn info_agrees_on_generated_output() {
    let mut rng = Rng(0x5555_aaaa_1234_9876);
    for _ in 0..3000 {
        let out = rng.text(INFO_TOKENS, 8);
        let err = rng.text(INFO_TOKENS, 2);
        let got = detect_p4_info(&finished(&out, &err, rng.next() % 2 == 0))
            .map(|i: P4Info| (i.client_root, i.user, i.server, i.needs_login));
        assert_eq!(got, std_info(&out, &err), "output {:?} / {:?}", out, err);
    }
}

const FSTAT_TOKENS: &[&str] = &[
    "... depotFile //depot/main/a.txt\n", "... depotFile //other/b\n", "... depotFile nodir\n",
    "... headRev 5\n", "... headRev #3\n", "... haveRev 4\n", "... haveRev x\n", "... fileSize 2048\n",
    "... fileSize 0\n", "... fileSize 5000000\n", "... headChange 77\n", "... otherOpen0 bob@ws\n",
    "... otherOpen 1\n", "... otherOpen1 carol\n", "... action edit\n", "... change default\n",
    "... headAction delete\n", "... HEADREV 9\n", "..depotFile //depot/x/y\n", "  ...   haveRev   2  \n",
    "junk\n", "\n", "... clientFile /w/a\n", "....action add\n",
];

fn std_detail(filename: &str, stdout: &str) -> FileDetail {
    let mut detail = FileDetail {
        filename: filename.to_string(),
        filesize: String::new(),
        depot_path: String::new(),
        revision: String::new(),
        date_modified: String::new(),
        changelist: String::new(),
        action: String::new(),
        latest_user: String::new(),
        checkout_by: String::new(),
    };
    let mut have_rev = "0".to_string();
    let mut head_rev = "0".to_string();
    for line in stdout.lines() {
        let trimmed = line.trim();
        if !trimmed.starts_with("...") {
            continue;
        }
        let content = trimmed.trim_start_matches('.').trim();
        let mut split = content.splitn(2, ' ');
        let key = split.next().unwrap_or("");
        let value = split.next().unwrap_or("").trim();
        match key {
            k if k.eq_ignore_ascii_case("depotFile") => {
                if let Some(last_slash) = value.rfind('/') {
                    let dir = &value[..last_slash];
                    if dir.starts_with("//depot") {
                        detail.depot_path = dir.replacen("//depot", "...", 1);
                    } else {
                        detail.depot_path = dir.to_string();
                    }
                    if !detail.depot_path.ends_with('/') {
                        detail.depot_path.push('/');
                    }
                }
            }
            k if k.eq_ignore_ascii_case("headRev") => head_rev = value.trim_start_matches('#').to_string(),
            k if k.eq_ignore_ascii_case("haveRev") => have_rev = value.trim_start_matches('#').to_string(),
            k if k.eq_ignore_ascii_case("fileSize") => {
                let size_bytes: u64 = value.parse().unwrap_or(0);
                if size_bytes > 0 {
                    detail.filesize = format_size(size_bytes);
                }
            }
            k if k.eq_ignore_ascii_case("headChange") => detail.changelist = value.to_string(),
            k if k.to_lowercase().starts_with("otheropen") => {
                if k.len() > 9 && value.contains('@') {
                    if detail.checkout_by.is_empty() || detail.checkout_by == "Unknown" {
                        detail.checkout_by = value.split('@').next().unwrap_or(value).to_string();
                    }
                }
            }
            k if k.eq_ignore_ascii_case("action") || k.eq_ignore_ascii_case("change") => {
                if detail.checkout_by.is_empty() || detail.checkout_by == "Unknown" {
                    detail.checkout_by = "You".to_string();
                }
                if k.eq_ignore_ascii_case("action") {
                    detail.action = value.to_string();
                }
            }
            k if k.eq_ignore_ascii_case("headAction") => {
                if detail.action.is_empty() {
                    detail.action = value.to_string();
                }
            }
            _ => {}
        }
    }
    let have_n: u32 = have_rev.parse().unwrap_or(0);
    let mut head_n: u32 = head_rev.parse().unwrap_or(0);
    if head_n < have_n {
        head_n = have_n;
    }
    detail.revision = format!("#{}/{}", have_n, head_n);
    detail
}

fn fields(d: &FileDetail) -> Vec<String> {
    vec![
        d.filename.clone(),
        d.filesize.clone(),
        d.depot_path.clone(),
        d.revision.clone(),
        d.date_modified.clone(),
        d.changelist.clone(),
        d.action.clone(),
        d.latest_user.clone(),
        d.checkout_by.clone(),
    ]
}

#[test]
fn fstat_agrees_on_generated_output() {
    let mut rng = Rng(0x7777_1111_2222_3333);
    for _ in 0..3000 {
        let out = rng.text(FSTAT_TOKENS, 10);
        let got = fetch_file_detail("/w/dir/a.txt", &finished(&out, "", true)).unwrap();
        assert_eq!(fields(&got), fields(&std_detail("a.txt", &out)), "output {:?}", out);
    }
}

const OPENED_TOKENS: &[&str] = &[
    "//depot/a.txt#3 - edit default change (text) by alice@ws1\n",
    "//depot/b.txt#1 - add change 5 (text) by bob@ws2\n",
    "//depot/c.txt#2 - integrate default change (text) by alice@ws1\n",
    "//depot/a.txt#3 - delete default change (text) by carol@ws3\n",
    "//depot/d.txt#1 - edit change 9 by alice@ws1x\n",
    "no hash - edit\n", "//depot/e.txt#1 -edit\n", "\n",
];

const STAT_TOKENS: &[&str] = &[
    "... depotFile //depot/a.txt\n", "... clientFile /WS/A.txt\n", "... depotFile //depot/b.txt\n",
    "... clientFile C:\\ws\\b.txt\n", "... depotFile //depot/c.txt\n", "... clientFile /ws/c.txt\n",
    "... depotFile //depot/d.txt\n", "... clientFile /ws/d.txt\n", "\n", "   \n", "... headRev 1\n",
    "...depotFile //depot/e.txt\n", "... clientFile\n", "junk\n",
];

fn std_statuses(paths: &[String], opened: &str, fstat: &str, user: &str, client: &str) -> Vec<FileP4Status> {
    let mut opened_map = std::collections::HashMap::new();
    let mut other_opened = std::collections::HashMap::new();
    for line in opened.lines() {
        if let Some(hash_idx) = line.find('#') {
            let depot_path = &line[..hash_idx];
            if let Some(dash_idx) = line.find(" - ") {
                let action_part = &line[dash_idx + 3..];
                let action = action_part.split_whitespace().next().unwrap_or("");
                let is_own = if !user.is_empty() && !client.is_empty() {
                    action_part.contains(&format!("by {}@{}", user, client))
                } else {
                    false
                };
                if is_own {
                    opened_map.insert(depot_path.to_string(), action.to_string());
                } else {
                    other_opened.insert(depot_path.to_string(), action.to_string());
                }
            }
        }
    }
    let mut known = std::collections::HashMap::new();
    let mut block: std::collections::HashMap<String, String> = std::collections::HashMap::new();
    for line in fstat.lines() {
        let trimmed = line.trim();
        if trimmed.is_empty() {
            if let (Some(cf), Some(df)) = (block.get("clientFile"), block.get("depotFile")) {
                known.insert(cf.to_lowercase().replace('\\', "/"), df.clone());
            }
            block.clear();
            continue;
        }
        if trimmed.starts_with("... ") {
            let parts: Vec<&str> = trimmed[4..].splitn(2, ' ').collect();
            if parts.len() == 2 {
                block.insert(parts[0].to_string(), parts[1].trim().to_string());
            }
        }
    }
    if let (Some(cf), Some(df)) = (block.get("clientFile"), block.get("depotFile")) {
        known.insert(cf.to_lowercase().replace('\\', "/"), df.clone());
    }
    paths
        .iter()
        .map(|p| {
            let norm = p.to_lowercase().replace('\\', "/");
            match known.get(&norm) {
                Some(depot) => match opened_map.get(depot) {
                    Some(action) => match action.as_str() {
                        "add" => FileP4Status::Add,
                        "edit" => FileP4Status::Edit,
                        "delete" => FileP4Status::Delete,
                        _ => FileP4Status::NotOpened,
                    },
                    None => {
                        if other_opened.contains_key(depot) {
                            FileP4Status::OtherCheckout
                        } else {
                            FileP4Status::NotOpened
                        }
                    }
                },
                None => FileP4Status::Untracked,
            }
        })
        .collect()
}

#[test]
fn statuses_agree_on_generated_output() {
    let mut rng = Rng(0x9999_8888_7777_6666);
    let paths: Vec<String> = ["/ws/a.txt", "c:/ws/b.txt", "/WS/C.TXT", "/ws/d.txt", "/ws/e.txt", "/ws/none"]
        .iter()
        .map(|s| s.to_string())
        .collect();
    for _ in 0..3000 {
        let opened = rng.text(OPENED_TOKENS, 6);
        let fstat = rng.text(STAT_TOKENS, 12);
        let (user, client) = match rng.next() % 3 {
            0 => ("alice", "ws1"),
            1 => ("", "ws1"),
            _ => ("bob", "ws2"),
        };
        let got: Vec<FileP4Status> = fetch_file_statuses(&paths, &finished(&opened, "", true), Some(&finished(&fstat, "", true)), user, client)
            .into_iter()
            .map(|(_, s)| s)
            .collect();
        assert_eq!(got, std_statuses(&paths, &opened, &fstat, user, client), "opened {:?} fstat {:?}", opened, fstat);
    }
}

const ZTAG_TOKENS: &[&str] = &[
    "... depotFile //depot/a\n", "... depotFile //depot/b\n", "... clientFile /ws/a\n",
    "... clientFile /ws/b\n", "... depotFile \n", "... rev 3\n", "\n", "...depotFile //x\n",
    "... depotFile //depot/c\r\n", "junk\n",
];

fn std_ztag(output: &str) -> Vec<(String, String, usize)> {
    let mut files = Vec::new();
    let mut depot_path = String::new();
    let mut local_path = String::new();
    for line in output.lines() {
        if let Some(rest) = line.strip_prefix("... depotFile ") {
            if !depot_path.is_empty() {
                let n = files.len();
                files.push((std::mem::take(&mut depot_path), std::mem::take(&mut local_path), n));
            }
            depot_path = rest.to_string();
        } else if let Some(rest) = line.strip_prefix("... clientFile ") {
            local_path = rest.to_string();
        }
    }
    if !depot_path.is_empty() {
        let n = files.len();
        files.push((depot_path, local_path, n));
    }
    files
}

#[test]
fn ztag_agrees_on_generated_output() {
    let mut rng = Rng(0x4242_4242_4242_4242);
    for _ in 0..3000 {
        let out = rng.text(ZTAG_TOKENS, 12);
        let got: Vec<(String, String, usize)> = parse_ztag_sync(&out)
            .into_iter()
            .map(|f| (f.depot_path, f.local_path, f.original_index))
            .collect();
        assert_eq!(got, std_ztag(&out), "output {:?}", out);
    }
}

const PENDING_TOKENS: &[&str] = &[
    "//depot/a.txt#3 - edit default change (text)\n", "//depot/b#1 - add change 5 - x\n",
    "//depot/c - edit\n", "//depot/d#2#3 - delete y\n", " - \n", "x - \n", "#1 - add\n", "\n",
    "//depot/e#4 -  move/add z\n",
];

fn std_pending(stdout: &str) -> Vec<(String, String, String)> {
    let mut files = Vec::new();
    for line in stdout.lines() {
        let parts: Vec<&str> = line.split(" - ").collect();
        if parts.len() >= 2 {
            let action = parts[1].split_whitespace().next().unwrap_or("").to_string();
            let sub: Vec<&str> = parts[0].split('#').collect();
            if sub.len() >= 2 {
                files.push((sub[0].to_string(), format!("#{}", sub[1]), action));
            }
        }
    }
    files
}

#[test]
fn pending_agrees_on_generated_output() {
    let mut rng = Rng(0x1357_9bdf_2468_ace0);
    let info = P4Info { client_root: "/ws".to_string(), user: "u".to_string(), server: "s".to_string(), needs_login: false };
    let mut c = Core::new(info, Ok(Vec::new()), Vec::new(), FileTree::new("/ws".to_string(), Vec::new(), Vec::new())).ok().unwrap();
    for _ in 0..3000 {
        let out = rng.text(PENDING_TOKENS, 8);
        c.update_pending_files(&finished(&out, "", true));
        let got: Vec<(String, String, String)> = c.pending_files.iter().map(|f| (f.path.clone(), f.revision.clone(), f.action.clone())).collect();
        assert_eq!(got, std_pending(&out), "output {:?}", out);
    }
}

const LINE_TOKENS: &[&str] = &[
    "//depot/a.txt#3", " ", " ", "1", "2048", "bytes", "x", "\t", "\n", "Change", "12", "on",
    "2023/05/11", "16:33:14", "by", "bob@ws2", "alice@ws1", "'m'", " - ", "edit", "@", "-", "#",
];

fn blank() -> FileDetail {
    FileDetail {
        filename: String::new(),
        filesize: String::new(),
        depot_path: String::new(),
        revision: String::new(),
        date_modified: String::new(),
        changelist: String::new(),
        action: String::new(),
        latest_user: String::new(),
        checkout_by: String::new(),
    }
}

fn std_sizes(stdout: &str) -> Option<String> {
    if let Some(line) = stdout.lines().next() {
        let parts: Vec<&str> = line.split_whitespace().collect();
        for (i, part) in parts.iter().enumerate() {
            if *part == "bytes" && i > 0 {
                if let Ok(size) = parts[i - 1].parse::<u64>() {
                    return Some(format_size(size));
                }
            }
        }
    }
    None
}

fn std_changes_m1(stdout: &str) -> Option<(String, String)> {
    let line = stdout.lines().next()?;
    let parts: Vec<&str> = line.split_whitespace().collect();
    if parts.len() < 7 {
        return None;
    }
    let date = parts[3];
    let time_full = parts[4];
    let author_full = parts[6];
    let user = author_full.split('@').next().unwrap_or(author_full).to_string();
    let date_parts: Vec<&str> = date.split('/').collect();
    let formatted_date = if date_parts.len() == 3 { format!("{}/{}", date_parts[1], date_parts[2]) } else { date.to_string() };
    let time_parts: Vec<&str> = time_full.split(':').collect();
    let formatted_time = if time_parts.len() >= 2 { format!("{}:{}", time_parts[0], time_parts[1]) } else { time_full.to_string() };
    Some((format!("{} {}", formatted_date, formatted_time), user))
}

fn std_opened_by(stdout: &str, user: &str, client: &str) -> Option<String> {
    let line = stdout.lines().next()?;
    let dash_idx = line.find(" - ")?;
    let after_dash = &line[dash_idx + 3..];
    let parts: Vec<&str> = after_dash.split_whitespace().collect();
    let user_at_client = parts.iter().find(|p| p.contains('@'))?;
    let name = user_at_client.split('@').next().unwrap_or(user_at_client);
    if !user.is_empty() && !client.is_empty() && user_at_client.contains(&format!("{}@{}", user, client)) {
        Some("You".to_string())
    } else {
        Some(name.to_string())
    }
}

fn std_where(stdout: &str, success: bool) -> Option<String> {
    if success {
        let parts: Vec<&str> = stdout.split_whitespace().collect();
        if parts.len() >= 3 {
            return Some(parts[parts.len() - 1].to_string());
        }
    }
    None
}

fn std_synced(stdout: &str) -> Option<String> {
    let line = stdout.lines().next()?;
    let parts: Vec<&str> = line.split_whitespace().collect();
    if parts.len() >= 2 {
        Some(parts[1].to_string())
    } else {
        None
    }
}

#[test]
fn detail_lookups_agree_on_generated_output() {
    let mut rng = Rng(0x2468_1357_abcd_ef01);
    for _ in 0..4000 {
        let out = rng.text(LINE_TOKENS, 14);
        let mut d = blank();
        d.apply_sizes_output(&finished(&out, "", true));
        assert_eq!(if d.needs_size() { None } else { Some(d.filesize.clone()) }, std_sizes(&out), "sizes {:?}", out);
        let mut e = blank();
        e.apply_changes_output(&finished(&out, "", true));
        let got = if e.date_modified.is_empty() && e.latest_user.is_empty() { None } else { Some((e.date_modified.clone(), e.latest_user.clone())) };
        let want = std_changes_m1(&out).filter(|(a, b)| !(a.is_empty() && b.is_empty()));
        assert_eq!(got, want, "changes {:?}", out);
        let mut o = blank();
        let (user, client) = if rng.next() % 2 == 0 { ("alice", "ws1") } else { ("", "") };
        let took = o.apply_opened_output(&finished(&out, "", true), user, client);
        let want = std_opened_by(&out, user, client);
        assert_eq!(took, want.is_some(), "opened {:?}", out);
        if let Some(w) = want {
            assert_eq!(o.checkout_by, w, "opened {:?}", out);
        }
    }
}

#[test]
fn where_and_synced_change_agree_on_generated_output() {
    let mut rng = Rng(0x0f0f_0f0f_1234_5678);
    let info = P4Info { client_root: "/ws".to_string(), user: "u".to_string(), server: "s".to_string(), needs_login: false };
    let base = Core::new(info, Ok(Vec::new()), Vec::new(), FileTree::new("/ws".to_string(), Vec::new(), Vec::new())).ok().unwrap();
    let mut c = base;
    for _ in 0..4000 {
        let out = rng.text(LINE_TOKENS, 10);
        let success = rng.next() % 3 != 0;
        assert_eq!(c.cl_get_local_path(&finished(&out, "", success)), std_where(&out, success), "where {:?}", out);
        c.synced_change_id = None;
        c.detect_synced_change(&finished(&out, "", success));
        assert_eq!(c.synced_change_id, std_synced(&out), "changes {:?}", out);
    }
}


// The lines of the changelist panel as text: (kind, text), kind 0 for a
// changelist, 1 for a note, 2 for a file; and the line under the cursor.
fn std_changelist_lines(c: &Core, content_width: usize, head_icon: &str) -> (Vec<(u8, String, bool)>, usize) {
    let mut out = Vec::new();
    let mut current_ui_index = 0;
    let mut selectable_index = 0;
    let mut selected_ui_index = 0;
    for (i, cl) in c.changelists.iter().enumerate() {
        let is_expanded = c.expanded_ids.contains(&cl.id);
        let is_head = i == 0;
        let is_selected = c.cl_cursor == selectable_index;
        let is_new = if let Some(synced_id) = &c.synced_change_id {
            let cl_val = cl.id.parse::<i64>().unwrap_or(0);
            let synced_val = synced_id.parse::<i64>().unwrap_or(0);
            cl_val > synced_val
        } else {
            false
        };
        let is_synced = if let Some(synced_id) = &c.synced_change_id { cl.id == *synced_id } else { false };
        let symbol = if is_synced {
            format!(" {}", head_icon)
        } else if is_head {
            " \u{f0e95}".to_string()
        } else {
            "  ".to_string()
        };
        let id_str = format!(" {} ", cl.id);
        let author_str = format!("  {}", cl.author);
        let padding = content_width.saturating_sub(id_str.len()).saturating_sub(author_str.len()).saturating_sub(cl.time.len());
        out.push((0u8, format!("{}{}{}{}{}", symbol, id_str, author_str, " ".repeat(padding), cl.time), is_new));
        if is_selected {
            selected_ui_index = current_ui_index;
        }
        current_ui_index += 1;
        selectable_index += 1;
        if is_expanded {
            if let Some(details) = &cl.details {
                let detail_prefix = "     ";
                let detail_content_width = content_width.saturating_sub(3);
                for desc_line in &details.full_description {
                    out.push((1, format!("{}{}", detail_prefix, desc_line), false));
                    current_ui_index += 1;
                }
                out.push((1, format!("{}{}", detail_prefix, "\u{2500}".repeat(detail_content_width)), false));
                current_ui_index += 1;
                for file in details.files.iter() {
                    let is_file_selected = c.cl_cursor == selectable_index;
                    let file_info = format!("{} | {} | ", file.revision, file.action);
                    let display_path = file.path.replacen("//depot", "...", 1);
                    let avail_path_width = detail_content_width.saturating_sub(file_info.chars().count());
                    let path_len = display_path.chars().count();
                    let file_line = if path_len <= avail_path_width {
                        let path_padding = avail_path_width.saturating_sub(path_len);
                        format!("{}{}{}{}{} ", "      ", file_info, " ".repeat(path_padding), display_path, " ")
                    } else {
                        format!("{}{}{} ", "      ", file_info, display_path)
                    };
                    out.push((2, file_line, false));
                    if is_file_selected {
                        selected_ui_index = current_ui_index;
                    }
                    current_ui_index += 1;
                    selectable_index += 1;
                }
            }
        }
    }
    (out, selected_ui_index)
}

#[test]
fn changelist_panel_agrees_on_generated_states() {
    let mut rng = Rng(0xdead_beef_0123_4567);
    let ids = ["12", "11", "9", "-3", "+7", "x", "9223372036854775808", "0012", "é"];
    let authors = ["bob", "ünï", "a", ""];
    let paths = ["//depot/x.c", "//depot/a/very/long/path/name.c", "//other/é", "rel"];
    let info = P4Info { client_root: "/ws".to_string(), user: "u".to_string(), server: "s".to_string(), needs_login: false };
    let mut c = Core::new(info, Ok(Vec::new()), Vec::new(), FileTree::new("/ws".to_string(), Vec::new(), Vec::new())).ok().unwrap();
    for _ in 0..1500 {
        let n = (rng.next() % 5) as usize;
        let mut cls = Vec::new();
        for _ in 0..n {
            let details = if rng.next() % 3 == 0 {
                None
            } else {
                let nf = (rng.next() % 3) as usize;
                let nd = (rng.next() % 3) as usize;
                Some(ChangeListDetail {
                    full_description: (0..nd).map(|k| format!("line {}", k)).collect(),
                    files: (0..nf)
                        .map(|_| ChangeListFile {
                            path: rng.pick(&paths).to_string(),
                            revision: "#2".to_string(),
                            action: rng.pick(&["edit", "add"]).to_string(),
                        })
                        .collect(),
                })
            };
            cls.push(ChangeListItem {
                id: rng.pick(&ids).to_string(),
                author: rng.pick(&authors).to_string(),
                time: "05/11 16:33".to_string(),
                description: "d".to_string(),
                details,
            });
        }
        let mut expanded = Vec::new();
        for cl in cls.iter() {
            if rng.next() % 2 == 0 && !expanded.contains(&cl.id) {
                expanded.push(cl.id.clone());
            }
        }
        c.changelists = cls;
        c.expanded_ids = expanded;
        c.synced_change_id = if rng.next() % 2 == 0 { Some(rng.pick(&ids).to_string()) } else { None };
        c.cl_cursor = (rng.next() % 12) as usize;
        let width = (rng.next() % 60) as usize;
        let (lines, sel) = changelist_view(&c, width, "H");
        let got: Vec<(u8, String, bool)> = lines
            .into_iter()
            .map(|l| match l {
                ClLine::Head { symbol, id, rest, is_new } => (0u8, format!("{}{}{}", symbol, id, rest), is_new),
                ClLine::Note(t) => (1, t, false),
                ClLine::File(t) => (2, t, false),
            })
            .collect();
        let (want, want_sel) = std_changelist_lines(&c, width, "H");
        assert_eq!(got, want);
        assert_eq!(sel, want_sel);
    }
}
