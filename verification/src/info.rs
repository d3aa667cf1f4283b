//! What `p4 info` says of the workspace: its root, the user, the server,
//! and whether a login is needed.
use vstd::prelude::*;
use crate::text::{self, Delim};
use crate::command::CommandRun;

verus! {

/// The workspace as `p4 info` describes it.
pub struct P4Info {
    pub client_root: String,
    pub user: String,
    pub server: String,
    pub needs_login: bool,
}

/// What the lines read so far have said.
pub struct InfoState {
    pub root: Option<Seq<char>>,
    pub user: Seq<char>,
    pub server: Seq<char>,
}

/// The value of a `Label: value` line, trimmed.
pub open spec fn field_value(line: Seq<char>, label: Seq<char>) -> Seq<char> {
    text::trim_spec(text::trim_start_str(line, label), Delim::Whitespace)
}

/// Reading one more line of `p4 info` output. A root of `null`, or an
/// empty one, is no root.
pub open spec fn info_step(st: InfoState, line: Seq<char>) -> InfoState {
    if text::starts_with_spec(line, "Client root: "@) {
        let p = field_value(line, "Client root: "@);
        if p != "null"@ && p.len() > 0 {
            InfoState { root: Some(p), ..st }
        } else {
            st
        }
    } else if text::starts_with_spec(line, "User name: "@) {
        InfoState { user: field_value(line, "User name: "@), ..st }
    } else if text::starts_with_spec(line, "Server address: "@) {
        InfoState { server: field_value(line, "Server address: "@), ..st }
    } else {
        st
    }
}

pub open spec fn info_fold(ls: Seq<Seq<char>>) -> InfoState
    decreases ls.len(),
{
    if ls.len() == 0 {
        InfoState { root: None, user: Seq::empty(), server: Seq::empty() }
    } else {
        info_step(info_fold(ls.drop_last()), ls.last())
    }
}

/// Standard output and standard error, one after the other.
pub open spec fn combined_output(stdout: Seq<char>, stderr: Seq<char>) -> Seq<char> {
    stdout + seq!['\n'] + stderr
}

/// The output asks for a login.
pub open spec fn asks_login(combined: Seq<char>) -> bool {
    text::contains_spec(combined, "please login again"@) || text::contains_spec(
        combined,
        "password"@,
    )
}

/// The value of a `Label: value` line, trimmed.
fn field_value_exec(line: &Vec<char>, label: &Vec<char>) -> (r: Vec<char>)
    ensures
        r@ == field_value(line@, label@),
{
    text::trim_of(&text::trim_start_str_exec(line, label), Delim::Whitespace)
}

/// The workspace that `p4 info` describes, or why it cannot be used: the
/// command could not be started, or its output names no client root.
pub fn detect_p4_info(run: &CommandRun) -> (r: Result<P4Info, String>)
    ensures
        match run {
            CommandRun::Failed(e) => r matches Err(m) && m@ == "Failed to execute p4 command: "@
                + e@,
            CommandRun::Finished { stdout, stderr, .. } => {
                let combined = combined_output(stdout@, stderr@);
                let st = info_fold(text::lines_spec(combined));
                match st.root {
                    None => r matches Err(m) && m@
                        == "Could not find 'Client root' in p4 info output."@,
                    Some(root) => r matches Ok(info) && info.client_root@ == root
                        && info.user@ == st.user && info.server@ == st.server
                        && info.needs_login == asks_login(combined),
                }
            },
        },
{
    match run {
        CommandRun::Failed(e) => {
            let mut m = String::from_str("Failed to execute p4 command: ");
            m.append(e.as_str());
            Err(m)
        },
        CommandRun::Finished { stdout, stderr, .. } => {
            let mut combined = text::chars_of(stdout.as_str());
            combined.push('\n');
            let combined = text::concat(&combined, &text::chars_of(stderr.as_str()));
            assert(combined@ =~= combined_output(stdout@, stderr@));
            let needs_login = text::contains(&combined, &text::chars_of("please login again"))
                || text::contains(&combined, &text::chars_of("password"));
            let root_label = text::chars_of("Client root: ");
            let user_label = text::chars_of("User name: ");
            let server_label = text::chars_of("Server address: ");
            let null = text::chars_of("null");
            let ls = text::lines_of(&combined);
            proof { text::lemma_dv_all(ls); }
            let ghost lsv = ls.deep_view();
            let mut root: Option<Vec<char>> = None;
            let mut user: Vec<char> = Vec::new();
            let mut server: Vec<char> = Vec::new();
            let mut i: usize = 0;
            assert(lsv.take(0) =~= Seq::<Seq<char>>::empty());
            while i < ls.len()
                invariant
                    lsv == ls.deep_view(),
                    lsv.len() == ls@.len(),
                    forall|j: int| 0 <= j < ls@.len() ==> #[trigger] lsv[j] == ls@[j]@,
                    root_label@ == "Client root: "@,
                    user_label@ == "User name: "@,
                    server_label@ == "Server address: "@,
                    null@ == "null"@,
                    i <= ls.len(),
                    info_fold(lsv.take(i as int)) == (InfoState {
                        root: match root {
                            Some(v) => Some(v@),
                            None => None,
                        },
                        user: user@,
                        server: server@,
                    }),
                decreases ls.len() - i,
            {
                assert(lsv.take(i + 1).drop_last() =~= lsv.take(i as int));
                assert(lsv.take(i + 1).last() == ls@[i as int]@);
                let line = &ls[i];
                if text::starts_with(line, &root_label) {
                    let p = field_value_exec(line, &root_label);
                    if !text::chars_eq(&p, &null) && p.len() > 0 {
                        root = Some(p);
                    }
                } else if text::starts_with(line, &user_label) {
                    user = field_value_exec(line, &user_label);
                } else if text::starts_with(line, &server_label) {
                    server = field_value_exec(line, &server_label);
                }
                i += 1;
            }
            assert(lsv.take(ls.len() as int) =~= lsv);
            match root {
                None => Err(String::from_str("Could not find 'Client root' in p4 info output.")),
                Some(r) => Ok(
                    P4Info {
                        client_root: text::string_of(&r),
                        user: text::string_of(&user),
                        server: text::string_of(&server),
                        needs_login,
                    },
                ),
            }
        },
    }
}

} // verus!
