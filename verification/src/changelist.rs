//! Submitted changelists: what `p4 changes` and `p4 describe` print, read
//! into items.
use vstd::prelude::*;
use crate::text::{self, Delim};
use crate::command::CommandRun;

verus! {

/// One file of a changelist or of the pending list.
#[derive(Clone, Debug)]
pub struct ChangeListFile {
    pub revision: String,
    pub action: String,
    pub path: String,
}

pub struct ChangeListFileView {
    pub revision: Seq<char>,
    pub action: Seq<char>,
    pub path: Seq<char>,
}

impl View for ChangeListFile {
    type V = ChangeListFileView;

    open spec fn view(&self) -> ChangeListFileView {
        ChangeListFileView { revision: self.revision@, action: self.action@, path: self.path@ }
    }
}

/// What `p4 describe -s` tells of a changelist.
#[derive(Clone, Debug)]
pub struct ChangeListDetail {
    pub full_description: Vec<String>,
    pub files: Vec<ChangeListFile>,
}

pub struct ChangeListDetailView {
    pub full_description: Seq<Seq<char>>,
    pub files: Seq<ChangeListFileView>,
}

pub open spec fn files_view(s: Seq<ChangeListFile>) -> Seq<ChangeListFileView> {
    s.map_values(|f: ChangeListFile| f@)
}

impl View for ChangeListDetail {
    type V = ChangeListDetailView;

    open spec fn view(&self) -> ChangeListDetailView {
        ChangeListDetailView {
            full_description: text::strs_view(self.full_description@),
            files: files_view(self.files@),
        }
    }
}

/// One submitted changelist.
#[derive(Clone, Debug)]
pub struct ChangeListItem {
    pub id: String,
    pub author: String,
    /// Date and time as `MM/DD hh:mm`.
    pub time: String,
    pub description: String,
    pub details: Option<ChangeListDetail>,
}

pub struct ChangeListItemView {
    pub id: Seq<char>,
    pub author: Seq<char>,
    pub time: Seq<char>,
    pub description: Seq<char>,
    pub details: Option<ChangeListDetailView>,
}

impl View for ChangeListItem {
    type V = ChangeListItemView;

    open spec fn view(&self) -> ChangeListItemView {
        ChangeListItemView {
            id: self.id@,
            author: self.author@,
            time: self.time@,
            description: self.description@,
            details: match self.details {
                Some(d) => Some(d@),
                None => None,
            },
        }
    }
}

pub open spec fn items_view(s: Seq<ChangeListItem>) -> Seq<ChangeListItemView> {
    s.map_values(|i: ChangeListItem| i@)
}

/// The user of a `user@workspace` pair.
pub open spec fn author_of(a: Seq<char>) -> Seq<char> {
    text::before_first(a, Delim::Char('@'))
}

/// `YYYY/MM/DD` shortened to `MM/DD`; any other text unchanged.
pub open spec fn short_date(date: Seq<char>) -> Seq<char> {
    let dp = text::split_spec(date, Delim::Char('/'));
    if dp.len() == 3 {
        dp[1] + seq!['/'] + dp[2]
    } else {
        date
    }
}

/// `hh:mm:ss` shortened to `hh:mm`; text without a `:` unchanged.
pub open spec fn short_time(t: Seq<char>) -> Seq<char> {
    let tp = text::split_spec(t, Delim::Char(':'));
    if tp.len() >= 2 {
        tp[0] + seq![':'] + tp[1]
    } else {
        t
    }
}

/// The date and time of a change line, shortened: `MM/DD hh:mm`.
pub open spec fn change_time(date: Seq<char>, time: Seq<char>) -> Seq<char> {
    short_date(date) + seq![' '] + short_time(time)
}

/// The item that one line of `p4 changes -t` describes:
/// `Change <id> on <date> <time> by <user>@<client> '<description>'`.
/// A line of fewer than seven words describes none.
pub open spec fn change_item(line: Seq<char>) -> Option<ChangeListItemView> {
    let parts = text::words_spec(line);
    if parts.len() < 7 {
        None
    } else {
        Some(
            ChangeListItemView {
                id: parts[1],
                author: author_of(parts[6]),
                time: change_time(parts[3], parts[4]),
                description: text::trim_spec(text::splitn_last(line, 8, Delim::Whitespace), Delim::Char('\'')),
                details: None,
            },
        )
    }
}

/// The items that a sequence of change lines describes, in order.
pub open spec fn change_items(ls: Seq<Seq<char>>) -> Seq<ChangeListItemView>
    decreases ls.len(),
{
    if ls.len() == 0 {
        Seq::empty()
    } else {
        let r = change_items(ls.drop_last());
        match change_item(ls.last()) {
            Some(it) => r.push(it),
            None => r,
        }
    }
}

/// The changelists that the output of `p4 changes -t` lists.
pub open spec fn parse_changes_spec(out: Seq<char>) -> Seq<ChangeListItemView> {
    change_items(text::lines_spec(out))
}

fn short_date_exec(date: &Vec<char>) -> (r: Vec<char>)
    ensures
        r@ == short_date(date@),
{
    let dp = text::split_on(date, Delim::Char('/'));
    proof { text::lemma_dv_all(dp); }
    if dp.len() == 3 {
        let mut r = dp[1].clone();
        r.push('/');
        let r = text::concat(&r, &dp[2]);
        assert(r@ =~= short_date(date@));
        r
    } else {
        date.clone()
    }
}

fn short_time_exec(t: &Vec<char>) -> (r: Vec<char>)
    ensures
        r@ == short_time(t@),
{
    let tp = text::split_on(t, Delim::Char(':'));
    proof { text::lemma_dv_all(tp); }
    if tp.len() >= 2 {
        let mut r = tp[0].clone();
        r.push(':');
        let r = text::concat(&r, &tp[1]);
        assert(r@ =~= short_time(t@));
        r
    } else {
        t.clone()
    }
}

/// The date and time of a change line, shortened to `MM/DD hh:mm`.
pub fn change_time_exec(date: &Vec<char>, time: &Vec<char>) -> (r: Vec<char>)
    ensures
        r@ == change_time(date@, time@),
{
    let mut r = short_date_exec(date);
    r.push(' ');
    let r = text::concat(&r, &short_time_exec(time));
    assert(r@ =~= change_time(date@, time@));
    r
}

/// The changelist that one line of `p4 changes -t` describes, if any.
pub fn parse_change_line(line: &Vec<char>) -> (r: Option<ChangeListItem>)
    ensures
        match r {
            Some(it) => change_item(line@) == Some(it@),
            None => change_item(line@) is None,
        },
{
    let parts = text::words_of(line);
    proof { text::lemma_dv_all(parts); }
    if parts.len() < 7 {
        return None;
    }
    let id = text::string_of(&parts[1]);
    let author = text::string_of(&text::before_first_exec(&parts[6], Delim::Char('@')));
    let time = text::string_of(&change_time_exec(&parts[3], &parts[4]));
    let rest = text::splitn_last_exec(line, 8, Delim::Whitespace);
    let description = text::string_of(&text::trim_of(&rest, Delim::Char('\'')));
    Some(ChangeListItem { id, author, time, description, details: None })
}

/// The changelists that the output of `p4 changes -t` lists, in order.
pub fn parse_changes(stdout: &str) -> (r: Vec<ChangeListItem>)
    ensures
        items_view(r@) == parse_changes_spec(stdout@),
{
    let text = text::chars_of(stdout);
    let ls = text::lines_of(&text);
    proof { text::lemma_dv_all(ls); }
    let ghost lsv = ls.deep_view();
    let mut out: Vec<ChangeListItem> = Vec::new();
    let mut i: usize = 0;
    while i < ls.len()
        invariant
            lsv == ls.deep_view(),
            lsv == text::lines_spec(stdout@),
            lsv.len() == ls@.len(),
            forall|j: int| 0 <= j < ls@.len() ==> #[trigger] lsv[j] == ls@[j]@,
            i <= ls.len(),
            items_view(out@) == change_items(lsv.take(i as int)),
        decreases ls.len() - i,
    {
        assert(lsv.take(i + 1).drop_last() =~= lsv.take(i as int));
        assert(lsv.take(i + 1).last() == ls@[i as int]@);
        match parse_change_line(&ls[i]) {
            Some(it) => {
                out.push(it);
                assert(items_view(out@) =~= change_items(lsv.take(i + 1)));
            },
            None => {},
        }
        i += 1;
    }
    assert(lsv.take(ls.len() as int) =~= lsv);
    out
}

/// The changelists of `p4 changes -t -m 10`, or why there are none: the
/// command could not be started, or it failed.
pub fn fetch_changelists(run: &CommandRun) -> (r: Result<Vec<ChangeListItem>, String>)
    ensures
        match run {
            CommandRun::Failed(e) => r matches Err(m) && m@ == "Failed to execute p4 changes: "@
                + e@,
            CommandRun::Finished { success, stdout, .. } => if *success {
                r matches Ok(items) && items_view(items@) == parse_changes_spec(stdout@)
            } else {
                r matches Err(m) && m@ == "Failed to get p4 changes."@
            },
        },
{
    match run {
        CommandRun::Failed(e) => {
            let mut m = String::from_str("Failed to execute p4 changes: ");
            m.append(e.as_str());
            Err(m)
        },
        CommandRun::Finished { success, stdout, .. } => {
            if *success {
                Ok(parse_changes(stdout.as_str()))
            } else {
                Err(String::from_str("Failed to get p4 changes."))
            }
        },
    }
}

/// How far the reading of `p4 describe -s` output has got: the header, the
/// description, or the list of affected files.
pub struct DescribeState {
    pub section: nat,
    pub description: Seq<Seq<char>>,
    pub files: Seq<ChangeListFileView>,
}

/// The file that a line `... //depot/path#rev action` of the affected-files
/// list names, if it names one.
pub open spec fn describe_file(trimmed: Seq<char>) -> Option<ChangeListFileView> {
    if text::starts_with_spec(trimmed, "..."@) {
        let parts = text::words_spec(trimmed);
        if parts.len() >= 3 {
            let sub = text::split_spec(parts[1], Delim::Char('#'));
            if sub.len() >= 2 {
                Some(
                    ChangeListFileView {
                        path: sub[0],
                        revision: seq!['#'] + sub[1],
                        action: parts[2],
                    },
                )
            } else {
                None
            }
        } else {
            None
        }
    } else {
        None
    }
}

/// Reading one more line of `p4 describe -s` output. The first empty line
/// ends the header; a line that begins with `Affected files ...` or
/// `Differences ...` ends the description.
pub open spec fn describe_step(st: DescribeState, line: Seq<char>) -> DescribeState {
    let trimmed = text::trim_spec(line, Delim::Whitespace);
    if st.section == 0 && line.len() == 0 {
        DescribeState { section: 1, ..st }
    } else if st.section == 1 && (text::starts_with_spec(trimmed, "Affected files ..."@)
        || text::starts_with_spec(trimmed, "Differences ..."@)) {
        DescribeState { section: 2, ..st }
    } else if st.section == 1 {
        if line.len() > 0 {
            DescribeState {
                description: st.description.push(text::trim_start_spec(line, Delim::Whitespace)),
                ..st
            }
        } else {
            st
        }
    } else if st.section == 2 {
        match describe_file(trimmed) {
            Some(f) => DescribeState { files: st.files.push(f), ..st },
            None => st,
        }
    } else {
        st
    }
}

/// The state after reading the lines `ls`.
pub open spec fn describe_fold(ls: Seq<Seq<char>>) -> DescribeState
    decreases ls.len(),
{
    if ls.len() == 0 {
        DescribeState { section: 0, description: Seq::empty(), files: Seq::empty() }
    } else {
        describe_step(describe_fold(ls.drop_last()), ls.last())
    }
}

/// What the output of `p4 describe -s` tells of a changelist.
pub open spec fn parse_describe_spec(out: Seq<char>) -> ChangeListDetailView {
    let st = describe_fold(text::lines_spec(out));
    ChangeListDetailView { full_description: st.description, files: st.files }
}

/// The file that a trimmed line of the affected-files list names.
pub fn parse_describe_file(trimmed: &Vec<char>) -> (r: Option<ChangeListFile>)
    ensures
        match r {
            Some(f) => describe_file(trimmed@) == Some(f@),
            None => describe_file(trimmed@) is None,
        },
{
    if !text::starts_with(trimmed, &text::chars_of("...")) {
        return None;
    }
    let parts = text::words_of(trimmed);
    proof { text::lemma_dv_all(parts); }
    if parts.len() < 3 {
        return None;
    }
    let sub = text::split_on(&parts[1], Delim::Char('#'));
    proof { text::lemma_dv_all(sub); }
    if sub.len() < 2 {
        return None;
    }
    let mut rev = vec!['#'];
    rev = text::concat(&rev, &sub[1]);
    assert(rev@ =~= seq!['#'] + sub@[1]@);
    Some(
        ChangeListFile {
            path: text::string_of(&sub[0]),
            revision: text::string_of(&rev),
            action: text::string_of(&parts[2]),
        },
    )
}

/// What the output of `p4 describe -s` tells of a changelist: its
/// description lines and its files.
pub fn parse_describe(stdout: &str) -> (r: ChangeListDetail)
    ensures
        r@ == parse_describe_spec(stdout@),
{
    let text = text::chars_of(stdout);
    let ls = text::lines_of(&text);
    proof { text::lemma_dv_all(ls); }
    let ghost lsv = ls.deep_view();
    let affected = text::chars_of("Affected files ...");
    let differences = text::chars_of("Differences ...");
    let mut section: u8 = 0;
    let mut description: Vec<String> = Vec::new();
    let mut files: Vec<ChangeListFile> = Vec::new();
    let mut i: usize = 0;
    assert(text::strs_view(description@) =~= Seq::empty());
    assert(files_view(files@) =~= Seq::empty());
    assert(lsv.take(0) =~= Seq::<Seq<char>>::empty());
    while i < ls.len()
        invariant
            lsv == ls.deep_view(),
            lsv.len() == ls@.len(),
            forall|j: int| 0 <= j < ls@.len() ==> #[trigger] lsv[j] == ls@[j]@,
            affected@ == "Affected files ..."@,
            differences@ == "Differences ..."@,
            i <= ls.len(),
            describe_fold(lsv.take(i as int)) == (DescribeState {
                section: section as nat,
                description: text::strs_view(description@),
                files: files_view(files@),
            }),
        decreases ls.len() - i,
    {
        assert(lsv.take(i + 1).drop_last() =~= lsv.take(i as int));
        assert(lsv.take(i + 1).last() == ls@[i as int]@);
        let line = &ls[i];
        let trimmed = text::trim_of(line, Delim::Whitespace);
        if section == 0 && line.len() == 0 {
            section = 1;
        } else if section == 1 && (text::starts_with(&trimmed, &affected) || text::starts_with(
            &trimmed,
            &differences,
        )) {
            section = 2;
        } else if section == 1 {
            if line.len() > 0 {
                let d = text::string_of(&text::trim_start_of(line, Delim::Whitespace));
                description.push(d);
                assert(text::strs_view(description@) =~= describe_fold(
                    lsv.take(i + 1),
                ).description);
            }
        } else if section == 2 {
            match parse_describe_file(&trimmed) {
                Some(f) => {
                    files.push(f);
                    assert(files_view(files@) =~= describe_fold(lsv.take(i + 1)).files);
                },
                None => {},
            }
        }
        i += 1;
    }
    assert(lsv.take(ls.len() as int) =~= lsv);
    ChangeListDetail { full_description: description, files }
}

/// What `p4 describe -s <id>` tells of changelist `id`, or why it tells
/// nothing: the command could not be started, or it failed.
pub fn fetch_changelist_detail(id: &str, run: &CommandRun) -> (r: Result<ChangeListDetail, String>)
    ensures
        match run {
            CommandRun::Failed(e) => r matches Err(m) && m@ == "Failed to execute p4 describe: "@
                + e@,
            CommandRun::Finished { success, stdout, .. } => if *success {
                r matches Ok(d) && d@ == parse_describe_spec(stdout@)
            } else {
                r matches Err(m) && m@ == "Failed to describe changelist "@ + id@ + "."@
            },
        },
{
    match run {
        CommandRun::Failed(e) => {
            let mut m = String::from_str("Failed to execute p4 describe: ");
            m.append(e.as_str());
            Err(m)
        },
        CommandRun::Finished { success, stdout, .. } => {
            if *success {
                Ok(parse_describe(stdout.as_str()))
            } else {
                let mut m = String::from_str("Failed to describe changelist ");
                m.append(id);
                m.append(".");
                Err(m)
            }
        },
    }
}

} // verus!
