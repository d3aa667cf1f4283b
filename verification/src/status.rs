//! The Perforce state of the files on screen: which are in the depot,
//! which are open by this user (and how), which by someone else.
use vstd::prelude::*;
use crate::text::{self, Delim};
use crate::command::CommandRun;
use crate::filetree::FileP4Status;

verus! {

/// The views of a list of text pairs.
pub open spec fn pairs_view(v: Seq<(String, String)>) -> Seq<(Seq<char>, Seq<char>)> {
    v.map_values(|p: (String, String)| (p.0@, p.1@))
}

/// The value of the last pair with key `k`: what a map gives that took the
/// pairs in order, a later one replacing an earlier one.
pub open spec fn assoc_get(m: Seq<(Seq<char>, Seq<char>)>, k: Seq<char>) -> Option<Seq<char>>
    decreases m.len(),
{
    if m.len() == 0 {
        None
    } else if m.last().0 == k {
        Some(m.last().1)
    } else {
        assoc_get(m.drop_last(), k)
    }
}

/// The value of the last pair with key `k`.
pub fn assoc_lookup(m: &Vec<(String, String)>, k: &String) -> (r: Option<String>)
    ensures
        match r {
            Some(v) => assoc_get(pairs_view(m@), k@) == Some(v@),
            None => assoc_get(pairs_view(m@), k@) is None,
        },
{
    let mut i: usize = m.len();
    let ghost mv = pairs_view(m@);
    assert(mv.take(i as int) =~= mv);
    while i > 0
        invariant
            i <= m.len(),
            mv == pairs_view(m@),
            assoc_get(mv, k@) == assoc_get(mv.take(i as int), k@),
        decreases i,
    {
        assert(mv.take(i as int).drop_last() =~= mv.take(i - 1));
        if m[i - 1].0 == *k {
            return Some(m[i - 1].1.clone());
        }
        i -= 1;
    }
    None
}

/// A line of `p4 opened -a` output, `//depot/path#rev - action ... by
/// user@client ...`: the depot path, the action, and whether it is this
/// user on this client that has it open.
pub open spec fn opened_entry(line: Seq<char>, user: Seq<char>, client: Seq<char>) -> Option<
    (Seq<char>, Seq<char>, bool),
> {
    match text::first_delim(line, Delim::Char('#')) {
        None => None,
        Some(h) => match text::after_sub(line, " - "@) {
            None => None,
            Some(action_part) => {
                let own = user.len() > 0 && client.len() > 0 && text::contains_spec(
                    action_part,
                    "by "@ + user + seq!['@'] + client,
                );
                Some((line.take(h), text::first_word(action_part), own))
            },
        },
    }
}

/// The files open by this user and by others, each as depot path and
/// action, in the order of the lines.
pub struct OpenedMaps {
    pub own: Vec<(String, String)>,
    pub other: Vec<(String, String)>,
}

pub struct OpenedView {
    pub own: Seq<(Seq<char>, Seq<char>)>,
    pub other: Seq<(Seq<char>, Seq<char>)>,
}

impl View for OpenedMaps {
    type V = OpenedView;

    open spec fn view(&self) -> OpenedView {
        OpenedView { own: pairs_view(self.own@), other: pairs_view(self.other@) }
    }
}

pub open spec fn opened_fold(ls: Seq<Seq<char>>, user: Seq<char>, client: Seq<char>) -> OpenedView
    decreases ls.len(),
{
    if ls.len() == 0 {
        OpenedView { own: Seq::empty(), other: Seq::empty() }
    } else {
        let m = opened_fold(ls.drop_last(), user, client);
        match opened_entry(ls.last(), user, client) {
            Some((depot, action, own)) => if own {
                OpenedView { own: m.own.push((depot, action)), ..m }
            } else {
                OpenedView { other: m.other.push((depot, action)), ..m }
            },
            None => m,
        }
    }
}

/// What `p4 opened -a` output says is open, by this user (`p4_user` on
/// `p4_client`) and by others.
pub fn parse_opened_all(stdout: &str, p4_user: &str, p4_client: &str) -> (r: OpenedMaps)
    ensures
        r@ == opened_fold(text::lines_spec(stdout@), p4_user@, p4_client@),
{
    let ls = text::lines_of(&text::chars_of(stdout));
    proof { text::lemma_dv_all(ls); }
    let ghost lsv = ls.deep_view();
    let mut me = text::chars_of("by ");
    me = text::concat(&me, &text::chars_of(p4_user));
    me.push('@');
    me = text::concat(&me, &text::chars_of(p4_client));
    assert(me@ =~= "by "@ + p4_user@ + seq!['@'] + p4_client@);
    let check_own = !text::str_is_empty(p4_user) && !text::str_is_empty(p4_client);
    let dash = text::chars_of(" - ");
    let mut own: Vec<(String, String)> = Vec::new();
    let mut other: Vec<(String, String)> = Vec::new();
    let mut i: usize = 0;
    assert(lsv.take(0) =~= Seq::<Seq<char>>::empty());
    assert(pairs_view(own@) =~= Seq::empty());
    assert(pairs_view(other@) =~= Seq::empty());
    while i < ls.len()
        invariant
            lsv == ls.deep_view(),
            lsv.len() == ls@.len(),
            forall|j: int| 0 <= j < ls@.len() ==> #[trigger] lsv[j] == ls@[j]@,
            me@ == "by "@ + p4_user@ + seq!['@'] + p4_client@,
            check_own == (p4_user@.len() > 0 && p4_client@.len() > 0),
            dash@ == " - "@,
            i <= ls.len(),
            opened_fold(lsv.take(i as int), p4_user@, p4_client@) == (OpenedView {
                own: pairs_view(own@),
                other: pairs_view(other@),
            }),
        decreases ls.len() - i,
    {
        assert(lsv.take(i + 1).drop_last() =~= lsv.take(i as int));
        assert(lsv.take(i + 1).last() == ls@[i as int]@);
        let line = &ls[i];
        match text::first_delim_exec(line, Delim::Char('#')) {
            Some(h) => {
                proof { text::lemma_first_delim_from(line@, Delim::Char('#'), 0); }
                match text::after_sub_exec(line, &dash) {
                    Some(action_part) => {
                        proof { text::lemma_chars_dv(action_part); }
                        let depot = text::string_of(&text::slice_of(line, 0, h));
                        let action = text::string_of(&text::first_word_exec(&action_part));
                        let is_own = check_own && text::contains(&action_part, &me);
                        assert(depot@ =~= line@.take(h as int));
                        if is_own {
                            own.push((depot, action));
                            assert(pairs_view(own@) =~= opened_fold(lsv.take(i + 1), p4_user@, p4_client@).own);
                        } else {
                            other.push((depot, action));
                            assert(pairs_view(other@) =~= opened_fold(lsv.take(i + 1), p4_user@, p4_client@).other);
                        }
                    },
                    None => {},
                }
            },
            None => {},
        }
        i += 1;
    }
    assert(lsv.take(ls.len() as int) =~= lsv);
    OpenedMaps { own, other }
}

/// What the `fstat` lines read so far have given: the client and depot
/// paths of each completed block, and the fields of the current block.
pub struct BlockState {
    pub depot_files: Seq<(Seq<char>, Seq<char>)>,
    pub block: Seq<(Seq<char>, Seq<char>)>,
}

/// Ending a block: it counts where it gave both a client and a depot path.
pub open spec fn flush_block(st: BlockState) -> BlockState {
    match (assoc_get(st.block, "clientFile"@), assoc_get(st.block, "depotFile"@)) {
        (Some(cf), Some(df)) => BlockState { depot_files: st.depot_files.push((cf, df)), block: Seq::empty() },
        _ => BlockState { block: Seq::empty(), ..st },
    }
}

/// Reading one more line of `p4 fstat -T clientFile,depotFile` output: an
/// empty line ends a block, `... key value` adds a field.
pub open spec fn block_step(st: BlockState, line: Seq<char>) -> BlockState {
    let trimmed = text::trim_spec(line, Delim::Whitespace);
    if trimmed.len() == 0 {
        flush_block(st)
    } else {
        match text::strip_prefix_spec(trimmed, "... "@) {
            Some(rest) => match text::after_first(rest, Delim::Char(' ')) {
                Some(v) => BlockState {
                    block: st.block.push(
                        (
                            text::before_first(rest, Delim::Char(' ')),
                            text::trim_spec(v, Delim::Whitespace),
                        ),
                    ),
                    ..st
                },
                None => st,
            },
            None => st,
        }
    }
}

pub open spec fn block_fold(ls: Seq<Seq<char>>) -> BlockState
    decreases ls.len(),
{
    if ls.len() == 0 {
        BlockState { depot_files: Seq::empty(), block: Seq::empty() }
    } else {
        block_step(block_fold(ls.drop_last()), ls.last())
    }
}

/// The client and depot path of every file that `p4 fstat -T
/// clientFile,depotFile` output describes, in order.
pub open spec fn fstat_pairs_spec(out: Seq<char>) -> Seq<(Seq<char>, Seq<char>)> {
    flush_block(block_fold(text::lines_spec(out))).depot_files
}

fn flush_block_exec(depot_files: &mut Vec<(String, String)>, block: &mut Vec<(String, String)>)
    ensures
        flush_block(BlockState { depot_files: pairs_view(old(depot_files)@), block: pairs_view(old(block)@) })
            == (BlockState { depot_files: pairs_view(final(depot_files)@), block: pairs_view(final(block)@) }),
{
    let cf = assoc_lookup(block, &String::from_str("clientFile"));
    let df = assoc_lookup(block, &String::from_str("depotFile"));
    match (cf, df) {
        (Some(c), Some(d)) => {
            depot_files.push((c, d));
            assert(pairs_view(depot_files@) =~= pairs_view(old(depot_files)@).push((c@, d@)));
        },
        _ => {},
    }
    *block = Vec::new();
    assert(pairs_view(block@) =~= Seq::empty());
}

/// The client and depot path of every file that `p4 fstat -T
/// clientFile,depotFile` output describes.
pub fn fstat_pairs(stdout: &str) -> (r: Vec<(String, String)>)
    ensures
        pairs_view(r@) == fstat_pairs_spec(stdout@),
{
    let ls = text::lines_of(&text::chars_of(stdout));
    proof { text::lemma_dv_all(ls); }
    let ghost lsv = ls.deep_view();
    let prefix = text::chars_of("... ");
    let mut depot_files: Vec<(String, String)> = Vec::new();
    let mut block: Vec<(String, String)> = Vec::new();
    let mut i: usize = 0;
    assert(lsv.take(0) =~= Seq::<Seq<char>>::empty());
    assert(pairs_view(depot_files@) =~= Seq::empty());
    assert(pairs_view(block@) =~= Seq::empty());
    while i < ls.len()
        invariant
            lsv == ls.deep_view(),
            lsv.len() == ls@.len(),
            forall|j: int| 0 <= j < ls@.len() ==> #[trigger] lsv[j] == ls@[j]@,
            prefix@ == "... "@,
            i <= ls.len(),
            block_fold(lsv.take(i as int)) == (BlockState {
                depot_files: pairs_view(depot_files@),
                block: pairs_view(block@),
            }),
        decreases ls.len() - i,
    {
        assert(lsv.take(i + 1).drop_last() =~= lsv.take(i as int));
        assert(lsv.take(i + 1).last() == ls@[i as int]@);
        let trimmed = text::trim_of(&ls[i], Delim::Whitespace);
        if trimmed.len() == 0 {
            flush_block_exec(&mut depot_files, &mut block);
        } else {
            match text::strip_prefix(&trimmed, &prefix) {
                Some(rest) => {
                    proof { text::lemma_chars_dv(rest); }
                    match text::after_first_exec(&rest, Delim::Char(' ')) {
                        Some(v) => {
                            proof { text::lemma_chars_dv(v); }
                            let key = text::string_of(&text::before_first_exec(&rest, Delim::Char(' ')));
                            let value = text::string_of(&text::trim_of(&v, Delim::Whitespace));
                            block.push((key, value));
                            assert(pairs_view(block@) =~= block_fold(lsv.take(i + 1)).block);
                        },
                        None => {},
                    }
                },
                None => {},
            }
        }
        i += 1;
    }
    assert(lsv.take(ls.len() as int) =~= lsv);
    flush_block_exec(&mut depot_files, &mut block);
    depot_files
}

/// A path as the status lookup compares paths: lower case, `\` made `/`.
pub open spec fn normalize_path(p: Seq<char>) -> Seq<char> {
    text::replace_char_spec(text::str_to_lowercase(p), '\\', '/')
}

/// A path as the status lookup compares paths.
pub fn normalize(p: &str) -> (r: String)
    ensures
        r@ == normalize_path(p@),
{
    text::string_of(&text::replace_char(&text::to_lowercase(&text::chars_of(p)), '\\', '/'))
}

/// The status that an action of this user gives a file.
pub open spec fn action_status(action: Seq<char>) -> FileP4Status {
    if action == "add"@ {
        FileP4Status::Add
    } else if action == "edit"@ {
        FileP4Status::Edit
    } else if action == "delete"@ {
        FileP4Status::Delete
    } else {
        FileP4Status::NotOpened
    }
}

/// The status of the file whose normalized path is `norm`, given the
/// depot files (normalized client path, depot path) and what is open.
pub open spec fn status_spec(
    norm: Seq<char>,
    depot_files: Seq<(Seq<char>, Seq<char>)>,
    opened: OpenedView,
) -> FileP4Status {
    match assoc_get(depot_files, norm) {
        Some(depot) => match assoc_get(opened.own, depot) {
            Some(action) => action_status(action),
            None => if assoc_get(opened.other, depot) is Some {
                FileP4Status::OtherCheckout
            } else {
                FileP4Status::NotOpened
            },
        },
        None => FileP4Status::Untracked,
    }
}

/// The status of the file whose normalized path is `norm`.
pub fn status_of(norm: &String, depot_files: &Vec<(String, String)>, opened: &OpenedMaps) -> (r:
    FileP4Status)
    ensures
        r == status_spec(norm@, pairs_view(depot_files@), opened@),
{
    match assoc_lookup(depot_files, norm) {
        Some(depot) => match assoc_lookup(&opened.own, &depot) {
            Some(action) => {
                if action == String::from_str("add") {
                    FileP4Status::Add
                } else if action == String::from_str("edit") {
                    FileP4Status::Edit
                } else if action == String::from_str("delete") {
                    FileP4Status::Delete
                } else {
                    FileP4Status::NotOpened
                }
            },
            None => if assoc_lookup(&opened.other, &depot).is_some() {
                FileP4Status::OtherCheckout
            } else {
                FileP4Status::NotOpened
            },
        },
        None => FileP4Status::Untracked,
    }
}

/// The client paths normalized, the depot paths as they were.
pub open spec fn normalize_tracked(t: Seq<(Seq<char>, Seq<char>)>) -> Seq<(Seq<char>, Seq<char>)> {
    t.map_values(|p: (Seq<char>, Seq<char>)| (normalize_path(p.0), p.1))
}

/// The status of each path given the `p4 opened -a` and `p4 fstat` outputs,
/// in the order of the paths.
pub open spec fn statuses_spec(
    paths: Seq<Seq<char>>,
    opened: OpenedView,
    fstat_out: Seq<char>,
) -> Seq<FileP4Status> {
    let depot_files = normalize_tracked(fstat_pairs_spec(fstat_out));
    paths.map_values(|p: Seq<char>| status_spec(normalize_path(p), depot_files, opened))
}

/// The `fstat` lookup is worth making: there are paths to ask about.
pub fn needs_fstat(paths: &Vec<String>) -> (r: bool)
    ensures
        r == (paths@.len() > 0),
{
    paths.len() > 0
}

/// The status of each path, paired with it: `opened` is what `p4 opened -a`
/// gave and `fstat` what `p4 fstat -T clientFile,depotFile <paths>` gave,
/// where it ran. No paths, an `fstat` that did not run or could not start:
/// no statuses.
pub fn fetch_file_statuses(
    paths: &Vec<String>,
    opened: &CommandRun,
    fstat: Option<&CommandRun>,
    p4_user: &str,
    p4_client: &str,
) -> (r: Vec<(String, FileP4Status)>)
    ensures
        match fstat {
            Some(CommandRun::Finished { stdout: fo, .. }) if paths@.len() > 0 => {
                let om = match opened {
                    CommandRun::Finished { stdout, .. } => opened_fold(
                        text::lines_spec(stdout@),
                        p4_user@,
                        p4_client@,
                    ),
                    CommandRun::Failed(_) => OpenedView { own: Seq::empty(), other: Seq::empty() },
                };
                let st = statuses_spec(text::strs_view(paths@), om, fo@);
                &&& r@.len() == paths@.len()
                &&& forall|i: int| 0 <= i < r@.len() ==> (#[trigger] r@[i]).0@ == paths@[i]@ && r@[i].1 == st[i]
            },
            _ => r@.len() == 0,
        },
{
    let om = match opened {
        CommandRun::Finished { stdout, .. } => parse_opened_all(stdout.as_str(), p4_user, p4_client),
        CommandRun::Failed(_) => {
            let m = OpenedMaps { own: Vec::new(), other: Vec::new() };
            assert(m@.own =~= Seq::empty());
            assert(m@.other =~= Seq::empty());
            m
        },
    };
    let mut result: Vec<(String, FileP4Status)> = Vec::new();
    if !needs_fstat(paths) {
        return result;
    }
    match fstat {
        Some(CommandRun::Finished { stdout, .. }) => {
            let pairs = fstat_pairs(stdout.as_str());
            let mut depot_files: Vec<(String, String)> = Vec::new();
            let mut k: usize = 0;
            while k < pairs.len()
                invariant
                    k <= pairs.len(),
                    pairs_view(depot_files@) =~= normalize_tracked(pairs_view(pairs@)).take(k as int),
                decreases pairs.len() - k,
            {
                let n = normalize(pairs[k].0.as_str());
                let ghost before = pairs_view(depot_files@);
                depot_files.push((n, pairs[k].1.clone()));
                assert(pairs_view(depot_files@) =~= before.push((n@, pairs@[k as int].1@)));
                assert(normalize_tracked(pairs_view(pairs@)).take(k + 1) =~= normalize_tracked(
                    pairs_view(pairs@),
                ).take(k as int).push((normalize_path(pairs@[k as int].0@), pairs@[k as int].1@)));
                k += 1;
            }
            let ghost tv = normalize_tracked(fstat_pairs_spec(stdout@));
            assert(pairs_view(depot_files@) =~= tv);
            let mut i: usize = 0;
            while i < paths.len()
                invariant
                    i <= paths.len(),
                    pairs_view(depot_files@) == tv,
                    result@.len() == i,
                    forall|j: int| 0 <= j < i ==> (#[trigger] result@[j]).0@ == paths@[j]@
                        && result@[j].1 == status_spec(normalize_path(paths@[j]@), tv, om@),
                decreases paths.len() - i,
            {
                let n = normalize(paths[i].as_str());
                let s = status_of(&n, &depot_files, &om);
                result.push((paths[i].clone(), s));
                i += 1;
            }
            result
        },
        _ => result,
    }
}

} // verus!
