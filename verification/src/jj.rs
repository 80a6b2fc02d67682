//! The `jj` command line: which commands the client runs, how their output is
//! judged, and how their text is parsed into the panels' entries.
//!
//! Running a process is left to the caller: each query has a `*_command`
//! function that says what to run, and a function of the query's own name that
//! takes what the process handed back and returns what the query means.
use vstd::prelude::*;

use crate::model::{
    BookmarkEntry, DiffKind, DiffLine, FileEntry, OperationEntry, OperationView, RepoSnapshot,
    RevisionEntry, RevisionView,
};
use crate::text::{
    chars_of, cut, first_index, is_blank, join, join_strings, line_ranges, lines, range_eq,
    range_starts_with, ranges_within, shorten as shorten_spec, split, split_ranges, starts_with,
    starts_with_char, substring, to_strings, trim, trim_end, trim_end_range, trim_range, views,
    lemma_join_free_of, lemma_one_line, lemma_split_join,
};

verus! {

/// The character that separates the fields of one line of template output.
pub const FIELD_SEP: char = '\u{1f}';

/// What a finished process handed back.
pub struct ProcessOutput {
    pub success: bool,
    pub stdout: String,
    pub stderr: String,
}

/// The output of a `jj` command that succeeded.
pub struct CommandOutput {
    pub stdout: String,
    pub stderr: String,
}

/// A `jj` process to start: its arguments and the directory it runs in.
pub struct JjInvocation {
    pub args: Vec<String>,
    pub dir: String,
}

/// Why a `jj` query failed.
pub enum JjError {
    /// `jj root` failed in `cwd`.
    NoRepository { cwd: String, stderr: String },
    /// `jj <command>` exited unsuccessfully; `stderr` is its trimmed error output.
    CommandFailed { command: String, stderr: String },
}

pub open spec fn jj_error_message(e: JjError) -> Seq<char> {
    match e {
        JjError::NoRepository { cwd, stderr } => "could not find a jj repository from "@ + cwd@
            + ": "@ + stderr@,
        JjError::CommandFailed { command, stderr } => "`jj "@ + command@ + "` failed"@ + if stderr@.len()
            == 0 {
            seq![]
        } else {
            ": "@ + stderr@
        },
    }
}

impl JjError {
    /// The error as a sentence.
    pub fn message(&self) -> (r: String)
        ensures
            r@ == jj_error_message(*self),
    {
        match self {
            JjError::NoRepository { cwd, stderr } => {
                let mut r = String::from_str("could not find a jj repository from ");
                r.append(cwd.as_str());
                r.append(": ");
                r.append(stderr.as_str());
                r
            },
            JjError::CommandFailed { command, stderr } => {
                let mut r = String::from_str("`jj ");
                r.append(command.as_str());
                r.append("` failed");
                if stderr.as_str().is_empty() {
                    proof {
                        assert(r@ =~= r@ + seq![]);
                    }
                } else {
                    r.append(": ");
                    r.append(stderr.as_str());
                    proof {
                        assert(r@ =~= "`jj "@ + command@ + "` failed"@ + (": "@ + stderr@));
                    }
                }
                r
            },
        }
    }
}

/// The arguments of a command followed by the flags that every query adds.
pub open spec fn with_query_flags(base: Seq<Seq<char>>) -> Seq<Seq<char>> {
    base + seq!["--color=never"@, "--no-pager"@]
}

/// The pieces of a comma-separated list, trimmed, without empty ones.
pub open spec fn csv_fields(s: Seq<char>) -> Seq<Seq<char>> {
    split(s, ',').map_values(|p: Seq<char>| trim(p)).filter(|p: Seq<char>| p.len() > 0)
}

/// `s` trimmed, or `fallback` when nothing is left.
pub open spec fn fallback_if_blank(s: Seq<char>, fallback: Seq<char>) -> Seq<char> {
    if trim(s).len() == 0 {
        fallback
    } else {
        trim(s)
    }
}

/// One line of `jj diff --summary`: its status and its path, or nothing for a
/// blank line.
pub open spec fn file_line(line: Seq<char>) -> Option<(Seq<char>, Seq<char>)> {
    let t = trim(line);
    if t.len() == 0 {
        None
    } else {
        let i = first_index(t, ' ');
        if i < t.len() {
            Some((trim(t.take(i)), trim(t.skip(i + 1))))
        } else {
            Some((trim(t), seq![]))
        }
    }
}

/// One line of the revision template, or nothing when it has fewer than seven fields.
pub open spec fn revision_line(line: Seq<char>) -> Option<RevisionView> {
    let parts = split(line, FIELD_SEP);
    if parts.len() < 7 {
        None
    } else {
        Some(
            RevisionView {
                commit_id: shorten_spec(parts[0], 12),
                change_id: shorten_spec(parts[1], 12),
                author: parts[2],
                timestamp: parts[3],
                bookmarks: csv_fields(parts[4]),
                description: fallback_if_blank(parts[5], "(empty description)"@),
                is_working_copy: parts[6] == "true"@,
            },
        )
    }
}

/// One line of the bookmark template, or nothing when it has fewer than three fields.
pub open spec fn bookmark_line(line: Seq<char>) -> Option<(Seq<char>, Seq<char>, Seq<char>)> {
    let parts = split(line, FIELD_SEP);
    if parts.len() < 3 {
        None
    } else {
        Some((parts[0], parts[1], shorten_spec(parts[2], 12)))
    }
}

/// One line of the operation template, or nothing when it has fewer than five fields.
pub open spec fn operation_line(line: Seq<char>) -> Option<OperationView> {
    let parts = split(line, FIELD_SEP);
    if parts.len() < 5 {
        None
    } else {
        Some(
            OperationView {
                id: shorten_spec(parts[0], 14),
                is_current: parts[1] == "true"@,
                user: parts[2],
                timestamp: parts[3],
                description: fallback_if_blank(parts[4], "(no description)"@),
            },
        )
    }
}

/// How a line of diff output is shown.
pub open spec fn classify(line: Seq<char>) -> DiffKind {
    if starts_with(line, "diff --git"@) || starts_with(line, "commit "@) {
        DiffKind::Header
    } else if starts_with(line, "@@"@) {
        DiffKind::Hunk
    } else if starts_with(line, "+++"@) || starts_with(line, "---"@) || starts_with(
        line,
        "index "@,
    ) || starts_with(line, "new file"@) || starts_with(line, "deleted file"@) || starts_with(
        line,
        "Author:"@,
    ) || starts_with(line, "Change ID:"@) || starts_with(line, "Commit ID:"@) {
        DiffKind::Meta
    } else if starts_with_char(line, '+') && !starts_with(line, "+++"@) {
        DiffKind::Addition
    } else if starts_with_char(line, '-') && !starts_with(line, "---"@) {
        DiffKind::Removal
    } else {
        DiffKind::Context
    }
}

/// The shown lines of a diff: one note when the text is blank, else every line
/// with its kind.
pub open spec fn diff_view(text: Seq<char>) -> Seq<(DiffKind, Seq<char>)> {
    if trim(text).len() == 0 {
        seq![(DiffKind::Note, "No diff to display."@)]
    } else {
        lines(text).map_values(|l: Seq<char>| (classify(l), l))
    }
}

/// The non-empty lines of `jj status`, without trailing whitespace.
pub open spec fn status_summary_view(text: Seq<char>) -> Seq<Seq<char>> {
    lines(text).map_values(|l: Seq<char>| trim_end(l)).filter(|l: Seq<char>| l.len() > 0)
}

/// The template that prints `parts` separated by `FIELD_SEP`, one record per line.
pub open spec fn template_view(parts: Seq<Seq<char>>) -> Seq<char> {
    join(parts, " ++ \"\u{1f}\" ++ "@) + " ++ \"\\n\""@
}

pub open spec fn revision_fields() -> Seq<Seq<char>> {
    seq![
        "commit_id"@,
        "change_id"@,
        "author.email()"@,
        "committer.timestamp().local().format(\"%Y-%m-%d %H:%M\")"@,
        "local_bookmarks.map(|b| b.name()).join(\",\")"@,
        "description.first_line()"@,
        "if(current_working_copy, \"true\", \"false\")"@,
    ]
}

pub open spec fn bookmark_fields() -> Seq<Seq<char>> {
    seq!["name"@, "if(remote, \"remote\", \"local\")"@, "self.normal_target().commit_id()"@]
}

pub open spec fn operation_fields() -> Seq<Seq<char>> {
    seq![
        "id"@,
        "if(current_operation, \"true\", \"false\")"@,
        "user"@,
        "time.start().local().format(\"%Y-%m-%d %H:%M\")"@,
        "description"@,
    ]
}

/// Builds a template from its field expressions.
pub fn concat_template(parts: &[&str]) -> (r: String)
    ensures
        r@ == template_view(parts@.map_values(|p: &str| p@)),
{
    let owned = to_strings(parts);
    let mut r = join_strings(&owned, " ++ \"\u{1f}\" ++ ");
    r.append(" ++ \"\\n\"");
    r
}

/// The pieces of a comma-separated list, trimmed, without empty ones.
pub fn split_csv(value: &str) -> (res: Vec<String>)
    ensures
        views(res@) == csv_fields(value@),
{
    let v = chars_of(value);
    proof {
        assert(v@.subrange(0, v@.len() as int) =~= v@);
    }
    csv_range(value, &v, 0, v.len())
}

/// `value` trimmed, or `fallback` when nothing is left.
pub fn empty_fallback(value: &str, fallback: &str) -> (res: String)
    ensures
        res@ == fallback_if_blank(value@, fallback@),
{
    let v = chars_of(value);
    proof {
        assert(v@.subrange(0, v@.len() as int) =~= v@);
    }
    fallback_range(value, &v, 0, v.len(), fallback)
}

/// The first `width` characters of `value`.
pub fn shorten(value: &str, width: usize) -> (res: String)
    ensures
        res@ == shorten_spec(value@, width as nat),
{
    let v = chars_of(value);
    proof {
        assert(v@.subrange(0, v@.len() as int) =~= v@);
    }
    shorten_range(value, &v, 0, v.len(), width)
}

fn shorten_range(s: &str, v: &Vec<char>, a: usize, b: usize, width: usize) -> (res: String)
    requires
        v@ == s@,
        a <= b <= v@.len(),
    ensures
        res@ == shorten_spec(v@.subrange(a as int, b as int), width as nat),
{
    if b - a <= width {
        substring(s, a, b)
    } else {
        proof {
            assert(v@.subrange(a as int, b as int).take(width as int) =~= v@.subrange(
                a as int,
                a + width,
            ));
        }
        substring(s, a, a + width)
    }
}

fn fallback_range(s: &str, v: &Vec<char>, a: usize, b: usize, fallback: &str) -> (res: String)
    requires
        v@ == s@,
        a <= b <= v@.len(),
    ensures
        res@ == fallback_if_blank(v@.subrange(a as int, b as int), fallback@),
{
    let (ta, tb) = trim_range(v, a, b);
    if ta == tb {
        fallback.to_owned()
    } else {
        substring(s, ta, tb)
    }
}

fn csv_range(s: &str, v: &Vec<char>, a: usize, b: usize) -> (res: Vec<String>)
    requires
        v@ == s@,
        a <= b <= v@.len(),
    ensures
        views(res@) == csv_fields(v@.subrange(a as int, b as int)),
{
    let parts = split_ranges(v, a, b, ',');
    let ghost pieces = split(v@.subrange(a as int, b as int), ',');
    let ghost trimmed = pieces.map_values(|p: Seq<char>| trim(p));
    let ghost keep = |p: Seq<char>| p.len() > 0;
    let mut res: Vec<String> = Vec::new();
    let mut k: usize = 0;
    while k < parts.len()
        invariant
            v@ == s@,
            a <= b <= v@.len(),
            ranges_within(parts@, a as int, b as int),
            cut(v@, parts@) == pieces,
            trimmed == pieces.map_values(|p: Seq<char>| trim(p)),
            keep == (|p: Seq<char>| p.len() > 0),
            k <= parts@.len(),
            views(res@) == trimmed.take(k as int).filter(keep),
        decreases parts@.len() - k,
    {
        let (pa, pb) = parts[k];
        proof {
            assert(parts@[k as int] == (pa, pb));
            assert(a <= pa <= pb <= b);
            assert(pieces[k as int] == v@.subrange(pa as int, pb as int));
        }
        let (ta, tb) = trim_range(v, pa, pb);
        let ghost before = res@;
        if ta < tb {
            let item = substring(s, ta, tb);
            res.push(item);
            proof {
                assert(views(res@) =~= views(before).push(item@));
            }
        }
        proof {
            assert(trimmed[k as int] == v@.subrange(ta as int, tb as int));
            assert(trimmed.take(k + 1) =~= trimmed.take(k as int).push(trimmed[k as int]));
            trimmed.take(k as int).lemma_filter_push(trimmed[k as int], keep);
        }
        k = k + 1;
    }
    proof {
        assert(trimmed.take(parts@.len() as int) =~= trimmed);
    }
    res
}

fn parse_file_line(s: &str, v: &Vec<char>, a: usize, b: usize) -> (r: Option<FileEntry>)
    requires
        v@ == s@,
        a <= b <= v@.len(),
    ensures
        r matches Some(e) ==> file_line(v@.subrange(a as int, b as int)) == Some(e@),
        r is None ==> file_line(v@.subrange(a as int, b as int)) is None,
{
    let (ta, tb) = trim_range(v, a, b);
    if ta == tb {
        return None;
    }
    let i = find_char(v, ta, tb, ' ');
    let ghost t = v@.subrange(ta as int, tb as int);
    if i < tb {
        proof {
            assert(t.take(i - ta) =~= v@.subrange(ta as int, i as int));
            assert(t.skip(i - ta + 1) =~= v@.subrange(i + 1, tb as int));
        }
        let (sa, sb) = trim_range(v, ta, i);
        let (pa, pb) = trim_range(v, i + 1, tb);
        Some(FileEntry { status: substring(s, sa, sb), path: substring(s, pa, pb) })
    } else {
        let (sa, sb) = trim_range(v, ta, tb);
        Some(FileEntry { status: substring(s, sa, sb), path: String::new() })
    }
}

fn find_char(v: &Vec<char>, start: usize, end: usize, c: char) -> (r: usize)
    requires
        start <= end <= v@.len(),
    ensures
        start <= r <= end,
        r - start == first_index(v@.subrange(start as int, end as int), c),
{
    crate::text::find_char(v, start, end, c)
}

fn parse_revision_line(s: &str, v: &Vec<char>, a: usize, b: usize) -> (r: Option<RevisionEntry>)
    requires
        v@ == s@,
        a <= b <= v@.len(),
    ensures
        r matches Some(e) ==> revision_line(v@.subrange(a as int, b as int)) == Some(e@),
        r is None ==> revision_line(v@.subrange(a as int, b as int)) is None,
{
    let parts = split_ranges(v, a, b, FIELD_SEP);
    let ghost pieces = split(v@.subrange(a as int, b as int), FIELD_SEP);
    if parts.len() < 7 {
        return None;
    }
    proof {
        assert forall|k: int| 0 <= k < 7 implies pieces[k] == v@.subrange(
            (#[trigger] parts@[k]).0 as int,
            parts@[k].1 as int,
        ) && a <= parts@[k].0 <= parts@[k].1 <= b by {
            assert(cut(v@, parts@)[k] == v@.subrange(parts@[k].0 as int, parts@[k].1 as int));
        }
    }
    let e = RevisionEntry {
        commit_id: shorten_range(s, v, parts[0].0, parts[0].1, 12),
        change_id: shorten_range(s, v, parts[1].0, parts[1].1, 12),
        author: substring(s, parts[2].0, parts[2].1),
        timestamp: substring(s, parts[3].0, parts[3].1),
        bookmarks: csv_range(s, v, parts[4].0, parts[4].1),
        description: fallback_range(s, v, parts[5].0, parts[5].1, "(empty description)"),
        is_working_copy: range_eq(v, parts[6].0, parts[6].1, "true"),
    };
    proof {
        assert(e@ == revision_line(v@.subrange(a as int, b as int))->0);
    }
    Some(e)
}

fn parse_bookmark_line(s: &str, v: &Vec<char>, a: usize, b: usize) -> (r: Option<BookmarkEntry>)
    requires
        v@ == s@,
        a <= b <= v@.len(),
    ensures
        r matches Some(e) ==> bookmark_line(v@.subrange(a as int, b as int)) == Some(e@),
        r is None ==> bookmark_line(v@.subrange(a as int, b as int)) is None,
{
    let parts = split_ranges(v, a, b, FIELD_SEP);
    let ghost pieces = split(v@.subrange(a as int, b as int), FIELD_SEP);
    if parts.len() < 3 {
        return None;
    }
    proof {
        assert forall|k: int| 0 <= k < 3 implies pieces[k] == v@.subrange(
            (#[trigger] parts@[k]).0 as int,
            parts@[k].1 as int,
        ) && a <= parts@[k].0 <= parts@[k].1 <= b by {
            assert(cut(v@, parts@)[k] == v@.subrange(parts@[k].0 as int, parts@[k].1 as int));
        }
    }
    Some(
        BookmarkEntry {
            name: substring(s, parts[0].0, parts[0].1),
            kind: substring(s, parts[1].0, parts[1].1),
            target: shorten_range(s, v, parts[2].0, parts[2].1, 12),
        },
    )
}

fn parse_operation_line(s: &str, v: &Vec<char>, a: usize, b: usize) -> (r: Option<OperationEntry>)
    requires
        v@ == s@,
        a <= b <= v@.len(),
    ensures
        r matches Some(e) ==> operation_line(v@.subrange(a as int, b as int)) == Some(e@),
        r is None ==> operation_line(v@.subrange(a as int, b as int)) is None,
{
    let parts = split_ranges(v, a, b, FIELD_SEP);
    let ghost pieces = split(v@.subrange(a as int, b as int), FIELD_SEP);
    if parts.len() < 5 {
        return None;
    }
    proof {
        assert forall|k: int| 0 <= k < 5 implies pieces[k] == v@.subrange(
            (#[trigger] parts@[k]).0 as int,
            parts@[k].1 as int,
        ) && a <= parts@[k].0 <= parts@[k].1 <= b by {
            assert(cut(v@, parts@)[k] == v@.subrange(parts@[k].0 as int, parts@[k].1 as int));
        }
    }
    let e = OperationEntry {
        id: shorten_range(s, v, parts[0].0, parts[0].1, 14),
        is_current: range_eq(v, parts[1].0, parts[1].1, "true"),
        user: substring(s, parts[2].0, parts[2].1),
        timestamp: substring(s, parts[3].0, parts[3].1),
        description: fallback_range(s, v, parts[4].0, parts[4].1, "(no description)"),
    };
    proof {
        assert(e@ == operation_line(v@.subrange(a as int, b as int))->0);
    }
    Some(e)
}

/// The changed files that `jj diff --summary` printed.
pub fn parse_changed_files(stdout: &str) -> (res: Vec<FileEntry>)
    ensures
        res@.map_values(|e: FileEntry| e@) == lines(stdout@).filter_map(
            |l: Seq<char>| file_line(l),
        ),
{
    let v = chars_of(stdout);
    let rs = line_ranges(&v);
    let ghost ls = lines(v@);
    let ghost f = |l: Seq<char>| file_line(l);
    let mut res: Vec<FileEntry> = Vec::new();
    let mut i: usize = 0;
    while i < rs.len()
        invariant
            v@ == stdout@,
            ranges_within(rs@, 0, v@.len() as int),
            cut(v@, rs@) == ls,
            ls == lines(v@),
            f == (|l: Seq<char>| file_line(l)),
            i <= rs@.len(),
            res@.map_values(|e: FileEntry| e@) == ls.take(i as int).filter_map(f),
        decreases rs@.len() - i,
    {
        let (a, b) = rs[i];
        proof {
            assert(rs@[i as int] == (a, b));
            assert(ls[i as int] == v@.subrange(a as int, b as int));
            ls.lemma_filter_map_take_succ(f, i as int);
        }
        let ghost before = res@;
        match parse_file_line(stdout, &v, a, b) {
            Some(e) => {
                res.push(e);
                proof {
                    assert(res@.map_values(|e: FileEntry| e@) =~= before.map_values(
                        |e: FileEntry| e@,
                    ) + seq![e@]);
                }
            },
            None => {},
        }
        i = i + 1;
    }
    proof {
        assert(ls.take(rs@.len() as int) =~= ls);
    }
    res
}

/// The revisions that the revision template printed.
pub fn parse_revisions(stdout: &str) -> (res: Vec<RevisionEntry>)
    ensures
        res@.map_values(|e: RevisionEntry| e@) == lines(stdout@).filter_map(
            |l: Seq<char>| revision_line(l),
        ),
{
    let v = chars_of(stdout);
    let rs = line_ranges(&v);
    let ghost ls = lines(v@);
    let ghost f = |l: Seq<char>| revision_line(l);
    let mut res: Vec<RevisionEntry> = Vec::new();
    let mut i: usize = 0;
    while i < rs.len()
        invariant
            v@ == stdout@,
            ranges_within(rs@, 0, v@.len() as int),
            cut(v@, rs@) == ls,
            ls == lines(v@),
            f == (|l: Seq<char>| revision_line(l)),
            i <= rs@.len(),
            res@.map_values(|e: RevisionEntry| e@) == ls.take(i as int).filter_map(f),
        decreases rs@.len() - i,
    {
        let (a, b) = rs[i];
        proof {
            assert(rs@[i as int] == (a, b));
            assert(ls[i as int] == v@.subrange(a as int, b as int));
            ls.lemma_filter_map_take_succ(f, i as int);
        }
        let ghost before = res@;
        match parse_revision_line(stdout, &v, a, b) {
            Some(e) => {
                let ghost ev = e@;
                res.push(e);
                proof {
                    assert(res@.map_values(|e: RevisionEntry| e@) =~= before.map_values(
                        |e: RevisionEntry| e@,
                    ) + seq![ev]);
                }
            },
            None => {},
        }
        i = i + 1;
    }
    proof {
        assert(ls.take(rs@.len() as int) =~= ls);
    }
    res
}

/// The bookmarks that the bookmark template printed.
pub fn parse_bookmarks(stdout: &str) -> (res: Vec<BookmarkEntry>)
    ensures
        res@.map_values(|e: BookmarkEntry| e@) == lines(stdout@).filter_map(
            |l: Seq<char>| bookmark_line(l),
        ),
{
    let v = chars_of(stdout);
    let rs = line_ranges(&v);
    let ghost ls = lines(v@);
    let ghost f = |l: Seq<char>| bookmark_line(l);
    let mut res: Vec<BookmarkEntry> = Vec::new();
    let mut i: usize = 0;
    while i < rs.len()
        invariant
            v@ == stdout@,
            ranges_within(rs@, 0, v@.len() as int),
            cut(v@, rs@) == ls,
            ls == lines(v@),
            f == (|l: Seq<char>| bookmark_line(l)),
            i <= rs@.len(),
            res@.map_values(|e: BookmarkEntry| e@) == ls.take(i as int).filter_map(f),
        decreases rs@.len() - i,
    {
        let (a, b) = rs[i];
        proof {
            assert(rs@[i as int] == (a, b));
            assert(ls[i as int] == v@.subrange(a as int, b as int));
            ls.lemma_filter_map_take_succ(f, i as int);
        }
        let ghost before = res@;
        match parse_bookmark_line(stdout, &v, a, b) {
            Some(e) => {
                let ghost ev = e@;
                res.push(e);
                proof {
                    assert(res@.map_values(|e: BookmarkEntry| e@) =~= before.map_values(
                        |e: BookmarkEntry| e@,
                    ) + seq![ev]);
                }
            },
            None => {},
        }
        i = i + 1;
    }
    proof {
        assert(ls.take(rs@.len() as int) =~= ls);
    }
    res
}

/// The operations that the operation template printed.
pub fn parse_operations(stdout: &str) -> (res: Vec<OperationEntry>)
    ensures
        res@.map_values(|e: OperationEntry| e@) == lines(stdout@).filter_map(
            |l: Seq<char>| operation_line(l),
        ),
{
    let v = chars_of(stdout);
    let rs = line_ranges(&v);
    let ghost ls = lines(v@);
    let ghost f = |l: Seq<char>| operation_line(l);
    let mut res: Vec<OperationEntry> = Vec::new();
    let mut i: usize = 0;
    while i < rs.len()
        invariant
            v@ == stdout@,
            ranges_within(rs@, 0, v@.len() as int),
            cut(v@, rs@) == ls,
            ls == lines(v@),
            f == (|l: Seq<char>| operation_line(l)),
            i <= rs@.len(),
            res@.map_values(|e: OperationEntry| e@) == ls.take(i as int).filter_map(f),
        decreases rs@.len() - i,
    {
        let (a, b) = rs[i];
        proof {
            assert(rs@[i as int] == (a, b));
            assert(ls[i as int] == v@.subrange(a as int, b as int));
            ls.lemma_filter_map_take_succ(f, i as int);
        }
        let ghost before = res@;
        match parse_operation_line(stdout, &v, a, b) {
            Some(e) => {
                let ghost ev = e@;
                res.push(e);
                proof {
                    assert(res@.map_values(|e: OperationEntry| e@) =~= before.map_values(
                        |e: OperationEntry| e@,
                    ) + seq![ev]);
                }
            },
            None => {},
        }
        i = i + 1;
    }
    proof {
        assert(ls.take(rs@.len() as int) =~= ls);
    }
    res
}

fn classify_range(v: &Vec<char>, a: usize, b: usize) -> (k: DiffKind)
    requires
        a <= b <= v@.len(),
    ensures
        k == classify(v@.subrange(a as int, b as int)),
{
    let ghost line = v@.subrange(a as int, b as int);
    proof {
        if a < b {
            assert(line[0] == v@[a as int]);
        }
    }
    if range_starts_with(v, a, b, "diff --git") || range_starts_with(v, a, b, "commit ") {
        DiffKind::Header
    } else if range_starts_with(v, a, b, "@@") {
        DiffKind::Hunk
    } else if range_starts_with(v, a, b, "+++") || range_starts_with(v, a, b, "---")
        || range_starts_with(v, a, b, "index ") || range_starts_with(v, a, b, "new file")
        || range_starts_with(v, a, b, "deleted file") || range_starts_with(v, a, b, "Author:")
        || range_starts_with(v, a, b, "Change ID:") || range_starts_with(v, a, b, "Commit ID:") {
        DiffKind::Meta
    } else if a < b && v[a] == '+' && !range_starts_with(v, a, b, "+++") {
        DiffKind::Addition
    } else if a < b && v[a] == '-' && !range_starts_with(v, a, b, "---") {
        DiffKind::Removal
    } else {
        DiffKind::Context
    }
}

/// The lines of a diff, each with how it is shown; a single note when the
/// text is blank.
pub fn parse_diff(text: &str) -> (res: Vec<DiffLine>)
    ensures
        res@.map_values(|d: DiffLine| d@) == diff_view(text@),
{
    let v = chars_of(text);
    if is_blank(&v, 0, v.len()) {
        proof {
            assert(v@.subrange(0, v@.len() as int) =~= v@);
        }
        let note = DiffLine { kind: DiffKind::Note, text: String::from_str("No diff to display.") };
        let mut res: Vec<DiffLine> = Vec::new();
        res.push(note);
        proof {
            assert(res@.map_values(|d: DiffLine| d@) =~= diff_view(text@));
        }
        return res;
    }
    proof {
        assert(v@.subrange(0, v@.len() as int) =~= v@);
    }
    let rs = line_ranges(&v);
    let ghost ls = lines(v@);
    let ghost f = |l: Seq<char>| (classify(l), l);
    let mut res: Vec<DiffLine> = Vec::new();
    let mut i: usize = 0;
    while i < rs.len()
        invariant
            v@ == text@,
            ranges_within(rs@, 0, v@.len() as int),
            cut(v@, rs@) == ls,
            ls == lines(v@),
            f == (|l: Seq<char>| (classify(l), l)),
            i <= rs@.len(),
            res@.map_values(|d: DiffLine| d@) == ls.take(i as int).map_values(f),
        decreases rs@.len() - i,
    {
        let (a, b) = rs[i];
        proof {
            assert(rs@[i as int] == (a, b));
            assert(ls[i as int] == v@.subrange(a as int, b as int));
        }
        let ghost before = res@;
        let line = DiffLine { kind: classify_range(&v, a, b), text: substring(text, a, b) };
        let ghost lv = line@;
        res.push(line);
        proof {
            assert(res@.map_values(|d: DiffLine| d@) =~= ls.take(i + 1).map_values(f)) by {
                assert(res@.map_values(|d: DiffLine| d@) =~= before.map_values(|d: DiffLine| d@)
                    + seq![lv]);
                assert(ls.take(i + 1).map_values(f) =~= ls.take(i as int).map_values(f) + seq![
                    f(ls[i as int]),
                ]);
            }
        }
        i = i + 1;
    }
    proof {
        assert(ls.take(rs@.len() as int) =~= ls);
    }
    res
}

/// The non-empty lines of `jj status`, without trailing whitespace.
pub fn status_summary(stdout: &str) -> (res: Vec<String>)
    ensures
        views(res@) == status_summary_view(stdout@),
{
    let v = chars_of(stdout);
    let rs = line_ranges(&v);
    let ghost ls = lines(v@);
    let ghost m = ls.map_values(|l: Seq<char>| trim_end(l));
    let ghost keep = |l: Seq<char>| l.len() > 0;
    let mut res: Vec<String> = Vec::new();
    let mut i: usize = 0;
    while i < rs.len()
        invariant
            v@ == stdout@,
            ranges_within(rs@, 0, v@.len() as int),
            cut(v@, rs@) == ls,
            ls == lines(v@),
            m == ls.map_values(|l: Seq<char>| trim_end(l)),
            keep == (|l: Seq<char>| l.len() > 0),
            i <= rs@.len(),
            views(res@) == m.take(i as int).filter(keep),
        decreases rs@.len() - i,
    {
        let (a, b) = rs[i];
        proof {
            assert(rs@[i as int] == (a, b));
            assert(ls[i as int] == v@.subrange(a as int, b as int));
        }
        let e = trim_end_range(&v, a, b);
        let ghost before = res@;
        if a < e {
            let item = substring(stdout, a, e);
            res.push(item);
            proof {
                assert(views(res@) =~= views(before).push(item@));
            }
        }
        proof {
            assert(m[i as int] == v@.subrange(a as int, e as int));
            assert(m.take(i + 1) =~= m.take(i as int).push(m[i as int]));
            m.take(i as int).lemma_filter_push(m[i as int], keep);
        }
        i = i + 1;
    }
    proof {
        assert(m.take(rs@.len() as int) =~= m);
    }
    res
}

/// The arguments of a failed command joined with spaces, and its trimmed error output.
pub open spec fn is_failure(e: JjError, args: Seq<Seq<char>>, stderr: Seq<char>) -> bool {
    e matches JjError::CommandFailed { command, stderr: msg } && command@ == join(args, " "@)
        && msg@ == trim(stderr)
}

/// What a query over `args` makes of `out`: its output when it succeeded, else
/// the failure of `args` with the trimmed error output.
pub open spec fn outcome_ok(
    r: Result<CommandOutput, JjError>,
    args: Seq<Seq<char>>,
    out: ProcessOutput,
) -> bool {
    &&& out.success ==> (r matches Ok(o) && o.stdout == out.stdout && o.stderr == out.stderr)
    &&& !out.success ==> (r matches Err(e) && is_failure(e, args, out.stderr@))
}

pub open spec fn status_args() -> Seq<Seq<char>> {
    seq!["status"@]
}

pub open spec fn changed_files_args() -> Seq<Seq<char>> {
    seq!["diff"@, "--summary"@]
}

pub open spec fn changed_files_for_revision_args(revset: Seq<char>) -> Seq<Seq<char>> {
    seq!["diff"@, "--summary"@, "-r"@, revset]
}

pub open spec fn revisions_args() -> Seq<Seq<char>> {
    seq!["log"@, "-n"@, "32"@, "--no-graph"@, "-T"@, template_view(revision_fields())]
}

pub open spec fn bookmarks_args() -> Seq<Seq<char>> {
    seq!["bookmark"@, "list"@, "-T"@, template_view(bookmark_fields())]
}

pub open spec fn operations_args() -> Seq<Seq<char>> {
    seq!["op"@, "log"@, "-n"@, "24"@, "--no-graph"@, "-T"@, template_view(operation_fields())]
}

pub open spec fn diff_for_path_args(path: Seq<char>) -> Seq<Seq<char>> {
    seq!["diff"@, "--git"@, path]
}

pub open spec fn diff_for_revision_args(revset: Seq<char>) -> Seq<Seq<char>> {
    seq!["show"@, revset, "--git"@]
}

pub open spec fn diff_for_revision_path_args(revset: Seq<char>, path: Seq<char>) -> Seq<
    Seq<char>,
> {
    seq!["diff"@, "--git"@, "-r"@, revset, path]
}

pub open spec fn diff_for_operation_args(op_id: Seq<char>) -> Seq<Seq<char>> {
    seq!["op"@, "show"@, op_id]
}

pub open spec fn git_push_args(bookmark: Option<Seq<char>>) -> Seq<Seq<char>> {
    match bookmark {
        Some(name) => seq!["git"@, "push"@, "--bookmark"@, name],
        None => seq!["git"@, "push"@],
    }
}

pub open spec fn git_fetch_args() -> Seq<Seq<char>> {
    seq!["git"@, "fetch"@]
}

/// The diff that a snapshot opens with: the first changed file's, else the
/// working-copy revision's.
pub open spec fn snapshot_diff_args(files: Seq<FileEntry>) -> Seq<Seq<char>> {
    if files.len() == 0 {
        diff_for_revision_args("@"@)
    } else {
        diff_for_path_args(files[0].path@)
    }
}

fn strs(parts: &[&str]) -> (res: Vec<String>)
    ensures
        views(res@) == parts@.map_values(|p: &str| p@),
{
    to_strings(parts)
}

fn push_str(v: &mut Vec<String>, s: &str)
    ensures
        views(final(v)@) == views(old(v)@).push(s@),
{
    let ghost before = v@;
    v.push(s.to_owned());
    proof {
        assert(views(v@) =~= views(before).push(s@));
    }
}

/// A `jj` client bound to a repository root.
pub struct JjClient {
    root: String,
}

impl JjClient {
    /// The repository root that commands run in.
    pub closed spec fn root_view(&self) -> Seq<char> {
        self.root@
    }

    pub fn root(&self) -> (r: &str)
        ensures
            r@ == self.root_view(),
    {
        self.root.as_str()
    }

    /// `jj root`, run in `cwd`, finds the repository.
    pub fn discover_command(cwd: &str) -> (r: JjInvocation)
        ensures
            views(r.args@) == seq!["root"@],
            r.dir@ == cwd@,
    {
        let args = strs(&["root"]);
        proof {
            assert(views(args@) =~= seq!["root"@]);
        }
        JjInvocation { args, dir: cwd.to_owned() }
    }

    /// The client for the repository that `jj root` printed, or why there is none.
    pub fn discover(cwd: &str, out: ProcessOutput) -> (r: Result<JjClient, JjError>)
        ensures
            out.success ==> (r matches Ok(c) && c.root_view() == trim(out.stdout@)),
            !out.success ==> (r matches Err(JjError::NoRepository { cwd: d, stderr: e }) && d@
                == cwd@ && e@ == trim(out.stderr@)),
    {
        if !out.success {
            return Err(JjError::NoRepository { cwd: cwd.to_owned(), stderr: trimmed(&out.stderr) });
        }
        Ok(JjClient { root: trimmed(&out.stdout) })
    }

    /// The process that runs `jj` with `args` (and the query flags) in the root.
    pub fn command(&self, args: &Vec<String>) -> (r: JjInvocation)
        ensures
            views(r.args@) == with_query_flags(views(args@)),
            r.dir@ == self.root_view(),
    {
        let mut all: Vec<String> = Vec::new();
        let mut i: usize = 0;
        while i < args.len()
            invariant
                i <= args@.len(),
                views(all@) == views(args@).take(i as int),
            decreases args@.len() - i,
        {
            push_str(&mut all, args[i].as_str());
            proof {
                assert(views(args@).take(i + 1) =~= views(args@).take(i as int).push(
                    args@[i as int]@,
                ));
            }
            i = i + 1;
        }
        proof {
            assert(views(args@).take(args@.len() as int) =~= views(args@));
        }
        push_str(&mut all, "--color=never");
        push_str(&mut all, "--no-pager");
        proof {
            assert(views(all@) =~= with_query_flags(views(args@)));
        }
        JjInvocation { args: all, dir: self.root.clone() }
    }

    /// What the run of `jj` with `args` means: its output when it succeeded,
    /// else the failure naming the command and its error output.
    pub fn outcome(args: &Vec<String>, out: ProcessOutput) -> (r: Result<CommandOutput, JjError>)
        ensures
            outcome_ok(r, views(args@), out),
    {
        if out.success {
            Ok(CommandOutput { stdout: out.stdout, stderr: out.stderr })
        } else {
            let command = join_strings(args, " ");
            Err(JjError::CommandFailed { command, stderr: trimmed(&out.stderr) })
        }
    }

    pub fn status_command(&self) -> (r: JjInvocation)
        ensures
            views(r.args@) == with_query_flags(status_args()),
            r.dir@ == self.root_view(),
    {
        let args = strs(&["status"]);
        proof {
            assert(views(args@) =~= status_args());
        }
        self.command(&args)
    }

    /// The output of `jj status`, or why it failed.
    pub fn status(&self, out: ProcessOutput) -> (r: Result<CommandOutput, JjError>)
        ensures
            outcome_ok(r, status_args(), out),
    {
        let args = strs(&["status"]);
        proof {
            assert(views(args@) =~= status_args());
        }
        Self::outcome(&args, out)
    }

    /// The snapshot of the repository assembled from the queries' results.
    pub fn snapshot(
        &self,
        status: &CommandOutput,
        files: Vec<FileEntry>,
        revisions: Vec<RevisionEntry>,
        bookmarks: Vec<BookmarkEntry>,
        operations: Vec<OperationEntry>,
        initial_diff: Vec<DiffLine>,
    ) -> (r: RepoSnapshot)
        ensures
            r.root@ == self.root_view(),
            views(r.status_summary@) == status_summary_view(status.stdout@),
            r.files == files,
            r.revisions == revisions,
            r.bookmarks == bookmarks,
            r.operations == operations,
            r.initial_diff == initial_diff,
    {
        RepoSnapshot {
            root: self.root.clone(),
            status_summary: status_summary(status.stdout.as_str()),
            files,
            revisions,
            bookmarks,
            operations,
            initial_diff,
        }
    }

    /// The diff that a snapshot opens with.
    pub fn snapshot_diff_command(&self, files: &Vec<FileEntry>) -> (r: JjInvocation)
        ensures
            views(r.args@) == with_query_flags(snapshot_diff_args(files@)),
            r.dir@ == self.root_view(),
    {
        if files.len() == 0 {
            self.diff_for_revision_command("@")
        } else {
            self.diff_for_path_command(files[0].path.as_str())
        }
    }

    /// The opening diff of a snapshot, or why its command failed.
    pub fn snapshot_diff(&self, files: &Vec<FileEntry>, out: ProcessOutput) -> (r: Result<
        Vec<DiffLine>,
        JjError,
    >)
        ensures
            out.success ==> (r matches Ok(d) && d@.map_values(|l: DiffLine| l@) == diff_view(
                out.stdout@,
            )),
            !out.success ==> (r matches Err(e) && is_failure(
                e,
                snapshot_diff_args(files@),
                out.stderr@,
            )),
    {
        if files.len() == 0 {
            self.diff_for_revision("@", out)
        } else {
            self.diff_for_path(files[0].path.as_str(), out)
        }
    }

    pub fn diff_for_path_command(&self, path: &str) -> (r: JjInvocation)
        ensures
            views(r.args@) == with_query_flags(diff_for_path_args(path@)),
            r.dir@ == self.root_view(),
    {
        let args = diff_path_args(path);
        self.command(&args)
    }

    /// The diff of one file of the working copy, or why `jj diff` failed.
    pub fn diff_for_path(&self, path: &str, out: ProcessOutput) -> (r: Result<
        Vec<DiffLine>,
        JjError,
    >)
        ensures
            out.success ==> (r matches Ok(d) && d@.map_values(|l: DiffLine| l@) == diff_view(
                out.stdout@,
            )),
            !out.success ==> (r matches Err(e) && is_failure(e, diff_for_path_args(path@), out.stderr@)),
    {
        let args = diff_path_args(path);
        diff_outcome(&args, out)
    }

    pub fn diff_for_revision_command(&self, revset: &str) -> (r: JjInvocation)
        ensures
            views(r.args@) == with_query_flags(diff_for_revision_args(revset@)),
            r.dir@ == self.root_view(),
    {
        let args = diff_revision_args(revset);
        self.command(&args)
    }

    /// The diff of a revision, or why `jj show` failed.
    pub fn diff_for_revision(&self, revset: &str, out: ProcessOutput) -> (r: Result<
        Vec<DiffLine>,
        JjError,
    >)
        ensures
            out.success ==> (r matches Ok(d) && d@.map_values(|l: DiffLine| l@) == diff_view(
                out.stdout@,
            )),
            !out.success ==> (r matches Err(e) && is_failure(
                e,
                diff_for_revision_args(revset@),
                out.stderr@,
            )),
    {
        let args = diff_revision_args(revset);
        diff_outcome(&args, out)
    }

    pub fn diff_for_revision_path_command(&self, revset: &str, path: &str) -> (r: JjInvocation)
        ensures
            views(r.args@) == with_query_flags(diff_for_revision_path_args(revset@, path@)),
            r.dir@ == self.root_view(),
    {
        let args = diff_revision_path_args(revset, path);
        self.command(&args)
    }

    /// The diff of one file of a revision, or why `jj diff` failed.
    pub fn diff_for_revision_path(&self, revset: &str, path: &str, out: ProcessOutput) -> (r:
        Result<Vec<DiffLine>, JjError>)
        ensures
            out.success ==> (r matches Ok(d) && d@.map_values(|l: DiffLine| l@) == diff_view(
                out.stdout@,
            )),
            !out.success ==> (r matches Err(e) && is_failure(
                e,
                diff_for_revision_path_args(revset@, path@),
                out.stderr@,
            )),
    {
        let args = diff_revision_path_args(revset, path);
        diff_outcome(&args, out)
    }

    pub fn diff_for_operation_command(&self, op_id: &str) -> (r: JjInvocation)
        ensures
            views(r.args@) == with_query_flags(diff_for_operation_args(op_id@)),
            r.dir@ == self.root_view(),
    {
        let args = diff_operation_args(op_id);
        self.command(&args)
    }

    /// What an operation changed, or why `jj op show` failed.
    pub fn diff_for_operation(&self, op_id: &str, out: ProcessOutput) -> (r: Result<
        Vec<DiffLine>,
        JjError,
    >)
        ensures
            out.success ==> (r matches Ok(d) && d@.map_values(|l: DiffLine| l@) == diff_view(
                out.stdout@,
            )),
            !out.success ==> (r matches Err(e) && is_failure(
                e,
                diff_for_operation_args(op_id@),
                out.stderr@,
            )),
    {
        let args = diff_operation_args(op_id);
        diff_outcome(&args, out)
    }

    pub fn git_push_command(&self, bookmark: Option<&str>) -> (r: JjInvocation)
        ensures
            views(r.args@) == with_query_flags(
                git_push_args(
                    match bookmark {
                        Some(b) => Some(b@),
                        None => None,
                    },
                ),
            ),
            r.dir@ == self.root_view(),
    {
        let args = push_args(bookmark);
        self.command(&args)
    }

    /// The output of `jj git push`, or why it failed.
    pub fn git_push(&self, bookmark: Option<&str>, out: ProcessOutput) -> (r: Result<
        CommandOutput,
        JjError,
    >)
        ensures
            outcome_ok(
                r,
                git_push_args(
                    match bookmark {
                        Some(b) => Some(b@),
                        None => None,
                    },
                ),
                out,
            ),
    {
        let args = push_args(bookmark);
        Self::outcome(&args, out)
    }

    pub fn git_fetch_command(&self) -> (r: JjInvocation)
        ensures
            views(r.args@) == with_query_flags(git_fetch_args()),
            r.dir@ == self.root_view(),
    {
        let args = strs(&["git", "fetch"]);
        proof {
            assert(views(args@) =~= git_fetch_args());
        }
        self.command(&args)
    }

    /// The output of `jj git fetch`, or why it failed.
    pub fn git_fetch(&self, out: ProcessOutput) -> (r: Result<CommandOutput, JjError>)
        ensures
            outcome_ok(r, git_fetch_args(), out),
    {
        let args = strs(&["git", "fetch"]);
        proof {
            assert(views(args@) =~= git_fetch_args());
        }
        Self::outcome(&args, out)
    }

    pub fn run_mutation_command(&self, args: &Vec<String>) -> (r: JjInvocation)
        ensures
            views(r.args@) == with_query_flags(views(args@)),
            r.dir@ == self.root_view(),
    {
        self.command(args)
    }

    /// The output of a command that changes the repository, or why it failed.
    pub fn run_mutation(&self, args: &Vec<String>, out: ProcessOutput) -> (r: Result<
        CommandOutput,
        JjError,
    >)
        ensures
            outcome_ok(r, views(args@), out),
    {
        Self::outcome(args, out)
    }

    pub fn changed_files_command(&self) -> (r: JjInvocation)
        ensures
            views(r.args@) == with_query_flags(changed_files_args()),
            r.dir@ == self.root_view(),
    {
        let args = strs(&["diff", "--summary"]);
        proof {
            assert(views(args@) =~= changed_files_args());
        }
        self.command(&args)
    }

    /// The files that the working copy changes, or why `jj diff --summary` failed.
    pub fn changed_files(&self, out: ProcessOutput) -> (r: Result<Vec<FileEntry>, JjError>)
        ensures
            out.success ==> (r matches Ok(fs) && fs@.map_values(|e: FileEntry| e@)
                == lines(out.stdout@).filter_map(|l: Seq<char>| file_line(l))),
            !out.success ==> (r matches Err(e) && is_failure(e, changed_files_args(), out.stderr@)),
    {
        let args = strs(&["diff", "--summary"]);
        proof {
            assert(views(args@) =~= changed_files_args());
        }
        match Self::outcome(&args, out) {
            Ok(o) => Ok(parse_changed_files(o.stdout.as_str())),
            Err(e) => Err(e),
        }
    }

    pub fn changed_files_for_revision_command(&self, revset: &str) -> (r: JjInvocation)
        ensures
            views(r.args@) == with_query_flags(changed_files_for_revision_args(revset@)),
            r.dir@ == self.root_view(),
    {
        let args = revision_files_args(revset);
        self.command(&args)
    }

    /// The files that a revision changes, or why `jj diff --summary -r` failed.
    pub fn changed_files_for_revision(&self, revset: &str, out: ProcessOutput) -> (r: Result<
        Vec<FileEntry>,
        JjError,
    >)
        ensures
            out.success ==> (r matches Ok(fs) && fs@.map_values(|e: FileEntry| e@)
                == lines(out.stdout@).filter_map(|l: Seq<char>| file_line(l))),
            !out.success ==> (r matches Err(e) && is_failure(
                e,
                changed_files_for_revision_args(revset@),
                out.stderr@,
            )),
    {
        let args = revision_files_args(revset);
        match Self::outcome(&args, out) {
            Ok(o) => Ok(parse_changed_files(o.stdout.as_str())),
            Err(e) => Err(e),
        }
    }

    pub fn revisions_command(&self) -> (r: JjInvocation)
        ensures
            views(r.args@) == with_query_flags(revisions_args()),
            r.dir@ == self.root_view(),
    {
        let args = log_args();
        self.command(&args)
    }

    /// The recent revisions, or why `jj log` failed.
    pub fn revisions(&self, out: ProcessOutput) -> (r: Result<Vec<RevisionEntry>, JjError>)
        ensures
            out.success ==> (r matches Ok(rs) && rs@.map_values(|e: RevisionEntry| e@)
                == lines(out.stdout@).filter_map(|l: Seq<char>| revision_line(l))),
            !out.success ==> (r matches Err(e) && is_failure(e, revisions_args(), out.stderr@)),
    {
        let args = log_args();
        match Self::outcome(&args, out) {
            Ok(o) => Ok(parse_revisions(o.stdout.as_str())),
            Err(e) => Err(e),
        }
    }

    pub fn bookmarks_command(&self) -> (r: JjInvocation)
        ensures
            views(r.args@) == with_query_flags(bookmarks_args()),
            r.dir@ == self.root_view(),
    {
        let args = bookmark_list_args();
        self.command(&args)
    }

    /// The bookmarks, or why `jj bookmark list` failed.
    pub fn bookmarks(&self, out: ProcessOutput) -> (r: Result<Vec<BookmarkEntry>, JjError>)
        ensures
            out.success ==> (r matches Ok(bs) && bs@.map_values(|e: BookmarkEntry| e@)
                == lines(out.stdout@).filter_map(|l: Seq<char>| bookmark_line(l))),
            !out.success ==> (r matches Err(e) && is_failure(e, bookmarks_args(), out.stderr@)),
    {
        let args = bookmark_list_args();
        match Self::outcome(&args, out) {
            Ok(o) => Ok(parse_bookmarks(o.stdout.as_str())),
            Err(e) => Err(e),
        }
    }

    pub fn operations_command(&self) -> (r: JjInvocation)
        ensures
            views(r.args@) == with_query_flags(operations_args()),
            r.dir@ == self.root_view(),
    {
        let args = op_log_args();
        self.command(&args)
    }

    /// The recent operations, or why `jj op log` failed.
    pub fn operations(&self, out: ProcessOutput) -> (r: Result<Vec<OperationEntry>, JjError>)
        ensures
            out.success ==> (r matches Ok(os) && os@.map_values(|e: OperationEntry| e@)
                == lines(out.stdout@).filter_map(|l: Seq<char>| operation_line(l))),
            !out.success ==> (r matches Err(e) && is_failure(e, operations_args(), out.stderr@)),
    {
        let args = op_log_args();
        match Self::outcome(&args, out) {
            Ok(o) => Ok(parse_operations(o.stdout.as_str())),
            Err(e) => Err(e),
        }
    }
}

fn trimmed(s: &String) -> (r: String)
    ensures
        r@ == trim(s@),
{
    let v = chars_of(s.as_str());
    let (a, b) = trim_range(&v, 0, v.len());
    proof {
        assert(v@.subrange(0, v@.len() as int) =~= v@);
    }
    substring(s.as_str(), a, b)
}

fn diff_outcome(args: &Vec<String>, out: ProcessOutput) -> (r: Result<Vec<DiffLine>, JjError>)
    ensures
        out.success ==> (r matches Ok(d) && d@.map_values(|l: DiffLine| l@) == diff_view(
            out.stdout@,
        )),
        !out.success ==> (r matches Err(e) && is_failure(e, views(args@), out.stderr@)),
{
    match JjClient::outcome(args, out) {
        Ok(o) => Ok(parse_diff(o.stdout.as_str())),
        Err(e) => Err(e),
    }
}

fn diff_path_args(path: &str) -> (r: Vec<String>)
    ensures
        views(r@) == diff_for_path_args(path@),
{
    let mut args = strs(&["diff", "--git"]);
    push_str(&mut args, path);
    proof {
        assert(views(args@) =~= diff_for_path_args(path@));
    }
    args
}

fn diff_revision_args(revset: &str) -> (r: Vec<String>)
    ensures
        views(r@) == diff_for_revision_args(revset@),
{
    let mut args = strs(&["show"]);
    push_str(&mut args, revset);
    push_str(&mut args, "--git");
    proof {
        assert(views(args@) =~= diff_for_revision_args(revset@));
    }
    args
}

fn diff_revision_path_args(revset: &str, path: &str) -> (r: Vec<String>)
    ensures
        views(r@) == diff_for_revision_path_args(revset@, path@),
{
    let mut args = strs(&["diff", "--git", "-r"]);
    push_str(&mut args, revset);
    push_str(&mut args, path);
    proof {
        assert(views(args@) =~= diff_for_revision_path_args(revset@, path@));
    }
    args
}

fn diff_operation_args(op_id: &str) -> (r: Vec<String>)
    ensures
        views(r@) == diff_for_operation_args(op_id@),
{
    let mut args = strs(&["op", "show"]);
    push_str(&mut args, op_id);
    proof {
        assert(views(args@) =~= diff_for_operation_args(op_id@));
    }
    args
}

fn revision_files_args(revset: &str) -> (r: Vec<String>)
    ensures
        views(r@) == changed_files_for_revision_args(revset@),
{
    let mut args = strs(&["diff", "--summary", "-r"]);
    push_str(&mut args, revset);
    proof {
        assert(views(args@) =~= changed_files_for_revision_args(revset@));
    }
    args
}

fn push_args(bookmark: Option<&str>) -> (r: Vec<String>)
    ensures
        views(r@) == git_push_args(
            match bookmark {
                Some(b) => Some(b@),
                None => None,
            },
        ),
{
    let mut args = strs(&["git", "push"]);
    if let Some(name) = bookmark {
        push_str(&mut args, "--bookmark");
        push_str(&mut args, name);
    }
    proof {
        assert(views(args@) =~= git_push_args(
            match bookmark {
                Some(b) => Some(b@),
                None => None,
            },
        ));
    }
    args
}

fn log_args() -> (r: Vec<String>)
    ensures
        views(r@) == revisions_args(),
{
    let fields: &[&str] = &[
        "commit_id",
        "change_id",
        "author.email()",
        "committer.timestamp().local().format(\"%Y-%m-%d %H:%M\")",
        "local_bookmarks.map(|b| b.name()).join(\",\")",
        "description.first_line()",
        "if(current_working_copy, \"true\", \"false\")",
    ];
    proof {
        assert(fields@.map_values(|p: &str| p@) =~= revision_fields());
    }
    let template = concat_template(fields);
    let mut args = strs(&["log", "-n", "32", "--no-graph", "-T"]);
    push_str(&mut args, template.as_str());
    proof {
        assert(views(args@) =~= revisions_args());
    }
    args
}

fn bookmark_list_args() -> (r: Vec<String>)
    ensures
        views(r@) == bookmarks_args(),
{
    let fields: &[&str] = &[
        "name",
        "if(remote, \"remote\", \"local\")",
        "self.normal_target().commit_id()",
    ];
    proof {
        assert(fields@.map_values(|p: &str| p@) =~= bookmark_fields());
    }
    let template = concat_template(fields);
    let mut args = strs(&["bookmark", "list", "-T"]);
    push_str(&mut args, template.as_str());
    proof {
        assert(views(args@) =~= bookmarks_args());
    }
    args
}

fn op_log_args() -> (r: Vec<String>)
    ensures
        views(r@) == operations_args(),
{
    let fields: &[&str] = &[
        "id",
        "if(current_operation, \"true\", \"false\")",
        "user",
        "time.start().local().format(\"%Y-%m-%d %H:%M\")",
        "description",
    ];
    proof {
        assert(fields@.map_values(|p: &str| p@) =~= operation_fields());
    }
    let template = concat_template(fields);
    let mut args = strs(&["op", "log", "-n", "24", "--no-graph", "-T"]);
    push_str(&mut args, template.as_str());
    proof {
        assert(views(args@) =~= operations_args());
    }
    args
}

/// Fields that a template can print on one line: none holds the field
/// separator, a line break or a carriage return.
pub open spec fn plain_fields(fields: Seq<Seq<char>>) -> bool {
    forall|i: int|
        0 <= i < fields.len() ==> !(#[trigger] fields[i]).contains(FIELD_SEP) && !fields[i].contains(
            '\n',
        ) && !fields[i].contains('\r')
}

/// The line that a template prints for one record with these fields.
pub open spec fn template_output(fields: Seq<Seq<char>>) -> Seq<char> {
    join(fields, seq![FIELD_SEP]) + seq!['\n']
}

proof fn lemma_template_line(fields: Seq<Seq<char>>)
    requires
        fields.len() >= 1,
        plain_fields(fields),
    ensures
        lines(template_output(fields)) == seq![join(fields, seq![FIELD_SEP])],
        split(join(fields, seq![FIELD_SEP]), FIELD_SEP) == fields,
{
    let sep = seq![FIELD_SEP];
    assert(!sep.contains('\n') && !sep.contains('\r')) by {
        assert(sep[0] == FIELD_SEP);
    }
    lemma_join_free_of(fields, sep, '\n');
    lemma_join_free_of(fields, sep, '\r');
    lemma_one_line(join(fields, sep));
    lemma_split_join(fields, FIELD_SEP);
}

/// What the revision list holds for the template's output of one revision
/// whose fields are, in template order, the commit id, the change id, the
/// author's email, the committer timestamp, the local bookmarks, the first
/// line of the description and the working-copy flag: exactly one revision,
/// with both ids cut to twelve characters, the author from the third field
/// and the timestamp from the fourth, the bookmarks from the fifth, the
/// description from the sixth (a placeholder when blank), and marked as the
/// working copy exactly when the seventh field is `true`.
pub proof fn lemma_revision_fields(fields: Seq<Seq<char>>)
    requires
        fields.len() == 7,
        plain_fields(fields),
    ensures
        lines(template_output(fields)).filter_map(|l: Seq<char>| revision_line(l)) == seq![
            RevisionView {
                commit_id: shorten_spec(fields[0], 12),
                change_id: shorten_spec(fields[1], 12),
                author: fields[2],
                timestamp: fields[3],
                bookmarks: csv_fields(fields[4]),
                description: fallback_if_blank(fields[5], "(empty description)"@),
                is_working_copy: fields[6] == "true"@,
            },
        ],
{
    lemma_template_line(fields);
    let line = join(fields, seq![FIELD_SEP]);
    let ls = seq![line];
    let v = RevisionView {
        commit_id: shorten_spec(fields[0], 12),
        change_id: shorten_spec(fields[1], 12),
        author: fields[2],
        timestamp: fields[3],
        bookmarks: csv_fields(fields[4]),
        description: fallback_if_blank(fields[5], "(empty description)"@),
        is_working_copy: fields[6] == "true"@,
    };
    assert(revision_line(line) == Some(v));
    assert(ls.drop_last() =~= Seq::<Seq<char>>::empty());
    assert(ls.last() == line);
    let f = |l: Seq<char>| revision_line(l);
    assert(ls.drop_last().filter_map(f) =~= Seq::<RevisionView>::empty());
    assert(ls.filter_map(f) =~= seq![v]);
}

/// What the operation list holds for the template's output of one operation
/// whose fields are, in template order, the operation id, the current flag,
/// the user, the start time and the description: exactly one operation, with
/// its id cut to fourteen characters, marked current exactly when the second
/// field is `true`, the user from the third field and the time from the
/// fourth, and the description from the fifth (a placeholder when blank).
pub proof fn lemma_operation_fields(fields: Seq<Seq<char>>)
    requires
        fields.len() == 5,
        plain_fields(fields),
    ensures
        lines(template_output(fields)).filter_map(|l: Seq<char>| operation_line(l)) == seq![
            OperationView {
                id: shorten_spec(fields[0], 14),
                is_current: fields[1] == "true"@,
                user: fields[2],
                timestamp: fields[3],
                description: fallback_if_blank(fields[4], "(no description)"@),
            },
        ],
{
    lemma_template_line(fields);
    let line = join(fields, seq![FIELD_SEP]);
    let ls = seq![line];
    let v = OperationView {
        id: shorten_spec(fields[0], 14),
        is_current: fields[1] == "true"@,
        user: fields[2],
        timestamp: fields[3],
        description: fallback_if_blank(fields[4], "(no description)"@),
    };
    assert(operation_line(line) == Some(v));
    assert(ls.drop_last() =~= Seq::<Seq<char>>::empty());
    assert(ls.last() == line);
    let f = |l: Seq<char>| operation_line(l);
    assert(ls.drop_last().filter_map(f) =~= Seq::<OperationView>::empty());
    assert(ls.filter_map(f) =~= seq![v]);
}

/// The kind that a diff row of line `l` must have: a header where a file or
/// commit starts, a hunk at `@@`, metadata on the header lines of a file or
/// commit, an addition or removal on other lines that start with `+` or `-`.
pub open spec fn kind_rules(l: Seq<char>, kind: DiffKind) -> bool {
    &&& (starts_with(l, "diff --git"@) || starts_with(l, "commit "@)) ==> kind == DiffKind::Header
    &&& starts_with(l, "@@"@) ==> kind == DiffKind::Hunk
    &&& (starts_with(l, "+++"@) || starts_with(l, "---"@) || starts_with(l, "index "@) || starts_with(
        l,
        "new file"@,
    ) || starts_with(l, "deleted file"@) || starts_with(l, "Author:"@) || starts_with(
        l,
        "Change ID:"@,
    ) || starts_with(l, "Commit ID:"@)) ==> kind == DiffKind::Meta
    &&& (starts_with_char(l, '+') && !starts_with(l, "+++"@)) ==> kind == DiffKind::Addition
    &&& (starts_with_char(l, '-') && !starts_with(l, "---"@)) ==> kind == DiffKind::Removal
}

proof fn lemma_prefix_chars(l: Seq<char>, p: Seq<char>)
    requires
        starts_with(l, p),
    ensures
        forall|k: int| 0 <= k < p.len() ==> l[k] == p[k],
        p.len() > 0 ==> l[0] == p[0],
        p.len() > 1 ==> l[1] == p[1],
{
    assert forall|k: int| 0 <= k < p.len() implies l[k] == p[k] by {
        assert(l.take(p.len() as int)[k] == l[k]);
    }
}

/// Each line is classified by its prefix as `kind_rules` says.
pub proof fn lemma_classify_rules(l: Seq<char>)
    ensures
        kind_rules(l, classify(l)),
{
    reveal_strlit("diff --git");
    reveal_strlit("commit ");
    reveal_strlit("@@");
    reveal_strlit("+++");
    reveal_strlit("---");
    reveal_strlit("index ");
    reveal_strlit("new file");
    reveal_strlit("deleted file");
    reveal_strlit("Author:");
    reveal_strlit("Change ID:");
    reveal_strlit("Commit ID:");
    if starts_with(l, "diff --git"@) {
        lemma_prefix_chars(l, "diff --git"@);
        assert(l[0] == 'd' && l[1] == 'i');
    }
    if starts_with(l, "commit "@) {
        lemma_prefix_chars(l, "commit "@);
        assert(l[0] == 'c' && l[1] == 'o');
    }
    if starts_with(l, "@@"@) {
        lemma_prefix_chars(l, "@@"@);
        assert(l[0] == '@' && l[1] == '@');
    }
    if starts_with(l, "+++"@) {
        lemma_prefix_chars(l, "+++"@);
        assert(l[0] == '+' && l[1] == '+');
    }
    if starts_with(l, "---"@) {
        lemma_prefix_chars(l, "---"@);
        assert(l[0] == '-' && l[1] == '-');
    }
    if starts_with(l, "index "@) {
        lemma_prefix_chars(l, "index "@);
        assert(l[0] == 'i' && l[1] == 'n');
    }
    if starts_with(l, "new file"@) {
        lemma_prefix_chars(l, "new file"@);
        assert(l[0] == 'n' && l[1] == 'e');
    }
    if starts_with(l, "deleted file"@) {
        lemma_prefix_chars(l, "deleted file"@);
        assert(l[0] == 'd' && l[1] == 'e');
    }
    if starts_with(l, "Author:"@) {
        lemma_prefix_chars(l, "Author:"@);
        assert(l[0] == 'A' && l[1] == 'u');
    }
    if starts_with(l, "Change ID:"@) {
        lemma_prefix_chars(l, "Change ID:"@);
        assert(l[0] == 'C' && l[1] == 'h');
    }
    if starts_with(l, "Commit ID:"@) {
        lemma_prefix_chars(l, "Commit ID:"@);
        assert(l[0] == 'C' && l[1] == 'o');
    }
}

/// What the diff viewer shows of a text that is not blank: one row per line
/// of the text, in order, holding that line, with its kind as `kind_rules`
/// says; so the header lines of a new or deleted file are metadata.
pub proof fn lemma_diff_rows(text: Seq<char>)
    requires
        trim(text).len() > 0,
    ensures
        diff_view(text).len() == lines(text).len(),
        forall|k: int|
            0 <= k < lines(text).len() ==> (#[trigger] diff_view(text)[k]).1 == lines(text)[k]
                && kind_rules(lines(text)[k], diff_view(text)[k].0),
{
    assert forall|k: int| 0 <= k < lines(text).len() implies (#[trigger] diff_view(text)[k]).1
        == lines(text)[k] && kind_rules(lines(text)[k], diff_view(text)[k].0) by {
        lemma_classify_rules(lines(text)[k]);
    }
}

} // verus!
