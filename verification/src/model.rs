//! The values that the panels show, the focus ring, and the tool picker.
use vstd::prelude::*;

use crate::hooks::ToolCategory;

verus! {

#[derive(Debug, Clone)]
pub struct FileEntry {
    pub status: String,
    pub path: String,
}

#[derive(Debug, Clone)]
pub struct RevisionEntry {
    pub commit_id: String,
    pub change_id: String,
    pub author: String,
    pub timestamp: String,
    pub bookmarks: Vec<String>,
    pub description: String,
    pub is_working_copy: bool,
}

#[derive(Debug, Clone)]
pub struct BookmarkEntry {
    pub name: String,
    pub kind: String,
    pub target: String,
}

#[derive(Debug, Clone)]
pub struct OperationEntry {
    pub id: String,
    pub is_current: bool,
    pub user: String,
    pub timestamp: String,
    pub description: String,
}

#[derive(Debug, Clone, Copy, PartialEq, Eq, Structural)]
pub enum DiffKind {
    Header,
    Meta,
    Hunk,
    Addition,
    Removal,
    Context,
    Note,
}

#[derive(Debug, Clone)]
pub struct DiffLine {
    pub kind: DiffKind,
    pub text: String,
}

/// A changed file: its status letter and its path.
impl View for FileEntry {
    type V = (Seq<char>, Seq<char>);

    open spec fn view(&self) -> (Seq<char>, Seq<char>) {
        (self.status@, self.path@)
    }
}

/// A revision's fields as sequences of characters.
pub struct RevisionView {
    pub commit_id: Seq<char>,
    pub change_id: Seq<char>,
    pub author: Seq<char>,
    pub timestamp: Seq<char>,
    pub bookmarks: Seq<Seq<char>>,
    pub description: Seq<char>,
    pub is_working_copy: bool,
}

impl View for RevisionEntry {
    type V = RevisionView;

    open spec fn view(&self) -> RevisionView {
        RevisionView {
            commit_id: self.commit_id@,
            change_id: self.change_id@,
            author: self.author@,
            timestamp: self.timestamp@,
            bookmarks: self.bookmarks@.map_values(|b: String| b@),
            description: self.description@,
            is_working_copy: self.is_working_copy,
        }
    }
}

/// A bookmark: its name, whether it is local or remote, and its target.
impl View for BookmarkEntry {
    type V = (Seq<char>, Seq<char>, Seq<char>);

    open spec fn view(&self) -> (Seq<char>, Seq<char>, Seq<char>) {
        (self.name@, self.kind@, self.target@)
    }
}

/// An operation's fields as sequences of characters.
pub struct OperationView {
    pub id: Seq<char>,
    pub is_current: bool,
    pub user: Seq<char>,
    pub timestamp: Seq<char>,
    pub description: Seq<char>,
}

impl View for OperationEntry {
    type V = OperationView;

    open spec fn view(&self) -> OperationView {
        OperationView {
            id: self.id@,
            is_current: self.is_current,
            user: self.user@,
            timestamp: self.timestamp@,
            description: self.description@,
        }
    }
}

/// A diff line: how it is shown, and its text.
impl View for DiffLine {
    type V = (DiffKind, Seq<char>);

    open spec fn view(&self) -> (DiffKind, Seq<char>) {
        (self.kind, self.text@)
    }
}

#[derive(Debug, Clone, Copy, PartialEq, Eq, Structural)]
pub enum Focus {
    Files,
    Revisions,
    Bookmarks,
    Operations,
    Diff,
    Output,
}

/// The panel after `f` in the focus ring (the order of the screen: files,
/// bookmarks, revisions, operations, diff, command log).
pub open spec fn focus_after(f: Focus) -> Focus {
    match f {
        Focus::Files => Focus::Bookmarks,
        Focus::Bookmarks => Focus::Revisions,
        Focus::Revisions => Focus::Operations,
        Focus::Operations => Focus::Diff,
        Focus::Diff => Focus::Output,
        Focus::Output => Focus::Files,
    }
}

/// The panel before `f` in the focus ring.
pub open spec fn focus_before(f: Focus) -> Focus {
    match f {
        Focus::Files => Focus::Output,
        Focus::Bookmarks => Focus::Files,
        Focus::Revisions => Focus::Bookmarks,
        Focus::Operations => Focus::Revisions,
        Focus::Diff => Focus::Operations,
        Focus::Output => Focus::Diff,
    }
}

/// The title of the panel `f`: its number key, then its name.
pub open spec fn focus_title(f: Focus) -> &'static str {
    match f {
        Focus::Files => "1 Files",
        Focus::Bookmarks => "2 Bookmarks",
        Focus::Revisions => "3 Revisions",
        Focus::Operations => "4 Operations",
        Focus::Diff => "5 Diff",
        Focus::Output => "6 Command Log",
    }
}

/// `f` after `n` steps forward in the focus ring.
pub open spec fn focus_steps(f: Focus, n: nat) -> Focus
    decreases n,
{
    if n == 0 {
        f
    } else {
        focus_steps(focus_after(f), (n - 1) as nat)
    }
}

impl Focus {
    pub fn next(self) -> (r: Self)
        ensures
            r == focus_after(self),
    {
        match self {
            Self::Files => Self::Bookmarks,
            Self::Bookmarks => Self::Revisions,
            Self::Revisions => Self::Operations,
            Self::Operations => Self::Diff,
            Self::Diff => Self::Output,
            Self::Output => Self::Files,
        }
    }

    pub fn previous(self) -> (r: Self)
        ensures
            r == focus_before(self),
    {
        match self {
            Self::Files => Self::Output,
            Self::Bookmarks => Self::Files,
            Self::Revisions => Self::Bookmarks,
            Self::Operations => Self::Revisions,
            Self::Diff => Self::Operations,
            Self::Output => Self::Diff,
        }
    }

    pub fn title(self) -> (r: &'static str)
        ensures
            r == focus_title(self),
    {
        match self {
            Self::Files => "1 Files",
            Self::Bookmarks => "2 Bookmarks",
            Self::Revisions => "3 Revisions",
            Self::Operations => "4 Operations",
            Self::Diff => "5 Diff",
            Self::Output => "6 Command Log",
        }
    }
}

/// Moving focus back undoes moving it forward, and the other way round.
pub proof fn lemma_focus_next_previous_inverse(f: Focus)
    ensures
        focus_before(focus_after(f)) == f,
        focus_after(focus_before(f)) == f,
{
}

/// Six steps forward visit six different panels (so every panel, once) and
/// come back to the start.
pub proof fn lemma_focus_ring_cycles(f: Focus)
    ensures
        focus_steps(f, 6) == f,
        forall|i: nat, j: nat|
            i < j < 6 ==> #[trigger] focus_steps(f, i) != #[trigger] focus_steps(f, j),
{
    reveal_with_fuel(focus_steps, 7);
}

/// Distinct panels have distinct titles.
pub proof fn lemma_focus_titles_distinct(f: Focus, g: Focus)
    requires
        f != g,
    ensures
        focus_title(f)@ != focus_title(g)@,
{
    reveal_strlit("1 Files");
    reveal_strlit("2 Bookmarks");
    reveal_strlit("3 Revisions");
    reveal_strlit("4 Operations");
    reveal_strlit("5 Diff");
    reveal_strlit("6 Command Log");
    let a = focus_title(f)@;
    let b = focus_title(g)@;
    assert(a[0] != b[0]);
}

#[derive(Debug, Clone, Copy, PartialEq, Eq, Structural)]
pub enum PromptKind {
    DescribeRevision,
    NewChange,
    CreateBookmark,
    MoveBookmark,
    SquashInto,
    RestoreOperation,
    RunCommand,
    ConfirmAbandon,
}

#[derive(Debug, Clone, Copy, PartialEq, Eq, Structural)]
pub enum Action {
    Quit,
    ToggleHelp,
    FocusNext,
    FocusPrevious,
    SetFocus(Focus),
    Refresh,
    InspectCurrent,
    MoveSelection(isize),
    ScrollDiff(isize),
    JumpToStart,
    JumpToEnd,
    OpenPrompt(PromptKind),
    Undo,
    Push,
    Fetch,
    RunHooks,
}

#[derive(Debug, Clone)]
pub struct PromptState {
    pub title: String,
    pub value: String,
    pub placeholder: String,
    pub kind: PromptKind,
}

#[derive(Debug, Clone)]
pub enum HookPhase {
    Running { current_hook: String, index: usize, total: usize, spinner_tick: usize },
    Passed { count: usize, ticks_remaining: usize },
    Failed { message: String, output: String },
}

/// A hook phase with its strings as sequences of characters.
pub enum PhaseView {
    Running { current_hook: Seq<char>, index: usize, total: usize, spinner_tick: usize },
    Passed { count: usize, ticks_remaining: usize },
    Failed { message: Seq<char>, output: Seq<char> },
}

impl View for HookPhase {
    type V = PhaseView;

    open spec fn view(&self) -> PhaseView {
        match self {
            HookPhase::Running { current_hook, index, total, spinner_tick } => PhaseView::Running {
                current_hook: current_hook@,
                index: *index,
                total: *total,
                spinner_tick: *spinner_tick,
            },
            HookPhase::Passed { count, ticks_remaining } => PhaseView::Passed {
                count: *count,
                ticks_remaining: *ticks_remaining,
            },
            HookPhase::Failed { message, output } => PhaseView::Failed {
                message: message@,
                output: output@,
            },
        }
    }
}

/// Which changes the files panel lists.
#[derive(Debug, Clone)]
pub enum FilesContext {
    WorkingCopy,
    Revision { label: String, revset: String },
}

#[derive(Debug, Clone)]
pub struct RepoSnapshot {
    pub root: String,
    pub status_summary: Vec<String>,
    pub files: Vec<FileEntry>,
    pub revisions: Vec<RevisionEntry>,
    pub bookmarks: Vec<BookmarkEntry>,
    pub operations: Vec<OperationEntry>,
    pub initial_diff: Vec<DiffLine>,
}

/// One row in the tool picker overlay.
#[derive(Debug, Clone)]
pub struct ToolPickerEntry {
    pub name: String,
    pub language: String,
    pub hook_command: String,
    pub install_cmd: String,
    pub installed: bool,
    pub selected: bool,
    pub category: ToolCategory,
    pub check_binary: String,
}

/// A row in the rendered tool picker list — either a section header or a tool entry.
#[derive(Debug, Clone)]
pub enum ToolPickerRow {
    Header(String),
    Entry(usize),
}

/// A picker row with its header text as a sequence of characters.
pub enum PickerRowView {
    Header(Seq<char>),
    Entry(usize),
}

impl View for ToolPickerRow {
    type V = PickerRowView;

    open spec fn view(&self) -> PickerRowView {
        match self {
            ToolPickerRow::Header(s) => PickerRowView::Header(s@),
            ToolPickerRow::Entry(i) => PickerRowView::Entry(*i),
        }
    }
}

pub open spec fn is_entry_row(r: ToolPickerRow) -> bool {
    r is Entry
}

/// The entry rows of the entries of category `c`, in entry order.
pub open spec fn section_rows(entries: Seq<ToolPickerEntry>, c: ToolCategory) -> Seq<PickerRowView>
    decreases entries.len(),
{
    if entries.len() == 0 {
        seq![]
    } else {
        let rest = section_rows(entries.drop_last(), c);
        if entries.last().category == c {
            rest.push(PickerRowView::Entry((entries.len() - 1) as usize))
        } else {
            rest
        }
    }
}

/// The picker's rows: a formatters header, the formatter entries, a linters
/// header, the linter entries.
pub open spec fn picker_rows(entries: Seq<ToolPickerEntry>) -> Seq<PickerRowView> {
    seq![PickerRowView::Header("Formatters (via treefmt)"@)] + section_rows(
        entries,
        ToolCategory::Formatter,
    ) + seq![PickerRowView::Header("Linters"@)] + section_rows(entries, ToolCategory::Linter)
}

pub open spec fn row_views(rows: Seq<ToolPickerRow>) -> Seq<PickerRowView> {
    rows.map_values(|r: ToolPickerRow| r@)
}

/// The index of the first entry row, or 0 when there is none.
pub open spec fn first_entry_row(rows: Seq<ToolPickerRow>) -> int {
    if exists|k: int| 0 <= k < rows.len() && is_entry_row(rows[k]) {
        choose|k: int|
            0 <= k < rows.len() && is_entry_row(rows[k]) && forall|j: int|
                0 <= j < k ==> !is_entry_row(#[trigger] rows[j])
    } else {
        0
    }
}

/// State for the interactive tool-picker overlay.
#[derive(Debug, Clone)]
pub struct ToolPickerState {
    pub entries: Vec<ToolPickerEntry>,
    pub cursor: usize,
    pub rows: Vec<ToolPickerRow>,
}

/// The cursor of a picker stands on an entry row.
pub open spec fn cursor_on_entry(rows: Seq<ToolPickerRow>, cursor: int) -> bool {
    0 <= cursor < rows.len() && is_entry_row(rows[cursor])
}

fn push_section(entries: &Vec<ToolPickerEntry>, c: ToolCategory, rows: &mut Vec<ToolPickerRow>)
    ensures
        row_views(final(rows)@) == row_views(old(rows)@) + section_rows(entries@, c),
{
    let ghost start = row_views(rows@);
    let mut i: usize = 0;
    while i < entries.len()
        invariant
            i <= entries@.len(),
            row_views(rows@) == start + section_rows(entries@.take(i as int), c),
        decreases entries@.len() - i,
    {
        let ghost before = rows@;
        if entries[i].category == c {
            rows.push(ToolPickerRow::Entry(i));
        }
        proof {
            let t = entries@.take(i + 1);
            assert(t.drop_last() =~= entries@.take(i as int));
            assert(t.last() == entries@[i as int]);
            if entries@[i as int].category == c {
                assert(row_views(rows@) =~= row_views(before).push(PickerRowView::Entry(i)));
            } else {
                assert(row_views(rows@) =~= row_views(before));
            }
            assert(row_views(rows@) =~= start + section_rows(t, c));
        }
        i = i + 1;
    }
    proof {
        assert(entries@.take(entries@.len() as int) =~= entries@);
    }
}

/// `new` is `old` with the cursor moved down to the next entry row, or left
/// where it is when no entry row follows.
pub open spec fn picker_moved_down(old: ToolPickerState, new: ToolPickerState) -> bool {
    &&& new.entries == old.entries
    &&& new.rows == old.rows
    &&& (exists|k: int| old.cursor < k < old.rows@.len() && is_entry_row(#[trigger] old.rows@[k]))
        ==> {
        &&& new.cursor > old.cursor
        &&& cursor_on_entry(new.rows@, new.cursor as int)
        &&& forall|j: int| old.cursor < j < new.cursor ==> !is_entry_row(#[trigger] old.rows@[j])
    }
    &&& !(exists|k: int| old.cursor < k < old.rows@.len() && is_entry_row(#[trigger] old.rows@[k]))
        ==> new.cursor == old.cursor
}

/// `new` is `old` with the cursor moved up to the previous entry row, or left
/// where it is when no entry row precedes.
pub open spec fn picker_moved_up(old: ToolPickerState, new: ToolPickerState) -> bool {
    &&& new.entries == old.entries
    &&& new.rows == old.rows
    &&& (exists|k: int| 0 <= k < old.cursor && is_entry_row(#[trigger] old.rows@[k])) ==> {
        &&& new.cursor < old.cursor
        &&& cursor_on_entry(new.rows@, new.cursor as int)
        &&& forall|j: int| new.cursor < j < old.cursor ==> !is_entry_row(#[trigger] old.rows@[j])
    }
    &&& !(exists|k: int| 0 <= k < old.cursor && is_entry_row(#[trigger] old.rows@[k]))
        ==> new.cursor == old.cursor
}

/// The entry index of a row view, or -1 for a header.
pub open spec fn row_entry(r: PickerRowView) -> int {
    match r {
        PickerRowView::Entry(i) => i as int,
        PickerRowView::Header(_) => -1,
    }
}

/// The rows of a section are the entries of its category, each once, in order.
pub proof fn lemma_section_rows(es: Seq<ToolPickerEntry>, c: ToolCategory)
    requires
        es.len() <= usize::MAX,
    ensures
        forall|k: int|
            0 <= k < section_rows(es, c).len() ==> 0 <= row_entry(#[trigger] section_rows(es, c)[k])
                < es.len() && es[row_entry(section_rows(es, c)[k])].category == c,
        forall|k1: int, k2: int|
            0 <= k1 < k2 < section_rows(es, c).len() ==> row_entry(#[trigger] section_rows(es, c)[k1])
                < row_entry(#[trigger] section_rows(es, c)[k2]),
        forall|i: int|
            0 <= i < es.len() && (#[trigger] es[i]).category == c ==> exists|k: int|
                0 <= k < section_rows(es, c).len() && row_entry(section_rows(es, c)[k]) == i,
    decreases es.len(),
{
    if es.len() > 0 {
        let init = es.drop_last();
        lemma_section_rows(init, c);
        let rest = section_rows(init, c);
        let n = (es.len() - 1) as int;
        assert forall|i: int| 0 <= i < init.len() implies init[i] == es[i] by {}
        if es.last().category == c {
            let sr = rest.push(PickerRowView::Entry(n as usize));
            assert(section_rows(es, c) == sr);
            assert forall|i: int| 0 <= i < es.len() && (#[trigger] es[i]).category == c implies exists|
                k: int,
            | 0 <= k < sr.len() && row_entry(sr[k]) == i by {
                if i == n {
                    assert(row_entry(sr[rest.len() as int]) == i);
                } else {
                    assert(init[i].category == c);
                    let k = choose|k: int| 0 <= k < rest.len() && row_entry(rest[k]) == i;
                    assert(row_entry(sr[k]) == i);
                }
            }
        } else {
            assert(section_rows(es, c) == rest);
            assert forall|i: int| 0 <= i < es.len() && (#[trigger] es[i]).category == c implies exists|
                k: int,
            | 0 <= k < rest.len() && row_entry(rest[k]) == i by {
                assert(i != n);
                assert(init[i].category == c);
            }
        }
    }
}

/// The picker lists every entry on exactly one row.
pub proof fn lemma_every_entry_listed_once(es: Seq<ToolPickerEntry>, i: int)
    requires
        es.len() <= usize::MAX,
        0 <= i < es.len(),
    ensures
        exists|k: int| 0 <= k < picker_rows(es).len() && row_entry(picker_rows(es)[k]) == i,
        forall|k1: int, k2: int|
            0 <= k1 < picker_rows(es).len() && 0 <= k2 < picker_rows(es).len() && row_entry(
                #[trigger] picker_rows(es)[k1],
            ) == i && row_entry(#[trigger] picker_rows(es)[k2]) == i ==> k1 == k2,
{
    let f = section_rows(es, ToolCategory::Formatter);
    let l = section_rows(es, ToolCategory::Linter);
    lemma_section_rows(es, ToolCategory::Formatter);
    lemma_section_rows(es, ToolCategory::Linter);
    let h1 = seq![PickerRowView::Header("Formatters (via treefmt)"@)];
    let h2 = seq![PickerRowView::Header("Linters"@)];
    let rows = picker_rows(es);
    assert(rows == h1 + f + h2 + l);
    let lo = 1 + f.len();
    assert forall|k: int| 0 <= k < rows.len() implies #[trigger] rows[k] == (if k == 0 {
        h1[0]
    } else if k < lo {
        f[k - 1]
    } else if k == lo {
        h2[0]
    } else {
        l[k - lo - 1]
    }) by {}
    if es[i].category == ToolCategory::Formatter {
        let k = choose|k: int| 0 <= k < f.len() && row_entry(f[k]) == i;
        assert(row_entry(rows[k + 1]) == i);
    } else {
        assert(es[i].category == ToolCategory::Linter);
        let k = choose|k: int| 0 <= k < l.len() && row_entry(l[k]) == i;
        assert(row_entry(rows[k + lo + 1]) == i);
    }
    assert forall|k1: int, k2: int|
        0 <= k1 < rows.len() && 0 <= k2 < rows.len() && row_entry(#[trigger] rows[k1]) == i
            && row_entry(#[trigger] rows[k2]) == i implies k1 == k2 by {
        if k1 != k2 {
            assert(k1 != 0 && k1 != lo && k2 != 0 && k2 != lo);
            if k1 < lo && k2 < lo {
                if k1 < k2 {
                    assert(row_entry(f[k1 - 1]) < row_entry(f[k2 - 1]));
                } else {
                    assert(row_entry(f[k2 - 1]) < row_entry(f[k1 - 1]));
                }
            } else if k1 > lo && k2 > lo {
                if k1 < k2 {
                    assert(row_entry(l[k1 - lo - 1]) < row_entry(l[k2 - lo - 1]));
                } else {
                    assert(row_entry(l[k2 - lo - 1]) < row_entry(l[k1 - lo - 1]));
                }
            } else if k1 < lo {
                assert(es[row_entry(f[k1 - 1])].category == ToolCategory::Formatter);
                assert(es[row_entry(l[k2 - lo - 1])].category == ToolCategory::Linter);
            } else {
                assert(es[row_entry(l[k1 - lo - 1])].category == ToolCategory::Linter);
                assert(es[row_entry(f[k2 - 1])].category == ToolCategory::Formatter);
            }
        }
    }
}

/// Moving the cursor down from an entry row that has an entry row below it,
/// then up again, brings it back where it was.
pub proof fn lemma_down_then_up(a: ToolPickerState, b: ToolPickerState, c: ToolPickerState)
    requires
        cursor_on_entry(a.rows@, a.cursor as int),
        exists|k: int| a.cursor < k < a.rows@.len() && is_entry_row(#[trigger] a.rows@[k]),
        picker_moved_down(a, b),
        picker_moved_up(b, c),
    ensures
        c == a,
{
    assert(is_entry_row(b.rows@[a.cursor as int]));
    assert(0 <= a.cursor < b.cursor);
    if c.cursor < a.cursor {
        assert(c.cursor < a.cursor < b.cursor);
        assert(!is_entry_row(b.rows@[a.cursor as int]));
    } else if c.cursor > a.cursor {
        assert(a.cursor < c.cursor < b.cursor);
        assert(!is_entry_row(a.rows@[c.cursor as int]));
    }
}

/// Some entry row at or before `k` has no entry row before it.
proof fn lemma_first_entry_exists(rows: Seq<ToolPickerRow>, k: int)
    requires
        0 <= k < rows.len(),
        is_entry_row(rows[k]),
    ensures
        exists|m: int|
            0 <= m <= k && is_entry_row(rows[m]) && forall|j: int|
                0 <= j < m ==> !is_entry_row(#[trigger] rows[j]),
    decreases k,
{
    if exists|j: int| 0 <= j < k && is_entry_row(#[trigger] rows[j]) {
        let j = choose|j: int| 0 <= j < k && is_entry_row(#[trigger] rows[j]);
        lemma_first_entry_exists(rows, j);
    } else {
        assert(forall|j: int| 0 <= j < k ==> !is_entry_row(#[trigger] rows[j]));
    }
}

/// When the rows have an entry row, the first one is an entry row with none before it.
pub proof fn lemma_first_entry_row(rows: Seq<ToolPickerRow>)
    requires
        exists|k: int| 0 <= k < rows.len() && is_entry_row(#[trigger] rows[k]),
    ensures
        cursor_on_entry(rows, first_entry_row(rows)),
        forall|j: int| 0 <= j < first_entry_row(rows) ==> !is_entry_row(#[trigger] rows[j]),
{
    let k = choose|k: int| 0 <= k < rows.len() && is_entry_row(#[trigger] rows[k]);
    lemma_first_entry_exists(rows, k);
}

/// The cursor never moves up past the first entry row.
pub proof fn lemma_up_stops_at_first_entry(a: ToolPickerState, b: ToolPickerState)
    requires
        exists|k: int| 0 <= k < a.rows@.len() && is_entry_row(#[trigger] a.rows@[k]),
        a.cursor == first_entry_row(a.rows@),
        picker_moved_up(a, b),
    ensures
        b == a,
{
    lemma_first_entry_row(a.rows@);
}

impl ToolPickerState {
    /// Build the rows vec from the current entries.
    /// Emits a Formatters header, then all formatter entries, then a Linters header,
    /// then all linter entries.
    pub fn build_rows(&self) -> (rows: Vec<ToolPickerRow>)
        ensures
            row_views(rows@) == picker_rows(self.entries@),
    {
        let mut rows: Vec<ToolPickerRow> = Vec::new();
        rows.push(ToolPickerRow::Header(String::from_str("Formatters (via treefmt)")));
        proof {
            assert(row_views(rows@) =~= seq![PickerRowView::Header("Formatters (via treefmt)"@)]);
        }
        push_section(&self.entries, ToolCategory::Formatter, &mut rows);
        let ghost mid = row_views(rows@);
        rows.push(ToolPickerRow::Header(String::from_str("Linters")));
        proof {
            assert(row_views(rows@) =~= mid + seq![PickerRowView::Header("Linters"@)]);
        }
        push_section(&self.entries, ToolCategory::Linter, &mut rows);
        proof {
            assert(row_views(rows@) =~= picker_rows(self.entries@));
        }
        rows
    }

    /// Returns the index into `rows` of the first `Entry` row.
    pub fn first_tool_row(rows: &[ToolPickerRow]) -> (r: usize)
        ensures
            r == first_entry_row(rows@),
    {
        let mut i: usize = 0;
        while i < rows.len()
            invariant
                i <= rows@.len(),
                forall|j: int| 0 <= j < i ==> !is_entry_row(#[trigger] rows@[j]),
            decreases rows@.len() - i,
        {
            if let ToolPickerRow::Entry(_) = rows[i] {
                proof {
                    let k = first_entry_row(rows@);
                    assert(is_entry_row(rows@[i as int]));
                    if k < i {
                        assert(!is_entry_row(rows@[k]));
                    } else if k > i {
                        assert(!is_entry_row(rows@[i as int]));
                    }
                }
                return i;
            }
            i = i + 1;
        }
        0
    }

    /// Move the cursor down, skipping header rows.
    pub fn move_cursor_down(&mut self)
        ensures
            picker_moved_down(*old(self), *final(self)),
            cursor_on_entry(old(self).rows@, old(self).cursor as int) ==> cursor_on_entry(
                final(self).rows@,
                final(self).cursor as int,
            ),
    {
        if self.cursor >= self.rows.len() {
            return;
        }
        let mut next: usize = self.cursor + 1;
        while next < self.rows.len()
            invariant
                self.cursor < next <= self.rows@.len(),
                self.entries == old(self).entries,
                self.rows == old(self).rows,
                self.cursor == old(self).cursor,
                forall|j: int| self.cursor < j < next ==> !is_entry_row(#[trigger] self.rows@[j]),
            decreases self.rows@.len() - next,
        {
            if let ToolPickerRow::Entry(_) = self.rows[next] {
                self.cursor = next;
                return;
            }
            next = next + 1;
        }
    }

    /// Move the cursor up, skipping header rows.
    pub fn move_cursor_up(&mut self)
        requires
            old(self).cursor <= old(self).rows@.len(),
        ensures
            picker_moved_up(*old(self), *final(self)),
            cursor_on_entry(old(self).rows@, old(self).cursor as int) ==> cursor_on_entry(
                final(self).rows@,
                final(self).cursor as int,
            ),
    {
        if self.cursor == 0 {
            return;
        }
        let mut prev: usize = self.cursor - 1;
        loop
            invariant
                prev < self.cursor <= self.rows@.len(),
                self.entries == old(self).entries,
                self.rows == old(self).rows,
                self.cursor == old(self).cursor,
                forall|j: int| prev < j < self.cursor ==> !is_entry_row(#[trigger] self.rows@[j]),
            decreases prev,
        {
            if let ToolPickerRow::Entry(_) = self.rows[prev] {
                self.cursor = prev;
                return;
            }
            if prev == 0 {
                proof {
                    assert forall|k: int| 0 <= k < self.cursor implies !is_entry_row(
                        #[trigger] self.rows@[k],
                    ) by {
                        if k == 0 {
                            assert(!is_entry_row(self.rows@[0]));
                        }
                    }
                }
                return;
            }
            prev = prev - 1;
        }
    }

    /// Returns the `entries` index that the cursor currently points to, or `None` if
    /// the cursor is on a header.
    pub fn cursor_entry_index(&self) -> (r: Option<usize>)
        ensures
            r == (if 0 <= self.cursor < self.rows@.len() {
                match self.rows@[self.cursor as int] {
                    ToolPickerRow::Entry(i) => Some(i),
                    ToolPickerRow::Header(_) => None,
                }
            } else {
                None
            }),
    {
        if self.cursor < self.rows.len() {
            match &self.rows[self.cursor] {
                ToolPickerRow::Entry(idx) => Some(*idx),
                ToolPickerRow::Header(_) => None,
            }
        } else {
            None
        }
    }

    /// Returns all entries the user has toggled on.
    pub fn selected_entries(&self) -> (res: Vec<&ToolPickerEntry>)
        ensures
            res@.map_values(|e: &ToolPickerEntry| *e) == self.entries@.filter(
                |e: ToolPickerEntry| e.selected,
            ),
    {
        let res = filter_entries(&self.entries, EntryFilter::Selected);
        proof {
            assert((|e: ToolPickerEntry| entry_kept(EntryFilter::Selected, e)) =~= (
            |e: ToolPickerEntry| e.selected));
        }
        res
    }

    /// Returns selected entries that still need to be installed.
    pub fn needs_install(&self) -> (res: Vec<&ToolPickerEntry>)
        ensures
            res@.map_values(|e: &ToolPickerEntry| *e) == self.entries@.filter(
                |e: ToolPickerEntry| e.selected && !e.installed && e.install_cmd@.len() > 0,
            ),
    {
        let res = filter_entries(&self.entries, EntryFilter::NeedsInstall);
        proof {
            assert((|e: ToolPickerEntry| entry_kept(EntryFilter::NeedsInstall, e)) =~= (
            |e: ToolPickerEntry| e.selected && !e.installed && e.install_cmd@.len() > 0));
        }
        res
    }

    /// Returns selected formatter entries.
    pub fn selected_formatters(&self) -> (res: Vec<&ToolPickerEntry>)
        ensures
            res@.map_values(|e: &ToolPickerEntry| *e) == self.entries@.filter(
                |e: ToolPickerEntry| e.selected && e.category == ToolCategory::Formatter,
            ),
    {
        let res = filter_entries(&self.entries, EntryFilter::SelectedIn(ToolCategory::Formatter));
        proof {
            assert((|e: ToolPickerEntry|
                entry_kept(EntryFilter::SelectedIn(ToolCategory::Formatter), e)) =~= (
            |e: ToolPickerEntry| e.selected && e.category == ToolCategory::Formatter));
        }
        res
    }

    /// Returns selected linter entries.
    pub fn selected_linters(&self) -> (res: Vec<&ToolPickerEntry>)
        ensures
            res@.map_values(|e: &ToolPickerEntry| *e) == self.entries@.filter(
                |e: ToolPickerEntry| e.selected && e.category == ToolCategory::Linter,
            ),
    {
        let res = filter_entries(&self.entries, EntryFilter::SelectedIn(ToolCategory::Linter));
        proof {
            assert((|e: ToolPickerEntry| entry_kept(EntryFilter::SelectedIn(ToolCategory::Linter), e))
                =~= (|e: ToolPickerEntry| e.selected && e.category == ToolCategory::Linter));
        }
        res
    }
}

/// Which picker entries a query keeps.
#[derive(Clone, Copy)]
enum EntryFilter {
    Selected,
    NeedsInstall,
    SelectedIn(ToolCategory),
}

spec fn entry_kept(f: EntryFilter, e: ToolPickerEntry) -> bool {
    match f {
        EntryFilter::Selected => e.selected,
        EntryFilter::NeedsInstall => e.selected && !e.installed && e.install_cmd@.len() > 0,
        EntryFilter::SelectedIn(c) => e.selected && e.category == c,
    }
}

fn keeps(f: EntryFilter, e: &ToolPickerEntry) -> (r: bool)
    ensures
        r == entry_kept(f, *e),
{
    match f {
        EntryFilter::Selected => e.selected,
        EntryFilter::NeedsInstall => e.selected && !e.installed && !e.install_cmd.as_str().is_empty(),
        EntryFilter::SelectedIn(c) => e.selected && e.category == c,
    }
}

fn filter_entries<'a>(entries: &'a Vec<ToolPickerEntry>, f: EntryFilter) -> (res: Vec<
    &'a ToolPickerEntry,
>)
    ensures
        res@.map_values(|e: &ToolPickerEntry| *e) == entries@.filter(
            |e: ToolPickerEntry| entry_kept(f, e),
        ),
{
    let ghost pred = |e: ToolPickerEntry| entry_kept(f, e);
    let mut res: Vec<&ToolPickerEntry> = Vec::new();
    let mut i: usize = 0;
    while i < entries.len()
        invariant
            i <= entries@.len(),
            pred == (|e: ToolPickerEntry| entry_kept(f, e)),
            res@.map_values(|e: &ToolPickerEntry| *e) == entries@.take(i as int).filter(pred),
        decreases entries@.len() - i,
    {
        let ghost before = res@;
        if keeps(f, &entries[i]) {
            res.push(&entries[i]);
        }
        proof {
            assert(entries@.take(i + 1) =~= entries@.take(i as int).push(entries@[i as int]));
            entries@.take(i as int).lemma_filter_push(entries@[i as int], pred);
            assert(res@.map_values(|e: &ToolPickerEntry| *e) =~= entries@.take(i + 1).filter(
                pred,
            ));
        }
        i = i + 1;
    }
    proof {
        assert(entries@.take(entries@.len() as int) =~= entries@);
    }
    res
}

/// State for the treefmt install method picker sub-modal.
#[derive(Debug, Clone)]
pub struct TreefmtInstallState {
    pub cursor: usize,
}

impl TreefmtInstallState {
    pub fn new() -> (r: Self)
        ensures
            r.cursor == 0,
    {
        TreefmtInstallState { cursor: 0 }
    }
}

impl Default for TreefmtInstallState {
    fn default() -> (r: Self)
        ensures
            r.cursor == 0,
    {
        TreefmtInstallState { cursor: 0 }
    }
}

} // verus!
