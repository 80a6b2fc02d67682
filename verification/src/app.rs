//! The state of the user interface and how it reacts to keys, to time, and to
//! what the outside work it asks for brings back.
//!
//! The state never runs a process or touches a file itself: where the
//! interface needs that, a method returns `Request`s, and the caller performs
//! each one and hands its result to the `finish_*` method that the request
//! names, which may ask for more.
use vstd::prelude::*;

use crate::config::Config;
use crate::hooks::ToolDef;
use crate::jj::{CommandOutput, JjClient};
use crate::model::{
    Action, BookmarkEntry, DiffKind, DiffLine, FileEntry, FilesContext, Focus, HookPhase,
    OperationEntry, PromptKind, PromptState, RepoSnapshot, RevisionEntry, ToolPickerState,
    TreefmtInstallState,
};
use crate::text::{join, join_strings, split_words, trim, views, words};

verus! {

/// How many lines the command log keeps; older lines are dropped first.
pub const OUTPUT_LOG_LIMIT: usize = 300;

/// How many ticks the "all hooks passed" toast stays up.
pub const PASSED_TOAST_TICKS: usize = 12;

/// A key, as the interface tells keys apart.
#[derive(Debug, Clone, Copy, PartialEq, Eq, Structural)]
pub enum KeyCode {
    Char(char),
    Enter,
    Esc,
    Tab,
    BackTab,
    Backspace,
    Up,
    Down,
    Other,
}

/// A key press: the key, and whether Control was held.
#[derive(Debug, Clone, Copy, PartialEq, Eq, Structural)]
pub struct KeyEvent {
    pub code: KeyCode,
    pub ctrl: bool,
}

impl KeyEvent {
    pub fn new(code: KeyCode, ctrl: bool) -> (r: Self)
        ensures
            r.code == code,
            r.ctrl == ctrl,
    {
        KeyEvent { code, ctrl }
    }
}

/// The action that a key stands for in the main view, whatever the modifiers.
pub open spec fn key_action(code: KeyCode) -> Option<Action> {
    match code {
        KeyCode::Char('q') => Some(Action::Quit),
        KeyCode::Char('?') => Some(Action::ToggleHelp),
        KeyCode::Tab => Some(Action::FocusNext),
        KeyCode::BackTab => Some(Action::FocusPrevious),
        KeyCode::Char('1') => Some(Action::SetFocus(Focus::Files)),
        KeyCode::Char('2') => Some(Action::SetFocus(Focus::Bookmarks)),
        KeyCode::Char('3') => Some(Action::SetFocus(Focus::Revisions)),
        KeyCode::Char('4') => Some(Action::SetFocus(Focus::Operations)),
        KeyCode::Char('5') => Some(Action::SetFocus(Focus::Diff)),
        KeyCode::Char('6') => Some(Action::SetFocus(Focus::Output)),
        KeyCode::Char('r') => Some(Action::Refresh),
        KeyCode::Enter => Some(Action::InspectCurrent),
        KeyCode::Down => Some(Action::MoveSelection(1isize)),
        KeyCode::Char('j') => Some(Action::MoveSelection(1isize)),
        KeyCode::Up => Some(Action::MoveSelection(-1isize)),
        KeyCode::Char('k') => Some(Action::MoveSelection(-1isize)),
        KeyCode::Char('J') => Some(Action::ScrollDiff(1isize)),
        KeyCode::Char('K') => Some(Action::ScrollDiff(-1isize)),
        KeyCode::Char('g') => Some(Action::JumpToStart),
        KeyCode::Char('G') => Some(Action::JumpToEnd),
        KeyCode::Char('p') => Some(Action::OpenPrompt(PromptKind::RunCommand)),
        KeyCode::Char('d') => Some(Action::OpenPrompt(PromptKind::DescribeRevision)),
        KeyCode::Char('n') => Some(Action::OpenPrompt(PromptKind::NewChange)),
        KeyCode::Char('b') => Some(Action::OpenPrompt(PromptKind::CreateBookmark)),
        KeyCode::Char('m') => Some(Action::OpenPrompt(PromptKind::MoveBookmark)),
        KeyCode::Char('s') => Some(Action::OpenPrompt(PromptKind::SquashInto)),
        KeyCode::Char('a') => Some(Action::OpenPrompt(PromptKind::ConfirmAbandon)),
        KeyCode::Char('u') => Some(Action::Undo),
        KeyCode::Char('o') => Some(Action::OpenPrompt(PromptKind::RestoreOperation)),
        KeyCode::Char('P') => Some(Action::Push),
        KeyCode::Char('F') => Some(Action::Fetch),
        KeyCode::Char('H') => Some(Action::RunHooks),
        _ => None,
    }
}

/// `index + delta` kept within `0..len` (0 for an empty list).
pub open spec fn adjusted_index(index: int, len: int, delta: int) -> int {
    if len == 0 {
        0
    } else if index + delta < 0 {
        0
    } else if index + delta > len - 1 {
        len - 1
    } else {
        index + delta
    }
}

/// `index` kept within `0..len` (0 for an empty list).
pub open spec fn clamped_index(index: int, len: int) -> int {
    if len == 0 {
        0
    } else if index < len - 1 {
        index
    } else {
        len - 1
    }
}

/// A moved or clamped selection always lies within its list, and is 0 for an
/// empty one.
pub proof fn lemma_selection_in_bounds(index: int, len: nat, delta: int)
    ensures
        len == 0 ==> adjusted_index(index, len as int, delta) == 0 && clamped_index(index, len as int)
            == 0,
        len > 0 ==> 0 <= adjusted_index(index, len as int, delta) < len,
        len > 0 && index >= 0 ==> 0 <= clamped_index(index, len as int) < len,
        0 <= index < len ==> clamped_index(index, len as int) == index,
{
}

/// Moves `index` by `delta` within a list of `len` items.
pub fn adjust_index(index: &mut usize, len: usize, delta: isize)
    requires
        len == 0 || (*old(index) <= isize::MAX && isize::MIN <= *old(index) + delta <= isize::MAX
            && len - 1 <= isize::MAX),
    ensures
        *final(index) == adjusted_index(*old(index) as int, len as int, delta as int),
{
    if len == 0 {
        *index = 0;
        return;
    }
    let next: isize = *index as isize + delta;
    let max: isize = (len - 1) as isize;
    if next < 0 {
        *index = 0;
    } else if next > max {
        *index = max as usize;
    } else {
        *index = next as usize;
    }
}

/// `index` kept within a list of `len` items.
pub fn clamp_index(index: usize, len: usize) -> (r: usize)
    ensures
        r == clamped_index(index as int, len as int),
{
    if len == 0 {
        0
    } else if index < len - 1 {
        index
    } else {
        len - 1
    }
}

/// The log after `line` is added: the newest `OUTPUT_LOG_LIMIT` lines.
pub open spec fn log_push(log: Seq<String>, line: String) -> Seq<String> {
    let l = log.push(line);
    if l.len() > OUTPUT_LOG_LIMIT {
        l.skip(l.len() - OUTPUT_LOG_LIMIT)
    } else {
        l
    }
}

/// The log, as text, after `line` is added.
pub open spec fn log_view_push(log: Seq<Seq<char>>, line: Seq<char>) -> Seq<Seq<char>> {
    let l = log.push(line);
    if l.len() > OUTPUT_LOG_LIMIT {
        l.skip(l.len() - OUTPUT_LOG_LIMIT)
    } else {
        l
    }
}

/// The log, as text, after `lines` are added in order.
pub open spec fn log_after(log: Seq<Seq<char>>, lines: Seq<Seq<char>>) -> Seq<Seq<char>>
    decreases lines.len(),
{
    if lines.len() == 0 {
        log
    } else {
        log_view_push(log_after(log, lines.drop_last()), lines.last())
    }
}

/// Adding two runs of lines adds their concatenation.
pub proof fn lemma_log_after_concat(log: Seq<Seq<char>>, a: Seq<Seq<char>>, b: Seq<Seq<char>>)
    ensures
        log_after(log, a + b) == log_after(log_after(log, a), b),
    decreases b.len(),
{
    if b.len() == 0 {
        assert(a + b =~= a);
    } else {
        lemma_log_after_concat(log, a, b.drop_last());
        assert((a + b).drop_last() =~= a + b.drop_last());
        assert((a + b).last() == b.last());
    }
}

/// The log never holds more than `OUTPUT_LOG_LIMIT` lines once it has been
/// written to, and its last line is the one written last.
pub proof fn lemma_log_bounded(log: Seq<Seq<char>>, lines: Seq<Seq<char>>)
    requires
        log.len() <= OUTPUT_LOG_LIMIT,
    ensures
        log_after(log, lines).len() <= OUTPUT_LOG_LIMIT,
        lines.len() > 0 ==> log_after(log, lines).last() == lines.last(),
    decreases lines.len(),
{
    if lines.len() > 0 {
        lemma_log_bounded(log, lines.drop_last());
    }
}

/// How many lines of `lines` have kind `k`.
pub open spec fn count_kind(lines: Seq<DiffLine>, k: DiffKind) -> nat {
    lines.filter(|l: DiffLine| l.kind == k).len()
}

fn count_lines_of_kind(lines: &Vec<DiffLine>, k: DiffKind) -> (r: usize)
    ensures
        r == count_kind(lines@, k),
{
    let ghost pred = |l: DiffLine| l.kind == k;
    let mut n: usize = 0;
    let mut i: usize = 0;
    while i < lines.len()
        invariant
            i <= lines@.len(),
            pred == (|l: DiffLine| l.kind == k),
            n == lines@.take(i as int).filter(pred).len(),
            n <= i,
        decreases lines@.len() - i,
    {
        proof {
            assert(lines@.take(i + 1) =~= lines@.take(i as int).push(lines@[i as int]));
            lines@.take(i as int).lemma_filter_push(lines@[i as int], pred);
        }
        if lines[i].kind == k {
            n = n + 1;
        }
        i = i + 1;
    }
    proof {
        assert(lines@.take(lines@.len() as int) =~= lines@);
    }
    n
}

/// Where a diff to load comes from.
#[derive(Debug, Clone)]
pub enum DiffSource {
    /// A file of the working copy.
    WorkingCopyFile { path: String },
    /// A file of a revision.
    RevisionFile { revset: String, path: String },
    /// A whole revision.
    Revision { revset: String },
    /// An operation of the operation log.
    Operation { op_id: String },
}

/// Why the configuration is read again.
#[derive(Debug, Clone, Copy, PartialEq, Eq, Structural)]
pub enum ReloadReason {
    /// After tools were enabled in it.
    EnableTools,
    /// After the preset hooks were removed from it.
    ResetPresets,
}

/// Outside work that the interface asks for. Each one names the `finish_*`
/// method (if any) that takes its result.
#[derive(Debug, Clone)]
pub enum Request {
    /// Take a new snapshot of the repository: `finish_refresh`.
    Refresh,
    /// Load a diff to show under `title`: `finish_diff`.
    LoadDiff { title: String, source: DiffSource },
    /// Load the files that a revision changes: `finish_revision_files`.
    RevisionFiles { label: String, revset: String },
    /// Run `jj` with `args`: `finish_mutation`.
    Mutate { args: Vec<String>, label: String, undo: bool },
    /// Run `jj git push`, for one bookmark or all: `finish_push`.
    Push { bookmark: Option<String> },
    /// Run `jj git fetch`: `finish_fetch`.
    Fetch,
    /// Start running the configured pre-push hooks in the background; their
    /// reports go to `tick`.
    StartHooks,
    /// Stop the background hook run, if there is one.
    StopHooks,
    /// Find which tools of the catalog are installed: `finish_tool_picker`.
    CheckInstalledTools,
    /// Find whether treefmt is installed: `finish_treefmt_check`.
    CheckTreefmt,
    /// Find whether these binaries are installed: `finish_recheck`.
    CheckBinaries { binaries: Vec<String> },
    /// Write `treefmt.toml` for these formatters: `finish_treefmt_written`.
    WriteTreefmt { formatters: Vec<ToolDef> },
    /// Append preset hooks with these names to the configuration: `finish_config_written`.
    AppendPresetHooks { names: Vec<String> },
    /// Append command hooks (name, command) to the configuration: `finish_config_written`.
    WriteToolHooks { tools: Vec<(String, String)> },
    /// Read the configuration again: `finish_reload`.
    ReloadConfig { reason: ReloadReason },
    /// Remove the preset hooks from the configuration: `finish_presets_removed`.
    RemovePresetHooks,
}

/// Where the enabling of picked tools stands between the requests it makes.
#[derive(Debug, Clone)]
pub struct EnableProgress {
    /// The treefmt preset hook still has to be added.
    pub add_treefmt_preset: bool,
    /// The command hooks still to be added (name, command).
    pub linters: Vec<(String, String)>,
    /// The names of the picked tools.
    pub names: Vec<String>,
}

/// Everything the interface shows and remembers.
pub struct App {
    pub repo_root: String,
    pub client: JjClient,
    pub config: Config,
    pub status_summary: Vec<String>,
    pub files: Vec<FileEntry>,
    pub revisions: Vec<RevisionEntry>,
    pub bookmarks: Vec<BookmarkEntry>,
    pub operations: Vec<OperationEntry>,
    pub diff_lines: Vec<DiffLine>,
    pub diff_title: String,
    pub diff_scroll: usize,
    pub diff_additions: usize,
    pub diff_removals: usize,
    pub output_log: Vec<String>,
    pub status_message: Option<String>,
    pub focus: Focus,
    pub file_index: usize,
    pub revision_index: usize,
    pub bookmark_index: usize,
    pub operation_index: usize,
    pub files_context: FilesContext,
    pub show_help: bool,
    pub prompt: Option<PromptState>,
    /// A background hook run is under way.
    pub hooks_running: bool,
    pub hook_phase: Option<HookPhase>,
    pub push_after_hooks: bool,
    pub tool_picker: Option<ToolPickerState>,
    pub treefmt_install_picker: Option<TreefmtInstallState>,
    /// Install commands pending execution (tool name, install command).
    pub pending_installs: Vec<(String, String)>,
    pub setup_dismissed: bool,
    /// Tools whose install failed, until the picker is updated.
    pub failed_installs: Vec<String>,
    /// The enabling of picked tools, while it waits for its requests.
    pub enabling: Option<EnableProgress>,
}

/// The title of the files panel: the panel's own title, and the revision it
/// lists when it lists one.
pub open spec fn files_title_view(c: FilesContext) -> Seq<char> {
    match c {
        FilesContext::WorkingCopy => "1 Files"@,
        FilesContext::Revision { label, .. } => "1 Files"@ + " ("@ + label@ + ")"@,
    }
}

pub(crate) fn concat(a: &str, b: &str) -> (r: String)
    ensures
        r@ == a@ + b@,
{
    let mut r = String::from_str(a);
    r.append(b);
    r
}

pub(crate) fn concat3(a: &str, b: &str, c: &str) -> (r: String)
    ensures
        r@ == a@ + b@ + c@,
{
    let mut r = String::from_str(a);
    r.append(b);
    r.append(c);
    r
}

impl App {
    /// The interface for a freshly taken snapshot.
    pub fn new(snapshot: RepoSnapshot, client: JjClient, config: Config) -> (app: App)
        ensures
            app.repo_root == snapshot.root,
            app.client == client,
            app.config == config,
            app.status_summary == snapshot.status_summary,
            app.files == snapshot.files,
            app.revisions == snapshot.revisions,
            app.bookmarks == snapshot.bookmarks,
            app.operations == snapshot.operations,
            app.diff_lines == snapshot.initial_diff,
            app.diff_title@ == "working copy"@,
            app.diff_scroll == 0,
            app.diff_additions == count_kind(snapshot.initial_diff@, DiffKind::Addition),
            app.diff_removals == count_kind(snapshot.initial_diff@, DiffKind::Removal),
            views(app.output_log@) == seq!["lazyjj initialized"@],
            app.status_message is None,
            app.focus == Focus::Files,
            app.file_index == 0,
            app.revision_index == 0,
            app.bookmark_index == 0,
            app.operation_index == 0,
            app.files_context is WorkingCopy,
            !app.show_help,
            app.prompt is None,
            !app.hooks_running,
            app.hook_phase is None,
            !app.push_after_hooks,
            app.tool_picker is None,
            app.treefmt_install_picker is None,
            app.pending_installs@.len() == 0,
            !app.setup_dismissed,
            app.failed_installs@.len() == 0,
            app.enabling is None,
    {
        let mut output_log: Vec<String> = Vec::new();
        output_log.push(String::from_str("lazyjj initialized"));
        let mut app = App {
            repo_root: snapshot.root,
            client,
            config,
            status_summary: snapshot.status_summary,
            files: snapshot.files,
            revisions: snapshot.revisions,
            bookmarks: snapshot.bookmarks,
            operations: snapshot.operations,
            diff_lines: snapshot.initial_diff,
            diff_title: String::from_str("working copy"),
            diff_scroll: 0,
            diff_additions: 0,
            diff_removals: 0,
            output_log,
            status_message: None,
            focus: Focus::Files,
            file_index: 0,
            revision_index: 0,
            bookmark_index: 0,
            operation_index: 0,
            files_context: FilesContext::WorkingCopy,
            show_help: false,
            prompt: None,
            hooks_running: false,
            hook_phase: None,
            push_after_hooks: false,
            tool_picker: None,
            treefmt_install_picker: None,
            pending_installs: Vec::new(),
            setup_dismissed: false,
            failed_installs: Vec::new(),
            enabling: None,
        };
        proof {
            assert(views(app.output_log@) =~= seq!["lazyjj initialized"@]);
        }
        app.recount_diff();
        app
    }

    /// Counts the added and removed lines of the shown diff.
    pub fn recount_diff(&mut self)
        ensures
            *final(self) == (App {
                diff_additions: final(self).diff_additions,
                diff_removals: final(self).diff_removals,
                ..*old(self)
            }),
            final(self).diff_additions == count_kind(old(self).diff_lines@, DiffKind::Addition),
            final(self).diff_removals == count_kind(old(self).diff_lines@, DiffKind::Removal),
    {
        self.diff_additions = count_lines_of_kind(&self.diff_lines, DiffKind::Addition);
        self.diff_removals = count_lines_of_kind(&self.diff_lines, DiffKind::Removal);
    }

    /// Adds a line to the command log, dropping the oldest lines beyond the limit.
    pub fn push_output(&mut self, line: String)
        ensures
            *final(self) == (App { output_log: final(self).output_log, ..*old(self) }),
            final(self).output_log@ == log_push(old(self).output_log@, line),
            views(final(self).output_log@) == log_view_push(views(old(self).output_log@), line@),
    {
        let ghost l = self.output_log@.push(line);
        self.output_log.push(line);
        proof {
            assert(l.skip(0) =~= l);
        }
        while self.output_log.len() > OUTPUT_LOG_LIMIT
            invariant
                l.len() > OUTPUT_LOG_LIMIT ==> self.output_log@.len() >= OUTPUT_LOG_LIMIT,
                l.len() <= OUTPUT_LOG_LIMIT ==> self.output_log@.len() == l.len(),
                l.len() >= self.output_log@.len(),
                self.output_log@ == l.skip(l.len() - self.output_log@.len()),
                *self == (App { output_log: self.output_log, ..*old(self) }),
            decreases self.output_log@.len(),
        {
            let ghost before = self.output_log@;
            self.output_log.remove(0);
            proof {
                assert(self.output_log@ =~= l.skip(l.len() - self.output_log@.len()));
            }
        }
        proof {
            if l.len() > OUTPUT_LOG_LIMIT {
                assert(self.output_log@.len() == OUTPUT_LOG_LIMIT);
            }
            assert(views(l) =~= views(old(self).output_log@).push(line@));
            let vl = views(l);
            if l.len() > OUTPUT_LOG_LIMIT {
                assert(views(self.output_log@) =~= vl.skip(vl.len() - OUTPUT_LOG_LIMIT));
            } else {
                assert(views(self.output_log@) =~= vl);
            }
        }
    }

    /// Keeps every selection within its list.
    pub fn ensure_indices(&mut self)
        ensures
            *final(self) == (App {
                file_index: clamped_index(
                    old(self).file_index as int,
                    old(self).files@.len() as int,
                ) as usize,
                revision_index: clamped_index(
                    old(self).revision_index as int,
                    old(self).revisions@.len() as int,
                ) as usize,
                bookmark_index: clamped_index(
                    old(self).bookmark_index as int,
                    old(self).bookmarks@.len() as int,
                ) as usize,
                operation_index: clamped_index(
                    old(self).operation_index as int,
                    old(self).operations@.len() as int,
                ) as usize,
                ..*old(self)
            }),
    {
        self.file_index = clamp_index(self.file_index, self.files.len());
        self.revision_index = clamp_index(self.revision_index, self.revisions.len());
        self.bookmark_index = clamp_index(self.bookmark_index, self.bookmarks.len());
        self.operation_index = clamp_index(self.operation_index, self.operations.len());
    }

    /// The title of the files panel.
    pub fn files_title(&self) -> (r: String)
        ensures
            r@ == files_title_view(self.files_context),
    {
        match &self.files_context {
            FilesContext::WorkingCopy => String::from_str(Focus::Files.title()),
            FilesContext::Revision { label, .. } => {
                let mut r = concat3(Focus::Files.title(), " (", label.as_str());
                r.append(")");
                proof {
                    assert(r@ =~= "1 Files"@ + " ("@ + label@ + ")"@);
                }
                r
            },
        }
    }

    /// The action that a key stands for in the main view.
    pub fn action_for_key(&self, key: KeyEvent) -> (r: Option<Action>)
        ensures
            r == key_action(key.code),
    {
        match key.code {
            KeyCode::Char('q') => Some(Action::Quit),
            KeyCode::Char('?') => Some(Action::ToggleHelp),
            KeyCode::Tab => Some(Action::FocusNext),
            KeyCode::BackTab => Some(Action::FocusPrevious),
            KeyCode::Char('1') => Some(Action::SetFocus(Focus::Files)),
            KeyCode::Char('2') => Some(Action::SetFocus(Focus::Bookmarks)),
            KeyCode::Char('3') => Some(Action::SetFocus(Focus::Revisions)),
            KeyCode::Char('4') => Some(Action::SetFocus(Focus::Operations)),
            KeyCode::Char('5') => Some(Action::SetFocus(Focus::Diff)),
            KeyCode::Char('6') => Some(Action::SetFocus(Focus::Output)),
            KeyCode::Char('r') => Some(Action::Refresh),
            KeyCode::Enter => Some(Action::InspectCurrent),
            KeyCode::Down => Some(Action::MoveSelection(1)),
            KeyCode::Char('j') => Some(Action::MoveSelection(1)),
            KeyCode::Up => Some(Action::MoveSelection(-1)),
            KeyCode::Char('k') => Some(Action::MoveSelection(-1)),
            KeyCode::Char('J') => Some(Action::ScrollDiff(1)),
            KeyCode::Char('K') => Some(Action::ScrollDiff(-1)),
            KeyCode::Char('g') => Some(Action::JumpToStart),
            KeyCode::Char('G') => Some(Action::JumpToEnd),
            KeyCode::Char('p') => Some(Action::OpenPrompt(PromptKind::RunCommand)),
            KeyCode::Char('d') => Some(Action::OpenPrompt(PromptKind::DescribeRevision)),
            KeyCode::Char('n') => Some(Action::OpenPrompt(PromptKind::NewChange)),
            KeyCode::Char('b') => Some(Action::OpenPrompt(PromptKind::CreateBookmark)),
            KeyCode::Char('m') => Some(Action::OpenPrompt(PromptKind::MoveBookmark)),
            KeyCode::Char('s') => Some(Action::OpenPrompt(PromptKind::SquashInto)),
            KeyCode::Char('a') => Some(Action::OpenPrompt(PromptKind::ConfirmAbandon)),
            KeyCode::Char('u') => Some(Action::Undo),
            KeyCode::Char('o') => Some(Action::OpenPrompt(PromptKind::RestoreOperation)),
            KeyCode::Char('P') => Some(Action::Push),
            KeyCode::Char('F') => Some(Action::Fetch),
            KeyCode::Char('H') => Some(Action::RunHooks),
            _ => None,
        }
    }

    pub fn selected_file(&self) -> (r: Option<&FileEntry>)
        ensures
            r == (if self.file_index < self.files@.len() {
                Some(&self.files@[self.file_index as int])
            } else {
                None
            }),
    {
        if self.file_index < self.files.len() {
            Some(&self.files[self.file_index])
        } else {
            None
        }
    }

    pub fn selected_revision(&self) -> (r: Option<&RevisionEntry>)
        ensures
            r == (if self.revision_index < self.revisions@.len() {
                Some(&self.revisions@[self.revision_index as int])
            } else {
                None
            }),
    {
        if self.revision_index < self.revisions.len() {
            Some(&self.revisions[self.revision_index])
        } else {
            None
        }
    }

    pub fn selected_bookmark(&self) -> (r: Option<&BookmarkEntry>)
        ensures
            r == (if self.bookmark_index < self.bookmarks@.len() {
                Some(&self.bookmarks@[self.bookmark_index as int])
            } else {
                None
            }),
    {
        if self.bookmark_index < self.bookmarks.len() {
            Some(&self.bookmarks[self.bookmark_index])
        } else {
            None
        }
    }

    pub fn selected_operation(&self) -> (r: Option<&OperationEntry>)
        ensures
            r == (if self.operation_index < self.operations@.len() {
                Some(&self.operations@[self.operation_index as int])
            } else {
                None
            }),
    {
        if self.operation_index < self.operations.len() {
            Some(&self.operations[self.operation_index])
        } else {
            None
        }
    }

    /// The commit id of the selected revision, if one is selected.
    pub fn selected_revision_commit(&self) -> (r: Option<String>)
        ensures
            r matches Some(c) ==> self.revision_index < self.revisions@.len() && c@
                == self.revisions@[self.revision_index as int].commit_id@,
            r is None ==> self.revision_index >= self.revisions@.len(),
    {
        match self.selected_revision() {
            Some(rev) => Some(rev.commit_id.clone()),
            None => None,
        }
    }

    /// The commit id of the selected revision, else `@`.
    pub fn selected_revision_target(&self) -> (r: String)
        ensures
            r@ == (if self.revision_index < self.revisions@.len() {
                self.revisions@[self.revision_index as int].commit_id@
            } else {
                "@"@
            }),
    {
        match self.selected_revision_commit() {
            Some(c) => c,
            None => String::from_str("@"),
        }
    }

    /// Scrolls the diff by `delta` lines, stopping at the top and at the largest index.
    pub fn scroll_diff(&mut self, delta: isize)
        ensures
            *final(self) == (App {
                diff_scroll: scrolled(old(self).diff_scroll, delta),
                ..*old(self)
            }),
    {
        if delta < 0 {
            let back: usize = (0 - (delta as i128)) as usize;
            if self.diff_scroll < back {
                self.diff_scroll = 0;
            } else {
                self.diff_scroll = self.diff_scroll - back;
            }
        } else {
            let ahead: usize = delta as usize;
            if self.diff_scroll > usize::MAX - ahead {
                self.diff_scroll = usize::MAX;
            } else {
                self.diff_scroll = self.diff_scroll + ahead;
            }
        }
    }

    /// Selects the first item of the focused list, or scrolls the diff to its top.
    pub fn jump_to_start(&mut self)
        ensures
            *final(self) == jumped_to_start(*old(self)),
    {
        match self.focus {
            Focus::Files => self.file_index = 0,
            Focus::Revisions => self.revision_index = 0,
            Focus::Bookmarks => self.bookmark_index = 0,
            Focus::Operations => self.operation_index = 0,
            Focus::Diff => self.diff_scroll = 0,
            Focus::Output => {},
        }
    }

    /// Selects the last item of the focused list, or scrolls the diff to its last line.
    pub fn jump_to_end(&mut self)
        ensures
            *final(self) == jumped_to_end(*old(self)),
    {
        match self.focus {
            Focus::Files => self.file_index = saturating_dec(self.files.len()),
            Focus::Revisions => self.revision_index = saturating_dec(self.revisions.len()),
            Focus::Bookmarks => self.bookmark_index = saturating_dec(self.bookmarks.len()),
            Focus::Operations => self.operation_index = saturating_dec(self.operations.len()),
            Focus::Diff => self.diff_scroll = saturating_dec(self.diff_lines.len()),
            Focus::Output => {},
        }
    }
}

/// Where a diff comes from, as text.
pub enum SourceView {
    WorkingCopyFile { path: Seq<char> },
    RevisionFile { revset: Seq<char>, path: Seq<char> },
    Revision { revset: Seq<char> },
    Operation { op_id: Seq<char> },
}

/// A request with its strings as text.
pub enum RequestView {
    Refresh,
    LoadDiff { title: Seq<char>, source: SourceView },
    RevisionFiles { label: Seq<char>, revset: Seq<char> },
    Mutate { args: Seq<Seq<char>>, label: Seq<char>, undo: bool },
    Push { bookmark: Option<Seq<char>> },
    Fetch,
    StartHooks,
    StopHooks,
    CheckInstalledTools,
    CheckTreefmt,
    CheckBinaries { binaries: Seq<Seq<char>> },
    WriteTreefmt { formatters: Seq<ToolDef> },
    AppendPresetHooks { names: Seq<Seq<char>> },
    WriteToolHooks { tools: Seq<(Seq<char>, Seq<char>)> },
    ReloadConfig { reason: ReloadReason },
    RemovePresetHooks,
}

pub open spec fn source_view(s: DiffSource) -> SourceView {
    match s {
        DiffSource::WorkingCopyFile { path } => SourceView::WorkingCopyFile { path: path@ },
        DiffSource::RevisionFile { revset, path } => SourceView::RevisionFile {
            revset: revset@,
            path: path@,
        },
        DiffSource::Revision { revset } => SourceView::Revision { revset: revset@ },
        DiffSource::Operation { op_id } => SourceView::Operation { op_id: op_id@ },
    }
}

pub open spec fn pair_views(v: Seq<(String, String)>) -> Seq<(Seq<char>, Seq<char>)> {
    v.map_values(|p: (String, String)| (p.0@, p.1@))
}

pub open spec fn request_view(r: Request) -> RequestView {
    match r {
        Request::Refresh => RequestView::Refresh,
        Request::LoadDiff { title, source } => RequestView::LoadDiff {
            title: title@,
            source: source_view(source),
        },
        Request::RevisionFiles { label, revset } => RequestView::RevisionFiles {
            label: label@,
            revset: revset@,
        },
        Request::Mutate { args, label, undo } => RequestView::Mutate {
            args: views(args@),
            label: label@,
            undo,
        },
        Request::Push { bookmark } => RequestView::Push {
            bookmark: match bookmark {
                Some(b) => Some(b@),
                None => None,
            },
        },
        Request::Fetch => RequestView::Fetch,
        Request::StartHooks => RequestView::StartHooks,
        Request::StopHooks => RequestView::StopHooks,
        Request::CheckInstalledTools => RequestView::CheckInstalledTools,
        Request::CheckTreefmt => RequestView::CheckTreefmt,
        Request::CheckBinaries { binaries } => RequestView::CheckBinaries {
            binaries: views(binaries@),
        },
        Request::WriteTreefmt { formatters } => RequestView::WriteTreefmt {
            formatters: formatters@,
        },
        Request::AppendPresetHooks { names } => RequestView::AppendPresetHooks {
            names: views(names@),
        },
        Request::WriteToolHooks { tools } => RequestView::WriteToolHooks {
            tools: pair_views(tools@),
        },
        Request::ReloadConfig { reason } => RequestView::ReloadConfig { reason },
        Request::RemovePresetHooks => RequestView::RemovePresetHooks,
    }
}

pub open spec fn request_views(v: Seq<Request>) -> Seq<RequestView> {
    v.map_values(|r: Request| request_view(r))
}

/// The diff that previewing the selection loads, if any.
pub open spec fn preview_requests(a: App) -> Seq<RequestView> {
    match a.focus {
        Focus::Files => if a.file_index < a.files@.len() {
            let f = a.files@[a.file_index as int];
            match a.files_context {
                FilesContext::WorkingCopy => seq![
                    RequestView::LoadDiff {
                        title: "file "@ + f.path@,
                        source: SourceView::WorkingCopyFile { path: f.path@ },
                    },
                ],
                FilesContext::Revision { revset, .. } => seq![
                    RequestView::LoadDiff {
                        title: "file "@ + f.path@,
                        source: SourceView::RevisionFile { revset: revset@, path: f.path@ },
                    },
                ],
            }
        } else {
            seq![]
        },
        Focus::Revisions => if a.revision_index < a.revisions@.len() {
            let r = a.revisions@[a.revision_index as int];
            seq![
                RequestView::LoadDiff {
                    title: "revision "@ + r.commit_id@,
                    source: SourceView::Revision { revset: r.commit_id@ },
                },
            ]
        } else {
            seq![]
        },
        Focus::Bookmarks => if a.bookmark_index < a.bookmarks@.len() {
            let b = a.bookmarks@[a.bookmark_index as int];
            seq![
                RequestView::LoadDiff {
                    title: "bookmark "@ + b.name@,
                    source: SourceView::Revision { revset: b.name@ },
                },
            ]
        } else {
            seq![]
        },
        Focus::Operations => if a.operation_index < a.operations@.len() {
            let o = a.operations@[a.operation_index as int];
            seq![
                RequestView::LoadDiff {
                    title: "operation "@ + o.id@,
                    source: SourceView::Operation { op_id: o.id@ },
                },
            ]
        } else {
            seq![]
        },
        _ => seq![],
    }
}

/// What inspecting the selection loads: for a revision or a bookmark, the files
/// it changes; then the diff that previewing loads.
pub open spec fn inspect_requests(a: App) -> Seq<RequestView> {
    let files: Seq<RequestView> = match a.focus {
        Focus::Revisions => if a.revision_index < a.revisions@.len() {
            let r = a.revisions@[a.revision_index as int];
            seq![RequestView::RevisionFiles { label: "revision "@ + r.commit_id@, revset: r.commit_id@ }]
        } else {
            seq![]
        },
        Focus::Bookmarks => if a.bookmark_index < a.bookmarks@.len() {
            let b = a.bookmarks@[a.bookmark_index as int];
            seq![RequestView::RevisionFiles { label: "bookmark "@ + b.name@, revset: b.name@ }]
        } else {
            seq![]
        },
        _ => seq![],
    };
    files + preview_requests(a)
}

/// Every selection and list length stays within the range of `isize`.
pub open spec fn list_fits(len: nat, index: usize) -> bool {
    len <= isize::MAX && index < isize::MAX
}

pub open spec fn selections_fit(a: App) -> bool {
    &&& list_fits(a.files@.len(), a.file_index)
    &&& list_fits(a.revisions@.len(), a.revision_index)
    &&& list_fits(a.bookmarks@.len(), a.bookmark_index)
    &&& list_fits(a.operations@.len(), a.operation_index)
}

/// The status line holds `m`.
pub open spec fn status_is(a: App, m: Seq<char>) -> bool {
    a.status_message matches Some(s) && s@ == m
}

/// `new` is `old` with text written to the status line and lines added to the log.
pub open spec fn reported(old: App, new: App, status: Seq<char>, lines: Seq<Seq<char>>) -> bool {
    &&& new == (App { status_message: new.status_message, output_log: new.output_log, ..old })
    &&& status_is(new, status)
    &&& views(new.output_log@) == log_after(views(old.output_log@), lines)
}

/// `new` is `old` with lines added to the log.
pub open spec fn logged(old: App, new: App, lines: Seq<Seq<char>>) -> bool {
    &&& new == (App { output_log: new.output_log, ..old })
    &&& views(new.output_log@) == log_after(views(old.output_log@), lines)
}

/// A line for the log when `s` is not empty once trimmed.
pub open spec fn trimmed_line(s: Seq<char>) -> Seq<Seq<char>> {
    if trim(s).len() > 0 {
        seq![trim(s)]
    } else {
        seq![]
    }
}

/// The log lines of a command that ran: the command, then its trimmed output
/// and error output where they are not empty.
pub open spec fn ran_lines(command: Seq<char>, out: CommandOutput) -> Seq<Seq<char>> {
    seq![command] + trimmed_line(out.stdout@) + trimmed_line(out.stderr@)
}

pub(crate) fn trimmed_string(s: &String) -> (r: String)
    ensures
        r@ == trim(s@),
{
    let v = crate::text::chars_of(s.as_str());
    let (a, b) = crate::text::trim_range(&v, 0, v.len());
    proof {
        assert(v@.subrange(0, v@.len() as int) =~= v@);
    }
    crate::text::substring(s.as_str(), a, b)
}

impl App {
    /// Adds `line` to the log.
    pub(crate) fn log(&mut self, line: String)
        ensures
            logged(*old(self), *final(self), seq![line@]),
    {
        let ghost start = views(self.output_log@);
        let ghost lv = line@;
        self.push_output(line);
        proof {
            let one = seq![lv];
            assert(one.drop_last() =~= Seq::<Seq<char>>::empty());
            assert(one.last() == lv);
            assert(log_after(start, one.drop_last()) == start);
            assert(log_after(start, one) == log_view_push(start, lv));
        }
    }

    /// Adds the trimmed text to the log when it is not empty.
    pub(crate) fn log_trimmed(&mut self, text: &String)
        ensures
            logged(*old(self), *final(self), trimmed_line(text@)),
    {
        let t = trimmed_string(text);
        if t.as_str().is_empty() {
            proof {
                assert(log_after(views(self.output_log@), seq![]) == views(self.output_log@));
            }
        } else {
            self.log(t);
        }
    }

    /// Logs a command that ran and its output.
    pub(crate) fn log_ran(&mut self, command: String, out: &CommandOutput)
        ensures
            logged(*old(self), *final(self), ran_lines(command@, *out)),
    {
        let ghost start = views(self.output_log@);
        let ghost c = command@;
        self.log(command);
        let ghost mid = views(self.output_log@);
        self.log_trimmed(&out.stdout);
        proof {
            lemma_log_after_concat(start, seq![c], trimmed_line(out.stdout@));
        }
        self.log_trimmed(&out.stderr);
        proof {
            lemma_log_after_concat(
                start,
                seq![c] + trimmed_line(out.stdout@),
                trimmed_line(out.stderr@),
            );
        }
    }

    /// Writes `status` to the status line and adds `line` to the log.
    pub(crate) fn report(&mut self, status: String, line: String)
        ensures
            reported(*old(self), *final(self), status@, seq![line@]),
    {
        self.status_message = Some(status);
        self.log(line);
    }

    /// The diff to load for the selection.
    pub fn preview_current(&self) -> (r: Vec<Request>)
        ensures
            request_views(r@) == preview_requests(*self),
    {
        let mut r: Vec<Request> = Vec::new();
        match self.focus {
            Focus::Files => {
                if let Some(file) = self.selected_file() {
                    let title = concat("file ", file.path.as_str());
                    match &self.files_context {
                        FilesContext::WorkingCopy => {
                            r.push(
                                Request::LoadDiff {
                                    title,
                                    source: DiffSource::WorkingCopyFile { path: file.path.clone() },
                                },
                            );
                        },
                        FilesContext::Revision { revset, .. } => {
                            r.push(
                                Request::LoadDiff {
                                    title,
                                    source: DiffSource::RevisionFile {
                                        revset: revset.clone(),
                                        path: file.path.clone(),
                                    },
                                },
                            );
                        },
                    }
                }
            },
            Focus::Revisions => {
                if let Some(rev) = self.selected_revision() {
                    r.push(
                        Request::LoadDiff {
                            title: concat("revision ", rev.commit_id.as_str()),
                            source: DiffSource::Revision { revset: rev.commit_id.clone() },
                        },
                    );
                }
            },
            Focus::Bookmarks => {
                if let Some(bookmark) = self.selected_bookmark() {
                    r.push(
                        Request::LoadDiff {
                            title: concat("bookmark ", bookmark.name.as_str()),
                            source: DiffSource::Revision { revset: bookmark.name.clone() },
                        },
                    );
                }
            },
            Focus::Operations => {
                if let Some(op) = self.selected_operation() {
                    r.push(
                        Request::LoadDiff {
                            title: concat("operation ", op.id.as_str()),
                            source: DiffSource::Operation { op_id: op.id.clone() },
                        },
                    );
                }
            },
            _ => {},
        }
        proof {
            assert(request_views(r@) =~= preview_requests(*self));
        }
        r
    }

    /// What to load to inspect the selection.
    pub fn inspect_current(&self) -> (r: Vec<Request>)
        ensures
            request_views(r@) == inspect_requests(*self),
    {
        let mut r: Vec<Request> = Vec::new();
        match self.focus {
            Focus::Revisions => {
                if let Some(rev) = self.selected_revision() {
                    r.push(
                        Request::RevisionFiles {
                            label: concat("revision ", rev.commit_id.as_str()),
                            revset: rev.commit_id.clone(),
                        },
                    );
                }
            },
            Focus::Bookmarks => {
                if let Some(bookmark) = self.selected_bookmark() {
                    r.push(
                        Request::RevisionFiles {
                            label: concat("bookmark ", bookmark.name.as_str()),
                            revset: bookmark.name.clone(),
                        },
                    );
                }
            },
            _ => {},
        }
        let ghost first = r@;
        let mut preview = self.preview_current();
        r.append(&mut preview);
        proof {
            assert(request_views(r@) =~= request_views(first) + preview_requests(*self));
            assert(request_views(r@) =~= inspect_requests(*self));
        }
        r
    }

    /// Shows the diff that a `LoadDiff` request brought back, or why it failed.
    pub fn finish_diff(&mut self, title: String, result: Result<Vec<DiffLine>, String>)
        ensures
            match result {
                Ok(lines) => *final(self) == (App {
                    diff_title: title,
                    diff_scroll: 0,
                    diff_lines: lines,
                    diff_additions: count_kind(lines@, DiffKind::Addition) as usize,
                    diff_removals: count_kind(lines@, DiffKind::Removal) as usize,
                    ..*old(self)
                }),
                Err(e) => reported(
                    App { diff_title: title, diff_scroll: 0, ..*old(self) },
                    *final(self),
                    e@,
                    seq!["inspect failed: "@ + e@],
                ),
            },
    {
        self.diff_title = title;
        self.diff_scroll = 0;
        match result {
            Ok(lines) => {
                self.diff_lines = lines;
                self.recount_diff();
            },
            Err(e) => {
                let line = concat("inspect failed: ", e.as_str());
                self.report(e, line);
            },
        }
    }

    /// Lists the files of a revision that a `RevisionFiles` request brought
    /// back, or logs why it failed.
    pub fn finish_revision_files(
        &mut self,
        label: String,
        revset: String,
        result: Result<Vec<FileEntry>, String>,
    )
        ensures
            match result {
                Ok(files) => *final(self) == (App {
                    files: files,
                    files_context: FilesContext::Revision { label, revset },
                    file_index: 0,
                    ..*old(self)
                }),
                Err(e) => logged(*old(self), *final(self), seq!["failed to load files: "@ + e@]),
            },
    {
        match result {
            Ok(files) => {
                self.files = files;
                self.files_context = FilesContext::Revision { label, revset };
                self.file_index = 0;
            },
            Err(e) => {
                let line = concat("failed to load files: ", e.as_str());
                self.log(line);
            },
        }
    }

    /// Takes in a new snapshot of the repository, or reports why it could not
    /// be taken. The files panel goes back to the working copy; the diff is
    /// replaced only when it showed the working copy or nothing.
    pub fn finish_refresh(&mut self, result: Result<RepoSnapshot, String>)
        ensures
            match result {
                Ok(snap) => {
                    let replaced = old(self).diff_title@ == "working copy"@ || old(self).diff_lines@.len() == 0;
                    let base = App {
                        repo_root: snap.root,
                        status_summary: snap.status_summary,
                        files: snap.files,
                        files_context: FilesContext::WorkingCopy,
                        revisions: snap.revisions,
                        bookmarks: snap.bookmarks,
                        operations: snap.operations,
                        file_index: clamped_index(old(self).file_index as int, snap.files@.len() as int) as usize,
                        revision_index: clamped_index(old(self).revision_index as int, snap.revisions@.len() as int) as usize,
                        bookmark_index: clamped_index(old(self).bookmark_index as int, snap.bookmarks@.len() as int) as usize,
                        operation_index: clamped_index(old(self).operation_index as int, snap.operations@.len() as int) as usize,
                        ..*old(self)
                    };
                    let shown = if replaced {
                        App {
                            diff_lines: snap.initial_diff,
                            diff_scroll: 0,
                            diff_additions: count_kind(snap.initial_diff@, DiffKind::Addition) as usize,
                            diff_removals: count_kind(snap.initial_diff@, DiffKind::Removal) as usize,
                            ..base
                        }
                    } else {
                        base
                    };
                    reported(shown, *final(self), "Refreshed repository state"@, seq!["refresh complete"@])
                },
                Err(e) => reported(*old(self), *final(self), e@, seq!["refresh failed: "@ + e@]),
            },
    {
        match result {
            Ok(snapshot) => {
                self.repo_root = snapshot.root;
                self.status_summary = snapshot.status_summary;
                self.files = snapshot.files;
                self.files_context = FilesContext::WorkingCopy;
                self.revisions = snapshot.revisions;
                self.bookmarks = snapshot.bookmarks;
                self.operations = snapshot.operations;
                self.ensure_indices();
                let working = crate::hooks::str_eq(self.diff_title.as_str(), "working copy");
                if working || self.diff_lines.len() == 0 {
                    self.diff_lines = snapshot.initial_diff;
                    self.diff_scroll = 0;
                    self.recount_diff();
                }
                self.report(
                    String::from_str("Refreshed repository state"),
                    String::from_str("refresh complete"),
                );
            },
            Err(e) => {
                let line = concat("refresh failed: ", e.as_str());
                self.report(e, line);
            },
        }
    }
}

/// A prompt: its title, its placeholder and its initial value.
pub open spec fn prompt_text(a: App, kind: PromptKind) -> (Seq<char>, Seq<char>, Seq<char>) {
    match kind {
        PromptKind::RunCommand => (
            "Run arbitrary `jj` subcommand"@,
            "status --ignore-working-copy"@,
            seq![],
        ),
        PromptKind::DescribeRevision => (
            "Describe selected revision"@,
            "new commit message"@,
            if a.revision_index < a.revisions@.len() {
                a.revisions@[a.revision_index as int].description@
            } else {
                seq![]
            },
        ),
        PromptKind::NewChange => ("Create new change from selected revision"@, "message"@, seq![]),
        PromptKind::CreateBookmark => (
            "Create bookmark at selected revision"@,
            "bookmark name"@,
            seq![],
        ),
        PromptKind::MoveBookmark => (
            "Move selected bookmark to revision"@,
            "@"@,
            revision_target(a),
        ),
        PromptKind::SquashInto => ("Squash selected revision into"@, "destination revset"@, "@"@),
        PromptKind::ConfirmAbandon => (
            "Type `yes` to abandon selected revision"@,
            "yes"@,
            seq![],
        ),
        PromptKind::RestoreOperation => (
            "Restore operation id"@,
            "operation id"@,
            if a.operation_index < a.operations@.len() {
                a.operations@[a.operation_index as int].id@
            } else {
                seq![]
            },
        ),
    }
}

/// The commit id of the selected revision, else `@`.
pub open spec fn revision_target(a: App) -> Seq<char> {
    if a.revision_index < a.revisions@.len() {
        a.revisions@[a.revision_index as int].commit_id@
    } else {
        "@"@
    }
}

/// What the answer to a prompt asks for, with its strings as text.
pub enum AnswerView {
    /// Nothing to run.
    Nothing,
    /// The abandon was not confirmed.
    Cancelled,
    /// Run `jj` with `args`; `label` names it in the status line.
    Run { args: Seq<Seq<char>>, label: Seq<char> },
    /// The answer cannot be acted on.
    Refused { message: Seq<char> },
}

/// What the answer `value` (already trimmed) to a prompt of `kind` asks for.
pub open spec fn prompt_answer(a: App, kind: PromptKind, value: Seq<char>) -> AnswerView {
    let rev = revision_target(a);
    let has_rev = a.revision_index < a.revisions@.len();
    match kind {
        PromptKind::DescribeRevision => AnswerView::Run {
            args: seq!["describe"@, rev, "-m"@, value],
            label: "describe "@ + rev,
        },
        PromptKind::NewChange => AnswerView::Run {
            args: seq!["new"@, rev, "-m"@, value],
            label: "new change from "@ + rev,
        },
        PromptKind::CreateBookmark => AnswerView::Run {
            args: seq!["bookmark"@, "create"@, value, "-r"@, rev],
            label: "bookmark create "@ + value + " -> "@ + rev,
        },
        PromptKind::MoveBookmark => if a.bookmark_index < a.bookmarks@.len() {
            let b = a.bookmarks@[a.bookmark_index as int].name@;
            AnswerView::Run {
                args: seq!["bookmark"@, "move"@, b, "--to"@, value, "--allow-backwards"@],
                label: "bookmark move "@ + b + " -> "@ + value,
            }
        } else {
            AnswerView::Refused { message: "select a bookmark to move"@ }
        },
        PromptKind::SquashInto => if has_rev {
            AnswerView::Run {
                args: seq!["squash"@, "--from"@, rev, "--into"@, value],
                label: "squash "@ + rev + " into "@ + value,
            }
        } else {
            AnswerView::Refused { message: "select a revision to squash"@ }
        },
        PromptKind::RestoreOperation => AnswerView::Run {
            args: seq!["op"@, "restore"@, value],
            label: "restore operation "@ + value,
        },
        PromptKind::RunCommand => if trim(value).len() == 0 {
            AnswerView::Nothing
        } else {
            AnswerView::Run { args: words(trim(value)), label: "jj "@ + trim(value) }
        },
        PromptKind::ConfirmAbandon => if value != "yes"@ {
            AnswerView::Cancelled
        } else if has_rev {
            AnswerView::Run { args: seq!["abandon"@, rev], label: "abandon "@ + rev }
        } else {
            AnswerView::Refused { message: "select a revision to abandon"@ }
        },
    }
}

/// What the answer to a prompt asks for.
pub enum Answer {
    Nothing,
    Cancelled,
    Run { args: Vec<String>, label: String },
    Refused { message: String },
}

pub open spec fn answer_view(a: Answer) -> AnswerView {
    match a {
        Answer::Nothing => AnswerView::Nothing,
        Answer::Cancelled => AnswerView::Cancelled,
        Answer::Run { args, label } => AnswerView::Run { args: views(args@), label: label@ },
        Answer::Refused { message } => AnswerView::Refused { message: message@ },
    }
}

pub(crate) fn push_s(v: &mut Vec<String>, s: String)
    ensures
        views(final(v)@) == views(old(v)@).push(s@),
{
    let ghost before = v@;
    let ghost sv = s@;
    v.push(s);
    proof {
        assert(views(v@) =~= views(before).push(sv));
    }
}

fn strings(parts: &[&str]) -> (r: Vec<String>)
    ensures
        views(r@) == parts@.map_values(|p: &str| p@),
{
    crate::text::to_strings(parts)
}

/// What submitting a prompt leads to: the state right after, and what it asks for.
pub open spec fn submit_post(old: App, new: App, reqs: Seq<RequestView>) -> bool {
    match old.prompt {
        None => new == old && reqs.len() == 0,
        Some(p) => {
            let closed = App { prompt: None, ..old };
            match prompt_answer(closed, p.kind, trim(p.value@)) {
                AnswerView::Refused { message } => reported(
                    closed,
                    new,
                    message,
                    seq!["action failed: "@ + message],
                ) && reqs.len() == 0,
                AnswerView::Nothing => new == closed && reqs == seq![RequestView::Refresh],
                AnswerView::Cancelled => reported(
                    closed,
                    new,
                    "Type `yes` to abandon the selected revision"@,
                    seq!["abandon cancelled"@],
                ) && reqs == seq![RequestView::Refresh],
                AnswerView::Run { args, label } => new == closed && reqs == seq![
                    RequestView::Mutate { args, label, undo: false },
                ],
            }
        },
    }
}

/// What moving the selection by `delta` does to the state.
pub open spec fn moved(a: App, delta: isize) -> App {
    match a.focus {
        Focus::Files => App {
            file_index: adjusted_index(a.file_index as int, a.files@.len() as int, delta as int)
                as usize,
            ..a
        },
        Focus::Revisions => App {
            revision_index: adjusted_index(
                a.revision_index as int,
                a.revisions@.len() as int,
                delta as int,
            ) as usize,
            ..a
        },
        Focus::Bookmarks => App {
            bookmark_index: adjusted_index(
                a.bookmark_index as int,
                a.bookmarks@.len() as int,
                delta as int,
            ) as usize,
            ..a
        },
        Focus::Operations => App {
            operation_index: adjusted_index(
                a.operation_index as int,
                a.operations@.len() as int,
                delta as int,
            ) as usize,
            ..a
        },
        Focus::Diff => App { diff_scroll: scrolled(a.diff_scroll, delta), ..a },
        Focus::Output => a,
    }
}

/// What moving the selection loads: a selection that changed is previewed
/// (files, operations) or inspected (revisions, bookmarks).
pub open spec fn move_requests(old: App, new: App) -> Seq<RequestView> {
    match old.focus {
        Focus::Files => if new.file_index != old.file_index {
            preview_requests(new)
        } else {
            seq![]
        },
        Focus::Revisions => if new.revision_index != old.revision_index {
            inspect_requests(new)
        } else {
            seq![]
        },
        Focus::Bookmarks => if new.bookmark_index != old.bookmark_index {
            inspect_requests(new)
        } else {
            seq![]
        },
        Focus::Operations => if new.operation_index != old.operation_index {
            preview_requests(new)
        } else {
            seq![]
        },
        _ => seq![],
    }
}

/// The focused list's selection moved by `delta` stays within `isize`.
pub open spec fn delta_fits(a: App, delta: isize) -> bool {
    match a.focus {
        Focus::Files => a.file_index + delta <= isize::MAX,
        Focus::Revisions => a.revision_index + delta <= isize::MAX,
        Focus::Bookmarks => a.bookmark_index + delta <= isize::MAX,
        Focus::Operations => a.operation_index + delta <= isize::MAX,
        _ => true,
    }
}

impl App {
    /// Opens a prompt.
    pub fn open_prompt(&mut self, kind: PromptKind, title: &str, placeholder: &str, value: String)
        ensures
            *final(self) == (App { prompt: final(self).prompt, ..*old(self) }),
            final(self).prompt matches Some(p) && p.kind == kind && p.title@ == title@
                && p.placeholder@ == placeholder@ && p.value == value,
    {
        self.prompt = Some(
            PromptState {
                title: String::from_str(title),
                value,
                placeholder: String::from_str(placeholder),
                kind,
            },
        );
    }

    /// Opens the prompt of `kind`, filled in from the selection where that helps.
    pub fn open_prompt_for(&mut self, kind: PromptKind)
        ensures
            *final(self) == (App { prompt: final(self).prompt, ..*old(self) }),
            final(self).prompt matches Some(p) && p.kind == kind && (p.title@, p.placeholder@, p.value@)
                == prompt_text(*old(self), kind),
    {
        match kind {
            PromptKind::RunCommand => self.open_prompt(
                kind,
                "Run arbitrary `jj` subcommand",
                "status --ignore-working-copy",
                String::new(),
            ),
            PromptKind::DescribeRevision => {
                let value = match self.selected_revision() {
                    Some(rev) => rev.description.clone(),
                    None => String::new(),
                };
                self.open_prompt(kind, "Describe selected revision", "new commit message", value)
            },
            PromptKind::NewChange => self.open_prompt(
                kind,
                "Create new change from selected revision",
                "message",
                String::new(),
            ),
            PromptKind::CreateBookmark => self.open_prompt(
                kind,
                "Create bookmark at selected revision",
                "bookmark name",
                String::new(),
            ),
            PromptKind::MoveBookmark => {
                let value = self.selected_revision_target();
                self.open_prompt(kind, "Move selected bookmark to revision", "@", value)
            },
            PromptKind::SquashInto => self.open_prompt(
                kind,
                "Squash selected revision into",
                "destination revset",
                String::from_str("@"),
            ),
            PromptKind::ConfirmAbandon => self.open_prompt(
                kind,
                "Type `yes` to abandon selected revision",
                "yes",
                String::new(),
            ),
            PromptKind::RestoreOperation => {
                let value = match self.selected_operation() {
                    Some(op) => op.id.clone(),
                    None => String::new(),
                };
                self.open_prompt(kind, "Restore operation id", "operation id", value)
            },
        }
    }

    /// What the answer `value` to a prompt of `kind` asks for.
    pub fn prompt_answer(&self, kind: PromptKind, value: &str) -> (r: Answer)
        ensures
            answer_view(r) == prompt_answer(*self, kind, value@),
    {
        let target = self.selected_revision_target();
        match kind {
            PromptKind::DescribeRevision => {
                let mut args = strings(&["describe"]);
                push_s(&mut args, target.clone());
                push_s(&mut args, String::from_str("-m"));
                push_s(&mut args, value.to_owned());
                let label = concat("describe ", target.as_str());
                proof {
                    assert(views(args@) =~= seq!["describe"@, target@, "-m"@, value@]);
                }
                Answer::Run { args, label }
            },
            PromptKind::NewChange => {
                let mut args = strings(&["new"]);
                push_s(&mut args, target.clone());
                push_s(&mut args, String::from_str("-m"));
                push_s(&mut args, value.to_owned());
                let label = concat("new change from ", target.as_str());
                proof {
                    assert(views(args@) =~= seq!["new"@, target@, "-m"@, value@]);
                }
                Answer::Run { args, label }
            },
            PromptKind::CreateBookmark => {
                let mut args = strings(&["bookmark", "create"]);
                push_s(&mut args, value.to_owned());
                push_s(&mut args, String::from_str("-r"));
                push_s(&mut args, target.clone());
                let mut label = concat3("bookmark create ", value, " -> ");
                label.append(target.as_str());
                proof {
                    assert(views(args@) =~= seq!["bookmark"@, "create"@, value@, "-r"@, target@]);
                }
                Answer::Run { args, label }
            },
            PromptKind::MoveBookmark => {
                match self.selected_bookmark() {
                    Some(bookmark) => {
                        let mut args = strings(&["bookmark", "move"]);
                        push_s(&mut args, bookmark.name.clone());
                        push_s(&mut args, String::from_str("--to"));
                        push_s(&mut args, value.to_owned());
                        push_s(&mut args, String::from_str("--allow-backwards"));
                        let mut label = concat3("bookmark move ", bookmark.name.as_str(), " -> ");
                        label.append(value);
                        proof {
                            assert(views(args@) =~= seq![
                                "bookmark"@,
                                "move"@,
                                bookmark.name@,
                                "--to"@,
                                value@,
                                "--allow-backwards"@,
                            ]);
                        }
                        Answer::Run { args, label }
                    },
                    None => Answer::Refused { message: String::from_str("select a bookmark to move") },
                }
            },
            PromptKind::SquashInto => {
                if self.revision_index < self.revisions.len() {
                    let mut args = strings(&["squash", "--from"]);
                    push_s(&mut args, target.clone());
                    push_s(&mut args, String::from_str("--into"));
                    push_s(&mut args, value.to_owned());
                    let mut label = concat3("squash ", target.as_str(), " into ");
                    label.append(value);
                    proof {
                        assert(views(args@) =~= seq!["squash"@, "--from"@, target@, "--into"@, value@]);
                    }
                    Answer::Run { args, label }
                } else {
                    Answer::Refused { message: String::from_str("select a revision to squash") }
                }
            },
            PromptKind::RestoreOperation => {
                let mut args = strings(&["op", "restore"]);
                push_s(&mut args, value.to_owned());
                let label = concat("restore operation ", value);
                proof {
                    assert(views(args@) =~= seq!["op"@, "restore"@, value@]);
                }
                Answer::Run { args, label }
            },
            PromptKind::RunCommand => {
                let trimmed = trimmed_string(&value.to_owned());
                if trimmed.as_str().is_empty() {
                    Answer::Nothing
                } else {
                    let args = split_words(trimmed.as_str());
                    let label = concat("jj ", trimmed.as_str());
                    Answer::Run { args, label }
                }
            },
            PromptKind::ConfirmAbandon => {
                if !crate::hooks::str_eq(value, "yes") {
                    Answer::Cancelled
                } else if self.revision_index < self.revisions.len() {
                    let mut args = strings(&["abandon"]);
                    push_s(&mut args, target.clone());
                    let label = concat("abandon ", target.as_str());
                    proof {
                        assert(views(args@) =~= seq!["abandon"@, target@]);
                    }
                    Answer::Run { args, label }
                } else {
                    Answer::Refused { message: String::from_str("select a revision to abandon") }
                }
            },
        }
    }

    /// Acts on the open prompt's answer and closes the prompt.
    pub fn submit_prompt(&mut self) -> (reqs: Vec<Request>)
        ensures
            submit_post(*old(self), *final(self), request_views(reqs@)),
    {
        let prompt = match self.prompt.take() {
            Some(p) => p,
            None => {
                return Vec::new();
            },
        };
        let value = trimmed_string(&prompt.value);
        let ghost closed = *self;
        proof {
            assert(closed == (App { prompt: None, ..*old(self) }));
        }
        let answer = self.prompt_answer(prompt.kind, value.as_str());
        proof {
            assert(answer_view(answer) == prompt_answer(closed, prompt.kind, trim(prompt.value@)));
        }
        let mut reqs: Vec<Request> = Vec::new();
        match answer {
            Answer::Refused { message } => {
                let line = concat("action failed: ", message.as_str());
                self.report(message, line);
            },
            Answer::Nothing => {
                reqs.push(Request::Refresh);
                proof {
                    assert(request_views(reqs@) =~= seq![RequestView::Refresh]);
                }
            },
            Answer::Cancelled => {
                self.log(String::from_str("abandon cancelled"));
                self.status_message = Some(
                    String::from_str("Type `yes` to abandon the selected revision"),
                );
                reqs.push(Request::Refresh);
                proof {
                    assert(request_views(reqs@) =~= seq![RequestView::Refresh]);
                }
            },
            Answer::Run { args, label } => {
                let ghost av = views(args@);
                let ghost lv = label@;
                reqs.push(Request::Mutate { args, label, undo: false });
                proof {
                    assert(request_views(reqs@) =~= seq![
                        RequestView::Mutate { args: av, label: lv, undo: false },
                    ]);
                }
            },
        }
        reqs
    }

    /// Takes in how a `Mutate` request went: a command that ran is logged with
    /// its output and the repository is refreshed; a failure is reported.
    pub fn finish_mutation(
        &mut self,
        args: Vec<String>,
        label: String,
        undo: bool,
        result: Result<CommandOutput, String>,
    ) -> (reqs: Vec<Request>)
        ensures
            match result {
                Ok(out) => reported(
                    *old(self),
                    *final(self),
                    "Executed "@ + label@,
                    ran_lines("$ jj "@ + join(views(args@), " "@), out),
                ) && request_views(reqs@) == seq![RequestView::Refresh],
                Err(e) => reported(
                    *old(self),
                    *final(self),
                    e@,
                    seq![(if undo { "undo failed: "@ } else { "action failed: "@ }) + e@],
                ) && reqs@.len() == 0,
            },
    {
        let mut reqs: Vec<Request> = Vec::new();
        match result {
            Ok(out) => {
                let joined = join_strings(&args, " ");
                let command = concat("$ jj ", joined.as_str());
                self.log_ran(command, &out);
                self.status_message = Some(concat("Executed ", label.as_str()));
                reqs.push(Request::Refresh);
                proof {
                    assert(request_views(reqs@) =~= seq![RequestView::Refresh]);
                }
            },
            Err(e) => {
                let line = if undo {
                    concat("undo failed: ", e.as_str())
                } else {
                    concat("action failed: ", e.as_str())
                };
                self.report(e, line);
            },
        }
        reqs
    }

    /// Takes in how a `Push` request went.
    pub fn finish_push(&mut self, bookmark: Option<String>, result: Result<CommandOutput, String>) -> (reqs:
        Vec<Request>)
        ensures
            match result {
                Ok(out) => reported(
                    *old(self),
                    *final(self),
                    (if old(self).config.hooks.pre_push@.len() == 0 {
                        seq![]
                    } else {
                        "\u{2713} Hooks passed \u{2014} "@
                    }) + "Executed "@ + match bookmark {
                        Some(n) => "push bookmark "@ + n@,
                        None => "push all"@,
                    },
                    ran_lines(
                        "$ jj git push"@ + match bookmark {
                            Some(n) => " --bookmark "@ + n@,
                            None => seq![],
                        },
                        out,
                    ),
                ) && request_views(reqs@) == seq![RequestView::Refresh],
                Err(e) => reported(*old(self), *final(self), e@, seq!["push failed: "@ + e@])
                    && reqs@.len() == 0,
            },
    {
        let mut reqs: Vec<Request> = Vec::new();
        match result {
            Ok(out) => {
                let (label, command) = match &bookmark {
                    Some(name) => (
                        concat("push bookmark ", name.as_str()),
                        concat("$ jj git push --bookmark ", name.as_str()),
                    ),
                    None => (String::from_str("push all"), String::from_str("$ jj git push")),
                };
                proof {
                    match bookmark {
                        Some(n) => {
                            reveal_strlit("$ jj git push --bookmark ");
                            reveal_strlit("$ jj git push");
                            reveal_strlit(" --bookmark ");
                            assert(command@ =~= "$ jj git push"@ + (" --bookmark "@ + n@));
                        },
                        None => {
                            assert(command@ =~= "$ jj git push"@ + seq![]);
                        },
                    }
                }
                self.log_ran(command, &out);
                let mut status = if self.config.hooks.pre_push.len() == 0 {
                    String::new()
                } else {
                    String::from_str("\u{2713} Hooks passed \u{2014} ")
                };
                status.append("Executed ");
                status.append(label.as_str());
                self.status_message = Some(status);
                reqs.push(Request::Refresh);
                proof {
                    assert(request_views(reqs@) =~= seq![RequestView::Refresh]);
                }
            },
            Err(e) => {
                let line = concat("push failed: ", e.as_str());
                self.report(e, line);
            },
        }
        reqs
    }

    /// Takes in how a `Fetch` request went.
    pub fn finish_fetch(&mut self, result: Result<CommandOutput, String>) -> (reqs: Vec<Request>)
        ensures
            match result {
                Ok(out) => reported(
                    *old(self),
                    *final(self),
                    "Executed fetch"@,
                    ran_lines("$ jj git fetch"@, out),
                ) && request_views(reqs@) == seq![RequestView::Refresh],
                Err(e) => reported(*old(self), *final(self), e@, seq!["fetch failed: "@ + e@])
                    && reqs@.len() == 0,
            },
    {
        let mut reqs: Vec<Request> = Vec::new();
        match result {
            Ok(out) => {
                self.log_ran(String::from_str("$ jj git fetch"), &out);
                self.status_message = Some(String::from_str("Executed fetch"));
                reqs.push(Request::Refresh);
                proof {
                    assert(request_views(reqs@) =~= seq![RequestView::Refresh]);
                }
            },
            Err(e) => {
                let line = concat("fetch failed: ", e.as_str());
                self.report(e, line);
            },
        }
        reqs
    }

    /// Moves the selection of the focused list (or scrolls the diff) and asks
    /// for what a changed selection shows.
    pub fn move_selection(&mut self, delta: isize) -> (reqs: Vec<Request>)
        requires
            selections_fit(*old(self)),
            delta_fits(*old(self), delta),
        ensures
            *final(self) == moved(*old(self), delta),
            request_views(reqs@) == move_requests(*old(self), *final(self)),
            selections_fit(*final(self)),
    {
        match self.focus {
            Focus::Files => {
                let prev = self.file_index;
                adjust_index(&mut self.file_index, self.files.len(), delta);
                if self.file_index != prev {
                    self.preview_current()
                } else {
                    Vec::new()
                }
            },
            Focus::Revisions => {
                let prev = self.revision_index;
                adjust_index(&mut self.revision_index, self.revisions.len(), delta);
                if self.revision_index != prev {
                    self.inspect_current()
                } else {
                    Vec::new()
                }
            },
            Focus::Bookmarks => {
                let prev = self.bookmark_index;
                adjust_index(&mut self.bookmark_index, self.bookmarks.len(), delta);
                if self.bookmark_index != prev {
                    self.inspect_current()
                } else {
                    Vec::new()
                }
            },
            Focus::Operations => {
                let prev = self.operation_index;
                adjust_index(&mut self.operation_index, self.operations.len(), delta);
                if self.operation_index != prev {
                    self.preview_current()
                } else {
                    Vec::new()
                }
            },
            Focus::Diff => {
                self.scroll_diff(delta);
                Vec::new()
            },
            Focus::Output => Vec::new(),
        }
    }
}

/// The first item of the focused list selected, or the diff scrolled to its top.
pub open spec fn jumped_to_start(a: App) -> App {
    match a.focus {
        Focus::Files => App { file_index: 0, ..a },
        Focus::Revisions => App { revision_index: 0, ..a },
        Focus::Bookmarks => App { bookmark_index: 0, ..a },
        Focus::Operations => App { operation_index: 0, ..a },
        Focus::Diff => App { diff_scroll: 0, ..a },
        Focus::Output => a,
    }
}

/// The last item of the focused list selected, or the diff scrolled to its last line.
pub open spec fn jumped_to_end(a: App) -> App {
    match a.focus {
        Focus::Files => App { file_index: last_index(a.files@.len()), ..a },
        Focus::Revisions => App { revision_index: last_index(a.revisions@.len()), ..a },
        Focus::Bookmarks => App { bookmark_index: last_index(a.bookmarks@.len()), ..a },
        Focus::Operations => App { operation_index: last_index(a.operations@.len()), ..a },
        Focus::Diff => App { diff_scroll: last_index(a.diff_lines@.len()), ..a },
        Focus::Output => a,
    }
}

/// A scroll position moved by `delta`, saturating at both ends.
pub open spec fn scrolled(scroll: usize, delta: isize) -> usize {
    if scroll + delta < 0 {
        0
    } else if scroll + delta > usize::MAX {
        usize::MAX
    } else {
        (scroll + delta) as usize
    }
}

/// The index of the last of `len` items (0 for none).
pub open spec fn last_index(len: nat) -> usize {
    if len == 0 {
        0
    } else {
        (len - 1) as usize
    }
}

fn saturating_dec(n: usize) -> (r: usize)
    ensures
        r == last_index(n as nat),
{
    if n == 0 {
        0
    } else {
        n - 1
    }
}

/// `J` and `K` scroll the diff by the same step in opposite directions: `J`
/// moves further into the diff and `K` back towards its top, so away from the
/// ends `K` undoes `J`.
pub proof fn lemma_scroll_keys_opposite()
    ensures
        key_action(KeyCode::Char('J')) matches Some(Action::ScrollDiff(down)) && key_action(
            KeyCode::Char('K'),
        ) matches Some(Action::ScrollDiff(up)) && down > 0 && up == -down && forall|s: usize|
            0 < s && s + down <= usize::MAX ==> scrolled(s, down) > s && #[trigger] scrolled(
                s,
                up,
            ) < s && scrolled(scrolled(s, down), up) == s,
{
}

/// `j`/Down and `k`/Up move the selection by the same step in opposite
/// directions: `j` and Down to a later item, `k` and Up to an earlier one, so
/// inside the list the one undoes the other.
pub proof fn lemma_move_keys_opposite(down_key: KeyCode, up_key: KeyCode)
    requires
        (down_key == KeyCode::Char('j') && up_key == KeyCode::Char('k')) || (down_key
            == KeyCode::Down && up_key == KeyCode::Up),
    ensures
        key_action(down_key) matches Some(Action::MoveSelection(down)) && key_action(up_key) matches Some(
            Action::MoveSelection(up),
        ) && down > 0 && up == -down && forall|i: int, len: int|
            0 <= i && i + down < len ==> #[trigger] adjusted_index(i, len, down as int) > i
                && adjusted_index(adjusted_index(i, len, down as int), len, up as int) == i,
{
}

/// Squashing from the prompt squashes the selected revision into the answer:
/// `jj squash --from <selected commit> --into <answer>`, named after both;
/// with no revision selected it is refused.
pub proof fn lemma_squash_answer(a: App, value: Seq<char>)
    ensures
        a.revision_index < a.revisions@.len() ==> {
            let from = a.revisions@[a.revision_index as int].commit_id@;
            prompt_answer(a, PromptKind::SquashInto, value) matches AnswerView::Run { args, label }
                && args.len() == 5 && args[0] == "squash"@ && args[1] == "--from"@ && args[2] == from
                && args[3] == "--into"@ && args[4] == value && label == "squash "@ + from + " into "@
                + value
        },
        a.revision_index >= a.revisions@.len() ==> prompt_answer(a, PromptKind::SquashInto, value)
            is Refused,
{
}

} // verus!
