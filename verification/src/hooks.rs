//! Pre-push hook definitions: the spinner, the hook presets, the catalog of
//! tools that the picker offers, and the sequencing of a hook run.
use vstd::prelude::*;

use crate::config::HookEntry;
use crate::text::{chars_of, trim, trim_range};

verus! {

/// The timeout of a hook that names none.
pub const DEFAULT_TIMEOUT_SECS: u64 = 120;

/// How many frames the spinner has.
pub const SPINNER_FRAME_COUNT: usize = 10;

/// The spinner's frames, in order (braille dots).
pub open spec fn spinner_frames() -> Seq<char> {
    seq![
        '\u{280B}',
        '\u{2819}',
        '\u{2839}',
        '\u{2838}',
        '\u{283C}',
        '\u{2834}',
        '\u{2826}',
        '\u{2827}',
        '\u{2807}',
        '\u{280F}',
    ]
}

/// The spinner frame shown at `tick`; the frames repeat every `SPINNER_FRAME_COUNT` ticks.
pub fn spinner_char(tick: usize) -> (c: char)
    ensures
        c == spinner_frames()[(tick % SPINNER_FRAME_COUNT) as int],
{
    let i: usize = tick % SPINNER_FRAME_COUNT;
    if i == 0 {
        '\u{280B}'
    } else if i == 1 {
        '\u{2819}'
    } else if i == 2 {
        '\u{2839}'
    } else if i == 3 {
        '\u{2838}'
    } else if i == 4 {
        '\u{283C}'
    } else if i == 5 {
        '\u{2834}'
    } else if i == 6 {
        '\u{2826}'
    } else if i == 7 {
        '\u{2827}'
    } else if i == 8 {
        '\u{2807}'
    } else {
        '\u{280F}'
    }
}

/// A built-in hook: the program it runs and where to get it.
#[derive(Debug, Clone, Copy)]
pub struct PresetDef {
    pub program: &'static str,
    pub args: &'static [&'static str],
    pub local_paths: &'static [&'static str],
    pub install_url: &'static str,
}

/// The built-in hook presets, by name.
pub open spec fn preset_table() -> Seq<(&'static str, PresetDef)> {
    seq![
        (
            "treefmt",
            PresetDef {
                program: "treefmt",
                args: &["--fail-on-change", "--no-cache"],
                local_paths: &[],
                install_url: "https://github.com/numtide/treefmt",
            },
        ),
    ]
}

/// The built-in hook presets, by name.
pub fn presets() -> (res: Vec<(&'static str, PresetDef)>)
    ensures
        res@ == preset_table(),
{
    let mut res: Vec<(&'static str, PresetDef)> = Vec::new();
    res.push(
        (
            "treefmt",
            PresetDef {
                program: "treefmt",
                args: &["--fail-on-change", "--no-cache"],
                local_paths: &[],
                install_url: "https://github.com/numtide/treefmt",
            },
        ),
    );
    proof {
        assert(res@ =~= preset_table());
    }
    res
}

/// The names of the presets.
pub open spec fn preset_name_views() -> Seq<Seq<char>> {
    preset_table().map_values(|p: (&'static str, PresetDef)| p.0@)
}

/// The names of the presets, in table order.
pub fn preset_names() -> (res: Vec<&'static str>)
    ensures
        res@.len() == preset_table().len(),
        forall|i: int| 0 <= i < res@.len() ==> res@[i] == preset_table()[i].0,
{
    let table = presets();
    let mut res: Vec<&'static str> = Vec::new();
    let mut i: usize = 0;
    while i < table.len()
        invariant
            table@ == preset_table(),
            i <= table@.len(),
            res@.len() == i,
            forall|k: int| 0 <= k < i ==> res@[k] == preset_table()[k].0,
        decreases table@.len() - i,
    {
        res.push(table[i].0);
        i = i + 1;
    }
    res
}

/// `a` and `b` hold the same characters.
pub fn str_eq(a: &str, b: &str) -> (r: bool)
    ensures
        r == (a@ == b@),
{
    let v = chars_of(a);
    let r = crate::text::range_eq(&v, 0, v.len(), b);
    proof {
        assert(v@.subrange(0, v@.len() as int) =~= v@);
    }
    r
}

/// Some preset is called `name`.
pub open spec fn known_preset(name: Seq<char>) -> bool {
    exists|i: int| 0 <= i < preset_table().len() && preset_table()[i].0@ == name
}

/// Whether a preset is called `name`.
pub fn is_known_preset(name: &str) -> (r: bool)
    ensures
        r == known_preset(name@),
{
    find_preset(name).is_some()
}

/// The first preset called `name`, if any.
pub fn find_preset(name: &str) -> (r: Option<PresetDef>)
    ensures
        r is Some <==> known_preset(name@),
        r matches Some(d) ==> exists|i: int|
            0 <= i < preset_table().len() && preset_table()[i].0@ == name@ && preset_table()[i].1
                == d && forall|j: int| 0 <= j < i ==> preset_table()[j].0@ != name@,
{
    let table = presets();
    let mut i: usize = 0;
    while i < table.len()
        invariant
            table@ == preset_table(),
            i <= table@.len(),
            forall|j: int| 0 <= j < i ==> preset_table()[j].0@ != name@,
        decreases table@.len() - i,
    {
        if str_eq(table[i].0, name) {
            return Some(table[i].1);
        }
        i = i + 1;
    }
    None
}

/// Whether a catalog tool formats code (through treefmt) or lints it.
#[derive(Debug, Clone, Copy, PartialEq, Eq, Structural)]
pub enum ToolCategory {
    Formatter,
    Linter,
}

/// A treefmt formatter section entry.
#[derive(Debug, Clone, Copy)]
pub struct TreefmtEntry {
    pub name: &'static str,
    pub command: &'static str,
    pub options: &'static [&'static str],
    pub includes: &'static [&'static str],
}

/// A tool that can be added to pre-push hooks via the tool picker.
#[derive(Debug, Clone, Copy)]
pub struct ToolDef {
    pub name: &'static str,
    pub language: &'static str,
    pub hook_command: &'static str,
    /// Shell command to install the tool. Empty string means comes pre-installed.
    pub install_cmd: &'static str,
    /// Binary name to check for presence via `which`.
    pub check_binary: &'static str,
    pub category: ToolCategory,
    pub treefmt_entry: Option<TreefmtEntry>,
}

/// The tools that the picker offers: six formatters, then five linters.
pub open spec fn catalog() -> Seq<ToolDef> {
    seq![
        ToolDef {
            name: "rustfmt",
            language: "Rust",
            hook_command: "",
            install_cmd: "rustup component add rustfmt",
            check_binary: "rustfmt",
            category: ToolCategory::Formatter,
            treefmt_entry: Some(
                TreefmtEntry { name: "rustfmt", command: "rustfmt", options: &[], includes: &["*.rs"] },
            ),
        },
        ToolDef {
            name: "prettier",
            language: "JS/TS",
            hook_command: "",
            install_cmd: "npm install -g prettier",
            check_binary: "prettier",
            category: ToolCategory::Formatter,
            treefmt_entry: Some(
                TreefmtEntry {
                    name: "prettier",
                    command: "prettier",
                    options: &["--write"],
                    includes: &["*.js", "*.ts", "*.jsx", "*.tsx", "*.css", "*.json", "*.md"],
                },
            ),
        },
        ToolDef {
            name: "biome format",
            language: "JS/TS",
            hook_command: "",
            install_cmd: "npm install -g @biomejs/biome",
            check_binary: "biome",
            category: ToolCategory::Formatter,
            treefmt_entry: Some(
                TreefmtEntry {
                    name: "biome-format",
                    command: "biome",
                    options: &["format", "--write"],
                    includes: &["*.js", "*.ts", "*.jsx", "*.tsx", "*.json"],
                },
            ),
        },
        ToolDef {
            name: "ruff format",
            language: "Python",
            hook_command: "",
            install_cmd: "pip install ruff",
            check_binary: "ruff",
            category: ToolCategory::Formatter,
            treefmt_entry: Some(
                TreefmtEntry {
                    name: "ruff-format",
                    command: "ruff",
                    options: &["format"],
                    includes: &["*.py"],
                },
            ),
        },
        ToolDef {
            name: "black",
            language: "Python",
            hook_command: "",
            install_cmd: "pip install black",
            check_binary: "black",
            category: ToolCategory::Formatter,
            treefmt_entry: Some(
                TreefmtEntry { name: "black", command: "black", options: &[], includes: &["*.py"] },
            ),
        },
        ToolDef {
            name: "gofmt",
            language: "Go",
            hook_command: "",
            install_cmd: "",
            check_binary: "gofmt",
            category: ToolCategory::Formatter,
            treefmt_entry: Some(
                TreefmtEntry { name: "gofmt", command: "gofmt", options: &["-w"], includes: &["*.go"] },
            ),
        },
        ToolDef {
            name: "clippy",
            language: "Rust",
            hook_command: "cargo clippy -- -D warnings",
            install_cmd: "rustup component add clippy",
            check_binary: "cargo-clippy",
            category: ToolCategory::Linter,
            treefmt_entry: None,
        },
        ToolDef {
            name: "eslint",
            language: "JS/TS",
            hook_command: "eslint .",
            install_cmd: "npm install -g eslint",
            check_binary: "eslint",
            category: ToolCategory::Linter,
            treefmt_entry: None,
        },
        ToolDef {
            name: "biome lint",
            language: "JS/TS",
            hook_command: "biome lint .",
            install_cmd: "npm install -g @biomejs/biome",
            check_binary: "biome",
            category: ToolCategory::Linter,
            treefmt_entry: None,
        },
        ToolDef {
            name: "ruff check",
            language: "Python",
            hook_command: "ruff check .",
            install_cmd: "pip install ruff",
            check_binary: "ruff",
            category: ToolCategory::Linter,
            treefmt_entry: None,
        },
        ToolDef {
            name: "go vet",
            language: "Go",
            hook_command: "go vet ./...",
            install_cmd: "",
            check_binary: "go",
            category: ToolCategory::Linter,
            treefmt_entry: None,
        },
    ]
}

/// The tools that the picker offers, in catalog order.
pub fn tool_catalog() -> (res: Vec<ToolDef>)
    ensures
        res@ == catalog(),
{
    let res: Vec<ToolDef> = vec![
        ToolDef {
            name: "rustfmt",
            language: "Rust",
            hook_command: "",
            install_cmd: "rustup component add rustfmt",
            check_binary: "rustfmt",
            category: ToolCategory::Formatter,
            treefmt_entry: Some(
                TreefmtEntry { name: "rustfmt", command: "rustfmt", options: &[], includes: &["*.rs"] },
            ),
        },
        ToolDef {
            name: "prettier",
            language: "JS/TS",
            hook_command: "",
            install_cmd: "npm install -g prettier",
            check_binary: "prettier",
            category: ToolCategory::Formatter,
            treefmt_entry: Some(
                TreefmtEntry {
                    name: "prettier",
                    command: "prettier",
                    options: &["--write"],
                    includes: &["*.js", "*.ts", "*.jsx", "*.tsx", "*.css", "*.json", "*.md"],
                },
            ),
        },
        ToolDef {
            name: "biome format",
            language: "JS/TS",
            hook_command: "",
            install_cmd: "npm install -g @biomejs/biome",
            check_binary: "biome",
            category: ToolCategory::Formatter,
            treefmt_entry: Some(
                TreefmtEntry {
                    name: "biome-format",
                    command: "biome",
                    options: &["format", "--write"],
                    includes: &["*.js", "*.ts", "*.jsx", "*.tsx", "*.json"],
                },
            ),
        },
        ToolDef {
            name: "ruff format",
            language: "Python",
            hook_command: "",
            install_cmd: "pip install ruff",
            check_binary: "ruff",
            category: ToolCategory::Formatter,
            treefmt_entry: Some(
                TreefmtEntry {
                    name: "ruff-format",
                    command: "ruff",
                    options: &["format"],
                    includes: &["*.py"],
                },
            ),
        },
        ToolDef {
            name: "black",
            language: "Python",
            hook_command: "",
            install_cmd: "pip install black",
            check_binary: "black",
            category: ToolCategory::Formatter,
            treefmt_entry: Some(
                TreefmtEntry { name: "black", command: "black", options: &[], includes: &["*.py"] },
            ),
        },
        ToolDef {
            name: "gofmt",
            language: "Go",
            hook_command: "",
            install_cmd: "",
            check_binary: "gofmt",
            category: ToolCategory::Formatter,
            treefmt_entry: Some(
                TreefmtEntry { name: "gofmt", command: "gofmt", options: &["-w"], includes: &["*.go"] },
            ),
        },
        ToolDef {
            name: "clippy",
            language: "Rust",
            hook_command: "cargo clippy -- -D warnings",
            install_cmd: "rustup component add clippy",
            check_binary: "cargo-clippy",
            category: ToolCategory::Linter,
            treefmt_entry: None,
        },
        ToolDef {
            name: "eslint",
            language: "JS/TS",
            hook_command: "eslint .",
            install_cmd: "npm install -g eslint",
            check_binary: "eslint",
            category: ToolCategory::Linter,
            treefmt_entry: None,
        },
        ToolDef {
            name: "biome lint",
            language: "JS/TS",
            hook_command: "biome lint .",
            install_cmd: "npm install -g @biomejs/biome",
            check_binary: "biome",
            category: ToolCategory::Linter,
            treefmt_entry: None,
        },
        ToolDef {
            name: "ruff check",
            language: "Python",
            hook_command: "ruff check .",
            install_cmd: "pip install ruff",
            check_binary: "ruff",
            category: ToolCategory::Linter,
            treefmt_entry: None,
        },
        ToolDef {
            name: "go vet",
            language: "Go",
            hook_command: "go vet ./...",
            install_cmd: "",
            check_binary: "go",
            category: ToolCategory::Linter,
            treefmt_entry: None,
        },
    ];
    proof {
        assert(res@ =~= catalog());
    }
    res
}

/// The tools of the catalog in category `c`, in catalog order.
pub open spec fn catalog_of(c: ToolCategory) -> Seq<ToolDef> {
    catalog().filter(|t: ToolDef| t.category == c)
}

fn filter_by_category(tools: &Vec<ToolDef>, c: ToolCategory) -> (res: Vec<ToolDef>)
    ensures
        res@ == tools@.filter(|t: ToolDef| t.category == c),
{
    let mut res: Vec<ToolDef> = Vec::new();
    let mut i: usize = 0;
    while i < tools.len()
        invariant
            i <= tools@.len(),
            res@ == tools@.take(i as int).filter(|t: ToolDef| t.category == c),
        decreases tools@.len() - i,
    {
        if tools[i].category == c {
            res.push(tools[i]);
        }
        proof {
            assert(tools@.take(i + 1) =~= tools@.take(i as int).push(tools@[i as int]));
            tools@.take(i as int).lemma_filter_push(tools@[i as int], |t: ToolDef| t.category == c);
        }
        i = i + 1;
    }
    proof {
        assert(tools@.take(tools@.len() as int) =~= tools@);
    }
    res
}

/// The formatters of the catalog, in catalog order.
pub fn catalog_formatters() -> (res: Vec<ToolDef>)
    ensures
        res@ == catalog_of(ToolCategory::Formatter),
{
    filter_by_category(&tool_catalog(), ToolCategory::Formatter)
}

/// The linters of the catalog, in catalog order.
pub fn catalog_linters() -> (res: Vec<ToolDef>)
    ensures
        res@ == catalog_of(ToolCategory::Linter),
{
    filter_by_category(&tool_catalog(), ToolCategory::Linter)
}

/// Installation methods for treefmt itself.
#[derive(Debug, Clone, Copy)]
pub struct TreefmtInstallMethod {
    pub label: &'static str,
    pub command: &'static str,
}

/// The ways offered to install treefmt, in menu order.
pub open spec fn install_methods() -> Seq<TreefmtInstallMethod> {
    seq![
        TreefmtInstallMethod {
            label: "Official installer (curl)",
            command: "curl -fsSL https://raw.githubusercontent.com/numtide/treefmt/main/install.sh | bash",
        },
        TreefmtInstallMethod { label: "Homebrew", command: "brew install treefmt" },
        TreefmtInstallMethod { label: "Nix", command: "nix profile install nixpkgs#treefmt2" },
        TreefmtInstallMethod { label: "Cargo", command: "cargo install treefmt2" },
    ]
}

/// How many ways to install treefmt are offered.
pub const TREEFMT_INSTALL_METHOD_COUNT: usize = 4;

/// The ways offered to install treefmt, in menu order.
pub fn treefmt_install_methods() -> (res: Vec<TreefmtInstallMethod>)
    ensures
        res@ == install_methods(),
        res@.len() == TREEFMT_INSTALL_METHOD_COUNT,
{
    let res: Vec<TreefmtInstallMethod> = vec![
        TreefmtInstallMethod {
            label: "Official installer (curl)",
            command: "curl -fsSL https://raw.githubusercontent.com/numtide/treefmt/main/install.sh | bash",
        },
        TreefmtInstallMethod { label: "Homebrew", command: "brew install treefmt" },
        TreefmtInstallMethod { label: "Nix", command: "nix profile install nixpkgs#treefmt2" },
        TreefmtInstallMethod { label: "Cargo", command: "cargo install treefmt2" },
    ];
    proof {
        assert(res@ =~= install_methods());
    }
    res
}

/// What the catalog promises of each tool: a name, a language and a binary to
/// look for; a formatter has a treefmt section and no hook command of its own, a
/// linter has a hook command and no treefmt section.
pub open spec fn tool_well_formed(t: ToolDef) -> bool {
    &&& t.name@.len() > 0
    &&& t.language@.len() > 0
    &&& t.check_binary@.len() > 0
    &&& match t.category {
        ToolCategory::Formatter => t.treefmt_entry is Some && t.hook_command@.len() == 0,
        ToolCategory::Linter => t.treefmt_entry is None && t.hook_command@.len() > 0,
    }
}

/// Every tool in the catalog is well formed, and the catalog holds six
/// formatters and five linters.
pub proof fn lemma_catalog_well_formed()
    ensures
        forall|i: int| 0 <= i < catalog().len() ==> tool_well_formed(#[trigger] catalog()[i]),
        catalog_of(ToolCategory::Formatter).len() == 6,
        catalog_of(ToolCategory::Linter).len() == 5,
{
    reveal_strlit("rustfmt");
    reveal_strlit("Rust");
    reveal_strlit("");
    reveal_strlit("prettier");
    reveal_strlit("JS/TS");
    reveal_strlit("biome format");
    reveal_strlit("biome");
    reveal_strlit("ruff format");
    reveal_strlit("Python");
    reveal_strlit("ruff");
    reveal_strlit("black");
    reveal_strlit("gofmt");
    reveal_strlit("Go");
    reveal_strlit("clippy");
    reveal_strlit("cargo clippy -- -D warnings");
    reveal_strlit("cargo-clippy");
    reveal_strlit("eslint");
    reveal_strlit("eslint .");
    reveal_strlit("biome lint");
    reveal_strlit("biome lint .");
    reveal_strlit("ruff check");
    reveal_strlit("ruff check .");
    reveal_strlit("go vet");
    reveal_strlit("go vet ./...");
    reveal_strlit("go");
    reveal_with_fuel(Seq::filter, 12);
    assert(catalog_of(ToolCategory::Formatter) =~= catalog().take(6));
    assert(catalog_of(ToolCategory::Linter) =~= catalog().skip(6));
}

/// Every install method has a label and a command.
pub proof fn lemma_install_methods_well_formed()
    ensures
        forall|i: int|
            0 <= i < install_methods().len() ==> (#[trigger] install_methods()[i]).label@.len() > 0
                && install_methods()[i].command@.len() > 0,
{
    reveal_strlit("Official installer (curl)");
    reveal_strlit(
        "curl -fsSL https://raw.githubusercontent.com/numtide/treefmt/main/install.sh | bash",
    );
    reveal_strlit("Homebrew");
    reveal_strlit("brew install treefmt");
    reveal_strlit("Nix");
    reveal_strlit("nix profile install nixpkgs#treefmt2");
    reveal_strlit("Cargo");
    reveal_strlit("cargo install treefmt2");
}

/// Every preset has a name, a program and an install location.
pub proof fn lemma_presets_well_formed()
    ensures
        forall|i: int|
            0 <= i < preset_table().len() ==> (#[trigger] preset_table()[i]).0@.len() > 0
                && preset_table()[i].1.program@.len() > 0 && preset_table()[i].1.install_url@.len()
                > 0,
{
    reveal_strlit("treefmt");
    reveal_strlit("https://github.com/numtide/treefmt");
}

/// What the hook runner reports while it works.
#[derive(Debug, Clone)]
pub enum HookProgress {
    Started { name: String, index: usize, total: usize },
    Passed { name: String },
    Failed { name: String, output: String },
    TimedOut { name: String, timeout_secs: u64 },
    NotFound { name: String, install_hint: String },
    AllPassed,
}

/// A report with its strings as sequences of characters.
pub enum ProgressView {
    Started { name: Seq<char>, index: usize, total: usize },
    Passed { name: Seq<char> },
    Failed { name: Seq<char>, output: Seq<char> },
    TimedOut { name: Seq<char>, timeout_secs: u64 },
    NotFound { name: Seq<char>, install_hint: Seq<char> },
    AllPassed,
}

impl View for HookProgress {
    type V = ProgressView;

    open spec fn view(&self) -> ProgressView {
        match self {
            HookProgress::Started { name, index, total } => ProgressView::Started {
                name: name@,
                index: *index,
                total: *total,
            },
            HookProgress::Passed { name } => ProgressView::Passed { name: name@ },
            HookProgress::Failed { name, output } => ProgressView::Failed {
                name: name@,
                output: output@,
            },
            HookProgress::TimedOut { name, timeout_secs } => ProgressView::TimedOut {
                name: name@,
                timeout_secs: *timeout_secs,
            },
            HookProgress::NotFound { name, install_hint } => ProgressView::NotFound {
                name: name@,
                install_hint: install_hint@,
            },
            HookProgress::AllPassed => ProgressView::AllPassed,
        }
    }
}

/// How running one hook ended.
#[derive(Debug, Clone)]
pub enum ExecResult {
    Passed,
    Failed { exit_code: Option<i32>, output: String },
    TimedOut,
    NotFound { install_hint: String },
}

/// What to run for a hook.
#[derive(Debug, Clone)]
pub enum HookJob {
    /// Run the preset of this name.
    Preset { name: String },
    /// Run this shell command.
    Custom { command: String },
}

/// The job of a hook: its preset if it names one, else its command; nothing
/// when it names neither.
pub open spec fn hook_job(h: HookEntry) -> Option<Seq<char>> {
    match h.preset {
        Some(p) => Some(p@),
        None => match h.command {
            Some(c) => Some(c@),
            None => None,
        },
    }
}

/// The timeout of a hook: its own, else `DEFAULT_TIMEOUT_SECS`.
pub open spec fn hook_timeout(h: HookEntry) -> u64 {
    match h.timeout_secs {
        Some(t) => t,
        None => DEFAULT_TIMEOUT_SECS,
    }
}

/// Where a run of the hooks stands.
#[derive(Debug, Clone, Copy, PartialEq, Eq, Structural)]
pub enum HookRunState {
    /// About to announce hook `next`, or that all passed once every hook is done.
    Announce { next: usize },
    /// `Started` of hook `index` was sent.
    Starting { index: usize },
    /// Hook `index` is running.
    Running { index: usize },
    /// `Passed` of hook `index` was sent.
    Reporting { index: usize },
    /// Nothing more to do.
    Done,
}

/// What happened since the last step.
#[derive(Debug, Clone)]
pub enum HookRunEvent {
    /// Nothing yet: the run begins.
    Proceed,
    /// The last report reached its reader (`false`: the reader is gone).
    Delivered(bool),
    /// The running hook finished.
    Finished(ExecResult),
}

/// What the runner asks its caller to do next.
#[derive(Debug, Clone)]
pub enum HookRunAction {
    /// Send this report to the reader.
    Send(HookProgress),
    /// Run this job with this timeout.
    Run { job: HookJob, timeout_secs: u64 },
    /// The run is over.
    Stop,
}

/// The next action as a plain value: a report, a job with its timeout, or stop.
pub enum ActionView {
    Send(ProgressView),
    Run { preset: bool, target: Seq<char>, timeout_secs: u64 },
    Stop,
}

pub open spec fn action_view(a: HookRunAction) -> ActionView {
    match a {
        HookRunAction::Send(p) => ActionView::Send(p@),
        HookRunAction::Run { job, timeout_secs } => match job {
            HookJob::Preset { name } => ActionView::Run {
                preset: true,
                target: name@,
                timeout_secs,
            },
            HookJob::Custom { command } => ActionView::Run {
                preset: false,
                target: command@,
                timeout_secs,
            },
        },
        HookRunAction::Stop => ActionView::Stop,
    }
}

/// Announce hook `next`, or that every hook passed.
pub open spec fn announce(hooks: Seq<HookEntry>, next: usize) -> (HookRunState, ActionView) {
    if next < hooks.len() {
        (
            HookRunState::Starting { index: next },
            ActionView::Send(
                ProgressView::Started { name: hooks[next as int].name@, index: next, total: hooks.len() as usize },
            ),
        )
    } else {
        (HookRunState::Done, ActionView::Send(ProgressView::AllPassed))
    }
}

/// One step of a hook run: hooks run in order, each announced before it runs;
/// the first one that does not pass is reported and ends the run; a report
/// that finds no reader ends the run; when all passed, that is reported last.
pub open spec fn hook_step(hooks: Seq<HookEntry>, state: HookRunState, event: HookRunEvent) -> (
    HookRunState,
    ActionView,
) {
    match (state, event) {
        (HookRunState::Announce { next }, _) => announce(hooks, next),
        (HookRunState::Starting { index }, HookRunEvent::Delivered(true)) => if index
            < hooks.len() {
            let h = hooks[index as int];
            match hook_job(h) {
                Some(target) => (
                    HookRunState::Running { index },
                    ActionView::Run {
                        preset: h.preset is Some,
                        target,
                        timeout_secs: hook_timeout(h),
                    },
                ),
                None => (
                    HookRunState::Done,
                    ActionView::Send(
                        ProgressView::Failed {
                            name: h.name@,
                            output: "hook has neither preset nor command"@,
                        },
                    ),
                ),
            }
        } else {
            (HookRunState::Done, ActionView::Stop)
        },
        (HookRunState::Running { index }, HookRunEvent::Finished(r)) => if index < hooks.len() {
            let h = hooks[index as int];
            match r {
                ExecResult::Passed => (
                    HookRunState::Reporting { index },
                    ActionView::Send(ProgressView::Passed { name: h.name@ }),
                ),
                ExecResult::Failed { output, .. } => (
                    HookRunState::Done,
                    ActionView::Send(ProgressView::Failed { name: h.name@, output: output@ }),
                ),
                ExecResult::TimedOut => (
                    HookRunState::Done,
                    ActionView::Send(
                        ProgressView::TimedOut { name: h.name@, timeout_secs: hook_timeout(h) },
                    ),
                ),
                ExecResult::NotFound { install_hint } => (
                    HookRunState::Done,
                    ActionView::Send(
                        ProgressView::NotFound { name: h.name@, install_hint: install_hint@ },
                    ),
                ),
            }
        } else {
            (HookRunState::Done, ActionView::Stop)
        },
        (HookRunState::Reporting { index }, HookRunEvent::Delivered(true)) => if index
            < usize::MAX {
            announce(hooks, (index + 1) as usize)
        } else {
            (HookRunState::Done, ActionView::Stop)
        },
        _ => (HookRunState::Done, ActionView::Stop),
    }
}

fn announce_exec(hooks: &Vec<HookEntry>, next: usize) -> (r: (HookRunState, HookRunAction))
    ensures
        (r.0, action_view(r.1)) == announce(hooks@, next),
{
    if next < hooks.len() {
        (
            HookRunState::Starting { index: next },
            HookRunAction::Send(
                HookProgress::Started {
                    name: hooks[next].name.clone(),
                    index: next,
                    total: hooks.len(),
                },
            ),
        )
    } else {
        (HookRunState::Done, HookRunAction::Send(HookProgress::AllPassed))
    }
}

/// The next state of a hook run and what its caller must do.
pub fn run_hooks_step(hooks: &Vec<HookEntry>, state: HookRunState, event: HookRunEvent) -> (r: (
    HookRunState,
    HookRunAction,
))
    ensures
        (r.0, action_view(r.1)) == hook_step(hooks@, state, event),
{
    match (state, event) {
        (HookRunState::Announce { next }, _) => announce_exec(hooks, next),
        (HookRunState::Starting { index }, HookRunEvent::Delivered(true)) => {
            if index >= hooks.len() {
                return (HookRunState::Done, HookRunAction::Stop);
            }
            let h = &hooks[index];
            let timeout_secs: u64 = match h.timeout_secs {
                Some(t) => t,
                None => DEFAULT_TIMEOUT_SECS,
            };
            if let Some(p) = &h.preset {
                (
                    HookRunState::Running { index },
                    HookRunAction::Run { job: HookJob::Preset { name: p.clone() }, timeout_secs },
                )
            } else if let Some(c) = &h.command {
                (
                    HookRunState::Running { index },
                    HookRunAction::Run { job: HookJob::Custom { command: c.clone() }, timeout_secs },
                )
            } else {
                (
                    HookRunState::Done,
                    HookRunAction::Send(
                        HookProgress::Failed {
                            name: h.name.clone(),
                            output: String::from_str("hook has neither preset nor command"),
                        },
                    ),
                )
            }
        },
        (HookRunState::Running { index }, HookRunEvent::Finished(result)) => {
            if index >= hooks.len() {
                return (HookRunState::Done, HookRunAction::Stop);
            }
            let h = &hooks[index];
            let name = h.name.clone();
            match result {
                ExecResult::Passed => (
                    HookRunState::Reporting { index },
                    HookRunAction::Send(HookProgress::Passed { name }),
                ),
                ExecResult::Failed { output, .. } => (
                    HookRunState::Done,
                    HookRunAction::Send(HookProgress::Failed { name, output }),
                ),
                ExecResult::TimedOut => {
                    let timeout_secs: u64 = match h.timeout_secs {
                        Some(t) => t,
                        None => DEFAULT_TIMEOUT_SECS,
                    };
                    (
                        HookRunState::Done,
                        HookRunAction::Send(HookProgress::TimedOut { name, timeout_secs }),
                    )
                },
                ExecResult::NotFound { install_hint } => (
                    HookRunState::Done,
                    HookRunAction::Send(HookProgress::NotFound { name, install_hint }),
                ),
            }
        },
        (HookRunState::Reporting { index }, HookRunEvent::Delivered(true)) => {
            if index < usize::MAX {
                announce_exec(hooks, index + 1)
            } else {
                (HookRunState::Done, HookRunAction::Stop)
            }
        },
        _ => (HookRunState::Done, HookRunAction::Stop),
    }
}

/// The report of a run in which every report arrives and hook `i` ends with
/// `results[i]`, from hook `from` on.
pub open spec fn run_reports(hooks: Seq<HookEntry>, results: Seq<ExecResult>, from: int) -> Seq<
    ProgressView,
>
    decreases hooks.len() - from,
{
    if from < 0 || from >= hooks.len() {
        seq![ProgressView::AllPassed]
    } else {
        let h = hooks[from];
        let started = ProgressView::Started {
            name: h.name@,
            index: from as usize,
            total: hooks.len() as usize,
        };
        match hook_job(h) {
            None => seq![
                started,
                ProgressView::Failed { name: h.name@, output: "hook has neither preset nor command"@ },
            ],
            Some(_) => match results[from] {
                ExecResult::Passed => seq![started, ProgressView::Passed { name: h.name@ }]
                    + run_reports(hooks, results, from + 1),
                ExecResult::Failed { output, .. } => seq![
                    started,
                    ProgressView::Failed { name: h.name@, output: output@ },
                ],
                ExecResult::TimedOut => seq![
                    started,
                    ProgressView::TimedOut { name: h.name@, timeout_secs: hook_timeout(h) },
                ],
                ExecResult::NotFound { install_hint } => seq![
                    started,
                    ProgressView::NotFound { name: h.name@, install_hint: install_hint@ },
                ],
            },
        }
    }
}

/// The reports that steps from `state` send, when every report arrives and
/// every job of hook `i` ends with `results[i]`, within `fuel` steps.
pub open spec fn drive(
    hooks: Seq<HookEntry>,
    results: Seq<ExecResult>,
    state: HookRunState,
    event: HookRunEvent,
    fuel: nat,
) -> Seq<ProgressView>
    decreases fuel,
{
    if fuel == 0 {
        seq![]
    } else {
        let (next, action) = hook_step(hooks, state, event);
        match action {
            ActionView::Send(p) => seq![p] + drive(
                hooks,
                results,
                next,
                HookRunEvent::Delivered(true),
                (fuel - 1) as nat,
            ),
            ActionView::Run { .. } => match next {
                HookRunState::Running { index } => drive(
                    hooks,
                    results,
                    next,
                    HookRunEvent::Finished(results[index as int]),
                    (fuel - 1) as nat,
                ),
                _ => seq![],
            },
            ActionView::Stop => seq![],
        }
    }
}

/// Driven from its start with every report delivered, a run sends exactly
/// `run_reports`: each hook is announced, then reported; hooks run in order;
/// the first hook that does not pass is the last reported; `AllPassed` comes
/// only after every hook passed.
pub proof fn lemma_run_reports(hooks: Seq<HookEntry>, results: Seq<ExecResult>, from: int)
    requires
        0 <= from <= hooks.len(),
        hooks.len() < usize::MAX,
        results.len() == hooks.len(),
    ensures
        drive(
            hooks,
            results,
            HookRunState::Announce { next: from as usize },
            HookRunEvent::Proceed,
            (3 * (hooks.len() - from) + 2) as nat,
        ) == run_reports(hooks, results, from),
    decreases hooks.len() - from,
{
    let fuel = (3 * (hooks.len() - from) + 2) as nat;
    if from == hooks.len() {
        reveal_with_fuel(drive, 3);
        assert(drive(
            hooks,
            results,
            HookRunState::Done,
            HookRunEvent::Delivered(true),
            (fuel - 1) as nat,
        ) == Seq::<ProgressView>::empty()) by {
            reveal_with_fuel(drive, 2);
        }
    } else {
        let h = hooks[from];
        let idx = from as usize;
        let s1 = HookRunState::Starting { index: idx };
        let d = HookRunEvent::Delivered(true);
        reveal_with_fuel(drive, 2);
        match hook_job(h) {
            None => {
                assert(drive(hooks, results, HookRunState::Done, d, (fuel - 2) as nat)
                    == Seq::<ProgressView>::empty()) by {
                    reveal_with_fuel(drive, 2);
                }
                assert(drive(hooks, results, s1, d, (fuel - 1) as nat) =~= seq![
                    ProgressView::Failed { name: h.name@, output: "hook has neither preset nor command"@ },
                ]);
                assert(drive(
                    hooks,
                    results,
                    HookRunState::Announce { next: idx },
                    HookRunEvent::Proceed,
                    fuel,
                ) =~= run_reports(hooks, results, from));
            },
            Some(_) => {
                let s2 = HookRunState::Running { index: idx };
                let fin = HookRunEvent::Finished(results[from]);
                match results[from] {
                    ExecResult::Passed => {
                        let s3 = HookRunState::Reporting { index: idx };
                        lemma_run_reports(hooks, results, from + 1);
                        let rest = drive(
                            hooks,
                            results,
                            HookRunState::Announce { next: (from + 1) as usize },
                            HookRunEvent::Proceed,
                            (fuel - 3) as nat,
                        );
                        assert(hook_step(hooks, s3, d) == hook_step(
                            hooks,
                            HookRunState::Announce { next: (from + 1) as usize },
                            HookRunEvent::Proceed,
                        ));
                        lemma_drive_same_step(
                            hooks,
                            results,
                            s3,
                            d,
                            HookRunState::Announce { next: (from + 1) as usize },
                            HookRunEvent::Proceed,
                            (fuel - 3) as nat,
                        );
                        assert(drive(hooks, results, s3, d, (fuel - 3) as nat) == rest);
                        assert(drive(hooks, results, s2, fin, (fuel - 2) as nat) =~= seq![
                            ProgressView::Passed { name: h.name@ },
                        ] + rest);
                        assert(drive(hooks, results, s1, d, (fuel - 1) as nat) == drive(
                            hooks,
                            results,
                            s2,
                            fin,
                            (fuel - 2) as nat,
                        ));
                        assert(drive(
                            hooks,
                            results,
                            HookRunState::Announce { next: idx },
                            HookRunEvent::Proceed,
                            fuel,
                        ) =~= run_reports(hooks, results, from));
                    },
                    _ => {
                        assert(drive(hooks, results, HookRunState::Done, d, (fuel - 3) as nat)
                            == Seq::<ProgressView>::empty()) by {
                            reveal_with_fuel(drive, 2);
                        }
                        assert(drive(hooks, results, s1, d, (fuel - 1) as nat) == drive(
                            hooks,
                            results,
                            s2,
                            fin,
                            (fuel - 2) as nat,
                        ));
                        assert(drive(
                            hooks,
                            results,
                            HookRunState::Announce { next: idx },
                            HookRunEvent::Proceed,
                            fuel,
                        ) =~= run_reports(hooks, results, from));
                    },
                }
            },
        }
    }
}

/// Two state/event pairs with the same step drive the same reports.
pub proof fn lemma_drive_same_step(
    hooks: Seq<HookEntry>,
    results: Seq<ExecResult>,
    s: HookRunState,
    e: HookRunEvent,
    t: HookRunState,
    f: HookRunEvent,
    fuel: nat,
)
    requires
        hook_step(hooks, s, e) == hook_step(hooks, t, f),
    ensures
        drive(hooks, results, s, e, fuel) == drive(hooks, results, t, f, fuel),
{
}

/// The output that a failed command shows: its trimmed standard output, then
/// its trimmed error output, on separate lines when both are non-empty.
pub open spec fn failure_output_view(stdout: Seq<char>, stderr: Seq<char>) -> Seq<char> {
    let out = trim(stdout);
    let err = trim(stderr);
    if out.len() == 0 {
        err
    } else if err.len() == 0 {
        out
    } else {
        out + "\n"@ + err
    }
}

/// What a failed hook shows of its output.
pub fn failure_output(stdout: &str, stderr: &str) -> (r: String)
    ensures
        r@ == failure_output_view(stdout@, stderr@),
{
    let ov = chars_of(stdout);
    let ev = chars_of(stderr);
    let (oa, ob) = trim_range(&ov, 0, ov.len());
    let (ea, eb) = trim_range(&ev, 0, ev.len());
    proof {
        assert(ov@.subrange(0, ov@.len() as int) =~= ov@);
        assert(ev@.subrange(0, ev@.len() as int) =~= ev@);
    }
    let mut output = String::new();
    if oa < ob {
        let part = crate::text::substring(stdout, oa, ob);
        output.append(part.as_str());
    }
    if ea < eb {
        if oa < ob {
            output.append("\n");
        }
        let part = crate::text::substring(stderr, ea, eb);
        output.append(part.as_str());
    }
    proof {
        assert(output@ =~= failure_output_view(stdout@, stderr@));
    }
    output
}

/// The hint of a preset whose program is missing.
pub open spec fn preset_missing_hint(p: PresetDef) -> Seq<char> {
    "'"@ + p.program@ + "' not found. Install: "@ + p.install_url@
}

/// What a preset run means: a missing program gets the preset's own install
/// hint; every other result stands.
pub fn preset_result(preset: &PresetDef, result: ExecResult) -> (r: ExecResult)
    ensures
        result is NotFound ==> (r matches ExecResult::NotFound { install_hint } && install_hint@
            == preset_missing_hint(*preset)),
        !(result is NotFound) ==> r == result,
{
    if let ExecResult::NotFound { .. } = result {
        let mut hint = String::from_str("'");
        hint.append(preset.program);
        hint.append("' not found. Install: ");
        hint.append(preset.install_url);
        return ExecResult::NotFound { install_hint: hint };
    }
    result
}

/// The preset called `name`, or the failure of a hook that names an unknown one.
pub fn resolve_preset(name: &str) -> (r: Result<PresetDef, ExecResult>)
    ensures
        r is Ok <==> known_preset(name@),
        r matches Err(ExecResult::Failed { exit_code, output }) ==> exit_code is None && output@
            == "unknown preset '"@ + name@ + "'"@,
        r is Err ==> r matches Err(ExecResult::Failed { .. }),
        r matches Ok(d) ==> exists|i: int|
            0 <= i < preset_table().len() && preset_table()[i].0@ == name@ && preset_table()[i].1
                == d,
{
    match find_preset(name) {
        Some(p) => Ok(p),
        None => {
            let mut output = String::from_str("unknown preset '");
            output.append(name);
            output.append("'");
            Err(ExecResult::Failed { exit_code: None, output })
        },
    }
}

} // verus!
