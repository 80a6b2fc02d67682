//! Picking the tools that guard a push, installing and enabling them, and
//! following a run of the pre-push hooks.
use vstd::prelude::*;

use crate::app::{
    concat, lemma_log_after_concat, log_after, logged, pair_views, reported, request_view,
    request_views, status_is, App, EnableProgress, KeyCode, KeyEvent, ReloadReason, Request,
    RequestView, PASSED_TOAST_TICKS,
};
use crate::config::{Config, HookEntry};
use crate::hooks::{
    catalog, catalog_formatters, catalog_linters, catalog_of, install_methods, str_eq,
    tool_catalog, treefmt_install_methods, ExecResult, HookProgress, ProgressView, ToolCategory,
    ToolDef, TREEFMT_INSTALL_METHOD_COUNT, hook_job, hook_timeout, run_reports,
};
use crate::model::{
    PhaseView, HookPhase, ToolPickerEntry, ToolPickerRow, ToolPickerState, TreefmtInstallState,
    first_entry_row, picker_moved_down, picker_moved_up, picker_rows, row_views,
};
use crate::text::{
    chars_of, cut, decimal, join, join_strings, line_ranges, lines, push_decimal, ranges_within,
    substring, views,
};

verus! {

/// `e` is the picker entry of the catalog tool `d`, not yet picked.
pub open spec fn entry_from(e: ToolPickerEntry, d: ToolDef, installed: bool) -> bool {
    &&& e.name@ == d.name@
    &&& e.language@ == d.language@
    &&& e.hook_command@ == d.hook_command@
    &&& e.install_cmd@ == d.install_cmd@
    &&& e.installed == installed
    &&& !e.selected
    &&& e.category == d.category
    &&& e.check_binary@ == d.check_binary@
}

/// Whether the tool at `i` was found installed (`false` where nothing says).
pub open spec fn found_at(found: Seq<bool>, i: int) -> bool {
    0 <= i < found.len() && found[i]
}

/// `p` is a fresh picker over the whole catalog: one entry per tool in catalog
/// order, nothing picked, the cursor on the first entry row.
pub open spec fn fresh_picker(p: ToolPickerState, installed: Seq<bool>) -> bool {
    &&& p.entries@.len() == catalog().len()
    &&& forall|i: int|
        0 <= i < catalog().len() ==> entry_from(
            #[trigger] p.entries@[i],
            catalog()[i],
            found_at(installed, i),
        )
    &&& row_views(p.rows@) == picker_rows(p.entries@)
    &&& p.cursor == first_entry_row(p.rows@)
}

fn entry_of(d: &ToolDef, installed: bool) -> (e: ToolPickerEntry)
    ensures
        entry_from(e, *d, installed),
{
    ToolPickerEntry {
        name: String::from_str(d.name),
        language: String::from_str(d.language),
        hook_command: String::from_str(d.hook_command),
        install_cmd: String::from_str(d.install_cmd),
        installed,
        selected: false,
        category: d.category,
        check_binary: String::from_str(d.check_binary),
    }
}

impl App {
    /// A picker over the whole catalog; `installed[i]` says whether the tool
    /// at `i` was found installed.
    pub fn build_tool_picker(installed: &Vec<bool>) -> (p: ToolPickerState)
        ensures
            fresh_picker(p, installed@),
    {
        let defs = tool_catalog();
        let mut entries: Vec<ToolPickerEntry> = Vec::new();
        let mut i: usize = 0;
        while i < defs.len()
            invariant
                i <= defs@.len(),
                defs@ == catalog(),
                entries@.len() == i,
                forall|j: int|
                    0 <= j < i ==> entry_from(
                        #[trigger] entries@[j],
                        catalog()[j],
                        found_at(installed@, j),
                    ),
            decreases defs@.len() - i,
        {
            let found = i < installed.len() && installed[i];
            entries.push(entry_of(&defs[i], found));
            i = i + 1;
        }
        let mut state = ToolPickerState { entries, cursor: 0, rows: Vec::new() };
        let rows = state.build_rows();
        state.cursor = ToolPickerState::first_tool_row(rows.as_slice());
        state.rows = rows;
        state
    }
}

/// The picked entries.
pub open spec fn picked(es: Seq<ToolPickerEntry>) -> Seq<ToolPickerEntry> {
    es.filter(|e: ToolPickerEntry| e.selected)
}

/// The picked entries of category `c`.
pub open spec fn picked_in(es: Seq<ToolPickerEntry>, c: ToolCategory) -> Seq<ToolPickerEntry> {
    es.filter(|e: ToolPickerEntry| e.selected && e.category == c)
}

pub open spec fn entry_names(es: Seq<ToolPickerEntry>) -> Seq<Seq<char>> {
    es.map_values(|e: ToolPickerEntry| e.name@)
}

/// The (name, install command) of each picked tool that is not installed and
/// has an install command.
pub open spec fn install_pairs(es: Seq<ToolPickerEntry>) -> Seq<(Seq<char>, Seq<char>)> {
    es.filter(|e: ToolPickerEntry| e.selected && !e.installed && e.install_cmd@.len() > 0).map_values(
        |e: ToolPickerEntry| (e.name@, e.install_cmd@),
    )
}

/// The catalog formatters that are picked, in catalog order.
pub open spec fn formatter_defs(es: Seq<ToolPickerEntry>) -> Seq<ToolDef> {
    let names = entry_names(picked_in(es, ToolCategory::Formatter));
    catalog_of(ToolCategory::Formatter).filter(|d: ToolDef| names.contains(d.name@))
}

/// The (name, hook command) of the catalog linters that are picked, in catalog order.
pub open spec fn linter_hooks(es: Seq<ToolPickerEntry>) -> Seq<(Seq<char>, Seq<char>)> {
    let names = entry_names(picked_in(es, ToolCategory::Linter));
    catalog_of(ToolCategory::Linter).filter(|d: ToolDef| names.contains(d.name@)).map_values(
        |d: ToolDef| (d.name@, d.hook_command@),
    )
}

pub open spec fn preset_is(h: HookEntry, name: Seq<char>) -> bool {
    h.preset matches Some(p) && p@ == name
}

/// Some pre-push hook runs the treefmt preset.
pub open spec fn has_treefmt_preset(c: Config) -> bool {
    exists|i: int|
        0 <= i < c.hooks.pre_push@.len() && #[trigger] preset_is(c.hooks.pre_push@[i], "treefmt"@)
}

/// The enabling of picked tools, with its strings as text.
pub struct EnableView {
    pub add_treefmt_preset: bool,
    pub linters: Seq<(Seq<char>, Seq<char>)>,
    pub names: Seq<Seq<char>>,
}

pub open spec fn enable_view(e: EnableProgress) -> EnableView {
    EnableView {
        add_treefmt_preset: e.add_treefmt_preset,
        linters: pair_views(e.linters@),
        names: views(e.names@),
    }
}

/// What enabling the picked tools of `es` has to do under the configuration `c`:
/// add the treefmt preset hook when a formatter is picked and no hook runs it
/// yet, add a command hook per picked linter, and name the picked tools.
pub open spec fn enable_plan(es: Seq<ToolPickerEntry>, c: Config) -> EnableView {
    EnableView {
        add_treefmt_preset: picked_in(es, ToolCategory::Formatter).len() > 0 && !has_treefmt_preset(c),
        linters: linter_hooks(es),
        names: entry_names(picked(es)),
    }
}

/// The next step of enabling: the treefmt preset hook, then the command hooks,
/// then reading the configuration again.
pub open spec fn enable_next(e: EnableView) -> (EnableView, RequestView) {
    if e.add_treefmt_preset {
        (
            EnableView { add_treefmt_preset: false, ..e },
            RequestView::AppendPresetHooks { names: seq!["treefmt"@] },
        )
    } else if e.linters.len() > 0 {
        (EnableView { linters: seq![], ..e }, RequestView::WriteToolHooks { tools: e.linters })
    } else {
        (e, RequestView::ReloadConfig { reason: ReloadReason::EnableTools })
    }
}

/// `new` is `old` with the enabling at `e` moved one step on, and that step asked for.
pub open spec fn enable_advanced(old: App, new: App, e: EnableView, reqs: Seq<RequestView>) -> bool {
    &&& new == (App { enabling: new.enabling, ..old })
    &&& new.enabling matches Some(p) && enable_view(p) == enable_next(e).0
    &&& reqs == seq![enable_next(e).1]
}

/// What enabling the picked tools of the entries `es` does: the picker
/// closes; with tools picked, `treefmt.toml` is written first when a formatter
/// is among them, and the configuration steps follow.
pub open spec fn enable_from(old: App, es: Seq<ToolPickerEntry>, new: App, reqs: Seq<RequestView>) -> bool {
    let closed = App { tool_picker: None, ..old };
    if picked(es).len() == 0 {
        new == closed && reqs.len() == 0
    } else {
        let plan = enable_plan(es, old.config);
        if picked_in(es, ToolCategory::Formatter).len() > 0 {
            &&& new == (App { enabling: new.enabling, ..closed })
            &&& new.enabling matches Some(e) && enable_view(e) == plan
            &&& reqs == seq![RequestView::WriteTreefmt { formatters: formatter_defs(es) }]
        } else {
            enable_advanced(closed, new, plan, reqs)
        }
    }
}

/// What enabling the picked tools does; nothing without an open picker.
pub open spec fn enable_post(old: App, new: App, reqs: Seq<RequestView>) -> bool {
    match old.tool_picker {
        None => new == old && reqs.len() == 0,
        Some(p) => enable_from(old, p.entries@, new, reqs),
    }
}

/// `new` is `old` with the hooks started: the run is under way and shown as
/// running the first of all the pre-push hooks.
pub open spec fn started(old: App, new: App) -> bool {
    &&& new == (App { hooks_running: true, hook_phase: new.hook_phase, ..old })
    &&& new.hook_phase matches Some(p) && p@ == (PhaseView::Running {
        current_hook: seq![],
        index: 0,
        total: old.config.hooks.pre_push@.len() as usize,
        spinner_tick: 0,
    })
}

fn entry_name_list(es: &Vec<&ToolPickerEntry>) -> (r: Vec<String>)
    ensures
        views(r@) == entry_names(es@.map_values(|e: &ToolPickerEntry| *e)),
{
    let ghost all = es@.map_values(|e: &ToolPickerEntry| *e);
    let mut r: Vec<String> = Vec::new();
    let mut i: usize = 0;
    while i < es.len()
        invariant
            i <= es@.len(),
            all == es@.map_values(|e: &ToolPickerEntry| *e),
            views(r@) == entry_names(all.take(i as int)),
        decreases es@.len() - i,
    {
        let ghost before = r@;
        r.push(es[i].name.clone());
        proof {
            assert(all.take(i + 1) =~= all.take(i as int).push(all[i as int]));
            assert(views(r@) =~= views(before).push(all[i as int].name@));
            assert(entry_names(all.take(i + 1)) =~= entry_names(all.take(i as int)).push(
                all[i as int].name@,
            ));
        }
        i = i + 1;
    }
    proof {
        assert(all.take(es@.len() as int) =~= all);
    }
    r
}

fn contains_str(v: &Vec<String>, s: &str) -> (r: bool)
    ensures
        r == views(v@).contains(s@),
{
    let mut i: usize = 0;
    while i < v.len()
        invariant
            i <= v@.len(),
            forall|j: int| 0 <= j < i ==> v@[j]@ != s@,
        decreases v@.len() - i,
    {
        if str_eq(v[i].as_str(), s) {
            proof {
                assert(views(v@)[i as int] == s@);
            }
            return true;
        }
        i = i + 1;
    }
    proof {
        if views(v@).contains(s@) {
            let k = choose|k: int| 0 <= k < views(v@).len() && views(v@)[k] == s@;
            assert(v@[k]@ == s@);
        }
    }
    false
}

/// The tools of `defs` whose names are among `names`, in order.
fn defs_named(defs: &Vec<ToolDef>, names: &Vec<String>) -> (r: Vec<ToolDef>)
    ensures
        r@ == defs@.filter(|d: ToolDef| views(names@).contains(d.name@)),
{
    let ghost pred = |d: ToolDef| views(names@).contains(d.name@);
    let mut r: Vec<ToolDef> = Vec::new();
    let mut i: usize = 0;
    while i < defs.len()
        invariant
            i <= defs@.len(),
            pred == (|d: ToolDef| views(names@).contains(d.name@)),
            r@ == defs@.take(i as int).filter(pred),
        decreases defs@.len() - i,
    {
        if contains_str(names, defs[i].name) {
            r.push(defs[i]);
        }
        proof {
            assert(defs@.take(i + 1) =~= defs@.take(i as int).push(defs@[i as int]));
            defs@.take(i as int).lemma_filter_push(defs@[i as int], pred);
        }
        i = i + 1;
    }
    proof {
        assert(defs@.take(defs@.len() as int) =~= defs@);
    }
    r
}

/// The (name, hook command) of each tool.
fn hook_pairs(defs: &Vec<ToolDef>) -> (r: Vec<(String, String)>)
    ensures
        pair_views(r@) == defs@.map_values(|d: ToolDef| (d.name@, d.hook_command@)),
{
    let mut r: Vec<(String, String)> = Vec::new();
    let mut i: usize = 0;
    while i < defs.len()
        invariant
            i <= defs@.len(),
            pair_views(r@) == defs@.take(i as int).map_values(
                |d: ToolDef| (d.name@, d.hook_command@),
            ),
        decreases defs@.len() - i,
    {
        let ghost before = r@;
        r.push((String::from_str(defs[i].name), String::from_str(defs[i].hook_command)));
        proof {
            assert(defs@.take(i + 1) =~= defs@.take(i as int).push(defs@[i as int]));
            assert(pair_views(r@) =~= pair_views(before).push(
                (defs@[i as int].name@, defs@[i as int].hook_command@),
            ));
            assert(pair_views(r@) =~= defs@.take(i + 1).map_values(
                |d: ToolDef| (d.name@, d.hook_command@),
            ));
        }
        i = i + 1;
    }
    proof {
        assert(defs@.take(defs@.len() as int) =~= defs@);
    }
    r
}

fn runs_treefmt_preset(c: &Config) -> (r: bool)
    ensures
        r == has_treefmt_preset(*c),
{
    let hooks = &c.hooks.pre_push;
    let mut i: usize = 0;
    while i < hooks.len()
        invariant
            i <= hooks@.len(),
            hooks@ == c.hooks.pre_push@,
            forall|j: int| 0 <= j < i ==> !preset_is(#[trigger] hooks@[j], "treefmt"@),
        decreases hooks@.len() - i,
    {
        if let Some(p) = &hooks[i].preset {
            if str_eq(p.as_str(), "treefmt") {
                proof {
                    assert(preset_is(hooks@[i as int], "treefmt"@));
                }
                return true;
            }
        }
        i = i + 1;
    }
    false
}

impl App {
    /// Starts the pre-push hooks.
    pub fn start_hooks(&mut self) -> (reqs: Vec<Request>)
        ensures
            started(*old(self), *final(self)),
            request_views(reqs@) == seq![RequestView::StartHooks],
    {
        let total = self.config.hooks.pre_push.len();
        self.hooks_running = true;
        self.hook_phase = Some(
            HookPhase::Running { current_hook: String::new(), index: 0, total, spinner_tick: 0 },
        );
        let mut reqs: Vec<Request> = Vec::new();
        reqs.push(Request::StartHooks);
        proof {
            assert(request_views(reqs@) =~= seq![RequestView::StartHooks]);
        }
        reqs
    }

    /// Moves the enabling one step on.
    fn advance_enable(&mut self) -> (reqs: Vec<Request>)
        requires
            old(self).enabling is Some,
        ensures
            enable_advanced(
                *old(self),
                *final(self),
                enable_view(old(self).enabling->0),
                request_views(reqs@),
            ),
    {
        let e = match self.enabling.take() {
            Some(e) => e,
            None => {
                return Vec::new();
            },
        };
        let EnableProgress { add_treefmt_preset, linters, names } = e;
        let mut reqs: Vec<Request> = Vec::new();
        if add_treefmt_preset {
            let mut preset_names: Vec<String> = Vec::new();
            preset_names.push(String::from_str("treefmt"));
            proof {
                assert(views(preset_names@) =~= seq!["treefmt"@]);
            }
            reqs.push(Request::AppendPresetHooks { names: preset_names });
            self.enabling = Some(EnableProgress { add_treefmt_preset: false, linters, names });
        } else if linters.len() > 0 {
            reqs.push(Request::WriteToolHooks { tools: linters });
            self.enabling = Some(
                EnableProgress { add_treefmt_preset, linters: Vec::new(), names },
            );
            proof {
                assert(pair_views(Seq::<(String, String)>::empty()) =~= seq![]);
            }
        } else {
            reqs.push(Request::ReloadConfig { reason: ReloadReason::EnableTools });
            self.enabling = Some(EnableProgress { add_treefmt_preset, linters, names });
        }
        proof {
            assert(request_views(reqs@) =~= seq![enable_next(enable_view(e)).1]);
        }
        reqs
    }

    /// Enables the picked tools: closes the picker and asks for the writes
    /// that add them to the configuration.
    pub fn enable_selected_tools(&mut self) -> (reqs: Vec<Request>)
        ensures
            enable_post(*old(self), *final(self), request_views(reqs@)),
    {
        let picker = match self.tool_picker.take() {
            Some(p) => p,
            None => {
                return Vec::new();
            },
        };
        self.enable_picked(&picker)
    }

    /// Enables the tools picked in `picker`, whose overlay is already closed.
    fn enable_picked(&mut self, picker: &ToolPickerState) -> (reqs: Vec<Request>)
        requires
            old(self).tool_picker is None,
        ensures
            enable_from(*old(self), picker.entries@, *final(self), request_views(reqs@)),
    {
        let selected = picker.selected_entries();
        if selected.len() == 0 {
            return Vec::new();
        }
        let names = entry_name_list(&selected);
        let fmts = picker.selected_formatters();
        let lints = picker.selected_linters();
        let fnames = entry_name_list(&fmts);
        let lnames = entry_name_list(&lints);
        let defs = defs_named(&catalog_formatters(), &fnames);
        let linter_defs = defs_named(&catalog_linters(), &lnames);
        let linters = hook_pairs(&linter_defs);
        let add = fmts.len() > 0 && !runs_treefmt_preset(&self.config);
        let progress = EnableProgress { add_treefmt_preset: add, linters, names };
        let ghost plan = enable_plan(picker.entries@, self.config);
        proof {
            assert(enable_view(progress) == plan);
        }
        self.enabling = Some(progress);
        if fmts.len() > 0 {
            let mut reqs: Vec<Request> = Vec::new();
            reqs.push(Request::WriteTreefmt { formatters: defs });
            proof {
                assert(request_views(reqs@) =~= seq![
                    RequestView::WriteTreefmt { formatters: formatter_defs(picker.entries@) },
                ]);
            }
            reqs
        } else {
            self.advance_enable()
        }
    }
}

/// What taking in the written `treefmt.toml` does: a failure is logged, and
/// the enabling goes on either way.
pub open spec fn treefmt_written_post(
    old: App,
    new: App,
    result: Result<(), String>,
    reqs: Seq<RequestView>,
) -> bool {
    match old.enabling {
        None => new == old && reqs.len() == 0,
        Some(e) => match result {
            Ok(_) => enable_advanced(old, new, enable_view(e), reqs),
            Err(err) => {
                &&& enable_advanced(App { output_log: new.output_log, ..old }, new, enable_view(e), reqs)
                &&& views(new.output_log@) == log_after(
                    views(old.output_log@),
                    seq!["treefmt.toml generation failed: "@ + err@],
                )
            },
        },
    }
}

/// What taking in a configuration write does: the enabling goes on, or stops
/// with the failure reported.
pub open spec fn config_written_post(
    old: App,
    new: App,
    result: Result<(), String>,
    reqs: Seq<RequestView>,
) -> bool {
    match old.enabling {
        None => new == old && reqs.len() == 0,
        Some(e) => match result {
            Ok(_) => enable_advanced(old, new, enable_view(e), reqs),
            Err(err) => reported(
                App { enabling: None, ..old },
                new,
                "Failed to write config: "@ + err@,
                seq!["config write failed: "@ + err@],
            ) && reqs.len() == 0,
        },
    }
}

/// The names of the tools being enabled.
pub open spec fn enabling_names(a: App) -> Seq<Seq<char>> {
    match a.enabling {
        Some(e) => views(e.names@),
        None => seq![],
    }
}

/// What taking in the configuration read again does.
pub open spec fn reload_post(
    old: App,
    new: App,
    reason: ReloadReason,
    result: Result<Config, String>,
    reqs: Seq<RequestView>,
) -> bool {
    match reason {
        ReloadReason::EnableTools => match result {
            Ok(cfg) => {
                &&& started(
                    App { config: cfg, enabling: None, output_log: new.output_log, ..old },
                    new,
                )
                &&& views(new.output_log@) == log_after(
                    views(old.output_log@),
                    seq!["Enabled tools in .lazyjj.toml: "@ + join(enabling_names(old), ", "@)],
                )
                &&& reqs == seq![RequestView::StartHooks]
            },
            Err(err) => reported(
                App { enabling: None, ..old },
                new,
                "Failed to reload config: "@ + err@,
                seq!["config reload failed: "@ + err@],
            ) && reqs.len() == 0,
        },
        ReloadReason::ResetPresets => reqs.len() == 0 && match result {
            Ok(cfg) => logged(
                App { config: cfg, setup_dismissed: false, ..old },
                new,
                seq!["Removed broken preset hooks from .lazyjj.toml"@],
            ),
            Err(err) => logged(
                App { setup_dismissed: false, ..old },
                new,
                seq!["config reload failed: "@ + err@, "Removed broken preset hooks from .lazyjj.toml"@],
            ),
        },
    }
}

impl App {
    /// Takes in how writing `treefmt.toml` went.
    pub fn finish_treefmt_written(&mut self, result: Result<(), String>) -> (reqs: Vec<Request>)
        ensures
            treefmt_written_post(*old(self), *final(self), result, request_views(reqs@)),
    {
        if self.enabling.is_none() {
            return Vec::new();
        }
        if let Err(e) = result {
            self.log(concat("treefmt.toml generation failed: ", e.as_str()));
        }
        self.advance_enable()
    }

    /// Takes in how a write of the configuration went.
    pub fn finish_config_written(&mut self, result: Result<(), String>) -> (reqs: Vec<Request>)
        ensures
            config_written_post(*old(self), *final(self), result, request_views(reqs@)),
    {
        if self.enabling.is_none() {
            return Vec::new();
        }
        match result {
            Ok(()) => self.advance_enable(),
            Err(e) => {
                self.enabling = None;
                let status = concat("Failed to write config: ", e.as_str());
                let line = concat("config write failed: ", e.as_str());
                self.report(status, line);
                Vec::new()
            },
        }
    }

    /// Takes in the configuration read again, for the reason it was read.
    pub fn finish_reload(&mut self, reason: ReloadReason, result: Result<Config, String>) -> (reqs:
        Vec<Request>)
        ensures
            reload_post(*old(self), *final(self), reason, result, request_views(reqs@)),
    {
        match reason {
            ReloadReason::EnableTools => match result {
                Ok(cfg) => {
                    let names = match self.enabling.take() {
                        Some(e) => e.names,
                        None => Vec::new(),
                    };
                    proof {
                        assert(views(names@) =~= enabling_names(*old(self)));
                    }
                    self.config = cfg;
                    let joined = join_strings(&names, ", ");
                    self.log(concat("Enabled tools in .lazyjj.toml: ", joined.as_str()));
                    self.start_hooks()
                },
                Err(e) => {
                    self.enabling = None;
                    let status = concat("Failed to reload config: ", e.as_str());
                    let line = concat("config reload failed: ", e.as_str());
                    self.report(status, line);
                    Vec::new()
                },
            },
            ReloadReason::ResetPresets => {
                let ghost start = views(self.output_log@);
                match result {
                    Ok(cfg) => {
                        self.config = cfg;
                        self.setup_dismissed = false;
                        self.log(String::from_str("Removed broken preset hooks from .lazyjj.toml"));
                    },
                    Err(e) => {
                        self.log(concat("config reload failed: ", e.as_str()));
                        self.setup_dismissed = false;
                        let ghost mid = views(self.output_log@);
                        self.log(String::from_str("Removed broken preset hooks from .lazyjj.toml"));
                        proof {
                            crate::app::lemma_log_after_concat(
                                start,
                                seq!["config reload failed: "@ + e@],
                                seq!["Removed broken preset hooks from .lazyjj.toml"@],
                            );
                            assert(seq!["config reload failed: "@ + e@] + seq![
                                "Removed broken preset hooks from .lazyjj.toml"@,
                            ] =~= seq![
                                "config reload failed: "@ + e@,
                                "Removed broken preset hooks from .lazyjj.toml"@,
                            ]);
                        }
                    },
                }
                Vec::new()
            },
        }
    }

    /// Takes in how removing the preset hooks went: the configuration is then
    /// read again, or the failure is logged.
    pub fn finish_presets_removed(&mut self, result: Result<(), String>) -> (reqs: Vec<Request>)
        ensures
            match result {
                Ok(_) => *final(self) == *old(self) && request_views(reqs@) == seq![
                    RequestView::ReloadConfig { reason: ReloadReason::ResetPresets },
                ],
                Err(e) => logged(*old(self), *final(self), seq!["failed to remove preset hooks: "@ + e@])
                    && reqs@.len() == 0,
            },
    {
        let mut reqs: Vec<Request> = Vec::new();
        match result {
            Ok(()) => {
                reqs.push(Request::ReloadConfig { reason: ReloadReason::ResetPresets });
                proof {
                    assert(request_views(reqs@) =~= seq![
                        RequestView::ReloadConfig { reason: ReloadReason::ResetPresets },
                    ]);
                }
            },
            Err(e) => {
                self.log(concat("failed to remove preset hooks: ", e.as_str()));
            },
        }
        reqs
    }
}

/// The push that the interface runs: the selected bookmark, else every bookmark.
pub open spec fn push_request(a: App) -> RequestView {
    RequestView::Push {
        bookmark: if a.bookmark_index < a.bookmarks@.len() {
            Some(a.bookmarks@[a.bookmark_index as int].name@)
        } else {
            None
        },
    }
}

/// What closing the picker without picking does: the tools are not offered
/// again, and a push that waited for them goes ahead.
pub open spec fn picker_dismissed(old: App, new: App, reqs: Seq<RequestView>) -> bool {
    &&& new == (App { tool_picker: None, setup_dismissed: true, push_after_hooks: false, ..old })
    &&& reqs == (if old.push_after_hooks {
        seq![push_request(old)]
    } else {
        seq![]
    })
}

/// What comes once treefmt is known to be there: the picked tools that are
/// missing are queued to be installed, or, with none missing, the picked tools
/// are enabled.
pub open spec fn proceed_post(old: App, new: App, reqs: Seq<RequestView>) -> bool {
    match old.tool_picker {
        Some(p) => if install_pairs(p.entries@).len() > 0 {
            &&& new == (App { pending_installs: new.pending_installs, ..old })
            &&& pair_views(new.pending_installs@) == install_pairs(p.entries@)
            &&& reqs.len() == 0
        } else {
            enable_post(old, new, reqs)
        },
        None => new == old && reqs.len() == 0,
    }
}

/// The entry index that the cursor stands on, if it stands on an entry row.
pub open spec fn cursor_entry(p: ToolPickerState) -> Option<usize> {
    if 0 <= p.cursor < p.rows@.len() {
        match p.rows@[p.cursor as int] {
            ToolPickerRow::Entry(i) => Some(i),
            ToolPickerRow::Header(_) => None,
        }
    } else {
        None
    }
}

/// `new` is `old` with the entry under the cursor picked or unpicked.
pub open spec fn picker_toggled(old: ToolPickerState, new: ToolPickerState) -> bool {
    &&& new.rows == old.rows
    &&& new.cursor == old.cursor
    &&& new.entries@ == match cursor_entry(old) {
        Some(i) => if i < old.entries@.len() {
            old.entries@.update(
                i as int,
                ToolPickerEntry { selected: !old.entries@[i as int].selected, ..old.entries@[i as int] },
            )
        } else {
            old.entries@
        },
        None => old.entries@,
    }
}

/// `new` is `old` with only its (still open) picker changed.
pub open spec fn picker_changed(old: App, new: App) -> bool {
    &&& new == (App { tool_picker: new.tool_picker, ..old })
    &&& new.tool_picker is Some
}

/// The picker can take the key: moving up needs the cursor within the rows,
/// and moving down needs room for the next index.
pub open spec fn picker_key_fits(p: ToolPickerState, key: KeyEvent) -> bool {
    match key.code {
        KeyCode::Char('k') | KeyCode::Up => p.cursor <= p.rows@.len(),
        KeyCode::Char('j') | KeyCode::Down => p.cursor < usize::MAX,
        _ => true,
    }
}

/// The treefmt install methods can take the key: Enter needs the cursor on
/// one of them, and moving down needs room for the next index.
pub open spec fn install_key_fits(s: TreefmtInstallState, key: KeyEvent) -> bool {
    match key.code {
        KeyCode::Enter => s.cursor < TREEFMT_INSTALL_METHOD_COUNT,
        KeyCode::Char('j') | KeyCode::Down => s.cursor < usize::MAX,
        _ => true,
    }
}

/// What a key does while the picker is open.
pub open spec fn picker_key_post(old: App, new: App, key: KeyEvent, reqs: Seq<RequestView>) -> bool {
    match old.tool_picker {
        None => new == old && reqs.len() == 0,
        Some(p) => match key.code {
            KeyCode::Char('j') | KeyCode::Down => picker_changed(old, new) && picker_moved_down(
                p,
                new.tool_picker->0,
            ) && reqs.len() == 0,
            KeyCode::Char('k') | KeyCode::Up => picker_changed(old, new) && picker_moved_up(
                p,
                new.tool_picker->0,
            ) && reqs.len() == 0,
            KeyCode::Char(' ') => picker_changed(old, new) && picker_toggled(p, new.tool_picker->0)
                && reqs.len() == 0,
            KeyCode::Enter => if picked(p.entries@).len() == 0 {
                picker_dismissed(old, new, reqs)
            } else if picked_in(p.entries@, ToolCategory::Formatter).len() > 0 {
                new == old && reqs == seq![RequestView::CheckTreefmt]
            } else {
                proceed_post(old, new, reqs)
            },
            KeyCode::Char('n') | KeyCode::Char('N') | KeyCode::Esc => picker_dismissed(old, new, reqs),
            _ => new == old && reqs.len() == 0,
        },
    }
}

fn install_list(p: &ToolPickerState) -> (r: Vec<(String, String)>)
    ensures
        pair_views(r@) == install_pairs(p.entries@),
{
    let missing = p.needs_install();
    let ghost es = missing@.map_values(|e: &ToolPickerEntry| *e);
    let mut r: Vec<(String, String)> = Vec::new();
    let mut i: usize = 0;
    while i < missing.len()
        invariant
            i <= missing@.len(),
            es == missing@.map_values(|e: &ToolPickerEntry| *e),
            pair_views(r@) == es.take(i as int).map_values(
                |e: ToolPickerEntry| (e.name@, e.install_cmd@),
            ),
        decreases missing@.len() - i,
    {
        let ghost before = r@;
        r.push((missing[i].name.clone(), missing[i].install_cmd.clone()));
        proof {
            assert(es.take(i + 1) =~= es.take(i as int).push(es[i as int]));
            assert(pair_views(r@) =~= pair_views(before).push(
                (es[i as int].name@, es[i as int].install_cmd@),
            ));
            assert(pair_views(r@) =~= es.take(i + 1).map_values(
                |e: ToolPickerEntry| (e.name@, e.install_cmd@),
            ));
        }
        i = i + 1;
    }
    proof {
        assert(es.take(missing@.len() as int) =~= es);
    }
    r
}

impl App {
    /// The push request for the selection.
    fn push_request(&self) -> (r: Request)
        ensures
            request_view(r) == push_request(*self),
    {
        match self.selected_bookmark() {
            Some(b) => Request::Push { bookmark: Some(b.name.clone()) },
            None => Request::Push { bookmark: None },
        }
    }

    /// Closes the picker without picking.
    fn dismiss_picker(&mut self) -> (reqs: Vec<Request>)
        ensures
            picker_dismissed(*old(self), *final(self), request_views(reqs@)),
    {
        let should_push = self.push_after_hooks;
        self.tool_picker = None;
        self.setup_dismissed = true;
        self.push_after_hooks = false;
        let mut reqs: Vec<Request> = Vec::new();
        if should_push {
            let r = self.push_request();
            reqs.push(r);
            proof {
                assert(request_views(reqs@) =~= seq![push_request(*old(self))]);
            }
        } else {
            proof {
                assert(request_views(reqs@) =~= seq![]);
            }
        }
        reqs
    }

    /// Queues the missing picked tools for installing, or enables the picked
    /// tools when none is missing.
    fn proceed_to_install(&mut self) -> (reqs: Vec<Request>)
        ensures
            proceed_post(*old(self), *final(self), request_views(reqs@)),
    {
        let installs = match &self.tool_picker {
            Some(p) => install_list(p),
            None => {
                return Vec::new();
            },
        };
        if installs.len() > 0 {
            self.pending_installs = installs;
            Vec::new()
        } else {
            self.enable_selected_tools()
        }
    }

    /// Handles a key while the tool picker is open.
    pub fn on_picker_key(&mut self, key: KeyEvent) -> (reqs: Vec<Request>)
        requires
            old(self).tool_picker matches Some(p) ==> picker_key_fits(p, key),
        ensures
            picker_key_post(*old(self), *final(self), key, request_views(reqs@)),
    {
        let mut picker = match self.tool_picker.take() {
            Some(p) => p,
            None => {
                return Vec::new();
            },
        };
        match key.code {
            KeyCode::Char('j') | KeyCode::Down => {
                picker.move_cursor_down();
                self.tool_picker = Some(picker);
                Vec::new()
            },
            KeyCode::Char('k') | KeyCode::Up => {
                picker.move_cursor_up();
                self.tool_picker = Some(picker);
                Vec::new()
            },
            KeyCode::Char(' ') => {
                let ghost before = picker;
                if let Some(idx) = picker.cursor_entry_index() {
                    if idx < picker.entries.len() {
                        let mut e = picker.entries.remove(idx);
                        e.selected = !e.selected;
                        picker.entries.insert(idx, e);
                        proof {
                            assert(picker.entries@ =~= before.entries@.update(
                                idx as int,
                                ToolPickerEntry {
                                    selected: !before.entries@[idx as int].selected,
                                    ..before.entries@[idx as int]
                                },
                            ));
                        }
                    }
                }
                proof {
                    assert(picker_toggled(before, picker));
                }
                self.tool_picker = Some(picker);
                proof {
                    assert(picker_changed(*old(self), *self));
                }
                Vec::new()
            },
            KeyCode::Enter => {
                let has_selected = picker.selected_entries().len() > 0;
                let has_formatters = picker.selected_formatters().len() > 0;
                self.tool_picker = Some(picker);
                if !has_selected {
                    self.dismiss_picker()
                } else if has_formatters {
                    let mut reqs: Vec<Request> = Vec::new();
                    reqs.push(Request::CheckTreefmt);
                    proof {
                        assert(request_views(reqs@) =~= seq![RequestView::CheckTreefmt]);
                    }
                    reqs
                } else {
                    self.proceed_to_install()
                }
            },
            KeyCode::Char('n') | KeyCode::Char('N') | KeyCode::Esc => {
                self.tool_picker = Some(picker);
                self.dismiss_picker()
            },
            _ => {
                self.tool_picker = Some(picker);
                Vec::new()
            },
        }
    }
}

/// What asking to push does: nothing while hooks or the picker are up; with
/// no pre-push hook, the push itself once setting up was declined, else the
/// tool picker first; with hooks, the hooks first, and the push after them.
pub open spec fn push_post(old: App, new: App, reqs: Seq<RequestView>) -> bool {
    if old.hook_phase is Some || old.tool_picker is Some {
        new == old && reqs.len() == 0
    } else if old.config.hooks.pre_push@.len() == 0 {
        if old.setup_dismissed {
            new == old && reqs == seq![push_request(old)]
        } else {
            new == (App { push_after_hooks: true, ..old }) && reqs == seq![
                RequestView::CheckInstalledTools,
            ]
        }
    } else {
        started(App { push_after_hooks: true, ..old }, new) && reqs == seq![RequestView::StartHooks]
    }
}

/// What asking to run the hooks alone does: nothing while hooks or the picker
/// are up; the tool picker when no hook is configured; else the hooks, with
/// no push after them.
pub open spec fn run_hooks_post(old: App, new: App, reqs: Seq<RequestView>) -> bool {
    if old.hook_phase is Some || old.tool_picker is Some {
        new == old && reqs.len() == 0
    } else if old.config.hooks.pre_push@.len() == 0 {
        new == old && reqs == seq![RequestView::CheckInstalledTools]
    } else {
        started(App { push_after_hooks: false, ..old }, new) && reqs == seq![RequestView::StartHooks]
    }
}

/// What a key does while the treefmt install methods are offered.
pub open spec fn treefmt_key_post(old: App, new: App, key: KeyEvent) -> bool {
    match old.treefmt_install_picker {
        None => new == old,
        Some(s) => match key.code {
            KeyCode::Char('j') | KeyCode::Down => new == (App {
                treefmt_install_picker: Some(
                    TreefmtInstallState {
                        cursor: if s.cursor + 1 <= TREEFMT_INSTALL_METHOD_COUNT - 1 {
                            (s.cursor + 1) as usize
                        } else {
                            (TREEFMT_INSTALL_METHOD_COUNT - 1) as usize
                        },
                    },
                ),
                ..old
            }),
            KeyCode::Char('k') | KeyCode::Up => new == (App {
                treefmt_install_picker: Some(
                    TreefmtInstallState {
                        cursor: if s.cursor == 0 {
                            0
                        } else {
                            (s.cursor - 1) as usize
                        },
                    },
                ),
                ..old
            }),
            KeyCode::Enter => {
                let m = install_methods()[s.cursor as int];
                &&& new == (App {
                    treefmt_install_picker: None,
                    pending_installs: new.pending_installs,
                    ..old
                })
                &&& pair_views(new.pending_installs@) == seq![(m.label@, m.command@)] + match old.tool_picker {
                    Some(p) => install_pairs(p.entries@),
                    None => seq![],
                }
            },
            KeyCode::Esc => new == (App { treefmt_install_picker: None, ..old }),
            _ => new == old,
        },
    }
}

/// The binaries to look for: those of the picker's entries, in entry order.
pub open spec fn picker_binaries(a: App) -> Seq<Seq<char>> {
    match a.tool_picker {
        Some(p) => p.entries@.map_values(|e: ToolPickerEntry| e.check_binary@),
        None => seq![],
    }
}

/// The entry at `i` after looking again: a picked tool is installed when its
/// binary was found.
pub open spec fn rechecked_entry(e: ToolPickerEntry, found: Seq<bool>, i: int) -> ToolPickerEntry {
    if e.selected {
        ToolPickerEntry { installed: found_at(found, i), ..e }
    } else {
        e
    }
}

/// The index of the first entry named `n`, or -1.
pub open spec fn first_named(es: Seq<ToolPickerEntry>, n: Seq<char>) -> int {
    if exists|k: int| 0 <= k < es.len() && (#[trigger] es[k]).name@ == n {
        choose|k: int|
            0 <= k < es.len() && es[k].name@ == n && forall|j: int|
                0 <= j < k ==> (#[trigger] es[j]).name@ != n
    } else {
        -1
    }
}

/// `es` with the first entry named `n` no longer picked.
pub open spec fn unselect_named(es: Seq<ToolPickerEntry>, n: Seq<char>) -> Seq<ToolPickerEntry> {
    let k = first_named(es, n);
    if 0 <= k < es.len() {
        es.update(k, ToolPickerEntry { selected: false, ..es[k] })
    } else {
        es
    }
}

/// `es` with the first entry of each name in `names` no longer picked.
pub open spec fn unselect_all(es: Seq<ToolPickerEntry>, names: Seq<Seq<char>>) -> Seq<
    ToolPickerEntry,
>
    decreases names.len(),
{
    if names.len() == 0 {
        es
    } else {
        unselect_named(unselect_all(es, names.drop_last()), names.last())
    }
}

/// The entries once installs are over: picked tools found again, and the
/// tools whose install failed no longer picked.
pub open spec fn rechecked(es: Seq<ToolPickerEntry>, found: Seq<bool>, failed: Seq<Seq<char>>) -> Seq<
    ToolPickerEntry,
> {
    unselect_all(Seq::new(es.len(), |i: int| rechecked_entry(es[i], found, i)), failed)
}

fn unselect_first(es: &mut Vec<ToolPickerEntry>, name: &str)
    ensures
        final(es)@ == unselect_named(old(es)@, name@),
{
    let mut i: usize = 0;
    while i < es.len()
        invariant
            i <= es@.len(),
            es@ == old(es)@,
            forall|j: int| 0 <= j < i ==> (#[trigger] es@[j]).name@ != name@,
        decreases es@.len() - i,
    {
        if str_eq(es[i].name.as_str(), name) {
            proof {
                let s = es@;
                assert(0 <= i < s.len() && s[i as int].name@ == name@);
                let k = first_named(s, name@);
                assert(0 <= k < s.len() && s[k].name@ == name@ && forall|j: int|
                    0 <= j < k ==> (#[trigger] s[j]).name@ != name@);
                if k < i {
                    assert(s[k].name@ != name@);
                } else if k > i {
                    assert(s[i as int].name@ != name@);
                }
            }
            let ghost before = es@;
            let mut e = es.remove(i);
            e.selected = false;
            es.insert(i, e);
            proof {
                assert(es@ =~= before.update(
                    i as int,
                    ToolPickerEntry { selected: false, ..before[i as int] },
                ));
            }
            return;
        }
        i = i + 1;
    }
    proof {
        let s = es@;
        if exists|k: int| 0 <= k < s.len() && (#[trigger] s[k]).name@ == name@ {
            let k = choose|k: int| 0 <= k < s.len() && (#[trigger] s[k]).name@ == name@;
            assert(s[k].name@ != name@);
        }
    }
}

/// Marks each picked entry installed when its binary was found.
fn recheck_entries(entries: &mut Vec<ToolPickerEntry>, found: &Vec<bool>)
    ensures
        final(entries)@ == Seq::new(
            old(entries)@.len(),
            |j: int| rechecked_entry(old(entries)@[j], found@, j),
        ),
{
    let ghost es = entries@;
    let mut i: usize = 0;
    while i < entries.len()
        invariant
            es == old(entries)@,
            entries@.len() == es.len(),
            i <= es.len(),
            forall|j: int| 0 <= j < i ==> entries@[j] == rechecked_entry(es[j], found@, j),
            forall|j: int| i <= j < es.len() ==> entries@[j] == es[j],
        decreases es.len() - i,
    {
        if entries[i].selected {
            let ghost before = entries@;
            let mut e = entries.remove(i);
            e.installed = i < found.len() && found[i];
            entries.insert(i, e);
            proof {
                assert(entries@ =~= before.update(
                    i as int,
                    rechecked_entry(es[i as int], found@, i as int),
                ));
            }
        }
        i = i + 1;
    }
    proof {
        assert(entries@ =~= Seq::new(es.len(), |j: int| rechecked_entry(es[j], found@, j)));
    }
}

/// Unpicks the first entry of each name in `failed`.
fn unselect_failed(entries: &mut Vec<ToolPickerEntry>, failed: &Vec<String>)
    ensures
        final(entries)@ == unselect_all(old(entries)@, views(failed@)),
{
    let ghost start = entries@;
    let ghost names = views(failed@);
    let mut k: usize = 0;
    while k < failed.len()
        invariant
            start == old(entries)@,
            k <= failed@.len(),
            names == views(failed@),
            entries@ == unselect_all(start, names.take(k as int)),
        decreases failed@.len() - k,
    {
        unselect_first(entries, failed[k].as_str());
        proof {
            assert(names.take(k + 1).drop_last() =~= names.take(k as int));
            assert(names.take(k + 1).last() == failed@[k as int]@);
        }
        k = k + 1;
    }
    proof {
        assert(names.take(failed@.len() as int) =~= names);
    }
}

impl App {
    /// Opens the tool picker; `installed[i]` says whether the tool at `i` of
    /// the catalog was found installed.
    pub fn finish_tool_picker(&mut self, installed: &Vec<bool>)
        ensures
            *final(self) == (App { tool_picker: final(self).tool_picker, ..*old(self) }),
            final(self).tool_picker matches Some(p) && fresh_picker(p, installed@),
    {
        self.tool_picker = Some(App::build_tool_picker(installed));
    }

    /// Asks to push: see `push_post`.
    pub fn push(&mut self) -> (reqs: Vec<Request>)
        ensures
            push_post(*old(self), *final(self), request_views(reqs@)),
    {
        if self.hook_phase.is_some() || self.tool_picker.is_some() {
            return Vec::new();
        }
        if self.config.hooks.pre_push.len() == 0 {
            let mut reqs: Vec<Request> = Vec::new();
            if self.setup_dismissed {
                let r = self.push_request();
                reqs.push(r);
                proof {
                    assert(request_views(reqs@) =~= seq![push_request(*old(self))]);
                }
            } else {
                self.push_after_hooks = true;
                reqs.push(Request::CheckInstalledTools);
                proof {
                    assert(request_views(reqs@) =~= seq![RequestView::CheckInstalledTools]);
                }
            }
            reqs
        } else {
            self.push_after_hooks = true;
            self.start_hooks()
        }
    }

    /// Asks to run the hooks without pushing: see `run_hooks_post`.
    pub fn run_hooks_only(&mut self) -> (reqs: Vec<Request>)
        ensures
            run_hooks_post(*old(self), *final(self), request_views(reqs@)),
    {
        if self.hook_phase.is_some() || self.tool_picker.is_some() {
            return Vec::new();
        }
        if self.config.hooks.pre_push.len() == 0 {
            let mut reqs: Vec<Request> = Vec::new();
            reqs.push(Request::CheckInstalledTools);
            proof {
                assert(request_views(reqs@) =~= seq![RequestView::CheckInstalledTools]);
            }
            reqs
        } else {
            self.push_after_hooks = false;
            self.start_hooks()
        }
    }

    /// Takes in whether treefmt is installed: if not, its install methods are
    /// offered; if so, setting up goes on.
    pub fn finish_treefmt_check(&mut self, found: bool) -> (reqs: Vec<Request>)
        ensures
            match old(self).tool_picker {
                None => *final(self) == *old(self) && reqs@.len() == 0,
                Some(_) => if found {
                    proceed_post(*old(self), *final(self), request_views(reqs@))
                } else {
                    *final(self) == (App {
                        treefmt_install_picker: Some(TreefmtInstallState { cursor: 0 }),
                        ..*old(self)
                    }) && reqs@.len() == 0
                },
            },
    {
        if self.tool_picker.is_none() {
            return Vec::new();
        }
        if !found {
            self.treefmt_install_picker = Some(TreefmtInstallState::new());
            Vec::new()
        } else {
            self.proceed_to_install()
        }
    }

    /// Handles a key while the treefmt install methods are offered.
    pub fn on_treefmt_install_key(&mut self, key: KeyEvent)
        requires
            old(self).treefmt_install_picker matches Some(s) ==> install_key_fits(s, key),
        ensures
            treefmt_key_post(*old(self), *final(self), key),
    {
        let cursor = match &self.treefmt_install_picker {
            Some(s) => s.cursor,
            None => {
                return ;
            },
        };
        match key.code {
            KeyCode::Char('j') | KeyCode::Down => {
                let max: usize = TREEFMT_INSTALL_METHOD_COUNT - 1;
                let next = if cursor + 1 <= max {
                    cursor + 1
                } else {
                    max
                };
                self.treefmt_install_picker = Some(TreefmtInstallState { cursor: next });
            },
            KeyCode::Char('k') | KeyCode::Up => {
                let prev = if cursor == 0 {
                    0
                } else {
                    cursor - 1
                };
                self.treefmt_install_picker = Some(TreefmtInstallState { cursor: prev });
            },
            KeyCode::Enter => {
                self.treefmt_install_picker = None;
                let methods = treefmt_install_methods();
                let m = methods[cursor];
                let mut installs: Vec<(String, String)> = Vec::new();
                installs.push((String::from_str(m.label), String::from_str(m.command)));
                let ghost first = pair_views(installs@);
                proof {
                    assert(first =~= seq![(m.label@, m.command@)]);
                }
                if let Some(picker) = &self.tool_picker {
                    let mut rest = install_list(picker);
                    let ghost rv = pair_views(rest@);
                    let ghost iv = installs@;
                    installs.append(&mut rest);
                    proof {
                        assert(pair_views(installs@) =~= pair_views(iv) + rv);
                    }
                } else {
                    proof {
                        assert(pair_views(installs@) =~= first + seq![]);
                    }
                }
                self.pending_installs = installs;
            },
            KeyCode::Esc => {
                self.treefmt_install_picker = None;
            },
            _ => {},
        }
    }

    /// Takes in how installing the tool `name` went.
    pub fn record_install(&mut self, name: String, result: Result<(), String>)
        ensures
            match result {
                Ok(_) => logged(
                    *old(self),
                    *final(self),
                    seq!["\u{2713} "@ + name@ + " installed successfully"@],
                ),
                Err(e) => {
                    &&& logged(
                        App { failed_installs: final(self).failed_installs, ..*old(self) },
                        *final(self),
                        seq!["\u{2717} "@ + name@ + " install failed: "@ + e@],
                    )
                    &&& views(final(self).failed_installs@) == views(old(self).failed_installs@).push(
                        name@,
                    )
                },
            },
    {
        match result {
            Ok(()) => {
                let mut line = concat("\u{2713} ", name.as_str());
                line.append(" installed successfully");
                self.log(line);
            },
            Err(e) => {
                let mut line = concat("\u{2717} ", name.as_str());
                line.append(" install failed: ");
                line.append(e.as_str());
                self.log(line);
                crate::app::push_s(&mut self.failed_installs, name);
            },
        }
    }

    /// Once the installs are over: asks which binaries of the picker's tools
    /// are now there.
    pub fn installs_done(&self) -> (reqs: Vec<Request>)
        ensures
            request_views(reqs@) == seq![RequestView::CheckBinaries { binaries: picker_binaries(*self) }],
    {
        let mut binaries: Vec<String> = Vec::new();
        if let Some(p) = &self.tool_picker {
            let mut i: usize = 0;
            while i < p.entries.len()
                invariant
                    i <= p.entries@.len(),
                    views(binaries@) == p.entries@.take(i as int).map_values(
                        |e: ToolPickerEntry| e.check_binary@,
                    ),
                decreases p.entries@.len() - i,
            {
                let ghost before = binaries@;
                binaries.push(p.entries[i].check_binary.clone());
                proof {
                    assert(p.entries@.take(i + 1) =~= p.entries@.take(i as int).push(
                        p.entries@[i as int],
                    ));
                    assert(views(binaries@) =~= views(before).push(p.entries@[i as int].check_binary@));
                    assert(views(binaries@) =~= p.entries@.take(i + 1).map_values(
                        |e: ToolPickerEntry| e.check_binary@,
                    ));
                }
                i = i + 1;
            }
            proof {
                assert(p.entries@.take(p.entries@.len() as int) =~= p.entries@);
            }
        }
        proof {
            assert(views(binaries@) =~= picker_binaries(*self));
        }
        let mut reqs: Vec<Request> = Vec::new();
        reqs.push(Request::CheckBinaries { binaries });
        proof {
            assert(request_views(reqs@) =~= seq![
                RequestView::CheckBinaries { binaries: picker_binaries(*self) },
            ]);
        }
        reqs
    }

    /// Takes in which binaries of the picker's tools were found: picked tools
    /// are marked installed or not, tools whose install failed are no longer
    /// picked, and the picked tools are enabled.
    pub fn finish_recheck(&mut self, found: &Vec<bool>) -> (reqs: Vec<Request>)
        ensures
            final(self).failed_installs@.len() == 0,
            match old(self).tool_picker {
                None => *final(self) == (App {
                    failed_installs: final(self).failed_installs,
                    ..*old(self)
                }) && reqs@.len() == 0,
                Some(p) => enable_from(
                    App { failed_installs: final(self).failed_installs, tool_picker: None, ..*old(self) },
                    rechecked(p.entries@, found@, views(old(self).failed_installs@)),
                    *final(self),
                    request_views(reqs@),
                ),
            },
    {
        let mut failed: Vec<String> = Vec::new();
        std::mem::swap(&mut failed, &mut self.failed_installs);
        let mut picker = match self.tool_picker.take() {
            Some(p) => p,
            None => {
                return Vec::new();
            },
        };
        recheck_entries(&mut picker.entries, found);
        unselect_failed(&mut picker.entries, &failed);
        self.enable_picked(&picker)
    }
}

/// What the reports of a hook run do: the phase shown, the lines logged,
/// whether the run is over, and whether it ended on a missing preset.
pub struct TickView {
    pub phase: Option<PhaseView>,
    pub lines: Seq<Seq<char>>,
    pub ended: bool,
    pub reset: bool,
}

pub open spec fn phase_view(o: Option<HookPhase>) -> Option<PhaseView> {
    match o {
        Some(p) => Some(p@),
        None => None,
    }
}

/// The number of hooks of a run that is shown running, else 0.
pub open spec fn running_total(phase: Option<PhaseView>) -> usize {
    match phase {
        Some(PhaseView::Running { total, .. }) => total,
        _ => 0,
    }
}

/// The log lines of a failed hook: the failure, then each line of its output, indented.
pub open spec fn failed_lines(name: Seq<char>, output: Seq<char>) -> Seq<Seq<char>> {
    seq!["\u{2717} Hook '"@ + name + "' failed"@] + lines(output).map_values(
        |l: Seq<char>| "  "@ + l,
    )
}

/// What the reports `msgs`, taken in order, do from the phase `phase`: a start
/// shows the hook running, a pass is logged, and the first report that ends
/// the run (all passed, failed, timed out, not found) is shown and logged,
/// and the reports after it are dropped.
pub open spec fn absorb(phase: Option<PhaseView>, msgs: Seq<ProgressView>) -> TickView
    decreases msgs.len(),
{
    if msgs.len() == 0 {
        TickView { phase, lines: seq![], ended: false, reset: false }
    } else {
        match msgs[0] {
            ProgressView::Started { name, index, total } => absorb(
                Some(PhaseView::Running { current_hook: name, index, total, spinner_tick: 0 }),
                msgs.drop_first(),
            ),
            ProgressView::Passed { name } => {
                let r = absorb(phase, msgs.drop_first());
                TickView { lines: seq!["\u{2713} Hook '"@ + name + "' passed"@] + r.lines, ..r }
            },
            ProgressView::AllPassed => TickView {
                phase: Some(
                    PhaseView::Passed {
                        count: running_total(phase),
                        ticks_remaining: PASSED_TOAST_TICKS,
                    },
                ),
                lines: seq![],
                ended: true,
                reset: false,
            },
            ProgressView::Failed { name, output } => TickView {
                phase: Some(PhaseView::Failed { message: "Hook '"@ + name + "' failed"@, output }),
                lines: failed_lines(name, output),
                ended: true,
                reset: false,
            },
            ProgressView::TimedOut { name, timeout_secs } => {
                let m = "Hook '"@ + name + "' timed out after "@ + decimal(timeout_secs as nat) + "s"@;
                TickView {
                    phase: Some(PhaseView::Failed { message: m, output: seq![] }),
                    lines: seq!["\u{2717} "@ + m],
                    ended: true,
                    reset: false,
                }
            },
            ProgressView::NotFound { name, install_hint } => {
                let m = "Hook '"@ + name + "': "@ + install_hint;
                TickView {
                    phase: Some(PhaseView::Failed { message: m, output: seq![] }),
                    lines: seq!["\u{2717} "@ + m],
                    ended: true,
                    reset: true,
                }
            },
        }
    }
}

/// The spinner of a running phase moved one frame on (wrapping).
pub open spec fn spin(phase: Option<PhaseView>) -> Option<PhaseView> {
    match phase {
        Some(PhaseView::Running { current_hook, index, total, spinner_tick }) => Some(
            PhaseView::Running {
                current_hook,
                index,
                total,
                spinner_tick: if spinner_tick == usize::MAX {
                    0
                } else {
                    (spinner_tick + 1) as usize
                },
            },
        ),
        _ => phase,
    }
}

pub open spec fn progress_views(msgs: Seq<HookProgress>) -> Seq<ProgressView> {
    msgs.map_values(|m: HookProgress| m@)
}

/// What a tick does, given the reports that arrived since the last one.
/// While the "passed" toast is up, it counts down, and at zero it closes and
/// the push that waited runs. Otherwise, during a run, the reports are taken
/// in (see `absorb`), and a run still going moves its spinner on; a run that
/// is over is stopped, and one that ended on a missing preset has the preset
/// hooks removed.
pub open spec fn tick_post(old: App, new: App, msgs: Seq<ProgressView>, reqs: Seq<RequestView>) -> bool {
    match old.hook_phase {
        Some(HookPhase::Passed { count, ticks_remaining }) => if ticks_remaining == 0 {
            if old.push_after_hooks {
                new == (App { hook_phase: None, push_after_hooks: false, ..old }) && reqs == seq![
                    push_request(old),
                ]
            } else {
                &&& new == (App { hook_phase: None, status_message: new.status_message, ..old })
                &&& status_is(new, "\u{2713} All hooks passed"@)
                &&& reqs.len() == 0
            }
        } else {
            new == (App {
                hook_phase: Some(HookPhase::Passed { count, ticks_remaining: (ticks_remaining - 1) as usize }),
                ..old
            }) && reqs.len() == 0
        },
        _ => if !old.hooks_running {
            new == old && reqs.len() == 0
        } else {
            let t = absorb(phase_view(old.hook_phase), msgs);
            &&& new == (App {
                hook_phase: new.hook_phase,
                output_log: new.output_log,
                hooks_running: new.hooks_running,
                ..old
            })
            &&& views(new.output_log@) == log_after(views(old.output_log@), t.lines)
            &&& phase_view(new.hook_phase) == (if t.ended {
                t.phase
            } else {
                spin(t.phase)
            })
            &&& new.hooks_running == !t.ended
            &&& reqs == (if !t.ended {
                seq![]
            } else if t.reset {
                seq![RequestView::StopHooks, RequestView::RemovePresetHooks]
            } else {
                seq![RequestView::StopHooks]
            })
        },
    }
}

impl App {
    /// Logs each line of `output`, indented.
    fn log_output_lines(&mut self, output: &String)
        ensures
            logged(
                *old(self),
                *final(self),
                lines(output@).map_values(|l: Seq<char>| "  "@ + l),
            ),
    {
        let v = chars_of(output.as_str());
        let ranges = line_ranges(&v);
        let ghost all = lines(output@).map_values(|l: Seq<char>| "  "@ + l);
        let ghost start = views(self.output_log@);
        let mut i: usize = 0;
        while i < ranges.len()
            invariant
                v@ == output@,
                ranges_within(ranges@, 0, v@.len() as int),
                cut(v@, ranges@) == lines(v@),
                all == lines(output@).map_values(|l: Seq<char>| "  "@ + l),
                i <= ranges@.len(),
                start == views(old(self).output_log@),
                logged(*old(self), *self, all.take(i as int)),
            decreases ranges@.len() - i,
        {
            let (a, b) = ranges[i];
            proof {
                assert(ranges_within(ranges@, 0, v@.len() as int));
                assert(0 <= ranges@[i as int].0 <= ranges@[i as int].1 <= v@.len());
            }
            let piece = substring(output.as_str(), a, b);
            let line = concat("  ", piece.as_str());
            let ghost mid = views(self.output_log@);
            self.log(line);
            proof {
                assert(cut(v@, ranges@)[i as int] == v@.subrange(a as int, b as int));
                assert(all[i as int] == "  "@ + v@.subrange(a as int, b as int));
                lemma_log_after_concat(start, all.take(i as int), seq![all[i as int]]);
                assert(all.take(i as int) + seq![all[i as int]] =~= all.take(i + 1));
            }
            i = i + 1;
        }
        proof {
            assert(ranges@.len() == all.len());
            assert(all.take(all.len() as int) =~= all);
        }
    }

    /// Advances the interface by one tick, taking in the reports that the hook
    /// run sent since the last tick: see `tick_post`.
    pub fn tick(&mut self, messages: Vec<HookProgress>) -> (reqs: Vec<Request>)
        ensures
            tick_post(*old(self), *final(self), progress_views(messages@), request_views(reqs@)),
    {
        let toast = match &self.hook_phase {
            Some(HookPhase::Passed { count, ticks_remaining }) => Some((*count, *ticks_remaining)),
            _ => None,
        };
        if let Some((count, ticks_remaining)) = toast {
            if ticks_remaining == 0 {
                self.hook_phase = None;
                if self.push_after_hooks {
                    self.push_after_hooks = false;
                    let mut reqs: Vec<Request> = Vec::new();
                    let r = self.push_request();
                    reqs.push(r);
                    proof {
                        assert(request_views(reqs@) =~= seq![push_request(*old(self))]);
                    }
                    return reqs;
                } else {
                    self.status_message = Some(String::from_str("\u{2713} All hooks passed"));
                    return Vec::new();
                }
            } else {
                self.hook_phase = Some(
                    HookPhase::Passed { count, ticks_remaining: ticks_remaining - 1 },
                );
                return Vec::new();
            }
        }
        if !self.hooks_running {
            return Vec::new();
        }
        let ghost msgs = progress_views(messages@);
        let ghost total_view = absorb(phase_view(self.hook_phase), msgs);
        let ghost start = views(self.output_log@);
        let ghost mut done: Seq<Seq<char>> = seq![];
        proof {
            assert(msgs.skip(0) =~= msgs);
            assert(done + total_view.lines =~= total_view.lines);
        }
        let mut i: usize = 0;
        while i < messages.len()
            invariant
                msgs == progress_views(messages@),
                i <= messages@.len(),
                start == views(old(self).output_log@),
                total_view == absorb(phase_view(old(self).hook_phase), msgs),
                old(self).hooks_running,
                !(old(self).hook_phase matches Some(HookPhase::Passed { .. })),
                *self == (App {
                    hook_phase: self.hook_phase,
                    output_log: self.output_log,
                    ..*old(self)
                }),
                views(self.output_log@) == log_after(start, done),
                total_view == (TickView {
                    lines: done + absorb(phase_view(self.hook_phase), msgs.skip(i as int)).lines,
                    ..absorb(phase_view(self.hook_phase), msgs.skip(i as int))
                }),
            decreases messages@.len() - i,
        {
            proof {
                assert(msgs.skip(i as int)[0] == messages@[i as int]@);
                assert(msgs.skip(i as int).drop_first() =~= msgs.skip(i + 1));
            }
            let ghost cur = phase_view(self.hook_phase);
            match &messages[i] {
                HookProgress::Started { name, index, total } => {
                    self.hook_phase = Some(
                        HookPhase::Running {
                            current_hook: name.clone(),
                            index: *index,
                            total: *total,
                            spinner_tick: 0,
                        },
                    );
                },
                HookProgress::Passed { name } => {
                    let mut line = concat("\u{2713} Hook '", name.as_str());
                    line.append("' passed");
                    let ghost lv = line@;
                    self.log(line);
                    proof {
                        lemma_log_after_concat(start, done, seq![lv]);
                        let r = absorb(cur, msgs.skip(i + 1));
                        assert(seq![lv] + r.lines == absorb(cur, msgs.skip(i as int)).lines);
                        assert(done + absorb(cur, msgs.skip(i as int)).lines =~= (done + seq![lv])
                            + r.lines);
                        done = done + seq![lv];
                    }
                },
                HookProgress::AllPassed => {
                    let total = match &self.hook_phase {
                        Some(HookPhase::Running { total, .. }) => *total,
                        _ => 0,
                    };
                    self.hooks_running = false;
                    self.hook_phase = Some(
                        HookPhase::Passed { count: total, ticks_remaining: PASSED_TOAST_TICKS },
                    );
                    proof {
                        assert(done + seq![] =~= done);
                    }
                    return stop_requests(false);
                },
                HookProgress::Failed { name, output } => {
                    let mut line = concat("\u{2717} Hook '", name.as_str());
                    line.append("' failed");
                    let ghost lv = line@;
                    self.log(line);
                    let ghost mid = views(self.output_log@);
                    self.log_output_lines(output);
                    let mut message = concat("Hook '", name.as_str());
                    message.append("' failed");
                    self.hooks_running = false;
                    self.hook_phase = Some(HookPhase::Failed { message, output: output.clone() });
                    proof {
                        let ls = lines(output@).map_values(|l: Seq<char>| "  "@ + l);
                        lemma_log_after_concat(start, done, seq![lv]);
                        lemma_log_after_concat(start, done + seq![lv], ls);
                        assert(done + seq![lv] + ls =~= done + failed_lines(name@, output@));
                    }
                    return stop_requests(false);
                },
                HookProgress::TimedOut { name, timeout_secs } => {
                    let mut message = concat("Hook '", name.as_str());
                    message.append("' timed out after ");
                    push_decimal(&mut message, *timeout_secs);
                    message.append("s");
                    let line = concat("\u{2717} ", message.as_str());
                    let ghost lv = line@;
                    self.log(line);
                    self.hooks_running = false;
                    self.hook_phase = Some(HookPhase::Failed { message, output: String::new() });
                    proof {
                        lemma_log_after_concat(start, done, seq![lv]);
                    }
                    return stop_requests(false);
                },
                HookProgress::NotFound { name, install_hint } => {
                    let mut message = concat("Hook '", name.as_str());
                    message.append("': ");
                    message.append(install_hint.as_str());
                    let line = concat("\u{2717} ", message.as_str());
                    let ghost lv = line@;
                    self.log(line);
                    self.hooks_running = false;
                    self.hook_phase = Some(HookPhase::Failed { message, output: String::new() });
                    proof {
                        lemma_log_after_concat(start, done, seq![lv]);
                    }
                    return stop_requests(true);
                },
            }
            i = i + 1;
        }
        let ghost cur = phase_view(self.hook_phase);
        proof {
            assert(msgs.skip(i as int).len() == 0);
            assert(done + seq![] =~= done);
        }
        let spun = match &self.hook_phase {
            Some(HookPhase::Running { current_hook, index, total, spinner_tick }) => Some(
                HookPhase::Running {
                    current_hook: current_hook.clone(),
                    index: *index,
                    total: *total,
                    spinner_tick: if *spinner_tick == usize::MAX {
                        0
                    } else {
                        *spinner_tick + 1
                    },
                },
            ),
            _ => None,
        };
        if spun.is_some() {
            self.hook_phase = spun;
        }
        let reqs: Vec<Request> = Vec::new();
        proof {
            assert(request_views(reqs@) =~= seq![]);
        }
        reqs
    }
}

/// The requests that end a run: stop it, and remove the preset hooks when it
/// ended on a missing preset.
fn stop_requests(reset: bool) -> (reqs: Vec<Request>)
    ensures
        request_views(reqs@) == (if reset {
            seq![RequestView::StopHooks, RequestView::RemovePresetHooks]
        } else {
            seq![RequestView::StopHooks]
        }),
{
    let mut reqs: Vec<Request> = Vec::new();
    reqs.push(Request::StopHooks);
    if reset {
        reqs.push(Request::RemovePresetHooks);
        proof {
            assert(request_views(reqs@) =~= seq![RequestView::StopHooks, RequestView::RemovePresetHooks]);
        }
    } else {
        proof {
            assert(request_views(reqs@) =~= seq![RequestView::StopHooks]);
        }
    }
    reqs
}

/// The log line of each hook in `hs` that passed.
pub open spec fn pass_lines(hs: Seq<HookEntry>) -> Seq<Seq<char>> {
    hs.map_values(|h: HookEntry| "\u{2713} Hook '"@ + h.name@ + "' passed"@)
}

/// What the interface shows when hook `h` stops a run with result `r`.
pub open spec fn stop_view(h: HookEntry, r: ExecResult) -> TickView {
    match hook_job(h) {
        None => absorb(
            None,
            seq![ProgressView::Failed { name: h.name@, output: "hook has neither preset nor command"@ }],
        ),
        Some(_) => match r {
            ExecResult::Failed { output, .. } => absorb(
                None,
                seq![ProgressView::Failed { name: h.name@, output: output@ }],
            ),
            ExecResult::TimedOut => absorb(
                None,
                seq![ProgressView::TimedOut { name: h.name@, timeout_secs: hook_timeout(h) }],
            ),
            ExecResult::NotFound { install_hint } => absorb(
                None,
                seq![ProgressView::NotFound { name: h.name@, install_hint: install_hint@ }],
            ),
            ExecResult::Passed => absorb(None, seq![ProgressView::AllPassed]),
        },
    }
}

/// Hook `h` runs a job and passes.
pub open spec fn passes(h: HookEntry, r: ExecResult) -> bool {
    hook_job(h) is Some && r is Passed
}

/// The interface shows a run of `n` hooks as running.
pub open spec fn shows_running(phase: Option<PhaseView>, n: nat) -> bool {
    phase matches Some(PhaseView::Running { total, .. }) && total == n
}

/// A run in which every hook passes, taken in by the interface from the phase
/// that starting the hooks shows, ends with all `n` hooks shown passed, after
/// one pass line per hook, in order.
pub proof fn lemma_all_pass_shown(
    hooks: Seq<HookEntry>,
    results: Seq<ExecResult>,
    from: int,
    phase: Option<PhaseView>,
)
    requires
        0 <= from <= hooks.len(),
        hooks.len() < usize::MAX,
        results.len() == hooks.len(),
        forall|i: int| from <= i < hooks.len() ==> passes(#[trigger] hooks[i], results[i]),
        from == hooks.len() ==> shows_running(phase, hooks.len()),
    ensures
        absorb(phase, run_reports(hooks, results, from)) == (TickView {
            phase: Some(
                PhaseView::Passed {
                    count: hooks.len() as usize,
                    ticks_remaining: PASSED_TOAST_TICKS,
                },
            ),
            lines: pass_lines(hooks.subrange(from, hooks.len() as int)),
            ended: true,
            reset: false,
        }),
    decreases hooks.len() - from,
{
    let n = hooks.len();
    if from == n {
        assert(pass_lines(hooks.subrange(from, n as int)) =~= seq![]);
    } else {
        let h = hooks[from];
        assert(passes(h, results[from]));
        let started = ProgressView::Started { name: h.name@, index: from as usize, total: n as usize };
        let rest = run_reports(hooks, results, from + 1);
        let msgs = seq![started, ProgressView::Passed { name: h.name@ }] + rest;
        assert(run_reports(hooks, results, from) == msgs);
        let running = Some(
            PhaseView::Running { current_hook: h.name@, index: from as usize, total: n as usize, spinner_tick: 0 },
        );
        lemma_all_pass_shown(hooks, results, from + 1, running);
        let m1 = seq![ProgressView::Passed { name: h.name@ }] + rest;
        assert(msgs.drop_first() =~= m1);
        assert(m1.drop_first() =~= rest);
        assert(absorb(phase, msgs) == absorb(running, m1));
        let r = absorb(running, rest);
        assert(absorb(running, m1) == (TickView {
            lines: seq!["\u{2713} Hook '"@ + h.name@ + "' passed"@] + r.lines,
            ..r
        }));
        assert(pass_lines(hooks.subrange(from, n as int)) =~= seq![
            "\u{2713} Hook '"@ + h.name@ + "' passed"@,
        ] + pass_lines(hooks.subrange(from + 1, n as int)));
    }
}

/// A run in which hook `k` is the first that does not pass, taken in by the
/// interface, ends showing how hook `k` stopped it, after one pass line for
/// each hook before it.
pub proof fn lemma_first_stop_shown(
    hooks: Seq<HookEntry>,
    results: Seq<ExecResult>,
    from: int,
    k: int,
    phase: Option<PhaseView>,
)
    requires
        0 <= from <= k < hooks.len(),
        hooks.len() < usize::MAX,
        results.len() == hooks.len(),
        forall|i: int| from <= i < k ==> passes(#[trigger] hooks[i], results[i]),
        !passes(hooks[k], results[k]),
    ensures
        absorb(phase, run_reports(hooks, results, from)) == ({
            let s = stop_view(hooks[k], results[k]);
            TickView { lines: pass_lines(hooks.subrange(from, k)) + s.lines, ..s }
        }),
    decreases k - from,
{
    let n = hooks.len();
    let h = hooks[from];
    let started = ProgressView::Started { name: h.name@, index: from as usize, total: n as usize };
    let running = Some(
        PhaseView::Running { current_hook: h.name@, index: from as usize, total: n as usize, spinner_tick: 0 },
    );
    if from == k {
        let stop = run_reports(hooks, results, from);
        assert(stop.len() == 2 && stop[0] == started);
        assert(stop.drop_first() =~= seq![stop[1]]);
        assert(absorb(phase, stop) == absorb(running, seq![stop[1]]));
        assert(pass_lines(hooks.subrange(from, k)) =~= seq![]);
        let s = stop_view(h, results[k]);
        assert(absorb(running, seq![stop[1]]) == s);
        assert(seq![] + s.lines =~= s.lines);
    } else {
        assert(passes(h, results[from]));
        let rest = run_reports(hooks, results, from + 1);
        let msgs = seq![started, ProgressView::Passed { name: h.name@ }] + rest;
        assert(run_reports(hooks, results, from) == msgs);
        lemma_first_stop_shown(hooks, results, from + 1, k, running);
        let m1 = seq![ProgressView::Passed { name: h.name@ }] + rest;
        assert(msgs.drop_first() =~= m1);
        assert(m1.drop_first() =~= rest);
        assert(absorb(phase, msgs) == absorb(running, m1));
        let r = absorb(running, rest);
        assert(absorb(running, m1) == (TickView {
            lines: seq!["\u{2713} Hook '"@ + h.name@ + "' passed"@] + r.lines,
            ..r
        }));
        let s = stop_view(hooks[k], results[k]);
        assert(pass_lines(hooks.subrange(from, k)) =~= seq![
            "\u{2713} Hook '"@ + h.name@ + "' passed"@,
        ] + pass_lines(hooks.subrange(from + 1, k)));
        assert(pass_lines(hooks.subrange(from, k)) + s.lines =~= seq![
            "\u{2713} Hook '"@ + h.name@ + "' passed"@,
        ] + (pass_lines(hooks.subrange(from + 1, k)) + s.lines));
    }
}

/// Toggling the entry under the cursor twice leaves the picker as it was.
pub proof fn lemma_toggle_twice(a: ToolPickerState, b: ToolPickerState, c: ToolPickerState)
    requires
        picker_toggled(a, b),
        picker_toggled(b, c),
    ensures
        c.entries@ == a.entries@,
        c.rows == a.rows,
        c.cursor == a.cursor,
{
    match cursor_entry(a) {
        Some(i) => if i < a.entries@.len() {
            assert(cursor_entry(b) == Some(i));
            assert(c.entries@ =~= a.entries@);
        },
        None => {},
    }
}

/// The requests that enabling `e` makes while every write succeeds: the
/// treefmt preset hook when it is to be added, the command hooks when there
/// are any, and then the reading of the configuration.
pub open spec fn enable_steps(e: EnableView) -> Seq<RequestView> {
    (if e.add_treefmt_preset {
        seq![RequestView::AppendPresetHooks { names: seq!["treefmt"@] }]
    } else {
        seq![]
    }) + (if e.linters.len() > 0 {
        seq![RequestView::WriteToolHooks { tools: e.linters }]
    } else {
        seq![]
    }) + seq![RequestView::ReloadConfig { reason: ReloadReason::EnableTools }]
}

/// While every write succeeds, enabling makes exactly the requests of
/// `enable_steps`, one step each, ends on the reading of the configuration,
/// and keeps the names of the tools it enables.
pub proof fn lemma_enable_steps(e: EnableView)
    ensures
        enable_next(e).1 == enable_steps(e)[0],
        enable_next(e).0.names == e.names,
        enable_steps(e).len() >= 2 ==> enable_next(enable_next(e).0).1 == enable_steps(e)[1],
        enable_steps(e).len() == 3 ==> enable_next(enable_next(enable_next(e).0).0).1
            == enable_steps(e)[2],
        enable_steps(e).last() == (RequestView::ReloadConfig { reason: ReloadReason::EnableTools }),
        1 <= enable_steps(e).len() <= 3,
{
    let e1 = enable_next(e).0;
    let e2 = enable_next(e1).0;
    assert(e1.names == e.names);
    assert(e2.names == e.names);
}

/// From a "passed" toast with `PASSED_TOAST_TICKS` ticks to go, taken through
/// ticks in which no report arrives: at tick `i` the toast has
/// `PASSED_TOAST_TICKS - i` ticks to go and nothing is asked for, and the
/// tick after the last closes it and runs the push that waited, if one did.
pub proof fn lemma_toast_countdown(
    states: Seq<App>,
    msgs: Seq<Seq<ProgressView>>,
    reqs: Seq<Seq<RequestView>>,
    count: usize,
)
    requires
        states.len() == PASSED_TOAST_TICKS + 2,
        msgs.len() == PASSED_TOAST_TICKS + 1,
        reqs.len() == PASSED_TOAST_TICKS + 1,
        states[0].hook_phase == Some(
            HookPhase::Passed { count, ticks_remaining: PASSED_TOAST_TICKS },
        ),
        forall|i: int|
            0 <= i <= PASSED_TOAST_TICKS ==> tick_post(
                #[trigger] states[i],
                states[i + 1],
                msgs[i],
                reqs[i],
            ),
    ensures
        forall|i: int|
            0 <= i <= PASSED_TOAST_TICKS ==> (#[trigger] states[i]) == (App {
                hook_phase: Some(
                    HookPhase::Passed { count, ticks_remaining: (PASSED_TOAST_TICKS - i) as usize },
                ),
                ..states[0]
            }),
        forall|i: int| 0 <= i < PASSED_TOAST_TICKS ==> (#[trigger] reqs[i]).len() == 0,
        states[PASSED_TOAST_TICKS + 1].hook_phase is None,
        reqs[PASSED_TOAST_TICKS as int] == (if states[0].push_after_hooks {
            seq![push_request(states[0])]
        } else {
            seq![]
        }),
{
    lemma_toast_prefix(states, msgs, reqs, count, PASSED_TOAST_TICKS as int);
    let last = PASSED_TOAST_TICKS as int;
    assert(tick_post(states[last], states[last + 1], msgs[last], reqs[last]));
}

proof fn lemma_toast_prefix(
    states: Seq<App>,
    msgs: Seq<Seq<ProgressView>>,
    reqs: Seq<Seq<RequestView>>,
    count: usize,
    n: int,
)
    requires
        0 <= n <= PASSED_TOAST_TICKS,
        states.len() == PASSED_TOAST_TICKS + 2,
        msgs.len() == PASSED_TOAST_TICKS + 1,
        reqs.len() == PASSED_TOAST_TICKS + 1,
        states[0].hook_phase == Some(
            HookPhase::Passed { count, ticks_remaining: PASSED_TOAST_TICKS },
        ),
        forall|i: int|
            0 <= i <= PASSED_TOAST_TICKS ==> tick_post(
                #[trigger] states[i],
                states[i + 1],
                msgs[i],
                reqs[i],
            ),
    ensures
        forall|i: int|
            0 <= i <= n ==> (#[trigger] states[i]) == (App {
                hook_phase: Some(
                    HookPhase::Passed { count, ticks_remaining: (PASSED_TOAST_TICKS - i) as usize },
                ),
                ..states[0]
            }),
        forall|i: int| 0 <= i < n ==> (#[trigger] reqs[i]).len() == 0,
    decreases n,
{
    if n > 0 {
        lemma_toast_prefix(states, msgs, reqs, count, n - 1);
        let p = n - 1;
        assert(tick_post(states[p], states[p + 1], msgs[p], reqs[p]));
        assert(states[p] == (App {
            hook_phase: Some(
                HookPhase::Passed { count, ticks_remaining: (PASSED_TOAST_TICKS - p) as usize },
            ),
            ..states[0]
        }));
    } else {
        assert(states[0] == (App { hook_phase: states[0].hook_phase, ..states[0] }));
    }
}

} // verus!
