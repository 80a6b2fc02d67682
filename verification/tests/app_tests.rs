use lazyjj::app::{adjust_index, clamp_index, App, KeyCode, KeyEvent, ReloadReason, Request, OUTPUT_LOG_LIMIT};
use lazyjj::config::{Config, HookEntry, HooksConfig};
use lazyjj::hooks::{tool_catalog, HookProgress};
use lazyjj::jj::{CommandOutput, JjClient, ProcessOutput};
use lazyjj::model::{
    Action, BookmarkEntry, DiffKind, DiffLine, FileEntry, FilesContext, Focus, HookPhase, PromptKind,
    RepoSnapshot, RevisionEntry,
};

fn snapshot() -> RepoSnapshot {
    RepoSnapshot {
        root: "/tmp".to_owned(),
        status_summary: vec![],
        files: vec![],
        revisions: vec![],
        bookmarks: vec![],
        operations: vec![],
        initial_diff: vec![DiffLine { kind: DiffKind::Context, text: "line".to_owned() }],
    }
}

fn test_app() -> App {
    let found = ProcessOutput { success: true, stdout: "/tmp\n".to_owned(), stderr: String::new() };
    let client = match JjClient::discover("/tmp", found) {
        Ok(c) => c,
        Err(e) => panic!("test repo should be discoverable: {}", e.message()),
    };
    App::new(snapshot(), client, Config::default())
}

fn key(code: KeyCode) -> KeyEvent {
    KeyEvent::new(code, false)
}

fn hook(name: &str, preset: Option<&str>, command: Option<&str>) -> HookEntry {
    HookEntry {
        name: name.to_owned(),
        preset: preset.map(|p| p.to_owned()),
        command: command.map(|c| c.to_owned()),
        timeout_secs: None,
    }
}

fn with_hooks(app: &mut App, hooks: Vec<HookEntry>) {
    app.config = Config { hooks: HooksConfig { pre_push: hooks } };
}

fn open_picker(app: &mut App) {
    app.tool_picker = Some(App::build_tool_picker(&vec![true; tool_catalog().len()]));
}

fn last_log(app: &App) -> &str {
    app.output_log.last().map(|s| s.as_str()).unwrap_or("")
}

#[test]
fn adjust_index_clamps_to_bounds() {
    let mut index = 1;
    adjust_index(&mut index, 3, -5);
    assert_eq!(index, 0);
    adjust_index(&mut index, 3, 10);
    assert_eq!(index, 2);
}

#[test]
fn clamp_index_handles_empty_lists() {
    assert_eq!(clamp_index(5, 0), 0);
    assert_eq!(clamp_index(5, 3), 2);
}

#[test]
fn key_actions_map_to_expected_commands() {
    let app = test_app();
    assert_eq!(app.action_for_key(key(KeyCode::Char('q'))), Some(Action::Quit));
    assert_eq!(app.action_for_key(key(KeyCode::Char('d'))), Some(Action::OpenPrompt(PromptKind::DescribeRevision)));
    assert_eq!(app.action_for_key(key(KeyCode::Tab)), Some(Action::FocusNext));
}

#[test]
fn dispatch_updates_focus() {
    let mut app = test_app();
    assert!(!app.dispatch(Action::SetFocus(Focus::Bookmarks)).0);
    assert_eq!(app.focus, Focus::Bookmarks);
    assert!(!app.dispatch(Action::FocusNext).0);
    assert_eq!(app.focus, Focus::Revisions);
}

#[test]
fn tool_picker_cursor_navigation() {
    let mut app = test_app();
    app.tool_picker = Some(App::build_tool_picker(&vec![false; tool_catalog().len()]));
    let initial_cursor = app.tool_picker.as_ref().unwrap().cursor;
    assert!(initial_cursor > 0, "cursor should start past the first header");
    let first_entry_cursor = initial_cursor;

    app.on_picker_key(key(KeyCode::Char('j')));
    let after_down = app.tool_picker.as_ref().unwrap().cursor;
    assert!(after_down > first_entry_cursor, "cursor should have moved down");

    app.on_picker_key(key(KeyCode::Char('k')));
    assert_eq!(app.tool_picker.as_ref().unwrap().cursor, first_entry_cursor, "cursor should return to first entry");

    app.on_picker_key(key(KeyCode::Char('k')));
    assert_eq!(
        app.tool_picker.as_ref().unwrap().cursor,
        first_entry_cursor,
        "cursor should not move above first entry row"
    );
}

#[test]
fn tool_picker_space_toggles_selection() {
    let mut app = test_app();
    app.tool_picker = Some(App::build_tool_picker(&vec![false; tool_catalog().len()]));
    app.on_picker_key(key(KeyCode::Char(' ')));
    assert!(app.tool_picker.as_ref().unwrap().entries[0].selected);
    app.on_picker_key(key(KeyCode::Char(' ')));
    assert!(!app.tool_picker.as_ref().unwrap().entries[0].selected);
}

#[test]
fn tool_picker_esc_dismisses_without_push() {
    let mut app = test_app();
    app.tool_picker = Some(App::build_tool_picker(&vec![false; tool_catalog().len()]));
    app.push_after_hooks = false;
    let reqs = app.on_picker_key(key(KeyCode::Esc));
    assert!(app.tool_picker.is_none());
    assert!(app.setup_dismissed);
    assert!(reqs.is_empty());
}

#[test]
fn build_tool_picker_populates_all_catalog_entries() {
    let catalog = tool_catalog();
    let picker = App::build_tool_picker(&vec![false; catalog.len()]);
    assert_eq!(picker.entries.len(), catalog.len(), "picker should have one entry per catalog tool");
    for (entry, def) in picker.entries.iter().zip(catalog.iter()) {
        assert_eq!(entry.name, def.name);
        assert_eq!(entry.language, def.language);
        assert_eq!(entry.hook_command, def.hook_command);
    }
}

#[test]
fn files_title_default_is_working_copy() {
    let app = test_app();
    assert_eq!(app.files_title(), Focus::Files.title(), "default files_title() should return the static Focus::Files label");
}

#[test]
fn files_title_includes_revision_label() {
    let mut app = test_app();
    app.files_context = FilesContext::Revision { label: "revision abc".to_owned(), revset: "abc".to_owned() };
    let title = app.files_title();
    assert!(title.contains("revision abc"), "files_title() should contain the revision label 'revision abc', got: '{title}'");
}

#[test]
fn refresh_resets_files_context_to_working_copy() {
    let mut app = test_app();
    app.files_context = FilesContext::Revision { label: "revision abc".to_owned(), revset: "abc".to_owned() };
    let (quit, reqs) = app.dispatch(Action::Refresh);
    assert!(!quit);
    assert!(matches!(reqs.as_slice(), [Request::Refresh]));
    app.finish_refresh(Ok(snapshot()));
    assert!(matches!(app.files_context, FilesContext::WorkingCopy), "refresh must reset files_context to WorkingCopy");
    assert_eq!(app.status_message.as_deref(), Some("Refreshed repository state"));
    assert_eq!(last_log(&app), "refresh complete");
}

#[test]
fn new_app_counts_the_diff() {
    let mut snap = snapshot();
    snap.initial_diff = vec![
        DiffLine { kind: DiffKind::Addition, text: "+a".to_owned() },
        DiffLine { kind: DiffKind::Addition, text: "+b".to_owned() },
        DiffLine { kind: DiffKind::Removal, text: "-c".to_owned() },
    ];
    let client = match JjClient::discover("/tmp", ProcessOutput { success: true, stdout: "/tmp".to_owned(), stderr: String::new() }) {
        Ok(c) => c,
        Err(_) => panic!("discover"),
    };
    let app = App::new(snap, client, Config::default());
    assert_eq!(app.diff_additions, 2);
    assert_eq!(app.diff_removals, 1);
    assert_eq!(app.output_log, vec!["lazyjj initialized"]);
    assert!(app.well_formed());
}

#[test]
fn output_log_keeps_the_last_lines() {
    let mut app = test_app();
    for i in 0..(OUTPUT_LOG_LIMIT + 5) {
        app.push_output(format!("line {i}"));
    }
    assert_eq!(app.output_log.len(), OUTPUT_LOG_LIMIT);
    assert_eq!(app.output_log[0], "line 5");
    assert_eq!(last_log(&app), format!("line {}", OUTPUT_LOG_LIMIT + 4));
}

#[test]
fn moving_the_selection_previews_the_file() {
    let mut app = test_app();
    app.files = vec![
        FileEntry { status: "M".to_owned(), path: "a.rs".to_owned() },
        FileEntry { status: "A".to_owned(), path: "b.rs".to_owned() },
    ];
    let reqs = app.move_selection(1);
    assert_eq!(app.file_index, 1);
    match reqs.as_slice() {
        [Request::LoadDiff { title, .. }] => assert_eq!(title, "file b.rs"),
        other => panic!("expected one diff to load, got {other:?}"),
    }
    assert!(app.move_selection(5).is_empty(), "a selection that stays put loads nothing");
    app.finish_diff("file b.rs".to_owned(), Err("boom".to_owned()));
    assert_eq!(app.status_message.as_deref(), Some("boom"));
    assert_eq!(last_log(&app), "inspect failed: boom");
}

#[test]
fn inspecting_a_revision_loads_its_files_then_its_diff() {
    let mut app = test_app();
    app.revisions = vec![RevisionEntry {
        commit_id: "abc123".to_owned(),
        change_id: "xyz".to_owned(),
        author: "me".to_owned(),
        timestamp: "now".to_owned(),
        bookmarks: vec![],
        description: "work".to_owned(),
        is_working_copy: true,
    }];
    app.focus = Focus::Revisions;
    let reqs = app.inspect_current();
    match reqs.as_slice() {
        [Request::RevisionFiles { label, revset }, Request::LoadDiff { title, .. }] => {
            assert_eq!(label, "revision abc123");
            assert_eq!(revset, "abc123");
            assert_eq!(title, "revision abc123");
        }
        other => panic!("unexpected requests {other:?}"),
    }
}

#[test]
fn prompt_collects_typed_text_and_runs_jj() {
    let mut app = test_app();
    app.on_key(key(KeyCode::Char('p')));
    assert!(app.prompt.is_some());
    for c in "log x".chars() {
        app.on_key(key(c_code(c)));
    }
    app.on_key(key(KeyCode::Backspace));
    app.on_key(KeyEvent::new(KeyCode::Char('z'), true));
    assert_eq!(app.prompt.as_ref().unwrap().value, "log ");
    let (quit, reqs) = app.on_key(key(KeyCode::Enter));
    assert!(!quit);
    assert!(app.prompt.is_none());
    match reqs.as_slice() {
        [Request::Mutate { args, label, undo: false }] => {
            assert_eq!(args, &vec!["log".to_owned()]);
            assert_eq!(label, "jj log");
        }
        other => panic!("unexpected requests {other:?}"),
    }
    let out = CommandOutput { stdout: " done \n".to_owned(), stderr: String::new() };
    let reqs = app.finish_mutation(vec!["log".to_owned()], "jj log".to_owned(), false, Ok(out));
    assert!(matches!(reqs.as_slice(), [Request::Refresh]));
    assert_eq!(app.status_message.as_deref(), Some("Executed jj log"));
    let n = app.output_log.len();
    assert_eq!(app.output_log[n - 2], "$ jj log");
    assert_eq!(app.output_log[n - 1], "done");
}

fn c_code(c: char) -> KeyCode {
    KeyCode::Char(c)
}

#[test]
fn abandon_needs_a_yes() {
    let mut app = test_app();
    app.open_prompt_for(PromptKind::ConfirmAbandon);
    app.prompt.as_mut().unwrap().value = "no".to_owned();
    let reqs = app.submit_prompt();
    assert!(matches!(reqs.as_slice(), [Request::Refresh]));
    assert_eq!(app.status_message.as_deref(), Some("Type `yes` to abandon the selected revision"));
    assert_eq!(last_log(&app), "abandon cancelled");
    app.open_prompt_for(PromptKind::ConfirmAbandon);
    app.prompt.as_mut().unwrap().value = " yes ".to_owned();
    let reqs = app.submit_prompt();
    assert!(reqs.is_empty());
    assert_eq!(app.status_message.as_deref(), Some("select a revision to abandon"));
    assert_eq!(last_log(&app), "action failed: select a revision to abandon");
}

#[test]
fn undo_failure_is_reported() {
    let mut app = test_app();
    let (_, reqs) = app.dispatch(Action::Undo);
    match reqs.as_slice() {
        [Request::Mutate { args, label, undo: true }] => {
            assert_eq!(args, &vec!["undo".to_owned()]);
            assert_eq!(label, "undo last operation");
        }
        other => panic!("unexpected requests {other:?}"),
    }
    let reqs = app.finish_mutation(vec!["undo".to_owned()], "undo last operation".to_owned(), true, Err("nope".to_owned()));
    assert!(reqs.is_empty());
    assert_eq!(last_log(&app), "undo failed: nope");
}

#[test]
fn push_without_hooks_offers_the_tool_picker_first() {
    let mut app = test_app();
    app.bookmarks = vec![BookmarkEntry { name: "main".to_owned(), kind: "local".to_owned(), target: "abc".to_owned() }];
    let reqs = app.push();
    assert!(matches!(reqs.as_slice(), [Request::CheckInstalledTools]));
    assert!(app.push_after_hooks);
    app.finish_tool_picker(&vec![false; tool_catalog().len()]);
    assert!(app.tool_picker.is_some());
    let reqs = app.on_picker_key(key(KeyCode::Enter));
    assert!(app.tool_picker.is_none());
    assert!(app.setup_dismissed);
    match reqs.as_slice() {
        [Request::Push { bookmark: Some(b) }] => assert_eq!(b, "main"),
        other => panic!("expected the push, got {other:?}"),
    }
    let out = CommandOutput { stdout: String::new(), stderr: "pushed".to_owned() };
    let reqs = app.finish_push(Some("main".to_owned()), Ok(out));
    assert!(matches!(reqs.as_slice(), [Request::Refresh]));
    assert_eq!(app.status_message.as_deref(), Some("Executed push bookmark main"));
    let reqs = app.push();
    assert!(matches!(reqs.as_slice(), [Request::Push { .. }]), "a declined setup is not offered again");
}

#[test]
fn passing_hooks_end_in_the_push() {
    let mut app = test_app();
    with_hooks(&mut app, vec![hook("fmt", Some("treefmt"), None), hook("lint", None, Some("true"))]);
    let reqs = app.push();
    assert!(matches!(reqs.as_slice(), [Request::StartHooks]));
    assert!(app.hooks_running);
    assert!(matches!(&app.hook_phase, Some(HookPhase::Running { total: 2, index: 0, .. })));
    let reqs = app.tick(vec![
        HookProgress::Started { name: "fmt".to_owned(), index: 0, total: 2 },
        HookProgress::Passed { name: "fmt".to_owned() },
        HookProgress::Started { name: "lint".to_owned(), index: 1, total: 2 },
    ]);
    assert!(reqs.is_empty());
    match &app.hook_phase {
        Some(HookPhase::Running { current_hook, index: 1, spinner_tick: 1, .. }) => assert_eq!(current_hook, "lint"),
        other => panic!("unexpected phase {other:?}"),
    }
    assert_eq!(last_log(&app), "\u{2713} Hook 'fmt' passed");
    let reqs = app.tick(vec![HookProgress::Passed { name: "lint".to_owned() }, HookProgress::AllPassed]);
    assert!(matches!(reqs.as_slice(), [Request::StopHooks]));
    assert!(!app.hooks_running);
    assert!(matches!(app.hook_phase, Some(HookPhase::Passed { count: 2, ticks_remaining: 12 })));
    for _ in 0..12 {
        assert!(app.tick(vec![]).is_empty());
    }
    assert!(matches!(app.hook_phase, Some(HookPhase::Passed { ticks_remaining: 0, .. })));
    let reqs = app.tick(vec![]);
    assert!(app.hook_phase.is_none());
    assert!(matches!(reqs.as_slice(), [Request::Push { bookmark: None }]));
}

#[test]
fn a_failed_hook_is_shown_with_its_output() {
    let mut app = test_app();
    with_hooks(&mut app, vec![hook("lint", None, Some("false"))]);
    app.run_hooks_only();
    let reqs = app.tick(vec![
        HookProgress::Started { name: "lint".to_owned(), index: 0, total: 1 },
        HookProgress::Failed { name: "lint".to_owned(), output: "bad\nworse".to_owned() },
        HookProgress::AllPassed,
    ]);
    assert!(matches!(reqs.as_slice(), [Request::StopHooks]));
    match &app.hook_phase {
        Some(HookPhase::Failed { message, output }) => {
            assert_eq!(message, "Hook 'lint' failed");
            assert_eq!(output, "bad\nworse");
        }
        other => panic!("unexpected phase {other:?}"),
    }
    let n = app.output_log.len();
    assert_eq!(app.output_log[n - 3..], ["\u{2717} Hook 'lint' failed", "  bad", "  worse"]);
    let (quit, _) = app.on_key(key(KeyCode::Enter));
    assert!(!quit);
    assert!(app.hook_phase.is_none());
}

#[test]
fn a_timed_out_hook_names_its_timeout() {
    let mut app = test_app();
    with_hooks(&mut app, vec![hook("slow", None, Some("sleep 99"))]);
    app.run_hooks_only();
    app.tick(vec![HookProgress::TimedOut { name: "slow".to_owned(), timeout_secs: 120 }]);
    match &app.hook_phase {
        Some(HookPhase::Failed { message, .. }) => assert_eq!(message, "Hook 'slow' timed out after 120s"),
        other => panic!("unexpected phase {other:?}"),
    }
    assert_eq!(last_log(&app), "\u{2717} Hook 'slow' timed out after 120s");
}

#[test]
fn a_missing_preset_removes_the_preset_hooks() {
    let mut app = test_app();
    with_hooks(&mut app, vec![hook("fmt", Some("treefmt"), None)]);
    app.setup_dismissed = true;
    app.run_hooks_only();
    let reqs = app.tick(vec![HookProgress::NotFound { name: "fmt".to_owned(), install_hint: "get treefmt".to_owned() }]);
    assert!(matches!(reqs.as_slice(), [Request::StopHooks, Request::RemovePresetHooks]));
    assert_eq!(last_log(&app), "\u{2717} Hook 'fmt': get treefmt");
    let reqs = app.finish_presets_removed(Ok(()));
    assert!(matches!(reqs.as_slice(), [Request::ReloadConfig { reason: ReloadReason::ResetPresets }]));
    let reqs = app.finish_reload(ReloadReason::ResetPresets, Ok(Config::default()));
    assert!(reqs.is_empty());
    assert!(app.config.hooks.pre_push.is_empty());
    assert!(!app.setup_dismissed);
    assert_eq!(last_log(&app), "Removed broken preset hooks from .lazyjj.toml");
    let reqs = app.finish_presets_removed(Err("read-only".to_owned()));
    assert!(reqs.is_empty());
    assert_eq!(last_log(&app), "failed to remove preset hooks: read-only");
}

#[test]
fn hook_overlay_keys() {
    let mut app = test_app();
    with_hooks(&mut app, vec![hook("lint", None, Some("true"))]);
    app.push();
    let (quit, reqs) = app.on_key(key(KeyCode::Char('x')));
    assert!(!quit && reqs.is_empty());
    let (quit, reqs) = app.on_key(key(KeyCode::Esc));
    assert!(!quit);
    assert!(matches!(reqs.as_slice(), [Request::StopHooks]));
    assert!(app.hook_phase.is_none());
    assert!(!app.push_after_hooks);
    assert_eq!(app.status_message.as_deref(), Some("Hooks cancelled"));
    app.run_hooks_only();
    assert!(app.on_key(key(KeyCode::Char('q'))).0, "q quits while hooks run");
    app.hook_phase = Some(HookPhase::Passed { count: 1, ticks_remaining: 5 });
    let (_, reqs) = app.on_key(key(KeyCode::Char('x')));
    assert!(reqs.is_empty());
    assert!(app.hook_phase.is_none());
    assert_eq!(app.status_message.as_deref(), Some("\u{2713} All hooks passed"));
}

fn select(app: &mut App, name: &str) {
    let picker = app.tool_picker.as_mut().unwrap();
    let entry = picker.entries.iter_mut().find(|e| e.name == name).unwrap();
    entry.selected = true;
}

#[test]
fn enabling_tools_writes_the_configuration_then_runs_the_hooks() {
    let mut app = test_app();
    open_picker(&mut app);
    select(&mut app, "rustfmt");
    select(&mut app, "clippy");
    let reqs = app.on_picker_key(key(KeyCode::Enter));
    assert!(matches!(reqs.as_slice(), [Request::CheckTreefmt]));
    let reqs = app.finish_treefmt_check(true);
    assert!(app.tool_picker.is_none());
    match reqs.as_slice() {
        [Request::WriteTreefmt { formatters }] => {
            let names: Vec<&str> = formatters.iter().map(|f| f.name).collect();
            assert_eq!(names, vec!["rustfmt"]);
        }
        other => panic!("unexpected requests {other:?}"),
    }
    let reqs = app.finish_treefmt_written(Err("disk full".to_owned()));
    assert_eq!(last_log(&app), "treefmt.toml generation failed: disk full");
    match reqs.as_slice() {
        [Request::AppendPresetHooks { names }] => assert_eq!(names, &vec!["treefmt".to_owned()]),
        other => panic!("unexpected requests {other:?}"),
    }
    let reqs = app.finish_config_written(Ok(()));
    match reqs.as_slice() {
        [Request::WriteToolHooks { tools }] => {
            assert_eq!(tools, &vec![("clippy".to_owned(), "cargo clippy -- -D warnings".to_owned())])
        }
        other => panic!("unexpected requests {other:?}"),
    }
    let reqs = app.finish_config_written(Ok(()));
    assert!(matches!(reqs.as_slice(), [Request::ReloadConfig { reason: ReloadReason::EnableTools }]));
    let loaded = Config {
        hooks: HooksConfig {
            pre_push: vec![hook("treefmt", Some("treefmt"), None), hook("clippy", None, Some("cargo clippy -- -D warnings"))],
        },
    };
    let reqs = app.finish_reload(ReloadReason::EnableTools, Ok(loaded));
    assert!(matches!(reqs.as_slice(), [Request::StartHooks]));
    assert_eq!(last_log(&app), "Enabled tools in .lazyjj.toml: rustfmt, clippy");
    assert!(matches!(&app.hook_phase, Some(HookPhase::Running { total: 2, .. })));
    assert!(app.enabling.is_none());
}

#[test]
fn a_failed_config_write_stops_the_enabling() {
    let mut app = test_app();
    open_picker(&mut app);
    select(&mut app, "eslint");
    let reqs = app.on_picker_key(key(KeyCode::Enter));
    assert!(matches!(reqs.as_slice(), [Request::WriteToolHooks { .. }]));
    let reqs = app.finish_config_written(Err("denied".to_owned()));
    assert!(reqs.is_empty());
    assert!(app.enabling.is_none());
    assert_eq!(app.status_message.as_deref(), Some("Failed to write config: denied"));
    assert_eq!(last_log(&app), "config write failed: denied");
}

#[test]
fn an_existing_treefmt_hook_is_not_added_twice() {
    let mut app = test_app();
    with_hooks(&mut app, vec![hook("fmt", Some("treefmt"), None)]);
    open_picker(&mut app);
    select(&mut app, "gofmt");
    let reqs = app.enable_selected_tools();
    assert!(matches!(reqs.as_slice(), [Request::WriteTreefmt { .. }]));
    let reqs = app.finish_treefmt_written(Ok(()));
    assert!(matches!(reqs.as_slice(), [Request::ReloadConfig { reason: ReloadReason::EnableTools }]));
    let reqs = app.finish_reload(ReloadReason::EnableTools, Err("bad toml".to_owned()));
    assert!(reqs.is_empty());
    assert_eq!(app.status_message.as_deref(), Some("Failed to reload config: bad toml"));
    assert_eq!(last_log(&app), "config reload failed: bad toml");
}

#[test]
fn missing_treefmt_offers_its_install_methods() {
    let mut app = test_app();
    app.tool_picker = Some(App::build_tool_picker(&vec![false; tool_catalog().len()]));
    select(&mut app, "rustfmt");
    app.finish_treefmt_check(false);
    assert_eq!(app.treefmt_install_picker.as_ref().unwrap().cursor, 0);
    for _ in 0..6 {
        app.on_key(key(KeyCode::Char('j')));
    }
    assert_eq!(app.treefmt_install_picker.as_ref().unwrap().cursor, 3);
    app.on_key(key(KeyCode::Up));
    assert_eq!(app.treefmt_install_picker.as_ref().unwrap().cursor, 2);
    app.on_key(key(KeyCode::Enter));
    assert!(app.treefmt_install_picker.is_none());
    assert_eq!(
        app.pending_installs,
        vec![
            ("Nix".to_owned(), "nix profile install nixpkgs#treefmt2".to_owned()),
            ("rustfmt".to_owned(), "rustup component add rustfmt".to_owned()),
        ]
    );
}

#[test]
fn failed_installs_are_unpicked_before_enabling() {
    let mut app = test_app();
    app.tool_picker = Some(App::build_tool_picker(&vec![false; tool_catalog().len()]));
    select(&mut app, "clippy");
    select(&mut app, "eslint");
    let reqs = app.on_picker_key(key(KeyCode::Enter));
    assert!(reqs.is_empty());
    assert_eq!(app.pending_installs.len(), 2);
    app.record_install("clippy".to_owned(), Ok(()));
    assert_eq!(last_log(&app), "\u{2713} clippy installed successfully");
    app.record_install("eslint".to_owned(), Err("npm missing".to_owned()));
    assert_eq!(last_log(&app), "\u{2717} eslint install failed: npm missing");
    assert_eq!(app.failed_installs, vec!["eslint".to_owned()]);
    match app.installs_done().as_slice() {
        [Request::CheckBinaries { binaries }] => assert_eq!(binaries.len(), tool_catalog().len()),
        other => panic!("unexpected requests {other:?}"),
    }
    let mut found = vec![false; tool_catalog().len()];
    found[6] = true;
    let reqs = app.finish_recheck(&found);
    assert!(app.failed_installs.is_empty());
    match reqs.as_slice() {
        [Request::WriteToolHooks { tools }] => {
            assert_eq!(tools, &vec![("clippy".to_owned(), "cargo clippy -- -D warnings".to_owned())])
        }
        other => panic!("unexpected requests {other:?}"),
    }
}

#[test]
fn fetch_logs_its_output() {
    let mut app = test_app();
    let (_, reqs) = app.dispatch(Action::Fetch);
    assert!(matches!(reqs.as_slice(), [Request::Fetch]));
    let reqs = app.finish_fetch(Err("offline".to_owned()));
    assert!(reqs.is_empty());
    assert_eq!(app.status_message.as_deref(), Some("offline"));
    assert_eq!(last_log(&app), "fetch failed: offline");
}

#[test]
fn esc_dismisses_any_picker() {
    let mut app = test_app();
    open_picker(&mut app);
    app.tool_picker.as_mut().unwrap().cursor = 1000;
    assert!(app.accepts_key(key(KeyCode::Esc)));
    assert!(!app.accepts_key(key(KeyCode::Up)));
    let (quit, reqs) = app.on_key(key(KeyCode::Char('N')));
    assert!(!quit && reqs.is_empty());
    assert!(app.tool_picker.is_none());
    assert!(app.setup_dismissed);
}
