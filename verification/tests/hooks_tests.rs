use lazyjj::config::HookEntry;
use lazyjj::hooks::{
    catalog_formatters, catalog_linters, failure_output, find_preset, is_known_preset,
    preset_names, preset_result, presets, resolve_preset, run_hooks_step, spinner_char,
    tool_catalog, treefmt_install_methods, ExecResult, HookJob, HookProgress, HookRunAction,
    HookRunEvent, HookRunState, ToolCategory, DEFAULT_TIMEOUT_SECS, SPINNER_FRAME_COUNT,
};

#[test]
fn preset_names_matches_presets_constant() {
    let names = preset_names();
    let table = presets();
    assert_eq!(names.len(), table.len());
    for (i, name) in names.iter().enumerate() {
        assert_eq!(*name, table[i].0);
    }
}

#[test]
fn is_known_preset_accepts_valid() {
    assert!(is_known_preset("treefmt"));
}

#[test]
fn is_known_preset_rejects_unknown() {
    assert!(!is_known_preset("unknown_tool"));
}

#[test]
fn spinner_cycles_through_frames() {
    let first = spinner_char(0);
    let second = spinner_char(1);
    assert_ne!(first, second);
    assert_eq!(spinner_char(0), spinner_char(SPINNER_FRAME_COUNT));
}

#[test]
fn all_presets_have_valid_definitions() {
    for (name, preset) in presets() {
        assert!(!name.is_empty());
        assert!(!preset.program.is_empty());
        assert!(!preset.install_url.is_empty());
    }
}

#[test]
fn find_preset_returns_known_presets() {
    assert!(find_preset("treefmt").is_some());
    assert!(find_preset("unknown").is_none());
}

#[test]
fn tool_catalog_entries_are_valid() {
    for tool in tool_catalog() {
        assert!(!tool.name.is_empty(), "tool name should not be empty");
        assert!(!tool.language.is_empty(), "tool language should not be empty");
        assert!(!tool.check_binary.is_empty(), "tool check_binary should not be empty");
        match tool.category {
            ToolCategory::Formatter => {
                assert!(tool.treefmt_entry.is_some(), "formatter '{}' must have a treefmt_entry", tool.name);
                assert!(
                    tool.hook_command.is_empty(),
                    "formatter '{}' must have empty hook_command, got '{}'",
                    tool.name,
                    tool.hook_command
                );
            }
            ToolCategory::Linter => {
                assert!(tool.treefmt_entry.is_none(), "linter '{}' must not have a treefmt_entry", tool.name);
                assert!(!tool.hook_command.is_empty(), "linter '{}' must have a non-empty hook_command", tool.name);
            }
        }
    }
}

#[test]
fn tool_catalog_has_expected_entries() {
    let names: Vec<&str> = tool_catalog().iter().map(|t| t.name).collect();
    assert!(names.contains(&"biome format"), "expected 'biome format' in catalog");
    assert!(names.contains(&"gofmt"), "expected 'gofmt' in catalog");
    assert!(names.contains(&"biome lint"), "expected 'biome lint' in catalog");
    assert!(names.contains(&"clippy"), "expected 'clippy' in catalog");
    assert!(!names.contains(&"biome"), "old 'biome' entry should be replaced by 'biome format' and 'biome lint'");
}

#[test]
fn tool_catalog_formatter_count() {
    let count = catalog_formatters().len();
    assert_eq!(count, 6, "expected exactly 6 formatters in the catalog");
}

#[test]
fn tool_catalog_linter_count() {
    let count = catalog_linters().len();
    assert_eq!(count, 5, "expected exactly 5 linters in the catalog");
}

#[test]
fn treefmt_install_methods_are_valid() {
    for method in treefmt_install_methods() {
        assert!(!method.label.is_empty(), "install method has empty label");
        assert!(!method.command.is_empty(), "install method '{}' has empty command", method.label);
    }
}

#[test]
fn catalog_formatters_all_have_treefmt_entry() {
    for tool in catalog_formatters() {
        assert!(
            tool.treefmt_entry.is_some(),
            "formatter '{}' returned by catalog_formatters() must have treefmt_entry",
            tool.name
        );
    }
}

#[test]
fn catalog_linters_none_have_treefmt_entry() {
    for tool in catalog_linters() {
        assert!(
            tool.treefmt_entry.is_none(),
            "linter '{}' returned by catalog_linters() must not have treefmt_entry",
            tool.name
        );
    }
}

fn hook(name: &str, preset: Option<&str>, command: Option<&str>, timeout: Option<u64>) -> HookEntry {
    HookEntry {
        name: name.to_owned(),
        preset: preset.map(|p| p.to_owned()),
        command: command.map(|c| c.to_owned()),
        timeout_secs: timeout,
    }
}

/// Drives a run to its end, answering every job with the next of `results`
/// and delivering every report; returns the reports and the jobs run.
fn drive(hooks: &Vec<HookEntry>, results: Vec<ExecResult>) -> (Vec<HookProgress>, Vec<(String, u64)>) {
    let mut results = results.into_iter();
    let mut state = HookRunState::Announce { next: 0 };
    let mut event = HookRunEvent::Proceed;
    let mut sent = Vec::new();
    let mut jobs = Vec::new();
    loop {
        let (next, action) = run_hooks_step(hooks, state, event);
        state = next;
        match action {
            HookRunAction::Send(p) => {
                sent.push(p);
                event = HookRunEvent::Delivered(true);
            }
            HookRunAction::Run { job, timeout_secs } => {
                let target = match job {
                    HookJob::Preset { name } => format!("preset:{name}"),
                    HookJob::Custom { command } => format!("command:{command}"),
                };
                jobs.push((target, timeout_secs));
                event = HookRunEvent::Finished(results.next().expect("a result for every job"));
            }
            HookRunAction::Stop => break,
        }
    }
    (sent, jobs)
}

#[test]
fn hook_run_reports_every_pass_then_all_passed() {
    let hooks = vec![hook("fmt", Some("treefmt"), None, None), hook("lint", None, Some("cargo clippy"), Some(5))];
    let (sent, jobs) = drive(&hooks, vec![ExecResult::Passed, ExecResult::Passed]);
    assert_eq!(jobs, vec![("preset:treefmt".to_owned(), DEFAULT_TIMEOUT_SECS), ("command:cargo clippy".to_owned(), 5)]);
    assert_eq!(sent.len(), 5);
    assert!(matches!(&sent[0], HookProgress::Started { name, index: 0, total: 2 } if name == "fmt"));
    assert!(matches!(&sent[1], HookProgress::Passed { name } if name == "fmt"));
    assert!(matches!(&sent[2], HookProgress::Started { name, index: 1, total: 2 } if name == "lint"));
    assert!(matches!(&sent[3], HookProgress::Passed { name } if name == "lint"));
    assert!(matches!(&sent[4], HookProgress::AllPassed));
}

#[test]
fn hook_run_stops_at_first_failure() {
    let hooks = vec![
        hook("a", None, Some("true"), None),
        hook("b", None, Some("false"), None),
        hook("c", None, Some("true"), None),
    ];
    let (sent, jobs) = drive(
        &hooks,
        vec![ExecResult::Passed, ExecResult::Failed { exit_code: Some(1), output: "boom".to_owned() }],
    );
    assert_eq!(jobs.len(), 2);
    assert_eq!(sent.len(), 4);
    assert!(matches!(&sent[3], HookProgress::Failed { name, output } if name == "b" && output == "boom"));
}

#[test]
fn hook_run_reports_timeouts_and_missing_programs() {
    let hooks = vec![hook("slow", None, Some("sleep 9"), Some(3))];
    let (sent, _) = drive(&hooks, vec![ExecResult::TimedOut]);
    assert!(matches!(&sent[1], HookProgress::TimedOut { name, timeout_secs: 3 } if name == "slow"));
    let hooks = vec![hook("fmt", Some("treefmt"), None, None)];
    let (sent, _) = drive(&hooks, vec![ExecResult::NotFound { install_hint: "get it".to_owned() }]);
    assert!(matches!(&sent[1], HookProgress::NotFound { name, install_hint } if name == "fmt" && install_hint == "get it"));
}

#[test]
fn hook_without_job_fails_without_running() {
    let hooks = vec![hook("empty", None, None, None)];
    let (sent, jobs) = drive(&hooks, vec![]);
    assert!(jobs.is_empty());
    assert!(matches!(&sent[1], HookProgress::Failed { name, output } if name == "empty" && output == "hook has neither preset nor command"));
}

#[test]
fn hook_run_stops_when_the_reader_is_gone() {
    let hooks = vec![hook("a", None, Some("true"), None)];
    let (_, action) = run_hooks_step(&hooks, HookRunState::Starting { index: 0 }, HookRunEvent::Delivered(false));
    assert!(matches!(action, HookRunAction::Stop));
}

#[test]
fn empty_hook_list_passes_at_once() {
    let (sent, jobs) = drive(&Vec::new(), vec![]);
    assert!(jobs.is_empty());
    assert_eq!(sent.len(), 1);
    assert!(matches!(&sent[0], HookProgress::AllPassed));
}

#[test]
fn failure_output_joins_trimmed_streams() {
    assert_eq!(failure_output("  out \n", "\terr\n"), "out\nerr");
    assert_eq!(failure_output("  ", "err "), "err");
    assert_eq!(failure_output("out", ""), "out");
    assert_eq!(failure_output("", ""), "");
}

#[test]
fn preset_result_names_the_install_url() {
    let preset = find_preset("treefmt").unwrap();
    match preset_result(&preset, ExecResult::NotFound { install_hint: String::new() }) {
        ExecResult::NotFound { install_hint } => {
            assert_eq!(install_hint, "'treefmt' not found. Install: https://github.com/numtide/treefmt")
        }
        other => panic!("expected NotFound, got {other:?}"),
    }
    assert!(matches!(preset_result(&preset, ExecResult::Passed), ExecResult::Passed));
}

#[test]
fn resolve_preset_refuses_unknown_names() {
    assert!(resolve_preset("treefmt").is_ok());
    match resolve_preset("nope") {
        Err(ExecResult::Failed { exit_code: None, output }) => assert_eq!(output, "unknown preset 'nope'"),
        other => panic!("expected a failure, got {other:?}"),
    }
}
