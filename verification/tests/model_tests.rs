use lazyjj::hooks::ToolCategory;
use lazyjj::model::{Focus, ToolPickerEntry, ToolPickerRow, ToolPickerState, TreefmtInstallState};

fn make_entry(name: &str, category: ToolCategory, selected: bool) -> ToolPickerEntry {
    ToolPickerEntry {
        name: name.to_owned(),
        language: "Test".to_owned(),
        hook_command: if category == ToolCategory::Linter { format!("{name} check .") } else { String::new() },
        install_cmd: String::new(),
        installed: true,
        selected,
        category,
        check_binary: String::new(),
    }
}

fn make_picker(entries: Vec<ToolPickerEntry>) -> ToolPickerState {
    let rows = {
        let mut tmp = ToolPickerState { entries: entries.clone(), cursor: 0, rows: vec![] };
        let r = tmp.build_rows();
        tmp.rows = r.clone();
        tmp.cursor = ToolPickerState::first_tool_row(&r);
        r
    };
    ToolPickerState { entries, cursor: ToolPickerState::first_tool_row(&rows), rows }
}

#[test]
fn tool_picker_rows_have_headers() {
    let picker = make_picker(vec![
        make_entry("rustfmt", ToolCategory::Formatter, false),
        make_entry("clippy", ToolCategory::Linter, false),
    ]);
    let rows = picker.build_rows();
    match &rows[0] {
        ToolPickerRow::Header(label) => {
            assert!(label.contains("Formatter"), "first header should mention Formatters, got '{label}'");
            assert!(label.contains("treefmt"), "Formatters header should mention treefmt, got '{label}'");
        }
        ToolPickerRow::Entry(_) => panic!("expected Header as first row, got Entry"),
    }
    let linter_header_pos =
        rows.iter().position(|r| matches!(r, ToolPickerRow::Header(l) if l.contains("Linter")));
    assert!(linter_header_pos.is_some(), "rows must contain a Linters section header");
}

#[test]
fn tool_picker_cursor_skips_headers() {
    let picker = make_picker(vec![
        make_entry("rustfmt", ToolCategory::Formatter, false),
        make_entry("gofmt", ToolCategory::Formatter, false),
        make_entry("clippy", ToolCategory::Linter, false),
    ]);
    let rows = picker.build_rows();
    let has_header = rows.iter().any(|r| matches!(r, ToolPickerRow::Header(_)));
    assert!(has_header, "rows must contain at least one header");

    let mut state = picker;
    for _step in 0..10 {
        let row = state.build_rows();
        assert!(
            matches!(row.get(state.cursor), Some(ToolPickerRow::Entry(_))),
            "cursor at {} points to a Header, not an Entry",
            state.cursor
        );
        let old = state.cursor;
        state.move_cursor_down();
        if state.cursor == old {
            break;
        }
    }
    for _step in 0..10 {
        let row = state.build_rows();
        assert!(
            matches!(row.get(state.cursor), Some(ToolPickerRow::Entry(_))),
            "cursor at {} points to a Header during upward navigation",
            state.cursor
        );
        let old = state.cursor;
        state.move_cursor_up();
        if state.cursor == old {
            break;
        }
    }
}

#[test]
fn selected_formatters_returns_only_formatters() {
    let picker = make_picker(vec![
        make_entry("rustfmt", ToolCategory::Formatter, true),
        make_entry("gofmt", ToolCategory::Formatter, false),
        make_entry("clippy", ToolCategory::Linter, true),
        make_entry("eslint", ToolCategory::Linter, false),
    ]);
    let formatters = picker.selected_formatters();
    assert_eq!(
        formatters.len(),
        1,
        "only one formatter is selected; got {:?}",
        formatters.iter().map(|e| &e.name).collect::<Vec<_>>()
    );
    assert_eq!(formatters[0].name, "rustfmt", "selected formatter should be rustfmt");
    assert_eq!(formatters[0].category, ToolCategory::Formatter, "selected_formatters must only return Formatter entries");
    for f in &formatters {
        assert_ne!(f.category, ToolCategory::Linter, "selected_formatters returned a Linter entry: '{}'", f.name);
    }
}

#[test]
fn treefmt_install_state_new() {
    let state = TreefmtInstallState::new();
    assert_eq!(state.cursor, 0, "TreefmtInstallState::new() must start with cursor == 0");
}

#[test]
fn picker_queries_filter_entries() {
    let mut missing = make_entry("gofmt", ToolCategory::Formatter, true);
    missing.installed = false;
    missing.install_cmd = "go install".to_owned();
    let picker = make_picker(vec![
        make_entry("rustfmt", ToolCategory::Formatter, true),
        missing,
        make_entry("clippy", ToolCategory::Linter, true),
        make_entry("eslint", ToolCategory::Linter, false),
    ]);
    let selected: Vec<&str> = picker.selected_entries().iter().map(|e| e.name.as_str()).collect();
    assert_eq!(selected, vec!["rustfmt", "gofmt", "clippy"]);
    let linters: Vec<&str> = picker.selected_linters().iter().map(|e| e.name.as_str()).collect();
    assert_eq!(linters, vec!["clippy"]);
    let needs: Vec<&str> = picker.needs_install().iter().map(|e| e.name.as_str()).collect();
    assert_eq!(needs, vec!["gofmt"]);
}

#[test]
fn picker_rows_list_formatters_then_linters() {
    let picker = make_picker(vec![
        make_entry("clippy", ToolCategory::Linter, false),
        make_entry("rustfmt", ToolCategory::Formatter, false),
    ]);
    let entries: Vec<Option<usize>> = picker
        .rows
        .iter()
        .map(|r| match r {
            ToolPickerRow::Entry(i) => Some(*i),
            ToolPickerRow::Header(_) => None,
        })
        .collect();
    assert_eq!(entries, vec![None, Some(1), None, Some(0)]);
    assert_eq!(picker.cursor, 1);
    assert_eq!(picker.cursor_entry_index(), Some(1));
}

#[test]
fn cursor_stays_put_at_the_ends() {
    let mut picker = make_picker(vec![make_entry("rustfmt", ToolCategory::Formatter, false)]);
    let start = picker.cursor;
    picker.move_cursor_up();
    assert_eq!(picker.cursor, start);
    picker.move_cursor_down();
    assert_eq!(picker.cursor, start);
}

#[test]
fn focus_ring_cycles_through_all_panels() {
    let mut f = Focus::Files;
    let mut seen = Vec::new();
    for _ in 0..6 {
        seen.push(f.title());
        f = f.next();
    }
    assert_eq!(f, Focus::Files);
    assert_eq!(seen, vec!["1 Files", "2 Bookmarks", "3 Revisions", "4 Operations", "5 Diff", "6 Command Log"]);
    for g in [Focus::Files, Focus::Revisions, Focus::Bookmarks, Focus::Operations, Focus::Diff, Focus::Output] {
        assert_eq!(g.next().previous(), g);
    }
}
