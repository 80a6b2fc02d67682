use lazyjj::jj::{
    concat_template, empty_fallback, parse_bookmarks, parse_changed_files, parse_diff,
    parse_operations, parse_revisions, shorten, split_csv, status_summary, JjClient, JjError,
    ProcessOutput, FIELD_SEP,
};
use lazyjj::model::DiffKind;

fn ok(stdout: &str) -> ProcessOutput {
    ProcessOutput { success: true, stdout: stdout.to_owned(), stderr: String::new() }
}

fn failed(stderr: &str) -> ProcessOutput {
    ProcessOutput { success: false, stdout: String::new(), stderr: stderr.to_owned() }
}

fn client() -> JjClient {
    match JjClient::discover("/work", ok("/work/repo\n")) {
        Ok(c) => c,
        Err(e) => panic!("discover failed: {}", e.message()),
    }
}

fn strings(parts: &[&str]) -> Vec<String> {
    parts.iter().map(|p| p.to_string()).collect()
}

#[test]
fn parse_diff_classifies_lines() {
    let diff = parse_diff("diff --git a/file b/file\nindex 123..456 100644\n@@ -1 +1 @@\n-old\n+new\n context\n");
    assert_eq!(diff[0].kind, DiffKind::Header);
    assert_eq!(diff[1].kind, DiffKind::Meta);
    assert_eq!(diff[2].kind, DiffKind::Hunk);
    assert_eq!(diff[3].kind, DiffKind::Removal);
    assert_eq!(diff[4].kind, DiffKind::Addition);
    assert_eq!(diff[5].kind, DiffKind::Context);
}

#[test]
fn parse_diff_returns_note_for_empty_text() {
    let diff = parse_diff(" \n ");
    assert_eq!(diff.len(), 1);
    assert_eq!(diff[0].kind, DiffKind::Note);
}

#[test]
fn split_csv_drops_empty_entries() {
    assert_eq!(split_csv("a, b,,c"), vec!["a", "b", "c"]);
}

#[test]
fn empty_fallback_uses_fallback_for_blank_values() {
    assert_eq!(empty_fallback("   ", "fallback"), "fallback");
    assert_eq!(empty_fallback("value", "fallback"), "value");
}

#[test]
fn parse_diff_keeps_text_and_meta_lines() {
    let diff = parse_diff("commit abc\nAuthor: me\n+++ b/x\n--- a/x\n+added\r\n");
    let kinds: Vec<DiffKind> = diff.iter().map(|l| l.kind).collect();
    assert_eq!(kinds, vec![DiffKind::Header, DiffKind::Meta, DiffKind::Meta, DiffKind::Meta, DiffKind::Addition]);
    assert_eq!(diff[4].text, "+added");
    assert_eq!(parse_diff("")[0].text, "No diff to display.");
}

#[test]
fn shorten_takes_leading_characters() {
    assert_eq!(shorten("0123456789abcdef", 12), "0123456789ab");
    assert_eq!(shorten("abc", 12), "abc");
    assert_eq!(shorten("äöü", 2), "äö");
}

#[test]
fn concat_template_joins_fields() {
    let t = concat_template(&["a", "b"]);
    assert_eq!(t, format!("a ++ \"{FIELD_SEP}\" ++ b ++ \"\\n\""));
}

#[test]
fn changed_files_are_split_into_status_and_path() {
    let files = parse_changed_files("M src/main.rs\n\nA  new file.txt \n");
    assert_eq!(files.len(), 2);
    assert_eq!(files[0].status, "M");
    assert_eq!(files[0].path, "src/main.rs");
    assert_eq!(files[1].status, "A");
    assert_eq!(files[1].path, "new file.txt");
}

#[test]
fn revisions_need_all_fields() {
    let s = FIELD_SEP;
    let text = format!(
        "0123456789abcdef{s}zyxwvutsrqponm{s}me@x{s}2024-01-01 10:00{s}main, dev{s}  {s}true\nshort{s}line\n"
    );
    let revs = parse_revisions(&text);
    assert_eq!(revs.len(), 1);
    assert_eq!(revs[0].commit_id, "0123456789ab");
    assert_eq!(revs[0].change_id, "zyxwvutsrqpo");
    assert_eq!(revs[0].author, "me@x");
    assert_eq!(revs[0].bookmarks, vec!["main", "dev"]);
    assert_eq!(revs[0].description, "(empty description)");
    assert!(revs[0].is_working_copy);
}

#[test]
fn bookmarks_and_operations_are_parsed() {
    let s = FIELD_SEP;
    let bookmarks = parse_bookmarks(&format!("main{s}local{s}0123456789abcdef\n"));
    assert_eq!(bookmarks.len(), 1);
    assert_eq!(bookmarks[0].name, "main");
    assert_eq!(bookmarks[0].kind, "local");
    assert_eq!(bookmarks[0].target, "0123456789ab");
    let ops = parse_operations(&format!("0123456789abcdefgh{s}false{s}me{s}2024{s}\n"));
    assert_eq!(ops.len(), 1);
    assert_eq!(ops[0].id, "0123456789abcd");
    assert!(!ops[0].is_current);
    assert_eq!(ops[0].description, "(no description)");
}

#[test]
fn status_summary_keeps_non_blank_lines() {
    assert_eq!(status_summary("Working copy changes:\n  \nM a.txt   \n"), vec!["Working copy changes:", "M a.txt"]);
}

#[test]
fn discover_reports_a_missing_repository() {
    match JjClient::discover("/tmp/x", failed(" no repo \n")) {
        Err(e @ JjError::NoRepository { .. }) => {
            assert_eq!(e.message(), "could not find a jj repository from /tmp/x: no repo")
        }
        _ => panic!("expected NoRepository"),
    }
    assert_eq!(client().root(), "/work/repo");
}

#[test]
fn commands_run_in_the_root_with_query_flags() {
    let c = client();
    let inv = c.diff_for_path_command("src/lib.rs");
    assert_eq!(inv.dir, "/work/repo");
    assert_eq!(inv.args, strings(&["diff", "--git", "src/lib.rs", "--color=never", "--no-pager"]));
    let push = c.git_push_command(Some("main"));
    assert_eq!(push.args, strings(&["git", "push", "--bookmark", "main", "--color=never", "--no-pager"]));
    let all = c.git_push_command(None);
    assert_eq!(all.args, strings(&["git", "push", "--color=never", "--no-pager"]));
}

#[test]
fn failed_commands_name_the_command() {
    let c = client();
    match c.git_fetch(failed("  network down \n")) {
        Err(e @ JjError::CommandFailed { .. }) => assert_eq!(e.message(), "`jj git fetch` failed: network down"),
        _ => panic!("expected CommandFailed"),
    }
    match c.run_mutation(&strings(&["undo"]), failed("")) {
        Err(e) => assert_eq!(e.message(), "`jj undo` failed"),
        Ok(_) => panic!("expected a failure"),
    }
    match c.run_mutation(&strings(&["undo"]), ok("done")) {
        Ok(out) => assert_eq!(out.stdout, "done"),
        Err(e) => panic!("unexpected failure: {}", e.message()),
    }
}

#[test]
fn query_results_are_parsed() {
    let c = client();
    match c.diff_for_revision("@", ok("+x\n")) {
        Ok(lines) => assert_eq!(lines[0].kind, DiffKind::Addition),
        Err(e) => panic!("unexpected failure: {}", e.message()),
    }
    match c.changed_files(ok("M a\n")) {
        Ok(files) => assert_eq!(files[0].path, "a"),
        Err(e) => panic!("unexpected failure: {}", e.message()),
    }
}
