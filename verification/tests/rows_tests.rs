use lazyjj::app::App;
use lazyjj::config::Config;
use lazyjj::jj::{JjClient, ProcessOutput};
use lazyjj::model::{BookmarkEntry, DiffKind, DiffLine, FileEntry, OperationEntry, RepoSnapshot, RevisionEntry};
use lazyjj::rows::{Segment, Tone};

fn empty_app() -> App {
    let client = match JjClient::discover("/r", ProcessOutput { success: true, stdout: "/r".to_owned(), stderr: String::new() }) {
        Ok(c) => c,
        Err(e) => panic!("{}", e.message()),
    };
    let snapshot = RepoSnapshot {
        root: "/r".to_owned(),
        status_summary: vec![],
        files: vec![],
        revisions: vec![],
        bookmarks: vec![],
        operations: vec![],
        initial_diff: vec![DiffLine { kind: DiffKind::Note, text: "No diff to display.".to_owned() }],
    };
    App::new(snapshot, client, Config::default())
}

fn texts(row: &[Segment]) -> Vec<(String, Tone)> {
    row.iter().map(|s| (s.text.clone(), s.tone)).collect()
}

#[test]
fn empty_lists_show_a_placeholder() {
    let app = empty_app();
    assert_eq!(texts(&app.file_rows()[0]), vec![("No changed files".to_owned(), Tone::Plain)]);
    assert_eq!(texts(&app.revision_rows()[0]), vec![("No revisions".to_owned(), Tone::Plain)]);
    assert_eq!(texts(&app.bookmark_rows()[0]), vec![("No bookmarks".to_owned(), Tone::Plain)]);
    assert_eq!(texts(&app.operation_rows()[0]), vec![("No operations".to_owned(), Tone::Plain)]);
}

#[test]
fn file_rows_pad_the_status() {
    let mut app = empty_app();
    app.files = vec![
        FileEntry { status: "M".to_owned(), path: "a.rs".to_owned() },
        FileEntry { status: "RN".to_owned(), path: "b.rs".to_owned() },
    ];
    let rows = app.file_rows();
    assert_eq!(rows.len(), 2);
    assert_eq!(
        texts(&rows[0]),
        vec![("M ".to_owned(), Tone::Yellow), (" ".to_owned(), Tone::Plain), ("a.rs".to_owned(), Tone::Plain)]
    );
    assert_eq!(rows[1][0].text, "RN");
}

#[test]
fn revision_rows_show_marker_bookmarks_and_change() {
    let mut app = empty_app();
    app.revisions = vec![
        RevisionEntry {
            commit_id: "abc".to_owned(),
            change_id: "xyz".to_owned(),
            author: "me@x".to_owned(),
            timestamp: "2024-01-01 10:00".to_owned(),
            bookmarks: vec!["main".to_owned(), "dev".to_owned()],
            description: "work".to_owned(),
            is_working_copy: true,
        },
        RevisionEntry {
            commit_id: "def".to_owned(),
            change_id: "uvw".to_owned(),
            author: "you".to_owned(),
            timestamp: "t".to_owned(),
            bookmarks: vec![],
            description: "old".to_owned(),
            is_working_copy: false,
        },
    ];
    let rows = app.revision_rows();
    assert_eq!(
        texts(&rows[0]),
        vec![
            ("@ abc".to_owned(), Tone::Cyan),
            (" ".to_owned(), Tone::Plain),
            ("work [main,dev]  me@x  2024-01-01 10:00".to_owned(), Tone::Plain),
            ("  xyz".to_owned(), Tone::DarkGray),
        ]
    );
    assert_eq!(rows[1][0].text, "  def");
    assert_eq!(rows[1][2].text, "old  you  t");
}

#[test]
fn bookmark_and_operation_rows() {
    let mut app = empty_app();
    app.bookmarks = vec![BookmarkEntry { name: "main".to_owned(), kind: "local".to_owned(), target: "abc".to_owned() }];
    app.operations = vec![OperationEntry {
        id: "op1".to_owned(),
        is_current: true,
        user: "me".to_owned(),
        timestamp: "now".to_owned(),
        description: "snapshot".to_owned(),
    }];
    assert_eq!(
        texts(&app.bookmark_rows()[0]),
        vec![("main".to_owned(), Tone::Green), (" ".to_owned(), Tone::Plain), ("local -> abc".to_owned(), Tone::Gray)]
    );
    assert_eq!(
        texts(&app.operation_rows()[0]),
        vec![("* op1".to_owned(), Tone::Magenta), (" ".to_owned(), Tone::Plain), ("snapshot  me  now".to_owned(), Tone::Plain)]
    );
}
