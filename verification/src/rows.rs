//! The text of the list panels' rows, piece by piece, with the tone each
//! piece is shown in.
use vstd::prelude::*;

use crate::app::{concat, concat3, App};
use crate::model::{BookmarkEntry, FileEntry, OperationEntry, RevisionEntry};
use crate::text::{join, join_strings, push_char, views};

verus! {

/// How a piece of a row is coloured.
#[derive(Debug, Clone, Copy, PartialEq, Eq, Structural)]
pub enum Tone {
    Plain,
    Yellow,
    Cyan,
    Green,
    Gray,
    DarkGray,
    Magenta,
}

/// A piece of a row.
#[derive(Debug, Clone)]
pub struct Segment {
    pub text: String,
    pub tone: Tone,
}

impl View for Segment {
    type V = (Seq<char>, Tone);

    open spec fn view(&self) -> (Seq<char>, Tone) {
        (self.text@, self.tone)
    }
}

pub open spec fn row_view(row: Seq<Segment>) -> Seq<(Seq<char>, Tone)> {
    row.map_values(|s: Segment| s@)
}

pub open spec fn rows_view(rows: Seq<Vec<Segment>>) -> Seq<Seq<(Seq<char>, Tone)>> {
    rows.map_values(|r: Vec<Segment>| row_view(r@))
}

/// `s` padded with spaces on the right to two characters.
pub open spec fn pad2(s: Seq<char>) -> Seq<char> {
    if s.len() == 0 {
        seq![' ', ' ']
    } else if s.len() == 1 {
        s.push(' ')
    } else {
        s
    }
}

/// The single row of an empty list.
pub open spec fn placeholder(text: Seq<char>) -> Seq<Seq<(Seq<char>, Tone)>> {
    seq![seq![(text, Tone::Plain)]]
}

pub open spec fn file_row(f: FileEntry) -> Seq<(Seq<char>, Tone)> {
    seq![(pad2(f.status@), Tone::Yellow), (" "@, Tone::Plain), (f.path@, Tone::Plain)]
}

/// The bookmarks of a revision as shown after its description.
pub open spec fn bookmark_suffix(names: Seq<Seq<char>>) -> Seq<char> {
    if names.len() == 0 {
        seq![]
    } else {
        " ["@ + join(names, ","@) + "]"@
    }
}

pub open spec fn revision_row(r: RevisionEntry) -> Seq<(Seq<char>, Tone)> {
    let marker = if r.is_working_copy {
        "@"@
    } else {
        " "@
    };
    seq![
        (marker + " "@ + r.commit_id@, Tone::Cyan),
        (" "@, Tone::Plain),
        (
            r.description@ + bookmark_suffix(views(r.bookmarks@)) + "  "@ + r.author@ + "  "@
                + r.timestamp@,
            Tone::Plain,
        ),
        ("  "@ + r.change_id@, Tone::DarkGray),
    ]
}

pub open spec fn bookmark_row(b: BookmarkEntry) -> Seq<(Seq<char>, Tone)> {
    seq![(b.name@, Tone::Green), (" "@, Tone::Plain), (b.kind@ + " -> "@ + b.target@, Tone::Gray)]
}

pub open spec fn operation_row(o: OperationEntry) -> Seq<(Seq<char>, Tone)> {
    let marker = if o.is_current {
        "*"@
    } else {
        " "@
    };
    seq![
        (marker + " "@ + o.id@, Tone::Magenta),
        (" "@, Tone::Plain),
        (o.description@ + "  "@ + o.user@ + "  "@ + o.timestamp@, Tone::Plain),
    ]
}

fn seg(text: String, tone: Tone) -> (s: Segment)
    ensures
        s@ == (text@, tone),
{
    Segment { text, tone }
}

fn placeholder_rows(text: &str) -> (r: Vec<Vec<Segment>>)
    ensures
        rows_view(r@) == placeholder(text@),
{
    let mut row: Vec<Segment> = Vec::new();
    row.push(seg(String::from_str(text), Tone::Plain));
    let mut r: Vec<Vec<Segment>> = Vec::new();
    r.push(row);
    proof {
        assert(row_view(r@[0]@) =~= seq![(text@, Tone::Plain)]);
        assert(rows_view(r@) =~= placeholder(text@));
    }
    r
}

fn padded2(s: &String) -> (r: String)
    ensures
        r@ == pad2(s@),
{
    let n = s.unicode_len();
    let mut r = s.clone();
    if n == 0 {
        push_char(&mut r, ' ');
        push_char(&mut r, ' ');
        proof {
            assert(r@ =~= seq![' ', ' ']);
        }
    } else if n == 1 {
        push_char(&mut r, ' ');
    }
    r
}

fn file_row_of(f: &FileEntry) -> (r: Vec<Segment>)
    ensures
        row_view(r@) == file_row(*f),
{
    let mut r: Vec<Segment> = Vec::new();
    r.push(seg(padded2(&f.status), Tone::Yellow));
    r.push(seg(String::from_str(" "), Tone::Plain));
    r.push(seg(f.path.clone(), Tone::Plain));
    proof {
        assert(row_view(r@) =~= file_row(*f));
    }
    r
}

fn revision_row_of(rev: &RevisionEntry) -> (r: Vec<Segment>)
    ensures
        row_view(r@) == revision_row(*rev),
{
    let marker = if rev.is_working_copy {
        "@"
    } else {
        " "
    };
    let head = concat3(marker, " ", rev.commit_id.as_str());
    let suffix = if rev.bookmarks.len() == 0 {
        String::new()
    } else {
        let joined = join_strings(&rev.bookmarks, ",");
        concat3(" [", joined.as_str(), "]")
    };
    proof {
        if rev.bookmarks@.len() == 0 {
            assert(suffix@ =~= bookmark_suffix(views(rev.bookmarks@)));
        }
    }
    let mut body = concat(rev.description.as_str(), suffix.as_str());
    body.append("  ");
    body.append(rev.author.as_str());
    body.append("  ");
    body.append(rev.timestamp.as_str());
    let tail = concat("  ", rev.change_id.as_str());
    let mut r: Vec<Segment> = Vec::new();
    r.push(seg(head, Tone::Cyan));
    r.push(seg(String::from_str(" "), Tone::Plain));
    r.push(seg(body, Tone::Plain));
    r.push(seg(tail, Tone::DarkGray));
    proof {
        assert(row_view(r@) =~= revision_row(*rev));
    }
    r
}

fn bookmark_row_of(b: &BookmarkEntry) -> (r: Vec<Segment>)
    ensures
        row_view(r@) == bookmark_row(*b),
{
    let mut r: Vec<Segment> = Vec::new();
    r.push(seg(b.name.clone(), Tone::Green));
    r.push(seg(String::from_str(" "), Tone::Plain));
    r.push(seg(concat3(b.kind.as_str(), " -> ", b.target.as_str()), Tone::Gray));
    proof {
        assert(row_view(r@) =~= bookmark_row(*b));
    }
    r
}

fn operation_row_of(o: &OperationEntry) -> (r: Vec<Segment>)
    ensures
        row_view(r@) == operation_row(*o),
{
    let marker = if o.is_current {
        "*"
    } else {
        " "
    };
    let mut body = concat(o.description.as_str(), "  ");
    body.append(o.user.as_str());
    body.append("  ");
    body.append(o.timestamp.as_str());
    let mut r: Vec<Segment> = Vec::new();
    r.push(seg(concat3(marker, " ", o.id.as_str()), Tone::Magenta));
    r.push(seg(String::from_str(" "), Tone::Plain));
    r.push(seg(body, Tone::Plain));
    proof {
        assert(row_view(r@) =~= operation_row(*o));
    }
    r
}

impl App {
    /// The rows of the files panel.
    pub fn file_rows(&self) -> (r: Vec<Vec<Segment>>)
        ensures
            rows_view(r@) == (if self.files@.len() == 0 {
                placeholder("No changed files"@)
            } else {
                self.files@.map_values(|f: FileEntry| file_row(f))
            }),
    {
        if self.files.len() == 0 {
            return placeholder_rows("No changed files");
        }
        let mut r: Vec<Vec<Segment>> = Vec::new();
        let mut i: usize = 0;
        while i < self.files.len()
            invariant
                i <= self.files@.len(),
                rows_view(r@) == self.files@.take(i as int).map_values(|f: FileEntry| file_row(f)),
            decreases self.files@.len() - i,
        {
            let ghost before = r@;
            let row = file_row_of(&self.files[i]);
            let ghost rv = row_view(row@);
            r.push(row);
            proof {
                assert(rows_view(r@) =~= rows_view(before).push(rv));
                assert(self.files@.take(i + 1) =~= self.files@.take(i as int).push(self.files@[i as int]));
                assert(rows_view(r@) =~= self.files@.take(i + 1).map_values(|f: FileEntry| file_row(f)));
            }
            i = i + 1;
        }
        proof {
            assert(self.files@.take(self.files@.len() as int) =~= self.files@);
        }
        r
    }

    /// The rows of the revisions panel.
    pub fn revision_rows(&self) -> (r: Vec<Vec<Segment>>)
        ensures
            rows_view(r@) == (if self.revisions@.len() == 0 {
                placeholder("No revisions"@)
            } else {
                self.revisions@.map_values(|x: RevisionEntry| revision_row(x))
            }),
    {
        if self.revisions.len() == 0 {
            return placeholder_rows("No revisions");
        }
        let mut r: Vec<Vec<Segment>> = Vec::new();
        let mut i: usize = 0;
        while i < self.revisions.len()
            invariant
                i <= self.revisions@.len(),
                rows_view(r@) == self.revisions@.take(i as int).map_values(
                    |x: RevisionEntry| revision_row(x),
                ),
            decreases self.revisions@.len() - i,
        {
            let ghost before = r@;
            let row = revision_row_of(&self.revisions[i]);
            let ghost rv = row_view(row@);
            r.push(row);
            proof {
                assert(rows_view(r@) =~= rows_view(before).push(rv));
                assert(self.revisions@.take(i + 1) =~= self.revisions@.take(i as int).push(
                    self.revisions@[i as int],
                ));
                assert(rows_view(r@) =~= self.revisions@.take(i + 1).map_values(
                    |x: RevisionEntry| revision_row(x),
                ));
            }
            i = i + 1;
        }
        proof {
            assert(self.revisions@.take(self.revisions@.len() as int) =~= self.revisions@);
        }
        r
    }

    /// The rows of the bookmarks panel.
    pub fn bookmark_rows(&self) -> (r: Vec<Vec<Segment>>)
        ensures
            rows_view(r@) == (if self.bookmarks@.len() == 0 {
                placeholder("No bookmarks"@)
            } else {
                self.bookmarks@.map_values(|b: BookmarkEntry| bookmark_row(b))
            }),
    {
        if self.bookmarks.len() == 0 {
            return placeholder_rows("No bookmarks");
        }
        let mut r: Vec<Vec<Segment>> = Vec::new();
        let mut i: usize = 0;
        while i < self.bookmarks.len()
            invariant
                i <= self.bookmarks@.len(),
                rows_view(r@) == self.bookmarks@.take(i as int).map_values(
                    |b: BookmarkEntry| bookmark_row(b),
                ),
            decreases self.bookmarks@.len() - i,
        {
            let ghost before = r@;
            let row = bookmark_row_of(&self.bookmarks[i]);
            let ghost rv = row_view(row@);
            r.push(row);
            proof {
                assert(rows_view(r@) =~= rows_view(before).push(rv));
                assert(self.bookmarks@.take(i + 1) =~= self.bookmarks@.take(i as int).push(
                    self.bookmarks@[i as int],
                ));
                assert(rows_view(r@) =~= self.bookmarks@.take(i + 1).map_values(
                    |b: BookmarkEntry| bookmark_row(b),
                ));
            }
            i = i + 1;
        }
        proof {
            assert(self.bookmarks@.take(self.bookmarks@.len() as int) =~= self.bookmarks@);
        }
        r
    }

    /// The rows of the operations panel.
    pub fn operation_rows(&self) -> (r: Vec<Vec<Segment>>)
        ensures
            rows_view(r@) == (if self.operations@.len() == 0 {
                placeholder("No operations"@)
            } else {
                self.operations@.map_values(|o: OperationEntry| operation_row(o))
            }),
    {
        if self.operations.len() == 0 {
            return placeholder_rows("No operations");
        }
        let mut r: Vec<Vec<Segment>> = Vec::new();
        let mut i: usize = 0;
        while i < self.operations.len()
            invariant
                i <= self.operations@.len(),
                rows_view(r@) == self.operations@.take(i as int).map_values(
                    |o: OperationEntry| operation_row(o),
                ),
            decreases self.operations@.len() - i,
        {
            let ghost before = r@;
            let row = operation_row_of(&self.operations[i]);
            let ghost rv = row_view(row@);
            r.push(row);
            proof {
                assert(rows_view(r@) =~= rows_view(before).push(rv));
                assert(self.operations@.take(i + 1) =~= self.operations@.take(i as int).push(
                    self.operations@[i as int],
                ));
                assert(rows_view(r@) =~= self.operations@.take(i + 1).map_values(
                    |o: OperationEntry| operation_row(o),
                ));
            }
            i = i + 1;
        }
        proof {
            assert(self.operations@.take(self.operations@.len() as int) =~= self.operations@);
        }
        r
    }
}

} // verus!
