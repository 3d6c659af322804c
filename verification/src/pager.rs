//! A diff as the pane shows it: rows with an old and a new side.

use crate::text;
use vstd::prelude::*;

verus! {

/// What happened to a row.
#[derive(Debug, Clone, Copy, PartialEq, Eq, Structural)]
pub enum ChangeType {
    Equal,
    Delete,
    Insert,
    Modified,
}

/// A piece of a line that is shown in one style.
#[derive(Debug, Clone, PartialEq, Eq)]
pub struct Segment {
    pub text: String,
    pub highlighted: bool,
}

/// A row of a diff: the line number and the text of each side, where it has one.
#[derive(Debug, Clone, PartialEq, Eq)]
pub struct DiffLine {
    pub old_line: Option<(usize, String)>,
    pub new_line: Option<(usize, String)>,
    pub change_type: ChangeType,
    pub old_segments: Option<Vec<Segment>>,
    pub new_segments: Option<Vec<Segment>>,
    pub file_header: Option<String>,
    pub section_index: usize,
}

/// How the two sides of a diff are laid out.
#[derive(Debug, Clone, Copy, PartialEq, Eq, Structural)]
pub enum DiffViewLayout {
    SideBySide,
    Unified,
}

/// A diff in the pane, with how it is shown.
#[derive(Debug)]
pub struct DiffViewState {
    pub filename: String,
    pub old_content: String,
    pub new_content: String,
    pub lines: Vec<DiffLine>,
    pub wrap: bool,
    pub view_layout: DiffViewLayout,
}

impl DiffViewState {
    /// Whether the pane shows nothing.
    pub open spec fn blank(self) -> bool {
        self.lines@.len() == 0
    }

    /// Whether the view is an empty one with these preferences.
    pub open spec fn is_fresh(self, wrap: bool, layout: DiffViewLayout) -> bool {
        &&& self.filename@.len() == 0
        &&& self.old_content@.len() == 0
        &&& self.new_content@.len() == 0
        &&& self.lines@.len() == 0
        &&& self.wrap == wrap
        &&& self.view_layout == layout
    }

    /// An empty view.
    pub fn new() -> (r: Self)
        ensures
            r.is_fresh(false, DiffViewLayout::SideBySide),
    {
        DiffViewState {
            filename: String::new(),
            old_content: String::new(),
            new_content: String::new(),
            lines: Vec::new(),
            wrap: false,
            view_layout: DiffViewLayout::SideBySide,
        }
    }

    /// An empty view with preferences.
    pub fn fresh(wrap: bool, view_layout: DiffViewLayout) -> (r: Self)
        ensures
            r.is_fresh(wrap, view_layout),
    {
        let mut r = DiffViewState::new();
        r.wrap = wrap;
        r.view_layout = view_layout;
        r
    }

    /// Whether the pane shows nothing.
    pub fn is_empty(&self) -> (r: bool)
        ensures
            r == self.blank(),
    {
        self.lines.len() == 0
    }
}

// ---------------------------------------------------------------------------
// Size
// ---------------------------------------------------------------------------

/// The bytes of one side of a row.
pub open spec fn side_bytes(s: Option<(usize, String)>) -> nat {
    match s {
        Some((_, t)) => text::byte_len(t@),
        None => 0,
    }
}

/// The bytes of the first `n` segments.
pub open spec fn segments_bytes(s: Seq<Segment>, n: int) -> nat
    decreases n,
{
    if n <= 0 {
        0
    } else {
        segments_bytes(s, n - 1) + text::byte_len(s[n - 1].text@)
    }
}

/// The bytes of the segments of one side.
pub open spec fn styled_bytes(s: Option<Vec<Segment>>) -> nat {
    match s {
        Some(v) => segments_bytes(v@, v@.len() as int),
        None => 0,
    }
}

/// The bytes of a row.
pub open spec fn line_bytes(l: DiffLine) -> nat {
    side_bytes(l.old_line) + side_bytes(l.new_line) + styled_bytes(l.old_segments) + styled_bytes(
        l.new_segments,
    )
}

/// The bytes of the first `n` rows.
pub open spec fn rows_bytes(l: Seq<DiffLine>, n: int) -> nat
    decreases n,
{
    if n <= 0 {
        0
    } else {
        rows_bytes(l, n - 1) + line_bytes(l[n - 1])
    }
}

/// The bytes of all texts of a view.
pub open spec fn view_bytes(v: DiffViewState) -> nat {
    text::byte_len(v.filename@) + text::byte_len(v.old_content@) + text::byte_len(v.new_content@)
        + rows_bytes(v.lines@, v.lines@.len() as int)
}

/// A number, or the greatest that can be counted where it is more.
pub open spec fn capped(n: nat) -> nat {
    if n <= usize::MAX {
        n
    } else {
        usize::MAX as nat
    }
}

/// How much memory a view is reckoned to take: twice the bytes of its texts.
pub open spec fn estimate(v: DiffViewState) -> nat {
    capped(2 * view_bytes(v))
}

fn str_bytes(s: &str) -> (r: usize)
    ensures
        r == capped(text::byte_len(s@)),
{
    text::byte_len_up_to(text::chars_of(s).as_slice(), usize::MAX)
}

fn side_bytes_of(s: &Option<(usize, String)>) -> (r: usize)
    ensures
        r == capped(side_bytes(*s)),
{
    match s {
        Some(p) => str_bytes(p.1.as_str()),
        None => 0,
    }
}

fn styled_bytes_of(s: &Option<Vec<Segment>>) -> (r: usize)
    ensures
        r == capped(styled_bytes(*s)),
{
    match s {
        Some(v) => {
            let mut n: usize = 0;
            let mut i: usize = 0;
            while i < v.len()
                invariant
                    i <= v@.len(),
                    n == capped(segments_bytes(v@, i as int)),
                decreases v@.len() - i,
            {
                n = n.saturating_add(str_bytes(v[i].text.as_str()));
                i = i + 1;
            }
            n
        },
        None => 0,
    }
}

/// Reckons how much memory a view takes.
pub fn estimate_diff_view_bytes(view: &DiffViewState) -> (r: usize)
    ensures
        r == estimate(*view),
{
    let mut total: usize = 0;
    let mut i: usize = 0;
    while i < view.lines.len()
        invariant
            i <= view.lines@.len(),
            total == capped(rows_bytes(view.lines@, i as int)),
        decreases view.lines@.len() - i,
    {
        let line = &view.lines[i];
        let sides: usize = side_bytes_of(&line.old_line).saturating_add(
            side_bytes_of(&line.new_line),
        );
        let styled: usize = styled_bytes_of(&line.old_segments).saturating_add(
            styled_bytes_of(&line.new_segments),
        );
        total = total.saturating_add(sides).saturating_add(styled);
        i = i + 1;
    }
    let sum: usize = str_bytes(view.filename.as_str()).saturating_add(
        str_bytes(view.old_content.as_str()),
    ).saturating_add(str_bytes(view.new_content.as_str())).saturating_add(total);
    sum.saturating_add(sum)
}

// ---------------------------------------------------------------------------
// Laws
// ---------------------------------------------------------------------------

proof fn lemma_rows_same(a: Seq<DiffLine>, b: Seq<DiffLine>, n: int)
    requires
        0 <= n <= a.len(),
        n <= b.len(),
        forall|i: int| 0 <= i < n ==> a[i] == b[i],
    ensures
        rows_bytes(a, n) == rows_bytes(b, n),
    decreases n,
{
    if n > 0 {
        lemma_rows_same(a, b, n - 1);
    }
}

proof fn lemma_segments_same(a: Seq<Segment>, b: Seq<Segment>, n: int)
    requires
        0 <= n <= a.len(),
        n <= b.len(),
        forall|i: int| 0 <= i < n ==> a[i] == b[i],
    ensures
        segments_bytes(a, n) == segments_bytes(b, n),
    decreases n,
{
    if n > 0 {
        lemma_segments_same(a, b, n - 1);
    }
}

/// Every row counts once, with the texts of both its sides and of their segments.
pub proof fn every_row_counts(v: DiffViewState, w: DiffViewState, l: DiffLine)
    requires
        w.lines@ == v.lines@.push(l),
        w.filename@ == v.filename@,
        w.old_content@ == v.old_content@,
        w.new_content@ == v.new_content@,
    ensures
        view_bytes(w) == view_bytes(v) + (match l.old_line {
            Some((_, t)) => text::byte_len(t@),
            None => 0,
        }) + (match l.new_line {
            Some((_, t)) => text::byte_len(t@),
            None => 0,
        }) + styled_bytes(l.old_segments) + styled_bytes(l.new_segments),
        2 * view_bytes(w) <= usize::MAX ==> estimate(w) == 2 * view_bytes(w),
        2 * view_bytes(w) > usize::MAX ==> estimate(w) == usize::MAX,
{
    lemma_rows_same(v.lines@, w.lines@, v.lines@.len() as int);
}

/// Every segment counts once.
pub proof fn every_segment_counts(s: Seq<Segment>, t: Segment)
    ensures
        segments_bytes(s.push(t), s.len() as int + 1) == segments_bytes(s, s.len() as int)
            + text::byte_len(t.text@),
        segments_bytes(seq![], 0) == 0,
{
    lemma_segments_same(s, s.push(t), s.len() as int);
}

/// A view without rows counts its file name and the two contents.
pub proof fn contents_count(v: DiffViewState)
    requires
        v.lines@.len() == 0,
    ensures
        view_bytes(v) == text::byte_len(v.filename@) + text::byte_len(v.old_content@)
            + text::byte_len(v.new_content@),
{
}

} // verus!
