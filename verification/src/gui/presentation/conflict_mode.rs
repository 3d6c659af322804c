//! What the conflict resolver shows.

use crate::git::merge_conflict;
use crate::git::merge_conflict::ResolveChoice;
use crate::gui::areas;
use crate::gui::areas::{inner_area, split_area, Axis, Edge, Extent};
use crate::gui::input::Rect;
use crate::gui::modes::conflict_mode;
use crate::gui::modes::conflict_mode::{ConflictBlockState, ConflictModeState};
use crate::gui::picker;
use crate::text;
use vstd::prelude::*;

verus! {

/// How a line of a panel is coloured. All but unchanged text is shown bold.
#[derive(Debug, Clone, Copy, PartialEq, Eq, Structural)]
pub enum Tone {
    Context,
    Ours,
    Theirs,
    Base,
    Hint,
}

/// A line of a panel.
#[derive(Debug, Clone, PartialEq, Eq)]
pub struct PanelLine {
    pub text: String,
    pub tone: Tone,
}

/// The text and the colour of a line.
pub struct Shown {
    pub text: Seq<char>,
    pub tone: Tone,
}

impl View for PanelLine {
    type V = Shown;

    open spec fn view(&self) -> Shown {
        Shown { text: self.text@, tone: self.tone }
    }
}

/// The texts and colours of lines, in order.
pub open spec fn shown(v: Seq<PanelLine>) -> Seq<Shown> {
    Seq::new(v.len(), |i: int| v[i]@)
}

/// The letter for a choice.
pub open spec fn badge(choice: Option<ResolveChoice>) -> Seq<char> {
    match choice {
        Some(ResolveChoice::Ours) => "O"@,
        Some(ResolveChoice::Theirs) => "T"@,
        Some(ResolveChoice::Both) => "B"@,
        None => "?"@,
    }
}

/// The letter for a choice.
pub fn choice_badge(choice: Option<ResolveChoice>) -> (r: &'static str)
    ensures
        r@ == badge(choice),
{
    match choice {
        Some(ResolveChoice::Ours) => "O",
        Some(ResolveChoice::Theirs) => "T",
        Some(ResolveChoice::Both) => "B",
        None => "?",
    }
}

/// The word for a choice.
pub open spec fn label(choice: Option<ResolveChoice>) -> Seq<char> {
    match choice {
        Some(ResolveChoice::Ours) => "ours"@,
        Some(ResolveChoice::Theirs) => "theirs"@,
        Some(ResolveChoice::Both) => "both"@,
        None => "unresolved"@,
    }
}

/// The word for a choice.
pub fn choice_label(choice: Option<ResolveChoice>) -> (r: &'static str)
    ensures
        r@ == label(choice),
{
    match choice {
        Some(ResolveChoice::Ours) => "ours",
        Some(ResolveChoice::Theirs) => "theirs",
        Some(ResolveChoice::Both) => "both",
        None => "unresolved",
    }
}

/// A line without the line feeds and carriage returns at its end.
pub open spec fn without_line_end(l: Seq<char>) -> Seq<char>
    decreases l.len(),
{
    if l.len() > 0 && (l.last() == '\r' || l.last() == '\n') {
        without_line_end(l.drop_last())
    } else {
        l
    }
}

/// The lines of a text as they are shown.
pub open spec fn plain_lines(s: Seq<char>) -> Seq<Seq<char>> {
    let l = text::lines_inclusive(s);
    Seq::new(l.len(), |i: int| without_line_end(l[i]))
}

/// Cuts a text into lines without their line ends.
pub fn display_lines(text: &str) -> (r: Vec<String>)
    ensures
        text::texts(r@) == plain_lines(text@),
{
    let chars = text::chars_of(text);
    let lines = text::split_inclusive_lines(chars.as_slice());
    let ghost l = text::pieces(lines@);
    let mut r: Vec<String> = Vec::new();
    let mut i: usize = 0;
    while i < lines.len()
        invariant
            i <= lines@.len(),
            l == text::pieces(lines@),
            r@.len() == i,
            forall|j: int| 0 <= j < i ==> (#[trigger] r@[j])@ == without_line_end(l[j]),
        decreases lines@.len() - i,
    {
        assert(l[i as int] == lines@[i as int]@);
        let line = lines[i].as_slice();
        let mut n: usize = line.len();
        assert(line@.take(line@.len() as int) =~= line@);
        while n > 0 && (line[n - 1] == '\r' || line[n - 1] == '\n')
            invariant
                n <= line@.len(),
                without_line_end(line@) == without_line_end(line@.take(n as int)),
            decreases n,
        {
            assert(line@.take(n as int).drop_last() =~= line@.take(n as int - 1));
            n = n - 1;
        }
        r.push(text::string_of(vstd::slice::slice_subrange(line, 0, n)));
        i = i + 1;
    }
    assert(text::texts(r@) =~= plain_lines(text@));
    r
}

/// The lines of a text with a mark in front of each, in one colour.
pub open spec fn marked(s: Seq<char>, mark: Seq<char>, tone: Tone) -> Seq<Shown> {
    let l = plain_lines(s);
    Seq::new(l.len(), |i: int| Shown { text: mark + l[i], tone })
}

fn push_body_lines(lines: &mut Vec<PanelLine>, body: &str, marker: &str, tone: Tone)
    ensures
        shown(final(lines)@) == shown(old(lines)@) + marked(body@, marker@, tone),
{
    let ghost before = lines@;
    let body_lines = display_lines(body);
    let ghost l = plain_lines(body@);
    let mut i: usize = 0;
    while i < body_lines.len()
        invariant
            i <= body_lines@.len(),
            text::texts(body_lines@) == l,
            lines@.len() == before.len() + i,
            forall|j: int| 0 <= j < before.len() ==> #[trigger] lines@[j] == before[j],
            forall|j: int|
                before.len() <= j < lines@.len() ==> (#[trigger] lines@[j])@ == (Shown {
                    text: marker@ + l[j - before.len()],
                    tone,
                }),
        decreases body_lines@.len() - i,
    {
        assert(l[i as int] == body_lines@[i as int]@);
        lines.push(
            PanelLine { text: marker.to_string().concat(body_lines[i].as_str()), tone },
        );
        i = i + 1;
    }
    assert(shown(lines@) =~= shown(before) + marked(body@, marker@, tone));
}

/// A body between the unchanged lines around a block.
pub open spec fn in_context(b: merge_conflict::Block, body: Seq<Shown>) -> Seq<Shown> {
    marked(b.context_before, "  "@, Tone::Context) + body + marked(
        b.context_after,
        "  "@,
        Tone::Context,
    )
}

/// The panel of one side of a block.
pub fn source_panel_lines(block: &ConflictBlockState, body: &str, marker: &str, tone: Tone) -> (r:
    Vec<PanelLine>)
    ensures
        shown(r@) == in_context(block.block@, marked(body@, marker@, tone)),
{
    let mut lines: Vec<PanelLine> = Vec::new();
    assert(shown(lines@) =~= seq![]);
    push_body_lines(&mut lines, block.block.context_before.as_str(), "  ", Tone::Context);
    push_body_lines(&mut lines, body, marker, tone);
    push_body_lines(&mut lines, block.block.context_after.as_str(), "  ", Tone::Context);
    assert(shown(lines@) =~= in_context(block.block@, marked(body@, marker@, tone)));
    lines
}

/// The panel with both sides of a block.
pub fn both_panel_lines(block: &ConflictBlockState) -> (r: Vec<PanelLine>)
    ensures
        shown(r@) == in_context(
            block.block@,
            marked(block.block.ours@, "→ "@, Tone::Ours) + marked(
                block.block.theirs@,
                "← "@,
                Tone::Theirs,
            ),
        ),
{
    let mut lines: Vec<PanelLine> = Vec::new();
    assert(shown(lines@) =~= seq![]);
    push_body_lines(&mut lines, block.block.context_before.as_str(), "  ", Tone::Context);
    push_body_lines(&mut lines, block.block.ours.as_str(), "→ ", Tone::Ours);
    push_body_lines(&mut lines, block.block.theirs.as_str(), "← ", Tone::Theirs);
    push_body_lines(&mut lines, block.block.context_after.as_str(), "  ", Tone::Context);
    assert(shown(lines@) =~= in_context(
        block.block@,
        marked(block.block.ours@, "→ "@, Tone::Ours) + marked(
            block.block.theirs@,
            "← "@,
            Tone::Theirs,
        ),
    ));
    lines
}

/// The hint where no choice was made.
pub open spec fn hint() -> Seq<char> {
    "Choose ours (o), theirs (t), or both (b).\n"@
}

/// The lines with the result of a block's choice.
pub open spec fn result_lines(b: ConflictBlockState) -> Seq<Shown> {
    in_context(
        b.block@,
        match b.choice {
            Some(ResolveChoice::Ours) => marked(b.block.ours@, "→ "@, Tone::Ours),
            Some(ResolveChoice::Theirs) => marked(b.block.theirs@, "← "@, Tone::Theirs),
            Some(ResolveChoice::Both) => marked(b.block.ours@, "→ "@, Tone::Ours) + marked(
                b.block.theirs@,
                "← "@,
                Tone::Theirs,
            ),
            None => marked(hint(), "  "@, Tone::Hint),
        },
    )
}

/// The panel with the result of a block's choice.
pub fn result_panel_lines(block: &ConflictBlockState) -> (r: Vec<PanelLine>)
    ensures
        shown(r@) == result_lines(*block),
{
    match block.choice {
        Some(ResolveChoice::Ours) => source_panel_lines(
            block,
            block.block.ours.as_str(),
            "→ ",
            Tone::Ours,
        ),
        Some(ResolveChoice::Theirs) => source_panel_lines(
            block,
            block.block.theirs.as_str(),
            "← ",
            Tone::Theirs,
        ),
        Some(ResolveChoice::Both) => both_panel_lines(block),
        None => source_panel_lines(
            block,
            "Choose ours (o), theirs (t), or both (b).\n",
            "  ",
            Tone::Hint,
        ),
    }
}

/// A body with the unchanged text around a block.
pub fn text_with_context(block: &ConflictBlockState, body: &str) -> (r: String)
    ensures
        r@ == block.block.context_before@ + body@ + block.block.context_after@,
{
    block.block.context_before.clone().concat(body).concat(block.block.context_after.as_str())
}

/// What a block's choice makes of it, with the unchanged text around it.
pub fn result_preview(block: &ConflictBlockState) -> (r: String)
    ensures
        r@ == block.block.context_before@ + match block.choice {
            Some(c) => merge_conflict::chosen(block.block@, c),
            None => hint(),
        } + block.block.context_after@,
{
    let body = match block.choice {
        Some(ResolveChoice::Ours) => block.block.ours.clone(),
        Some(ResolveChoice::Theirs) => block.block.theirs.clone(),
        Some(ResolveChoice::Both) => block.block.ours.clone().concat(block.block.theirs.as_str()),
        None => "Choose ours (o), theirs (t), or both (b).\n".to_string(),
    };
    text_with_context(block, body.as_str())
}

/// Whether an area is too small to show anything.
pub open spec fn is_too_small(a: Rect) -> bool {
    a.width < 20 || a.height < 4
}

/// Whether the inside of the resolver is too small to show anything.
pub fn too_small(width: u16, height: u16) -> (r: bool)
    ensures
        r == (width < 20 || height < 4),
{
    width < 20 || height < 4
}

/// The width of the list of blocks: a quarter, within bounds.
pub open spec fn list_width(width: u16) -> u16 {
    if width / 4 < 18 {
        18
    } else if width / 4 > 32 {
        32
    } else {
        width / 4
    }
}

/// The width of the list of blocks.
pub fn block_list_width(width: u16) -> (r: u16)
    ensures
        r == list_width(width),
{
    let quarter: u16 = width / 4;
    if quarter < 18 {
        18
    } else if quarter > 32 {
        32
    } else {
        quarter
    }
}

/// The first block that the list shows.
pub open spec fn first_shown(s: ConflictModeState) -> int {
    let len = s.blocks@.len() as int;
    if s.scroll <= len {
        s.scroll as int
    } else {
        len
    }
}

/// The block behind the last one that the list shows: as many are shown as there are rows.
pub open spec fn end_shown(s: ConflictModeState) -> int {
    let len = s.blocks@.len() as int;
    if s.scroll + conflict_mode::rows(s.visible_height) <= len {
        s.scroll + conflict_mode::rows(s.visible_height)
    } else {
        len
    }
}

/// The blocks that the list shows.
pub fn visible_blocks(state: &ConflictModeState) -> (r: (usize, usize))
    requires
        state.fits(state.visible_height),
    ensures
        r.0 == first_shown(*state),
        r.1 == end_shown(*state),
{
    let height: usize = if state.visible_height >= 1 {
        state.visible_height
    } else {
        1
    };
    let len: usize = state.blocks.len();
    let first: usize = if state.scroll <= len {
        state.scroll
    } else {
        len
    };
    let behind: usize = if state.scroll + height <= len {
        state.scroll + height
    } else {
        len
    };
    (first, behind)
}

// ---------------------------------------------------------------------------
// Lines of several colours
// ---------------------------------------------------------------------------

/// How a piece of a line is painted.
#[derive(Debug, Clone, Copy, PartialEq, Eq, Structural)]
pub enum Paint {
    Plain,
    /// As a title: strong and bold.
    Title,
    Strong,
    Dimmed,
    Second,
    Normal,
    /// Strong, on the ground of what is selected.
    Selected,
    Green,
    Blue,
    Yellow,
}

/// A piece of a line.
#[derive(Debug, Clone, PartialEq, Eq)]
pub struct Painted {
    pub text: String,
    pub paint: Paint,
}

/// The text and the paint of a piece.
pub struct Stroke {
    pub text: Seq<char>,
    pub paint: Paint,
}

impl View for Painted {
    type V = Stroke;

    open spec fn view(&self) -> Stroke {
        Stroke { text: self.text@, paint: self.paint }
    }
}

/// The texts and paints of pieces, in order.
pub open spec fn strokes(v: Seq<Painted>) -> Seq<Stroke> {
    Seq::new(v.len(), |i: int| v[i]@)
}

fn add_piece(line: &mut Vec<Painted>, text: &str, paint: Paint)
    ensures
        strokes(final(line)@) == strokes(old(line)@).push(Stroke { text: text@, paint }),
{
    line.push(Painted { text: text.to_string(), paint });
    assert(strokes(line@) =~= strokes(old(line)@).push(Stroke { text: text@, paint }));
}

fn new_line() -> (r: Vec<Painted>)
    ensures
        strokes(r@) == Seq::<Stroke>::empty(),
{
    let r: Vec<Painted> = Vec::new();
    assert(strokes(r@) =~= Seq::<Stroke>::empty());
    r
}

/// The title of the resolver.
pub open spec fn title_strokes(path: Seq<char>) -> Seq<Stroke> {
    Seq::empty().push(Stroke { text: " "@, paint: Paint::Plain }).push(
        Stroke { text: "Merge Conflict Resolver"@, paint: Paint::Title },
    ).push(Stroke { text: " ~ "@, paint: Paint::Dimmed }).push(
        Stroke { text: path, paint: Paint::Second },
    ).push(Stroke { text: " "@, paint: Paint::Plain })
}

fn title_line(path: &str) -> (r: Vec<Painted>)
    ensures
        strokes(r@) == title_strokes(path@),
{
    let mut line = new_line();
    add_piece(&mut line, " ", Paint::Plain);
    add_piece(&mut line, "Merge Conflict Resolver", Paint::Title);
    add_piece(&mut line, " ~ ", Paint::Dimmed);
    add_piece(&mut line, path, Paint::Second);
    add_piece(&mut line, " ", Paint::Plain);
    line
}

/// The paint of the letter for a choice.
pub open spec fn badge_style(choice: Option<ResolveChoice>) -> Paint {
    match choice {
        Some(ResolveChoice::Ours) => Paint::Green,
        Some(ResolveChoice::Theirs) => Paint::Blue,
        Some(ResolveChoice::Both) => Paint::Second,
        None => Paint::Yellow,
    }
}

fn badge_paint(choice: Option<ResolveChoice>) -> (r: Paint)
    ensures
        r == badge_style(choice),
{
    match choice {
        Some(ResolveChoice::Ours) => Paint::Green,
        Some(ResolveChoice::Theirs) => Paint::Blue,
        Some(ResolveChoice::Both) => Paint::Second,
        None => Paint::Yellow,
    }
}

/// The row of a block in the list: a mark where it is selected, the letter for its
/// choice, and its number.
pub open spec fn row_strokes(s: ConflictModeState, i: int) -> Seq<Stroke> {
    let selected = i == s.selected;
    let paint = if selected {
        Paint::Selected
    } else {
        Paint::Normal
    };
    let choice = s.blocks@[i].choice;
    Seq::empty().push(
        Stroke {
            text: if selected {
                "▶ "@
            } else {
                "  "@
            },
            paint,
        },
    ).push(Stroke { text: badge(choice) + " "@, paint: badge_style(choice) }).push(
        Stroke { text: "Block "@ + text::decimal((i + 1) as nat), paint },
    )
}

fn block_row(s: &ConflictModeState, i: usize) -> (r: Vec<Painted>)
    requires
        i < s.blocks@.len(),
    ensures
        strokes(r@) == row_strokes(*s, i as int),
{
    let count: usize = s.blocks.len();
    assert(i < count);
    let selected = i == s.selected;
    let paint = if selected {
        Paint::Selected
    } else {
        Paint::Normal
    };
    let choice = s.blocks[i].choice;
    let mut line = new_line();
    add_piece(
        &mut line,
        if selected {
            "▶ "
        } else {
            "  "
        },
        paint,
    );
    let letter = choice_badge(choice).to_string().concat(" ");
    add_piece(&mut line, letter.as_str(), badge_paint(choice));
    let name = "Block ".to_string().concat(text::decimal_of(i + 1).as_str());
    add_piece(&mut line, name.as_str(), paint);
    line
}

/// The rows of the list: those that are in view.
pub open spec fn list_strokes(s: ConflictModeState) -> Seq<Seq<Stroke>> {
    let from = first_shown(s);
    let to = end_shown(s);
    Seq::new(
        if from <= to {
            (to - from) as nat
        } else {
            0
        },
        |k: int| row_strokes(s, from + k),
    )
}

/// Rows as plain values.
pub open spec fn rows_strokes(v: Seq<Vec<Painted>>) -> Seq<Seq<Stroke>> {
    Seq::new(v.len(), |i: int| strokes(v[i]@))
}

fn block_rows(s: &ConflictModeState) -> (r: Vec<Vec<Painted>>)
    requires
        s.fits(s.visible_height),
    ensures
        rows_strokes(r@) == list_strokes(*s),
{
    let (from, to) = visible_blocks(s);
    let mut r: Vec<Vec<Painted>> = Vec::new();
    let mut i: usize = from;
    while i < to
        invariant
            from == first_shown(*s),
            to == end_shown(*s),
            from <= i,
            from <= to ==> i <= to,
            to <= s.blocks@.len(),
            r@.len() == i - from,
            forall|k: int|
                0 <= k < r@.len() ==> strokes((#[trigger] r@[k])@) == row_strokes(*s, from + k),
        decreases to - i,
    {
        r.push(block_row(s, i));
        i = i + 1;
    }
    assert(rows_strokes(r@) =~= list_strokes(*s));
    r
}

/// The line above the panels of a block: its number, its choice, and how they go together.
pub open spec fn header_strokes(s: ConflictModeState) -> Seq<Stroke> {
    Seq::empty().push(
        Stroke {
            text: " Block "@ + text::decimal(s.selected as nat + 1) + " / "@ + text::decimal(
                s.blocks@.len(),
            ) + " "@,
            paint: Paint::Second,
        },
    ).push(
        Stroke {
            text: "Result: "@ + label(s.blocks@[s.selected as int].choice) + "  "@,
            paint: Paint::Strong,
        },
    ).push(Stroke { text: "Ours "@, paint: Paint::Green }).push(
        Stroke { text: "──▶ "@, paint: Paint::Dimmed },
    ).push(Stroke { text: "Result"@, paint: Paint::Second }).push(
        Stroke { text: " ◀── "@, paint: Paint::Dimmed },
    ).push(Stroke { text: "Theirs"@, paint: Paint::Blue })
}

fn header_line(s: &ConflictModeState) -> (r: Vec<Painted>)
    requires
        s.selected < s.blocks@.len(),
    ensures
        strokes(r@) == header_strokes(*s),
{
    let count: usize = s.blocks.len();
    assert(s.selected < count);
    let number = " Block ".to_string().concat(text::decimal_of(s.selected + 1).as_str()).concat(
        " / ",
    ).concat(text::decimal_of(count).as_str()).concat(" ");
    let result = "Result: ".to_string().concat(choice_label(s.blocks[s.selected].choice)).concat(
        "  ",
    );
    let mut line = new_line();
    add_piece(&mut line, number.as_str(), Paint::Second);
    add_piece(&mut line, result.as_str(), Paint::Strong);
    add_piece(&mut line, "Ours ", Paint::Green);
    add_piece(&mut line, "──▶ ", Paint::Dimmed);
    add_piece(&mut line, "Result", Paint::Second);
    add_piece(&mut line, " ◀── ", Paint::Dimmed);
    add_piece(&mut line, "Theirs", Paint::Blue);
    line
}

/// A key and what it does, as the last line of the screen shows them.
pub open spec fn hinted(l: Seq<Stroke>, key: Seq<char>, meaning: Seq<char>) -> Seq<Stroke> {
    l.push(Stroke { text: key, paint: Paint::Second }).push(
        Stroke { text: meaning, paint: Paint::Dimmed },
    )
}

fn add_hint(line: &mut Vec<Painted>, key: &str, meaning: &str)
    ensures
        strokes(final(line)@) == hinted(strokes(old(line)@), key@, meaning@),
{
    add_piece(line, key, Paint::Second);
    add_piece(line, meaning, Paint::Dimmed);
}

/// The keys that the last line of the screen shows.
pub open spec fn key_hints() -> Seq<Stroke> {
    let moves = hinted(Seq::empty(), " j/k"@, ": block  "@);
    let sides = hinted(hinted(moves, "o"@, ": ours  "@), "t"@, ": theirs  "@);
    let both = hinted(hinted(sides, "b"@, ": both  "@), "n/p"@, ": unresolved  "@);
    hinted(hinted(both, "s/enter"@, ": save+stage  "@), "esc/q"@, ": cancel  "@)
}

/// The last line of the screen: the keys, and how many blocks have no choice yet.
pub open spec fn status_strokes(s: ConflictModeState) -> Seq<Stroke> {
    let open = conflict_mode::unresolved_before(s.blocks@, s.blocks@.len() as int);
    key_hints().push(
        Stroke {
            text: "unresolved: "@ + text::decimal(open),
            paint: if open == 0 {
                Paint::Green
            } else {
                Paint::Yellow
            },
        },
    )
}

fn status_line(s: &ConflictModeState) -> (r: Vec<Painted>)
    ensures
        strokes(r@) == status_strokes(*s),
{
    let open: usize = s.unresolved_count();
    let count = "unresolved: ".to_string().concat(text::decimal_of(open).as_str());
    let mut line = new_line();
    add_hint(&mut line, " j/k", ": block  ");
    add_hint(&mut line, "o", ": ours  ");
    add_hint(&mut line, "t", ": theirs  ");
    add_hint(&mut line, "b", ": both  ");
    add_hint(&mut line, "n/p", ": unresolved  ");
    add_hint(&mut line, "s/enter", ": save+stage  ");
    add_hint(&mut line, "esc/q", ": cancel  ");
    add_piece(
        &mut line,
        count.as_str(),
        if open == 0 {
            Paint::Green
        } else {
            Paint::Yellow
        },
    );
    line
}

// ---------------------------------------------------------------------------
// Panels
// ---------------------------------------------------------------------------

/// A panel with a text.
#[derive(Debug)]
pub struct TextPanel {
    pub title: String,
    pub lines: Vec<PanelLine>,
    /// Whether the panel stands out: what it shows was chosen.
    pub highlighted: bool,
}

/// What a panel shows.
pub struct PanelText {
    pub title: Seq<char>,
    pub lines: Seq<Shown>,
    pub highlighted: bool,
}

impl View for TextPanel {
    type V = PanelText;

    open spec fn view(&self) -> PanelText {
        PanelText {
            title: self.title@,
            lines: shown(self.lines@),
            highlighted: self.highlighted,
        }
    }
}

/// A panel: its title with a space on both sides, and its lines, or a sign that there are
/// none.
pub open spec fn panel_text(title: Seq<char>, lines: Seq<Shown>, highlighted: bool) -> PanelText {
    PanelText {
        title: " "@ + title + " "@,
        lines: if lines.len() == 0 {
            seq![Shown { text: "∅"@, tone: Tone::Context }]
        } else {
            lines
        },
        highlighted,
    }
}

fn text_panel(title: &str, lines: Vec<PanelLine>, highlighted: bool) -> (r: TextPanel)
    ensures
        r@ == panel_text(title@, shown(lines@), highlighted),
{
    let mut lines = lines;
    let ghost given = shown(lines@);
    if lines.len() == 0 {
        lines.push(PanelLine { text: "∅".to_string(), tone: Tone::Context });
        assert(shown(lines@) =~= seq![Shown { text: "∅"@, tone: Tone::Context }]);
    }
    TextPanel { title: " ".to_string().concat(title).concat(" "), lines, highlighted }
}

/// The panels of a block: its two sides with the result between them, and below them the
/// ancestor and both sides together. A side stands out when it was chosen, the result
/// when any choice was made.
pub open spec fn block_panels(b: ConflictBlockState) -> Seq<PanelText> {
    let ours = marked(b.block.ours@, "→ "@, Tone::Ours);
    let theirs = marked(b.block.theirs@, "← "@, Tone::Theirs);
    let base = match b.block.base {
        Some(t) => t@,
        None => seq![],
    };
    Seq::empty().push(
        panel_text(
            "→ Ours / Current  [o]"@,
            in_context(b.block@, ours),
            b.choice == Some(ResolveChoice::Ours),
        ),
    ).push(panel_text("Result Preview"@, result_lines(b), b.choice is Some)).push(
        panel_text(
            "← Theirs / Incoming  [t]"@,
            in_context(b.block@, theirs),
            b.choice == Some(ResolveChoice::Theirs),
        ),
    ).push(panel_text("Base"@, in_context(b.block@, marked(base, "• "@, Tone::Base)), false)).push(
        panel_text(
            "⇄ Both Preview  [b]"@,
            in_context(b.block@, ours + theirs),
            b.choice == Some(ResolveChoice::Both),
        ),
    )
}

/// Panels as plain values.
pub open spec fn panel_texts(v: Seq<TextPanel>) -> Seq<PanelText> {
    Seq::new(v.len(), |i: int| v[i]@)
}

fn add_panel(v: &mut Vec<TextPanel>, p: TextPanel)
    ensures
        panel_texts(final(v)@) == panel_texts(old(v)@).push(p@),
{
    v.push(p);
    assert(panel_texts(v@) =~= panel_texts(old(v)@).push(p@));
}

fn three_way_panels(b: &ConflictBlockState) -> (r: Vec<TextPanel>)
    ensures
        panel_texts(r@) == block_panels(*b),
{
    let chose_ours = b.choice == Some(ResolveChoice::Ours);
    let chose_theirs = b.choice == Some(ResolveChoice::Theirs);
    let chose_both = b.choice == Some(ResolveChoice::Both);
    let ours = source_panel_lines(b, b.block.ours.as_str(), "→ ", Tone::Ours);
    let theirs = source_panel_lines(b, b.block.theirs.as_str(), "← ", Tone::Theirs);
    proof {
        reveal_strlit("");
        assert(""@ =~= seq![]);
    }
    let base = match &b.block.base {
        Some(t) => source_panel_lines(b, t.as_str(), "• ", Tone::Base),
        None => source_panel_lines(b, "", "• ", Tone::Base),
    };
    let mut r: Vec<TextPanel> = Vec::new();
    assert(panel_texts(r@) =~= Seq::<PanelText>::empty());
    add_panel(&mut r, text_panel("→ Ours / Current  [o]", ours, chose_ours));
    add_panel(&mut r, text_panel("Result Preview", result_panel_lines(b), b.choice.is_some()));
    add_panel(&mut r, text_panel("← Theirs / Incoming  [t]", theirs, chose_theirs));
    add_panel(&mut r, text_panel("Base", base, false));
    add_panel(&mut r, text_panel("⇄ Both Preview  [b]", both_panel_lines(b), chose_both));
    r
}

// ---------------------------------------------------------------------------
// Areas
// ---------------------------------------------------------------------------

/// Where the resolver and the last line stand, and what is within the resolver's border.
#[derive(Debug, Clone, Copy, PartialEq, Eq, Structural)]
pub struct Outline {
    pub main: Rect,
    pub status: Rect,
    pub inner: Rect,
}

/// The outline on a screen: a row for the status goes off what has more than one.
pub open spec fn outline_on(width: u16, height: u16) -> Outline {
    let main = areas::above_last_row(width, height);
    Outline {
        main,
        status: Rect { x: 0, y: main.height, width, height: (height - main.height) as u16 },
        inner: areas::within_border(main),
    }
}

fn outline(width: u16, height: u16) -> (r: Outline)
    ensures
        r == outline_on(width, height),
{
    let mut extents: Vec<Extent> = Vec::new();
    extents.push(Extent::Min(1));
    extents.push(Extent::Length(1));
    let parts = split_area(Rect { x: 0, y: 0, width, height }, Axis::Vertical, &extents);
    proof {
        reveal_with_fuel(areas::lengths, 3);
        let e = extents@;
        assert(areas::lengths(e, 2) == 1 && areas::lengths(e, 1) == 0);
        if height >= 2 {
            assert(areas::one_takes_the_rest(e, height as int, 0));
        } else {
            assert(areas::compete(e, height as int, 0));
        }
        let main = areas::above_last_row(width, height).height;
        assert(areas::along(Axis::Vertical, parts@[0]) == (0int, main as int));
        assert(areas::along(Axis::Vertical, parts@[1]) == (main as int, height - main));
        assert(areas::across(Axis::Vertical, parts@[1]) == (0int, width as int));
    }
    Outline { main: parts[0], status: parts[1], inner: inner_area(parts[0], Edge::Around) }
}

/// Where things stand within the resolver: the list of blocks, and beside it a line above
/// five panels, three over two.
#[derive(Debug, Clone, Copy, PartialEq, Eq, Structural)]
pub struct Inside {
    pub list: Rect,
    pub list_inner: Rect,
    pub detail: Rect,
    pub header: Rect,
    pub ours: Rect,
    pub result: Rect,
    pub theirs: Rect,
    pub base: Rect,
    pub both: Rect,
}

/// A share of a number of cells, to the nearest.
pub open spec fn share(percent: int, of: int) -> int {
    (percent * of + 50) / 100
}

/// The part of an area between two columns and two rows of it.
pub open spec fn part(a: Rect, x: (int, int), y: (int, int)) -> Rect {
    Rect {
        x: (a.x + x.0) as u16,
        y: (a.y + y.0) as u16,
        width: (x.1 - x.0) as u16,
        height: (y.1 - y.0) as u16,
    }
}

/// How much of the width of an area the list takes: it leaves at least 20 columns to
/// what is beside it.
pub open spec fn list_room(width: u16) -> int {
    picker::at_most(list_width(width) as int, picker::minus(width as int, 20))
}

/// Where things stand within an area of at least four rows.
pub open spec fn inside_of(a: Rect) -> Inside {
    let l = list_room(a.width);
    let list = part(a, (0, l), (0, a.height as int));
    let detail = part(a, (l, a.width as int), (0, a.height as int));
    let w = detail.width as int;
    let h = detail.height as int;
    let mid = 1 + share(55, h - 1);
    Inside {
        list,
        list_inner: areas::below_title(list),
        detail,
        header: part(detail, (0, w), (0, 1)),
        ours: part(detail, (0, share(33, w)), (1, mid)),
        result: part(detail, (share(33, w), share(67, w)), (1, mid)),
        theirs: part(detail, (share(67, w), w), (1, mid)),
        base: part(detail, (0, share(50, w)), (mid, h)),
        both: part(detail, (share(50, w), w), (mid, h)),
    }
}

fn two_shares(area: Rect, axis: Axis, first: u16, second: u16) -> (r: (Rect, Rect))
    requires
        first + second == 100,
        areas::along(axis, area).0 + areas::along(axis, area).1 <= u16::MAX,
    ensures
        areas::across(axis, r.0) == areas::across(axis, area),
        areas::across(axis, r.1) == areas::across(axis, area),
        areas::along(axis, r.0) == (
            areas::along(axis, area).0,
            share(first as int, areas::along(axis, area).1),
        ),
        areas::along(axis, r.1) == (
            areas::along(axis, area).0 + share(first as int, areas::along(axis, area).1),
            areas::along(axis, area).1 - share(first as int, areas::along(axis, area).1),
        ),
{
    let mut extents: Vec<Extent> = Vec::new();
    extents.push(Extent::Percentage(first));
    extents.push(Extent::Percentage(second));
    let parts = split_area(area, axis, &extents);
    proof {
        reveal_with_fuel(areas::percentages, 3);
        let e = extents@;
        assert(areas::percentages(e, 2) == 100 && areas::percentages(e, 1) == first
            && areas::percentages(e, 0) == 0);
        assert(areas::shares_of_the_whole(e));
        let size = areas::along(axis, area).1;
        assert(areas::edge_of_shares(e, size, 0) == 0);
        assert(areas::edge_of_shares(e, size, 2) == size);
        assert(areas::along(axis, parts@[0]) == (
            areas::along(axis, area).0,
            share(first as int, size),
        ));
        assert(areas::along(axis, parts@[0]).0 >= 0 && areas::along(axis, parts@[1]).0 >= 0);
        assert(areas::across(axis, parts@[0]) == areas::across(axis, area));
        assert(areas::across(axis, parts@[1]) == areas::across(axis, area));
    }
    (parts[0], parts[1])
}

fn three_shares(area: Rect) -> (r: (Rect, Rect, Rect))
    requires
        area.x + area.width <= u16::MAX,
    ensures
        areas::across(Axis::Horizontal, r.0) == areas::across(Axis::Horizontal, area),
        areas::across(Axis::Horizontal, r.1) == areas::across(Axis::Horizontal, area),
        areas::across(Axis::Horizontal, r.2) == areas::across(Axis::Horizontal, area),
        areas::along(Axis::Horizontal, r.0) == (area.x as int, share(33, area.width as int)),
        areas::along(Axis::Horizontal, r.1) == (
            area.x + share(33, area.width as int),
            share(67, area.width as int) - share(33, area.width as int),
        ),
        areas::along(Axis::Horizontal, r.2) == (
            area.x + share(67, area.width as int),
            area.width - share(67, area.width as int),
        ),
{
    let mut extents: Vec<Extent> = Vec::new();
    extents.push(Extent::Percentage(33));
    extents.push(Extent::Percentage(34));
    extents.push(Extent::Percentage(33));
    let parts = split_area(area, Axis::Horizontal, &extents);
    proof {
        reveal_with_fuel(areas::percentages, 4);
        let e = extents@;
        assert(areas::percentages(e, 3) == 100 && areas::percentages(e, 2) == 67
            && areas::percentages(e, 1) == 33 && areas::percentages(e, 0) == 0);
        assert(areas::edge_of_shares(e, area.width as int, 0) == 0);
        assert(areas::along(Axis::Horizontal, parts@[0]) == (
            area.x as int,
            share(33, area.width as int),
        ));
        assert(areas::shares_of_the_whole(e));
        assert(areas::across(Axis::Horizontal, parts@[0]) == areas::across(Axis::Horizontal, area));
        assert(areas::across(Axis::Horizontal, parts@[1]) == areas::across(Axis::Horizontal, area));
        assert(areas::across(Axis::Horizontal, parts@[2]) == areas::across(Axis::Horizontal, area));
    }
    (parts[0], parts[1], parts[2])
}

fn inside(a: Rect) -> (r: Inside)
    requires
        a.x + a.width <= u16::MAX,
        a.y + a.height <= u16::MAX,
        a.height >= 4,
    ensures
        r.list_inner.height < a.height,
        r == inside_of(a),
{
    let l: u16 = block_list_width(a.width);
    let mut across: Vec<Extent> = Vec::new();
    across.push(Extent::Length(l));
    across.push(Extent::Min(20));
    let columns = split_area(a, Axis::Horizontal, &across);
    proof {
        reveal_with_fuel(areas::lengths, 3);
        let e = across@;
        assert(areas::lengths(e, 2) == l && areas::lengths(e, 1) == l);
        if a.width >= l + 20 {
            assert(areas::one_takes_the_rest(e, a.width as int, 1));
        } else {
            assert(areas::compete(e, a.width as int, 1));
        }
        let room = list_room(a.width);
        assert(areas::along(Axis::Horizontal, columns@[0]) == (a.x as int, room));
        assert(areas::along(Axis::Horizontal, columns@[1]) == (a.x + room, a.width - room));
        assert(areas::across(Axis::Horizontal, columns@[0]) == areas::across(Axis::Horizontal, a));
        assert(areas::across(Axis::Horizontal, columns@[1]) == areas::across(Axis::Horizontal, a));
    }
    let list = columns[0];
    let detail = columns[1];
    let list_inner = inner_area(list, Edge::TitleAndRight);
    let mut down: Vec<Extent> = Vec::new();
    down.push(Extent::Length(1));
    down.push(Extent::Min(1));
    let top = split_area(detail, Axis::Vertical, &down);
    proof {
        reveal_with_fuel(areas::lengths, 3);
        let e = down@;
        assert(areas::lengths(e, 2) == 1 && areas::lengths(e, 1) == 1);
        assert(areas::one_takes_the_rest(e, detail.height as int, 1));
        assert(areas::along(Axis::Vertical, top@[0]) == (detail.y as int, 1int));
        assert(areas::along(Axis::Vertical, top@[1]) == (detail.y + 1, detail.height - 1));
        assert(areas::across(Axis::Vertical, top@[0]) == areas::across(Axis::Vertical, detail));
        assert(areas::across(Axis::Vertical, top@[1]) == areas::across(Axis::Vertical, detail));
    }
    let (upper, lower) = two_shares(top[1], Axis::Vertical, 55, 45);
    let (ours, result, theirs) = three_shares(upper);
    let (base, both) = two_shares(lower, Axis::Horizontal, 50, 50);
    Inside { list, list_inner, detail, header: top[0], ours, result, theirs, base, both }
}

// ---------------------------------------------------------------------------
// The whole
// ---------------------------------------------------------------------------

/// What is shown of the block that is selected.
#[derive(Debug)]
pub struct Detail {
    pub header: Vec<Painted>,
    pub panels: Vec<TextPanel>,
}

/// What is shown within the resolver.
#[derive(Debug)]
pub struct InsideScene {
    pub areas: Inside,
    pub rows: Vec<Vec<Painted>>,
    /// None where there is no block to show.
    pub detail: Option<Detail>,
}

/// What the resolver shows on a screen.
#[derive(Debug)]
pub struct Scene {
    pub outline: Outline,
    pub title: Vec<Painted>,
    pub status: Vec<Painted>,
    /// None where there is too little room.
    pub inside: Option<InsideScene>,
}

impl InsideScene {
    /// Whether this shows a state.
    pub open spec fn shows(self, s: ConflictModeState) -> bool {
        &&& rows_strokes(self.rows@) == list_strokes(s)
        &&& match self.detail {
            Some(d) => s.selected < s.blocks@.len() && strokes(d.header@) == header_strokes(s)
                && panel_texts(d.panels@) == block_panels(s.blocks@[s.selected as int]),
            None => s.selected >= s.blocks@.len(),
        }
    }
}

/// Lays out what the resolver shows on a screen, and brings the selected block into view.
pub fn render(state: &mut ConflictModeState, width: u16, height: u16) -> (r: Scene)
    requires
        old(state).scroll <= usize::MAX - 0x10000,
    ensures
        strokes(r.title@) == title_strokes(old(state).path@),
        strokes(r.status@) == status_strokes(*old(state)),
        r.outline == outline_on(width, height),
        match r.inside {
            None => is_too_small(r.outline.inner) && *final(state) == *old(state),
            Some(x) => !is_too_small(r.outline.inner) && x.shows(*final(state)) && *final(state)
                == old(state).in_view(x.areas.list_inner.height as usize) && x.areas == inside_of(
                r.outline.inner,
            ),
        },
{
    let o = outline(width, height);
    let title = title_line(state.path.as_str());
    let status = status_line(state);
    if too_small(o.inner.width, o.inner.height) {
        return Scene { outline: o, title, status, inside: None };
    }
    let areas = inside(o.inner);
    state.ensure_visible(areas.list_inner.height as usize);
    assert(state.fits(state.visible_height)) by {
        let height = conflict_mode::rows(state.visible_height);
        let count = state.blocks@.len() as int;
        assert(count == state.blocks.len());
        assert(state.scroll <= if count >= height {
            count - height
        } else {
            0
        });
    }
    let rows = block_rows(state);
    let detail = if state.selected < state.blocks.len() {
        Some(
            Detail {
                header: header_line(state),
                panels: three_way_panels(&state.blocks[state.selected]),
            },
        )
    } else {
        None
    };
    Scene { outline: o, title, status, inside: Some(InsideScene { areas, rows, detail }) }
}

// ---------------------------------------------------------------------------
// Laws
// ---------------------------------------------------------------------------

/// On a screen of at least 22 columns and seven rows the panels of a block lie side by side
/// below its line, and fill what the list leaves.
pub proof fn the_panels_fill_their_room(width: u16, height: u16)
    requires
        width >= 22,
        height >= 7,
    ensures
        ({
            let a = outline_on(width, height).inner;
            let i = inside_of(a);
            &&& !is_too_small(a)
            &&& i.list.x == a.x && i.detail.x == i.list.x + i.list.width
            &&& i.detail.x + i.detail.width == a.x + a.width
            &&& i.ours.x == i.detail.x && i.result.x == i.ours.x + i.ours.width
            &&& i.theirs.x == i.result.x + i.result.width
            &&& i.theirs.x + i.theirs.width == i.detail.x + i.detail.width
            &&& i.base.x == i.detail.x && i.both.x == i.base.x + i.base.width
            &&& i.both.x + i.both.width == i.detail.x + i.detail.width
            &&& i.header.y == a.y && i.ours.y == i.header.y + 1
            &&& i.base.y == i.ours.y + i.ours.height && i.base.y + i.base.height == a.y + a.height
        }),
{
}

/// The lines of a text are shown one by one, each with its mark in front and without its
/// line end; an empty text shows none.
pub proof fn lines_are_shown_with_their_mark(
    line: Seq<char>,
    rest: Seq<char>,
    mark: Seq<char>,
    tone: Tone,
)
    requires
        !line.contains('\n'),
        line.len() > 0 ==> line.last() != '\r',
    ensures
        marked(line + "\n"@ + rest, mark, tone) == seq![Shown { text: mark + line, tone }] + marked(
            rest,
            mark,
            tone,
        ),
        marked(line + "\r\n"@ + rest, mark, tone) == seq![Shown { text: mark + line, tone }]
            + marked(rest, mark, tone),
        line.len() > 0 ==> marked(line, mark, tone) == seq![Shown { text: mark + line, tone }],
        marked(Seq::<char>::empty(), mark, tone) == Seq::<Shown>::empty(),
{
    reveal_strlit("\n");
    reveal_strlit("\r\n");
    if line.len() > 0 && line.last() == '\n' {
        assert(line.contains('\n'));
    }
    let none = Seq::<char>::empty();
    let a = line + "\n"@;
    let b = line + "\r\n"@;
    assert(a.drop_last() =~= line);
    assert(b.drop_last().drop_last() =~= line);
    reveal_with_fuel(without_line_end, 3);
    assert(without_line_end(a) == line);
    assert(without_line_end(b) == line);
    text::lines_go_line_by_line(line, rest);
    lemma_line_then(a, rest);
    lemma_line_then(b, rest);
    assert(marked(a + rest, mark, tone) =~= seq![Shown { text: mark + line, tone }] + marked(
        rest,
        mark,
        tone,
    ));
    assert(marked(b + rest, mark, tone) =~= seq![Shown { text: mark + line, tone }] + marked(
        rest,
        mark,
        tone,
    ));
    if line.len() > 0 {
        lemma_line_then(line, none);
        assert(line + none =~= line);
        assert(text::lines_inclusive(none) =~= seq![]);
        assert(marked(line, mark, tone) =~= seq![Shown { text: mark + line, tone }]);
    }
    assert(marked(none, mark, tone) =~= Seq::<Shown>::empty());
}

proof fn lemma_line_then(x: Seq<char>, rest: Seq<char>)
    requires
        text::is_line(x),
        x.last() == '\n' || rest.len() == 0,
    ensures
        text::lines_inclusive(x + rest) == seq![x] + text::lines_inclusive(rest),
{
    text::lemma_concat_one(x);
    assert(text::are_lines(seq![x]));
    text::cutting_undoes_putting_together(seq![x]);
    if x.last() == '\n' {
        merge_conflict::lemma_lines_of_both(x, rest);
    } else {
        assert(x + rest =~= x);
        assert(text::lines_inclusive(rest) =~= seq![]);
        assert(seq![x] + text::lines_inclusive(rest) =~= seq![x]);
    }
}

/// The lines of the result as they are, without the two characters in front that mark them.
pub open spec fn unmarked(l: Seq<Shown>) -> Seq<Seq<char>> {
    Seq::new(l.len(), |i: int| l[i].text.skip(2))
}

/// The result panel of a block shows what the resolved file will hold there: the unchanged
/// text around the block, and between it ours, theirs, or both, ours first.
pub proof fn the_result_panel_shows_the_resolved_text(b: ConflictBlockState)
    requires
        merge_conflict::whole_lines(b.block.context_before@),
        merge_conflict::whole_lines(b.block.ours@),
        merge_conflict::whole_lines(b.block.theirs@),
    ensures
        b.choice == Some(ResolveChoice::Ours) ==> unmarked(result_lines(b)) == plain_lines(
            b.block.context_before@ + b.block.ours@ + b.block.context_after@,
        ),
        b.choice == Some(ResolveChoice::Theirs) ==> unmarked(result_lines(b)) == plain_lines(
            b.block.context_before@ + b.block.theirs@ + b.block.context_after@,
        ),
        b.choice == Some(ResolveChoice::Both) ==> unmarked(result_lines(b)) == plain_lines(
            b.block.context_before@ + b.block.ours@ + b.block.theirs@ + b.block.context_after@,
        ),
        b.choice is None ==> unmarked(result_lines(b)) == plain_lines(b.block.context_before@)
            + seq!["Choose ours (o), theirs (t), or both (b)."@] + plain_lines(
            b.block.context_after@,
        ),
{
    reveal_strlit("→ ");
    reveal_strlit("← ");
    reveal_strlit("  ");
    let before = b.block.context_before@;
    let ours = b.block.ours@;
    let theirs = b.block.theirs@;
    let after = b.block.context_after@;
    lemma_unmark(before, "  "@, Tone::Context);
    lemma_unmark(after, "  "@, Tone::Context);
    lemma_unmark(ours, "→ "@, Tone::Ours);
    lemma_unmark(theirs, "← "@, Tone::Theirs);
    lemma_unmark(hint(), "  "@, Tone::Hint);
    lemma_plain_add(before, ours);
    lemma_plain_add(before, theirs);
    lemma_plain_add(before + ours, theirs);
    lemma_plain_add(before + ours, after);
    lemma_plain_add(before + theirs, after);
    lemma_plain_add(before + ours + theirs, after);
    lemma_hint_line();
    let m1 = marked(before, "  "@, Tone::Context);
    let m2 = marked(ours, "→ "@, Tone::Ours);
    let m3 = marked(theirs, "← "@, Tone::Theirs);
    let m4 = marked(after, "  "@, Tone::Context);
    let m5 = marked(hint(), "  "@, Tone::Hint);
    lemma_unmarked_add(m1 + m2, m4);
    lemma_unmarked_add(m1, m2);
    lemma_unmarked_add(m1 + m3, m4);
    lemma_unmarked_add(m1, m3);
    lemma_unmarked_add(m1 + (m2 + m3), m4);
    lemma_unmarked_add(m1, m2 + m3);
    lemma_unmarked_add(m2, m3);
    lemma_unmarked_add(m1 + m5, m4);
    lemma_unmarked_add(m1, m5);
    assert(plain_lines(before) + (plain_lines(ours) + plain_lines(theirs)) =~= plain_lines(before)
        + plain_lines(ours) + plain_lines(theirs));
}

proof fn lemma_hint_line()
    ensures
        plain_lines(hint()) == seq!["Choose ours (o), theirs (t), or both (b)."@],
{
    reveal_strlit("Choose ours (o), theirs (t), or both (b).\n");
    reveal_strlit("Choose ours (o), theirs (t), or both (b).");
    let h = hint();
    let l = "Choose ours (o), theirs (t), or both (b)."@;
    let none = Seq::<char>::empty();
    assert(h.drop_last() =~= l);
    assert(text::is_line(h));
    lemma_line_then(h, none);
    assert(h + none =~= h);
    assert(text::lines_inclusive(none) =~= seq![]);
    reveal_with_fuel(without_line_end, 2);
    assert(plain_lines(h) =~= seq![l]);
}

proof fn lemma_unmark(s: Seq<char>, mark: Seq<char>, tone: Tone)
    requires
        mark.len() == 2,
    ensures
        unmarked(marked(s, mark, tone)) == plain_lines(s),
{
    let l = plain_lines(s);
    assert forall|i: int| 0 <= i < l.len() implies unmarked(marked(s, mark, tone))[i] == l[i] by {
        assert((mark + l[i]).skip(2) =~= l[i]);
    }
    assert(unmarked(marked(s, mark, tone)) =~= l);
}

proof fn lemma_unmarked_add(a: Seq<Shown>, b: Seq<Shown>)
    ensures
        unmarked(a + b) == unmarked(a) + unmarked(b),
{
    assert(unmarked(a + b) =~= unmarked(a) + unmarked(b));
}

proof fn lemma_plain_add(a: Seq<char>, b: Seq<char>)
    requires
        merge_conflict::whole_lines(a),
    ensures
        plain_lines(a + b) == plain_lines(a) + plain_lines(b),
{
    merge_conflict::lemma_lines_of_both(a, b);
    assert(plain_lines(a + b) =~= plain_lines(a) + plain_lines(b));
}

/// In the result panel a line of ours is coloured as ours and one of theirs as theirs, and
/// the lines around the block as unchanged text.
pub proof fn sides_keep_their_colours(b: ConflictBlockState, i: int)
    requires
        0 <= i < result_lines(b).len(),
    ensures
        ({
            let n = plain_lines(b.block.context_before@).len();
            let m = plain_lines(b.block.ours@).len();
            let k = plain_lines(b.block.theirs@).len();
            let tone = result_lines(b)[i].tone;
            &&& i < n ==> tone is Context
            &&& b.choice == Some(ResolveChoice::Ours) && n <= i < n + m ==> tone is Ours
            &&& b.choice == Some(ResolveChoice::Theirs) && n <= i < n + k ==> tone is Theirs
            &&& b.choice == Some(ResolveChoice::Both) && n <= i < n + m ==> tone is Ours
            &&& b.choice == Some(ResolveChoice::Both) && n + m <= i < n + m + k ==> tone is Theirs
        }),
{
}

/// A choice has its own letter, word and colour, and a block without one has others.
pub proof fn choices_look_different(a: Option<ResolveChoice>, b: Option<ResolveChoice>)
    ensures
        badge(a) == badge(b) <==> a == b,
        label(a) == label(b) <==> a == b,
        badge_style(a) == badge_style(b) <==> a == b,
        badge(Some(ResolveChoice::Ours)) == "O"@,
        badge(Some(ResolveChoice::Theirs)) == "T"@,
        badge(Some(ResolveChoice::Both)) == "B"@,
        label(Some(ResolveChoice::Ours)) == "ours"@,
        label(Some(ResolveChoice::Theirs)) == "theirs"@,
        label(Some(ResolveChoice::Both)) == "both"@,
        label(None) == "unresolved"@,
{
    reveal_strlit("O");
    reveal_strlit("T");
    reveal_strlit("B");
    reveal_strlit("?");
    reveal_strlit("ours");
    reveal_strlit("theirs");
    reveal_strlit("both");
    reveal_strlit("unresolved");
    assert("O"@[0] == 'O' && "T"@[0] == 'T' && "B"@[0] == 'B' && "?"@[0] == '?');
    assert("ours"@.len() == 4 && "theirs"@.len() == 6 && "both"@.len() == 4);
    assert("ours"@[0] == 'o' && "both"@[0] == 'b' && "unresolved"@.len() == 10);
}

/// The panels of a block are ours, the result, theirs, the ancestor and both; the side that
/// was chosen stands out and no other, and the result stands out with any choice.
pub proof fn the_chosen_panel_stands_out(b: ConflictBlockState)
    ensures
        ({
            let p = block_panels(b);
            &&& p.len() == 5
            &&& p[0].title == " → Ours / Current  [o] "@
            &&& p[1].title == " Result Preview "@
            &&& p[2].title == " ← Theirs / Incoming  [t] "@
            &&& p[3].title == " Base "@
            &&& p[4].title == " ⇄ Both Preview  [b] "@
            &&& p[0].highlighted <==> b.choice == Some(ResolveChoice::Ours)
            &&& p[1].highlighted <==> b.choice is Some
            &&& p[2].highlighted <==> b.choice == Some(ResolveChoice::Theirs)
            &&& !p[3].highlighted
            &&& p[4].highlighted <==> b.choice == Some(ResolveChoice::Both)
            &&& b.choice == Some(ResolveChoice::Ours) ==> p[1].lines == p[0].lines
            &&& b.choice == Some(ResolveChoice::Theirs) ==> p[1].lines == p[2].lines
            &&& b.choice == Some(ResolveChoice::Both) ==> p[1].lines == p[4].lines
            &&& forall|i: int| 0 <= i < 5 ==> (#[trigger] p[i]).lines.len() > 0
        }),
{
    reveal_strlit(" ");
    reveal_strlit("→ Ours / Current  [o]");
    reveal_strlit(" → Ours / Current  [o] ");
    reveal_strlit("Result Preview");
    reveal_strlit(" Result Preview ");
    reveal_strlit("← Theirs / Incoming  [t]");
    reveal_strlit(" ← Theirs / Incoming  [t] ");
    reveal_strlit("Base");
    reveal_strlit(" Base ");
    reveal_strlit("⇄ Both Preview  [b]");
    reveal_strlit(" ⇄ Both Preview  [b] ");
    assert(" "@ + "→ Ours / Current  [o]"@ + " "@ =~= " → Ours / Current  [o] "@);
    assert(" "@ + "Result Preview"@ + " "@ =~= " Result Preview "@);
    assert(" "@ + "← Theirs / Incoming  [t]"@ + " "@ =~= " ← Theirs / Incoming  [t] "@);
    assert(" "@ + "Base"@ + " "@ =~= " Base "@);
    assert(" "@ + "⇄ Both Preview  [b]"@ + " "@ =~= " ⇄ Both Preview  [b] "@);
}

/// The list shows the blocks from the first in view on, as many as there are rows, in
/// order; exactly the selected one is marked, each has its number, counted from one, and
/// the letter for its choice.
pub proof fn the_list_shows_the_blocks_in_view(s: ConflictModeState, k: int)
    requires
        0 <= k < list_strokes(s).len(),
    ensures
        ({
            let i = s.scroll + k;
            let row = list_strokes(s)[k];
            &&& i < s.blocks@.len()
            &&& row.len() == 3
            &&& row[0].text == "▶ "@ <==> i == s.selected
            &&& row[1].text == badge(s.blocks@[i].choice) + " "@
            &&& row[2].text == "Block "@ + text::decimal((i + 1) as nat)
            &&& list_strokes(s).len() <= conflict_mode::rows(s.visible_height)
            &&& s.scroll + list_strokes(s).len() < s.blocks@.len() ==> list_strokes(s).len()
                == conflict_mode::rows(s.visible_height)
        }),
{
    reveal_strlit("▶ ");
    reveal_strlit("  ");
    assert("▶ "@[0] != "  "@[0]);
}

/// The last line tells how many blocks have no choice, in green where none is left.
pub proof fn the_last_line_counts_what_is_left(s: ConflictModeState)
    ensures
        ({
            let l = status_strokes(s);
            let left = s.blocks@.filter(|b: ConflictBlockState| b.choice is None).len();
            &&& l.last().text == "unresolved: "@ + text::decimal(left)
            &&& l.last().paint is Green <==> left == 0
        }),
{
    conflict_mode::blocks_without_a_choice_are_counted(s.blocks@);
}

/// The last row of a screen with more than one is for the status, over its whole width, and
/// the resolver takes the rest.
pub proof fn the_status_has_the_last_row(width: u16, height: u16)
    requires
        height >= 2,
    ensures
        ({
            let o = outline_on(width, height);
            &&& o.main == (Rect { x: 0, y: 0, width, height: (height - 1) as u16 })
            &&& o.status == (Rect { x: 0, y: (height - 1) as u16, width, height: 1 })
        }),
        width >= 2 && height >= 3 ==> outline_on(width, height).inner == (Rect {
            x: 1,
            y: 1,
            width: (width - 2) as u16,
            height: (height - 3) as u16,
        }),
{
}

} // verus!
