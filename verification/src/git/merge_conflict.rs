//! Conflict markers in a text: reading them, showing them, resolving them.

use crate::text;
use vstd::prelude::*;

verus! {

/// What is kept of a conflict block.
#[derive(Debug, Clone, Copy, PartialEq, Eq, Structural)]
pub enum ResolveChoice {
    Ours,
    Theirs,
    Both,
}

/// One conflict of a file, with a few unchanged lines around it.
#[derive(Debug, Clone, PartialEq, Eq)]
pub struct TextConflictBlock {
    pub index: usize,
    /// Unchanged lines immediately before the changed region, for display only.
    pub context_before: String,
    pub base: Option<String>,
    pub ours: String,
    pub theirs: String,
    /// Unchanged lines immediately after the changed region, for display only.
    pub context_after: String,
}

/// The text of a conflict block.
pub struct Block {
    pub index: nat,
    pub context_before: Seq<char>,
    pub base: Option<Seq<char>>,
    pub ours: Seq<char>,
    pub theirs: Seq<char>,
    pub context_after: Seq<char>,
}

impl View for TextConflictBlock {
    type V = Block;

    open spec fn view(&self) -> Block {
        Block {
            index: self.index as nat,
            context_before: self.context_before@,
            base: text::opt_text(self.base),
            ours: self.ours@,
            theirs: self.theirs@,
            context_after: self.context_after@,
        }
    }
}

/// The texts of conflict blocks, in order.
pub open spec fn block_texts(v: Seq<TextConflictBlock>) -> Seq<Block> {
    Seq::new(v.len(), |i: int| v[i]@)
}

/// A part of a conflicted file: unchanged lines, or one conflict.
#[derive(Debug, Clone, PartialEq, Eq)]
pub enum TextConflictSegment {
    Context(String),
    Conflict(TextConflictBlock),
}

/// The text of a segment.
pub enum Segment {
    Context(Seq<char>),
    Conflict(Block),
}

impl View for TextConflictSegment {
    type V = Segment;

    open spec fn view(&self) -> Segment {
        match self {
            TextConflictSegment::Context(s) => Segment::Context(s@),
            TextConflictSegment::Conflict(b) => Segment::Conflict(b@),
        }
    }
}

/// The texts of segments, in order.
pub open spec fn segment_texts(v: Seq<TextConflictSegment>) -> Seq<Segment> {
    Seq::new(v.len(), |i: int| v[i]@)
}

/// How many unchanged lines are shown on each side of a conflict.
pub const CONFLICT_DISPLAY_CONTEXT_LINES: usize = 3;

/// Why a conflicted text cannot be read or resolved.
#[derive(Debug, Clone, Copy, PartialEq, Eq, Structural)]
pub enum MarkerError {
    Malformed,
    NoMarkers,
    ChoiceCountMismatch { got: usize, expected: usize },
}

impl MarkerError {
    /// The message for the user.
    pub open spec fn text(self) -> Seq<char> {
        match self {
            MarkerError::Malformed => "malformed conflict markers"@,
            MarkerError::NoMarkers => "no conflict markers found"@,
            MarkerError::ChoiceCountMismatch { got, expected } => "choice count mismatch: got "@
                + text::decimal(got as nat) + ", expected "@ + text::decimal(expected as nat),
        }
    }

    /// The message for the user.
    pub fn message(&self) -> (r: String)
        ensures
            r@ == self.text(),
    {
        match self {
            MarkerError::Malformed => "malformed conflict markers".to_string(),
            MarkerError::NoMarkers => "no conflict markers found".to_string(),
            MarkerError::ChoiceCountMismatch { got, expected } => {
                let mut s = "choice count mismatch: got ".to_string();
                s.append(text::decimal_of(*got).as_str());
                s.append(", expected ");
                s.append(text::decimal_of(*expected).as_str());
                s
            },
        }
    }
}

// ---------------------------------------------------------------------------
// Markers
// ---------------------------------------------------------------------------

/// The line that opens a conflict.
pub open spec fn is_start(l: Seq<char>) -> bool {
    "<<<<<<<"@.is_prefix_of(l)
}

/// The line that opens the common ancestor's part.
pub open spec fn is_base(l: Seq<char>) -> bool {
    "|||||||"@.is_prefix_of(l)
}

/// The line between the two sides.
pub open spec fn is_separator(l: Seq<char>) -> bool {
    "======="@.is_prefix_of(l)
}

/// The line that closes a conflict.
pub open spec fn is_end(l: Seq<char>) -> bool {
    ">>>>>>>"@.is_prefix_of(l)
}

/// A line of any of the four marker forms.
pub open spec fn is_marker(l: Seq<char>) -> bool {
    is_start(l) || is_base(l) || is_separator(l) || is_end(l)
}

/// The kinds of runs of lines in a conflicted file.
#[derive(Clone, Copy)]
pub enum Run {
    Context,
    Ours,
    Base,
    Theirs,
}

impl Run {
    /// Whether a line ends the run. Unchanged lines end at an opening marker, our
    /// side's lines at any other marker, the ancestor's lines at any marker but
    /// its own, and their side's lines at every marker.
    pub open spec fn stops_at(self, l: Seq<char>) -> bool {
        match self {
            Run::Context => is_start(l),
            Run::Ours => is_base(l) || is_separator(l) || is_end(l),
            Run::Base => is_start(l) || is_separator(l) || is_end(l),
            Run::Theirs => is_marker(l),
        }
    }

    /// The end of the run of lines from index `i` on: the first line that stops
    /// it, or the number of lines.
    pub open spec fn end(self, l: Seq<Seq<char>>, i: int) -> int
        decreases l.len() - i,
    {
        if i < 0 || i >= l.len() {
            l.len() as int
        } else if self.stops_at(l[i]) {
            i
        } else {
            self.end(l, i + 1)
        }
    }

    fn stops_at_line(self, l: &Vec<char>) -> (r: bool)
        ensures
            r == self.stops_at(l@),
    {
        let start = text::starts_with(l.as_slice(), "<<<<<<<");
        let base = text::starts_with(l.as_slice(), "|||||||");
        let separator = text::starts_with(l.as_slice(), "=======");
        let end = text::starts_with(l.as_slice(), ">>>>>>>");
        match self {
            Run::Context => start,
            Run::Ours => base || separator || end,
            Run::Base => start || separator || end,
            Run::Theirs => start || base || separator || end,
        }
    }

    fn end_from(self, l: &Vec<Vec<char>>, i: usize) -> (r: usize)
        requires
            i <= l@.len(),
        ensures
            r == self.end(text::pieces(l@), i as int),
            i <= r <= l@.len(),
            r < l@.len() ==> self.stops_at(l@[r as int]@),
    {
        let mut j: usize = i;
        while j < l.len() && !self.stops_at_line(&l[j])
            invariant
                i <= j <= l@.len(),
                self.end(text::pieces(l@), i as int) == self.end(text::pieces(l@), j as int),
            decreases l@.len() - j,
        {
            j = j + 1;
        }
        j
    }
}


/// Where the parts of a conflict block stand: each part is a range of lines.
pub struct Span {
    pub ours: (int, int),
    pub base: Option<(int, int)>,
    pub theirs: (int, int),
    pub next: int,
}

/// The block whose opening marker is line `i`, if its markers are in order: our
/// side, an optional ancestor part, a separator, their side, a closing marker.
pub open spec fn block_span(l: Seq<Seq<char>>, i: int) -> Option<Span> {
    let o = Run::Ours.end(l, i + 1);
    let b = Run::Base.end(l, o + 1);
    let has_base = o < l.len() && is_base(l[o]);
    let s = if has_base {
        b
    } else {
        o
    };
    let t = Run::Theirs.end(l, s + 1);
    if s < l.len() && is_separator(l[s]) && t < l.len() && is_end(l[t]) {
        Some(
            Span {
                ours: (i + 1, o),
                base: if has_base {
                    Some((o + 1, b))
                } else {
                    None
                },
                theirs: (s + 1, t),
                next: t + 1,
            },
        )
    } else {
        None
    }
}

/// The lines of a range, one behind the other.
pub open spec fn range_text(l: Seq<Seq<char>>, r: (int, int)) -> Seq<char> {
    text::concat(l.subrange(r.0, r.1))
}

/// The block of a span, the `k`-th of the file, without display context.
pub open spec fn span_block(l: Seq<Seq<char>>, s: Span, k: nat) -> Block {
    Block {
        index: k,
        context_before: seq![],
        base: match s.base {
            Some(r) => Some(range_text(l, r)),
            None => None,
        },
        ours: range_text(l, s.ours),
        theirs: range_text(l, s.theirs),
        context_after: seq![],
    }
}

/// The segments of the lines from index `i` on, blocks numbered from `k`, if
/// every opening marker opens a well-formed block.
pub open spec fn segments_from(l: Seq<Seq<char>>, i: int, k: nat) -> Option<Seq<Segment>>
    decreases l.len() - i,
        when 0 <= i <= l.len()
{
    let n = Run::Context.end(l, i);
    let context = if i < n {
        seq![Segment::Context(range_text(l, (i, n)))]
    } else {
        seq![]
    };
    if n >= l.len() {
        Some(context)
    } else {
        match block_span(l, n) {
            None => None,
            Some(s) => {
                proof {
                    lemma_span_ahead(l, i);
                }
                match segments_from(l, s.next, k + 1) {
                    None => None,
                    Some(rest) => Some(
                        context + seq![Segment::Conflict(span_block(l, s, k))] + rest,
                    ),
                }
            },
        }
    }
}

/// The segments of a conflicted text, if its markers are well formed.
pub open spec fn segments(s: Seq<char>) -> Option<Seq<Segment>> {
    segments_from(text::lines_inclusive(s), 0, 0)
}

proof fn lemma_run_end(r: Run, l: Seq<Seq<char>>, i: int)
    requires
        0 <= i,
    ensures
        i <= l.len() ==> i <= r.end(l, i),
        r.end(l, i) <= l.len(),
        r.end(l, i) < l.len() ==> r.stops_at(l[r.end(l, i)]),
    decreases l.len() - i,
{
    if i < l.len() && !r.stops_at(l[i]) {
        lemma_run_end(r, l, i + 1);
    }
}

/// A block ends behind the place where the search for it began.
pub proof fn lemma_span_ahead(l: Seq<Seq<char>>, i: int)
    requires
        0 <= i <= l.len(),
    ensures
        ({
            let n = Run::Context.end(l, i);
            n < l.len() ==> match block_span(l, n) {
                None => true,
                Some(s) => i < s.next <= l.len(),
            }
        }),
{
    lemma_run_end(Run::Context, l, i);
    let n = Run::Context.end(l, i);
    if n < l.len() {
        lemma_run_end(Run::Ours, l, n + 1);
        let o = Run::Ours.end(l, n + 1);
        lemma_run_end(Run::Base, l, o + 1);
        lemma_run_end(Run::Theirs, l, o + 1);
        lemma_run_end(Run::Theirs, l, Run::Base.end(l, o + 1) + 1);
    }
}

/// Cuts a text into unchanged parts and conflicts.
pub fn parse_text_conflict_segments(contents: &str) -> (r: Result<
    Vec<TextConflictSegment>,
    MarkerError,
>)
    ensures
        match segments(contents@) {
            None => r == Err::<Vec<TextConflictSegment>, MarkerError>(MarkerError::Malformed),
            Some(segs) => r is Ok && segment_texts(r->Ok_0@) == segs,
        },
{
    let chars = text::chars_of(contents);
    let lines = text::split_inclusive_lines(chars.as_slice());
    let ghost l = text::pieces(lines@);
    let mut out: Vec<TextConflictSegment> = Vec::new();
    let mut index: usize = 0;
    let mut block_index: usize = 0;
    assert(segment_texts(out@) =~= seq![]);
    while index < lines.len()
        invariant
            index <= lines@.len(),
            l == text::pieces(lines@),
            l == text::lines_inclusive(contents@),
            block_index <= index,
            match segments_from(l, index as int, block_index as nat) {
                None => segments(contents@) is None,
                Some(rest) => segments(contents@) == Some(segment_texts(out@) + rest),
            },
        decreases lines@.len() - index,
    {
        let n: usize = Run::Context.end_from(&lines, index);
        let ghost before = out@;
        if index < n {
            out.push(TextConflictSegment::Context(text::concat_range(&lines, index, n)));
        }
        let ghost middle = out@;
        if n >= lines.len() {
            assert(segment_texts(middle) =~= segment_texts(before) + segments_from(
                l,
                index as int,
                block_index as nat,
            )->0);
            index = n;
        } else {
            let o: usize = Run::Ours.end_from(&lines, n + 1);
            if o >= lines.len() {
                return Err(MarkerError::Malformed);
            }
            let has_base = text::starts_with(lines[o].as_slice(), "|||||||");
            let s: usize = if has_base {
                Run::Base.end_from(&lines, o + 1)
            } else {
                o
            };
            if s >= lines.len() || !text::starts_with(lines[s].as_slice(), "=======") {
                return Err(MarkerError::Malformed);
            }
            let t: usize = Run::Theirs.end_from(&lines, s + 1);
            if t >= lines.len() || !text::starts_with(lines[t].as_slice(), ">>>>>>>") {
                return Err(MarkerError::Malformed);
            }
            let base = if has_base {
                Some(text::concat_range(&lines, o + 1, s))
            } else {
                None
            };
            let block = TextConflictBlock {
                index: block_index,
                context_before: String::new(),
                base,
                ours: text::concat_range(&lines, n + 1, o),
                theirs: text::concat_range(&lines, s + 1, t),
                context_after: String::new(),
            };
            let ghost span = block_span(l, n as int)->0;
            assert(block@ =~= span_block(l, span, block_index as nat)) by {
                assert(block@.context_before =~= seq![]);
                assert(block@.context_after =~= seq![]);
            }
            out.push(TextConflictSegment::Conflict(block));
            proof {
                match segments_from(l, t as int + 1, (block_index + 1) as nat) {
                    None => {},
                    Some(rest) => {
                        assert(segment_texts(out@) + rest =~= segment_texts(before)
                            + segments_from(l, index as int, block_index as nat)->0);
                    },
                }
            }
            index = t + 1;
            block_index = block_index + 1;
        }
    }
    assert(segment_texts(out@) + segments_from(l, index as int, block_index as nat)->0
        =~= segment_texts(out@));
    Ok(out)
}

// ---------------------------------------------------------------------------
// Display context
// ---------------------------------------------------------------------------

/// The first lines of a text, at most `limit` of them.
pub open spec fn head_text(s: Seq<char>, limit: nat) -> Seq<char> {
    let l = text::lines_inclusive(s);
    text::concat(l.take(if l.len() < limit { l.len() as int } else { limit as int }))
}

/// The last lines of a text, at most `limit` of them.
pub open spec fn tail_text(s: Seq<char>, limit: nat) -> Seq<char> {
    let l = text::lines_inclusive(s);
    text::concat(l.skip(if l.len() < limit { 0 } else { l.len() - limit }))
}

/// Keeps the first `limit` lines of a text.
pub fn head_lines(contents: &str, limit: usize) -> (r: String)
    ensures
        r@ == head_text(contents@, limit as nat),
{
    let chars = text::chars_of(contents);
    let lines = text::split_inclusive_lines(chars.as_slice());
    let n: usize = if lines.len() < limit {
        lines.len()
    } else {
        limit
    };
    text::concat_range(&lines, 0, n)
}

/// Keeps the last `limit` lines of a text.
pub fn tail_lines(contents: &str, limit: usize) -> (r: String)
    ensures
        r@ == tail_text(contents@, limit as nat),
{
    let chars = text::chars_of(contents);
    let lines = text::split_inclusive_lines(chars.as_slice());
    let start: usize = if lines.len() < limit {
        0
    } else {
        lines.len() - limit
    };
    text::concat_range(&lines, start, lines.len())
}

/// What is shown before the conflict at index `i`: the end of the unchanged text
/// in front of it.
pub open spec fn shown_before(segs: Seq<Segment>, i: int) -> Seq<char> {
    if 0 < i && segs[i - 1] is Context {
        tail_text(segs[i - 1]->Context_0, CONFLICT_DISPLAY_CONTEXT_LINES as nat)
    } else {
        seq![]
    }
}

/// What is shown after the conflict at index `i`: the start of the unchanged text
/// behind it.
pub open spec fn shown_after(segs: Seq<Segment>, i: int) -> Seq<char> {
    if i + 1 < segs.len() && segs[i + 1] is Context {
        head_text(segs[i + 1]->Context_0, CONFLICT_DISPLAY_CONTEXT_LINES as nat)
    } else {
        seq![]
    }
}

/// The conflicts among the first `n` segments, each with what is shown around it.
pub open spec fn display_blocks(segs: Seq<Segment>, n: int) -> Seq<Block>
    decreases n,
{
    if n <= 0 {
        seq![]
    } else {
        match segs[n - 1] {
            Segment::Context(_) => display_blocks(segs, n - 1),
            Segment::Conflict(b) => display_blocks(segs, n - 1).push(
                Block {
                    context_before: shown_before(segs, n - 1),
                    context_after: shown_after(segs, n - 1),
                    ..b
                },
            ),
        }
    }
}

/// The conflicts of a file, each with what is shown around it.
pub fn blocks_with_display_context(segments: &Vec<TextConflictSegment>) -> (r: Vec<
    TextConflictBlock,
>)
    ensures
        block_texts(r@) == display_blocks(segment_texts(segments@), segments@.len() as int),
{
    let ghost segs = segment_texts(segments@);
    let mut r: Vec<TextConflictBlock> = Vec::new();
    let mut idx: usize = 0;
    assert(block_texts(r@) =~= seq![]);
    while idx < segments.len()
        invariant
            idx <= segments@.len(),
            segs == segment_texts(segments@),
            block_texts(r@) == display_blocks(segs, idx as int),
        decreases segments@.len() - idx,
    {
        assert(segs[idx as int] == segments@[idx as int]@);
        match &segments[idx] {
            TextConflictSegment::Context(_) => {},
            TextConflictSegment::Conflict(block) => {
                let context_before = if idx > 0 {
                    assert(segs[idx - 1] == segments@[idx - 1]@);
                    match &segments[idx - 1] {
                        TextConflictSegment::Context(context) => tail_lines(
                            context.as_str(),
                            CONFLICT_DISPLAY_CONTEXT_LINES,
                        ),
                        TextConflictSegment::Conflict(_) => String::new(),
                    }
                } else {
                    String::new()
                };
                assert(context_before@ =~= shown_before(segs, idx as int));
                let context_after = if idx + 1 < segments.len() {
                    assert(segs[idx + 1] == segments@[idx + 1]@);
                    match &segments[idx + 1] {
                        TextConflictSegment::Context(context) => head_lines(
                            context.as_str(),
                            CONFLICT_DISPLAY_CONTEXT_LINES,
                        ),
                        TextConflictSegment::Conflict(_) => String::new(),
                    }
                } else {
                    String::new()
                };
                assert(context_after@ =~= shown_after(segs, idx as int));
                let ghost before = r@;
                r.push(
                    TextConflictBlock {
                        index: block.index,
                        context_before,
                        base: block.base.clone(),
                        ours: block.ours.clone(),
                        theirs: block.theirs.clone(),
                        context_after,
                    },
                );
                assert(block_texts(r@) =~= block_texts(before).push(r@.last()@));
            },
        }
        idx = idx + 1;
    }
    r
}

/// The conflicts of a text, with a few unchanged lines around each for display.
pub fn parse_text_conflict_blocks(contents: &str) -> (r: Result<
    Vec<TextConflictBlock>,
    MarkerError,
>)
    ensures
        match segments(contents@) {
            None => r == Err::<Vec<TextConflictBlock>, MarkerError>(MarkerError::Malformed),
            Some(segs) => r is Ok && block_texts(r->Ok_0@) == display_blocks(
                segs,
                segs.len() as int,
            ),
        },
{
    match parse_text_conflict_segments(contents) {
        Ok(segments) => Ok(blocks_with_display_context(&segments)),
        Err(e) => Err(e),
    }
}

// ---------------------------------------------------------------------------
// Resolution
// ---------------------------------------------------------------------------

/// What a choice keeps of a block.
pub open spec fn chosen(b: Block, c: ResolveChoice) -> Seq<char> {
    match c {
        ResolveChoice::Ours => b.ours,
        ResolveChoice::Theirs => b.theirs,
        ResolveChoice::Both => b.ours + b.theirs,
    }
}

/// How many conflicts the first `n` segments hold.
pub open spec fn conflict_count(segs: Seq<Segment>, n: int) -> nat
    decreases n,
{
    if n <= 0 {
        0
    } else {
        conflict_count(segs, n - 1) + if segs[n - 1] is Conflict {
            1nat
        } else {
            0
        }
    }
}

/// The first `n` segments with every conflict replaced by what its choice keeps;
/// unchanged text stays.
pub open spec fn resolved(segs: Seq<Segment>, choices: Seq<ResolveChoice>, n: int) -> Seq<char>
    decreases n,
{
    if n <= 0 {
        seq![]
    } else {
        resolved(segs, choices, n - 1) + match segs[n - 1] {
            Segment::Context(t) => t,
            Segment::Conflict(b) => chosen(b, choices[conflict_count(segs, n - 1) as int]),
        }
    }
}

/// Resolving a text: what is returned for its segments and the choices.
pub open spec fn resolution(s: Seq<char>, choices: Seq<ResolveChoice>) -> Result<
    Seq<char>,
    MarkerError,
> {
    match segments(s) {
        None => Err(MarkerError::Malformed),
        Some(segs) => {
            let n = conflict_count(segs, segs.len() as int);
            if n == 0 {
                Err(MarkerError::NoMarkers)
            } else if choices.len() != n {
                Err(
                    MarkerError::ChoiceCountMismatch {
                        got: choices.len() as usize,
                        expected: n as usize,
                    },
                )
            } else {
                Ok(resolved(segs, choices, segs.len() as int))
            }
        },
    }
}

/// The text of a result that holds a string.
pub open spec fn result_text<E>(r: Result<String, E>) -> Result<Seq<char>, E> {
    match r {
        Ok(s) => Ok(s@),
        Err(e) => Err(e),
    }
}

fn count_conflicts(segments: &Vec<TextConflictSegment>) -> (n: usize)
    ensures
        n == conflict_count(segment_texts(segments@), segments@.len() as int),
{
    let mut n: usize = 0;
    let mut i: usize = 0;
    while i < segments.len()
        invariant
            i <= segments@.len(),
            n <= i,
            n == conflict_count(segment_texts(segments@), i as int),
        decreases segments@.len() - i,
    {
        match &segments[i] {
            TextConflictSegment::Context(_) => {},
            TextConflictSegment::Conflict(_) => {
                n = n + 1;
            },
        }
        i = i + 1;
    }
    n
}

proof fn lemma_conflict_count_grows(segs: Seq<Segment>, i: int, n: int)
    requires
        0 <= i <= n,
    ensures
        conflict_count(segs, i) <= conflict_count(segs, n),
    decreases n - i,
{
    if i < n {
        lemma_conflict_count_grows(segs, i, n - 1);
    }
}

/// Replaces every conflict of a text by what its choice keeps.
pub fn resolve_text_conflict_blocks(contents: &str, choices: &[ResolveChoice]) -> (r: Result<
    String,
    MarkerError,
>)
    ensures
        result_text(r) == resolution(contents@, choices@),
{
    let segments = match parse_text_conflict_segments(contents) {
        Ok(segments) => segments,
        Err(e) => {
            return Err(e);
        },
    };
    let ghost segs = segment_texts(segments@);
    let block_count: usize = count_conflicts(&segments);
    if block_count == 0 {
        return Err(MarkerError::NoMarkers);
    }
    if choices.len() != block_count {
        return Err(
            MarkerError::ChoiceCountMismatch { got: choices.len(), expected: block_count },
        );
    }
    let mut output = String::new();
    let mut choice_idx: usize = 0;
    let mut i: usize = 0;
    assert(output@ =~= resolved(segs, choices@, 0));
    while i < segments.len()
        invariant
            i <= segments@.len(),
            segs == segment_texts(segments@),
            choices@.len() == conflict_count(segs, segments@.len() as int),
            choice_idx == conflict_count(segs, i as int),
            output@ == resolved(segs, choices@, i as int),
        decreases segments@.len() - i,
    {
        proof {
            assert(segs[i as int] == segments@[i as int]@);
            lemma_conflict_count_grows(segs, i as int + 1, segments@.len() as int);
        }
        match &segments[i] {
            TextConflictSegment::Context(context) => {
                output.append(context.as_str());
            },
            TextConflictSegment::Conflict(block) => {
                match choices[choice_idx] {
                    ResolveChoice::Ours => {
                        output.append(block.ours.as_str());
                    },
                    ResolveChoice::Theirs => {
                        output.append(block.theirs.as_str());
                    },
                    ResolveChoice::Both => {
                        output.append(block.ours.as_str());
                        output.append(block.theirs.as_str());
                    },
                }
                choice_idx = choice_idx + 1;
            },
        }
        assert(output@ =~= resolved(segs, choices@, i as int + 1));
        i = i + 1;
    }
    Ok(output)
}

/// `n` times the same choice.
pub open spec fn all_both(n: nat) -> Seq<ResolveChoice> {
    Seq::new(n, |i: int| ResolveChoice::Both)
}

/// How many conflicts a text holds (none, if its markers are malformed).
pub open spec fn block_count(s: Seq<char>) -> nat {
    match segments(s) {
        None => 0,
        Some(segs) => conflict_count(segs, segs.len() as int),
    }
}

/// Keeps both sides of every conflict of a text.
pub fn resolve_markers_with_both(contents: &str) -> (r: Result<String, MarkerError>)
    ensures
        result_text(r) == resolution(contents@, all_both(block_count(contents@))),
{
    let segments = match parse_text_conflict_segments(contents) {
        Ok(segments) => segments,
        Err(e) => {
            return Err(e);
        },
    };
    let n: usize = count_conflicts(&segments);
    let mut choices: Vec<ResolveChoice> = Vec::new();
    while choices.len() < n
        invariant
            choices@ == all_both(choices@.len()),
            choices@.len() <= n,
        decreases n - choices@.len(),
    {
        choices.push(ResolveChoice::Both);
        assert(choices@ =~= all_both(choices@.len()));
    }
    resolve_text_conflict_blocks(contents, choices.as_slice())
}

/// Whether any line of a text is a marker.
pub open spec fn has_markers(s: Seq<char>) -> bool {
    exists|i: int| 0 <= i < text::lines(s).len() && is_marker(#[trigger] text::lines(s)[i])
}

/// Looks for a line that is a marker.
pub fn contains_conflict_markers(contents: &str) -> (r: bool)
    ensures
        r == has_markers(contents@),
{
    let chars = text::chars_of(contents);
    let lines = text::lines_of(chars.as_slice());
    let ghost l = text::lines(contents@);
    let mut i: usize = 0;
    while i < lines.len()
        invariant
            i <= lines@.len(),
            text::pieces(lines@) == l,
            l == text::lines(contents@),
            forall|j: int| 0 <= j < i ==> !is_marker(#[trigger] l[j]),
        decreases lines@.len() - i,
    {
        assert(l[i as int] == lines@[i as int]@);
        if Run::Theirs.stops_at_line(&lines[i]) {
            return true;
        }
        i = i + 1;
    }
    false
}

// ---------------------------------------------------------------------------
// The three stages of an unmerged path
// ---------------------------------------------------------------------------

/// What the index holds of an unmerged path: the common ancestor, our side and
/// their side, as far as each exists.
#[derive(Debug, Clone, PartialEq, Eq)]
pub struct ConflictStageContent {
    pub base: Option<Vec<u8>>,
    pub ours: Option<Vec<u8>>,
    pub theirs: Option<Vec<u8>>,
}

impl Default for ConflictStageContent {
    fn default() -> (r: Self)
        ensures
            r.base is None,
            r.ours is None,
            r.theirs is None,
    {
        ConflictStageContent { base: None, ours: None, theirs: None }
    }
}

/// A stage of an unmerged path.
#[derive(Debug, Clone, Copy, PartialEq, Eq, Structural)]
pub enum Stage {
    Base,
    Ours,
    Theirs,
}

impl Stage {
    /// The name of the stage.
    pub open spec fn name_text(self) -> Seq<char> {
        match self {
            Stage::Base => "base"@,
            Stage::Ours => "ours"@,
            Stage::Theirs => "theirs"@,
        }
    }

    /// The message for a stage whose bytes are no text.
    pub fn not_text_message(&self) -> (r: String)
        ensures
            r@ == self.name_text() + " stage is not UTF-8 text"@,
    {
        let name = match self {
            Stage::Base => "base",
            Stage::Ours => "ours",
            Stage::Theirs => "theirs",
        };
        name.to_string().concat(" stage is not UTF-8 text")
    }
}

/// The words in which `String::from_utf8` tells why bytes are no text. They are only
/// named: they rest on the bytes alone.
pub uninterp spec fn utf8_complaint(bytes: Seq<u8>) -> Seq<char>;

/// The string that bytes encode (`String::from_utf8`): there is one exactly when
/// the bytes are valid UTF-8, and it holds the characters that they encode. Otherwise
/// the words of the error are given.
#[verifier::external_body]
pub(crate) fn utf8_text(bytes: Vec<u8>) -> (r: Result<String, String>)
    ensures
        r is Ok <==> vstd::utf8::valid_utf8(bytes@),
        r matches Ok(s) ==> s@ == vstd::utf8::decode_utf8(bytes@),
        r matches Err(e) ==> e@ == utf8_complaint(bytes@),
{
    match String::from_utf8(bytes) {
        Ok(s) => Ok(s),
        Err(e) => Err(e.to_string()),
    }
}

/// That a stage is no text, and why.
#[derive(Debug)]
pub struct NotText {
    pub stage: Stage,
    pub cause: String,
}

impl View for NotText {
    type V = (Stage, Seq<char>);

    open spec fn view(&self) -> (Stage, Seq<char>) {
        (self.stage, self.cause@)
    }
}

/// The parts of three versions of a text: what they share at the start, what is
/// left of each, and what they share at the end.
#[derive(Debug, Clone, PartialEq, Eq)]
pub struct StageTextRegions {
    pub prefix: String,
    pub base: Option<String>,
    pub ours: String,
    pub theirs: String,
    pub suffix: String,
}

/// The texts of stage regions.
pub struct Regions {
    pub prefix: Seq<char>,
    pub base: Option<Seq<char>>,
    pub ours: Seq<char>,
    pub theirs: Seq<char>,
    pub suffix: Seq<char>,
}

impl View for StageTextRegions {
    type V = Regions;

    open spec fn view(&self) -> Regions {
        Regions {
            prefix: self.prefix@,
            base: text::opt_text(self.base),
            ours: self.ours@,
            theirs: self.theirs@,
            suffix: self.suffix@,
        }
    }
}

/// The least of three lengths.
pub open spec fn min3(a: nat, b: nat, c: nat) -> nat {
    if a <= b && a <= c {
        a
    } else if b <= c {
        b
    } else {
        c
    }
}

/// How many lines from index `i` on are the same in all three versions.
pub open spec fn shared_start(
    b: Seq<Seq<char>>,
    o: Seq<Seq<char>>,
    t: Seq<Seq<char>>,
    i: nat,
) -> nat
    decreases min3(b.len(), o.len(), t.len()) - i,
{
    if i < min3(b.len(), o.len(), t.len()) && b[i as int] == o[i as int] && b[i as int]
        == t[i as int] {
        shared_start(b, o, t, i + 1)
    } else {
        i
    }
}

/// How many lines, counted from the end and at most `limit` of them, are the same
/// in all three versions; the last `i` are known to be.
pub open spec fn shared_end(
    b: Seq<Seq<char>>,
    o: Seq<Seq<char>>,
    t: Seq<Seq<char>>,
    limit: nat,
    i: nat,
) -> nat
    decreases limit - i,
{
    if i < limit && b[b.len() - 1 - i] == o[o.len() - 1 - i] && b[b.len() - 1 - i] == t[t.len() - 1
        - i] {
        shared_end(b, o, t, limit, i + 1)
    } else {
        i
    }
}

/// The regions of three versions given by their lines: the longest shared start,
/// then the longest shared end of what is left.
pub open spec fn line_regions(b: Seq<Seq<char>>, o: Seq<Seq<char>>, t: Seq<Seq<char>>) -> Regions {
    let p = shared_start(b, o, t, 0);
    let limit = (min3(b.len(), o.len(), t.len()) - p) as nat;
    let s = shared_end(b, o, t, limit, 0);
    Regions {
        prefix: text::concat(b.take(p as int)),
        base: Some(text::concat(b.subrange(p as int, b.len() - s))),
        ours: text::concat(o.subrange(p as int, o.len() - s)),
        theirs: text::concat(t.subrange(p as int, t.len() - s)),
        suffix: text::concat(b.skip(b.len() - s)),
    }
}

proof fn lemma_shared_start(b: Seq<Seq<char>>, o: Seq<Seq<char>>, t: Seq<Seq<char>>, i: nat)
    requires
        i <= min3(b.len(), o.len(), t.len()),
        forall|j: int| 0 <= j < i ==> b[j] == o[j] && b[j] == t[j],
    ensures
        i <= shared_start(b, o, t, i) <= min3(b.len(), o.len(), t.len()),
        forall|j: int|
            0 <= j < shared_start(b, o, t, i) ==> #[trigger] b[j] == o[j] && b[j] == t[j],
    decreases min3(b.len(), o.len(), t.len()) - i,
{
    if i < min3(b.len(), o.len(), t.len()) && b[i as int] == o[i as int] && b[i as int]
        == t[i as int] {
        lemma_shared_start(b, o, t, i + 1);
    }
}

proof fn lemma_shared_end(
    b: Seq<Seq<char>>,
    o: Seq<Seq<char>>,
    t: Seq<Seq<char>>,
    limit: nat,
    i: nat,
)
    requires
        i <= limit <= min3(b.len(), o.len(), t.len()),
        b.skip(b.len() - i) == o.skip(o.len() - i),
        b.skip(b.len() - i) == t.skip(t.len() - i),
    ensures
        i <= shared_end(b, o, t, limit, i) <= limit,
        ({
            let s = shared_end(b, o, t, limit, i);
            b.skip(b.len() - s) == o.skip(o.len() - s) && b.skip(b.len() - s) == t.skip(t.len() - s)
        }),
    decreases limit - i,
{
    if i < limit && b[b.len() - 1 - i] == o[o.len() - 1 - i] && b[b.len() - 1 - i] == t[t.len() - 1
        - i] {
        let k = (i + 1) as int;
        assert(b.skip(b.len() - k) =~= seq![b[b.len() - k]] + b.skip(b.len() - i));
        assert(o.skip(o.len() - k) =~= seq![o[o.len() - k]] + o.skip(o.len() - i));
        assert(t.skip(t.len() - k) =~= seq![t[t.len() - k]] + t.skip(t.len() - i));
        lemma_shared_end(b, o, t, limit, i + 1);
    }
}

/// Splits three versions of a text into shared start, differing middles and
/// shared end.
pub fn split_stage_text_regions(base: &str, ours: &str, theirs: &str) -> (r: StageTextRegions)
    ensures
        r@ == line_regions(
            text::lines_inclusive(base@),
            text::lines_inclusive(ours@),
            text::lines_inclusive(theirs@),
        ),
{
    let base_lines = text::split_inclusive_lines(text::chars_of(base).as_slice());
    let ours_lines = text::split_inclusive_lines(text::chars_of(ours).as_slice());
    let theirs_lines = text::split_inclusive_lines(text::chars_of(theirs).as_slice());
    let ghost b = text::pieces(base_lines@);
    let ghost o = text::pieces(ours_lines@);
    let ghost t = text::pieces(theirs_lines@);
    let mut min_len: usize = base_lines.len();
    if ours_lines.len() < min_len {
        min_len = ours_lines.len();
    }
    if theirs_lines.len() < min_len {
        min_len = theirs_lines.len();
    }
    assert(min_len == min3(b.len(), o.len(), t.len()));
    let mut prefix_len: usize = 0;
    while prefix_len < min_len && text::same(
        base_lines[prefix_len].as_slice(),
        ours_lines[prefix_len].as_slice(),
    ) && text::same(base_lines[prefix_len].as_slice(), theirs_lines[prefix_len].as_slice())
        invariant
            prefix_len <= min_len,
            b == text::pieces(base_lines@),
            o == text::pieces(ours_lines@),
            t == text::pieces(theirs_lines@),
            min_len == min3(b.len(), o.len(), t.len()),
            shared_start(b, o, t, 0) == shared_start(b, o, t, prefix_len as nat),
        decreases min_len - prefix_len,
    {
        assert(b[prefix_len as int] == base_lines@[prefix_len as int]@);
        assert(o[prefix_len as int] == ours_lines@[prefix_len as int]@);
        assert(t[prefix_len as int] == theirs_lines@[prefix_len as int]@);
        prefix_len = prefix_len + 1;
    }
    proof {
        lemma_shared_start(b, o, t, 0);
    }
    let limit: usize = min_len - prefix_len;
    let mut suffix_len: usize = 0;
    while suffix_len < limit && text::same(
        base_lines[base_lines.len() - 1 - suffix_len].as_slice(),
        ours_lines[ours_lines.len() - 1 - suffix_len].as_slice(),
    ) && text::same(
        base_lines[base_lines.len() - 1 - suffix_len].as_slice(),
        theirs_lines[theirs_lines.len() - 1 - suffix_len].as_slice(),
    )
        invariant
            suffix_len <= limit,
            limit <= min_len,
            b == text::pieces(base_lines@),
            o == text::pieces(ours_lines@),
            t == text::pieces(theirs_lines@),
            min_len == min3(b.len(), o.len(), t.len()),
            shared_end(b, o, t, limit as nat, 0) == shared_end(
                b,
                o,
                t,
                limit as nat,
                suffix_len as nat,
            ),
        decreases limit - suffix_len,
    {
        suffix_len = suffix_len + 1;
    }
    let base_mid_end: usize = base_lines.len() - suffix_len;
    let ours_mid_end: usize = ours_lines.len() - suffix_len;
    let theirs_mid_end: usize = theirs_lines.len() - suffix_len;
    StageTextRegions {
        prefix: text::concat_range(&base_lines, 0, prefix_len),
        base: Some(text::concat_range(&base_lines, prefix_len, base_mid_end)),
        ours: text::concat_range(&ours_lines, prefix_len, ours_mid_end),
        theirs: text::concat_range(&theirs_lines, prefix_len, theirs_mid_end),
        suffix: text::concat_range(&base_lines, base_mid_end, base_lines.len()),
    }
}

/// The text of a stage: the stage and why for bytes that are no text, and nothing for
/// a missing stage.
pub open spec fn stage_text(s: Option<Vec<u8>>, which: Stage) -> Result<
    Option<Seq<char>>,
    (Stage, Seq<char>),
> {
    match s {
        None => Ok(None),
        Some(v) => if vstd::utf8::valid_utf8(v@) {
            Ok(Some(vstd::utf8::decode_utf8(v@)))
        } else {
            Err((which, utf8_complaint(v@)))
        },
    }
}

/// The text of a stage, where a missing stage is empty.
pub open spec fn text_or_empty(t: Option<Seq<char>>) -> Seq<char> {
    match t {
        Some(s) => s,
        None => seq![],
    }
}

/// The regions of the three stages: split where all three have text, whole sides
/// without shared parts otherwise. A stage that is no text is named, with the reason.
pub open spec fn stage_regions(c: ConflictStageContent) -> Result<Regions, (Stage, Seq<char>)> {
    match stage_text(c.base, Stage::Base) {
        Err(e) => Err(e),
        Ok(base) => match stage_text(c.ours, Stage::Ours) {
            Err(e) => Err(e),
            Ok(ours) => match stage_text(c.theirs, Stage::Theirs) {
                Err(e) => Err(e),
                Ok(theirs) => {
                    let o = text_or_empty(ours);
                    let t = text_or_empty(theirs);
                    if base is Some && o.len() > 0 && t.len() > 0 {
                        Ok(
                            line_regions(
                                text::lines_inclusive(base->0),
                                text::lines_inclusive(o),
                                text::lines_inclusive(t),
                            ),
                        )
                    } else {
                        Ok(Regions { prefix: seq![], base, ours: o, theirs: t, suffix: seq![] })
                    }
                },
            },
        },
    }
}

fn decode_stage(s: Option<Vec<u8>>, which: Stage) -> (r: Result<Option<String>, NotText>)
    ensures
        match r {
            Ok(o) => stage_text(s, which) == Ok::<Option<Seq<char>>, (Stage, Seq<char>)>(
                text::opt_text(o),
            ),
            Err(e) => stage_text(s, which) == Err::<Option<Seq<char>>, (Stage, Seq<char>)>(e@),
        },
{
    match s {
        None => Ok(None),
        Some(bytes) => match utf8_text(bytes) {
            Ok(t) => Ok(Some(t)),
            Err(cause) => Err(NotText { stage: which, cause }),
        },
    }
}

/// The regions of the three stages of a path.
pub fn stage_text_regions(stages: ConflictStageContent) -> (r: Result<StageTextRegions, NotText>)
    ensures
        match r {
            Ok(v) => stage_regions(stages) == Ok::<Regions, (Stage, Seq<char>)>(v@),
            Err(e) => stage_regions(stages) == Err::<Regions, (Stage, Seq<char>)>(e@),
        },
{
    let base = match decode_stage(stages.base, Stage::Base) {
        Ok(t) => t,
        Err(e) => {
            return Err(e);
        },
    };
    let ours = match decode_stage(stages.ours, Stage::Ours) {
        Ok(Some(t)) => t,
        Ok(None) => String::new(),
        Err(e) => {
            return Err(e);
        },
    };
    let theirs = match decode_stage(stages.theirs, Stage::Theirs) {
        Ok(Some(t)) => t,
        Ok(None) => String::new(),
        Err(e) => {
            return Err(e);
        },
    };
    let empty_ours = text::is_empty_str(ours.as_str());
    let empty_theirs = text::is_empty_str(theirs.as_str());
    match base {
        Some(b) => if !empty_ours && !empty_theirs {
            Ok(split_stage_text_regions(b.as_str(), ours.as_str(), theirs.as_str()))
        } else {
            Ok(
                StageTextRegions {
                    prefix: String::new(),
                    base: Some(b),
                    ours,
                    theirs,
                    suffix: String::new(),
                },
            )
        },
        None => Ok(
            StageTextRegions {
                prefix: String::new(),
                base: None,
                ours,
                theirs,
                suffix: String::new(),
            },
        ),
    }
}

/// Both sides between what all versions share.
pub open spec fn both_sides(r: Regions) -> Seq<char> {
    r.prefix + r.ours + r.theirs + r.suffix
}

/// Keeps both sides of the three stages of a path; shared text is kept once.
pub fn resolve_stage_text_regions(stages: ConflictStageContent) -> (r: Result<String, NotText>)
    ensures
        match stage_regions(stages) {
            Ok(v) => r matches Ok(t) && t@ == both_sides(v),
            Err(why) => r matches Err(e) && e@ == why,
        },
{
    match stage_text_regions(stages) {
        Err(e) => Err(e),
        Ok(regions) => {
            let mut resolved = String::new();
            resolved.append(regions.prefix.as_str());
            resolved.append(regions.ours.as_str());
            resolved.append(regions.theirs.as_str());
            resolved.append(regions.suffix.as_str());
            assert(resolved@ =~= both_sides(regions@));
            Ok(resolved)
        },
    }
}

// ---------------------------------------------------------------------------
// Laws
// ---------------------------------------------------------------------------

/// Splitting three versions loses nothing and shares only what is common: each
/// version is the shared start, its own middle and the shared end.
pub proof fn regions_rebuild_every_version(base: Seq<char>, ours: Seq<char>, theirs: Seq<char>)
    ensures
        ({
            let r = line_regions(
                text::lines_inclusive(base),
                text::lines_inclusive(ours),
                text::lines_inclusive(theirs),
            );
            &&& r.base is Some
            &&& r.prefix + r.base->0 + r.suffix == base
            &&& r.prefix + r.ours + r.suffix == ours
            &&& r.prefix + r.theirs + r.suffix == theirs
        }),
{
    let b = text::lines_inclusive(base);
    let o = text::lines_inclusive(ours);
    let t = text::lines_inclusive(theirs);
    lemma_shared_start(b, o, t, 0);
    let p = shared_start(b, o, t, 0);
    let limit = (min3(b.len(), o.len(), t.len()) - p) as nat;
    assert(b.skip(b.len() as int) =~= seq![]);
    assert(o.skip(o.len() as int) =~= seq![]);
    assert(t.skip(t.len() as int) =~= seq![]);
    lemma_shared_end(b, o, t, limit, 0);
    let s = shared_end(b, o, t, limit, 0);
    assert(b.take(p as int) =~= o.take(p as int));
    assert(b.take(p as int) =~= t.take(p as int));
    lemma_three_parts(b, p as int, b.len() - s);
    lemma_three_parts(o, p as int, o.len() - s);
    lemma_three_parts(t, p as int, t.len() - s);
    text::lines_inclusive_rebuild(base);
    text::lines_inclusive_rebuild(ours);
    text::lines_inclusive_rebuild(theirs);
}

proof fn lemma_three_parts(l: Seq<Seq<char>>, i: int, j: int)
    requires
        0 <= i <= j <= l.len(),
    ensures
        text::concat(l.take(i)) + text::concat(l.subrange(i, j)) + text::concat(l.skip(j))
            == text::concat(l),
{
    text::lemma_concat_add(l.take(i), l.subrange(i, j));
    assert(l.take(i) + l.subrange(i, j) =~= l.take(j));
    text::lemma_concat_add(l.take(j), l.skip(j));
    assert(l.take(j) + l.skip(j) =~= l);
}

/// A text without an opening marker is one unchanged part: it has no conflict
/// blocks, and resolving it is refused.
pub proof fn no_opening_marker_no_conflict(s: Seq<char>, choices: Seq<ResolveChoice>)
    requires
        forall|i: int|
            0 <= i < text::lines_inclusive(s).len() ==> !is_start(
                #[trigger] text::lines_inclusive(s)[i],
            ),
    ensures
        segments(s) == Some(
            if s.len() == 0 {
                seq![]
            } else {
                seq![Segment::Context(s)]
            },
        ),
        block_count(s) == 0,
        resolution(s, choices) == Err::<Seq<char>, MarkerError>(MarkerError::NoMarkers),
{
    let l = text::lines_inclusive(s);
    lemma_no_start_run(l, 0);
    text::lines_inclusive_rebuild(s);
    text::lines_inclusive_shape(s);
    if s.len() == 0 {
        assert(l.len() == 0);
        assert(segments(s)->0 =~= seq![]);
    } else {
        if l.len() == 0 {
            assert(text::concat(l) =~= seq![]);
        }
        assert(l.subrange(0, l.len() as int) =~= l);
        assert(segments(s)->0 =~= seq![Segment::Context(s)]);
    }
    let segs = segments(s)->0;
    reveal_with_fuel(conflict_count, 2);
}

proof fn lemma_no_start_run(l: Seq<Seq<char>>, i: int)
    requires
        0 <= i <= l.len(),
        forall|k: int| 0 <= k < l.len() ==> !is_start(#[trigger] l[k]),
    ensures
        Run::Context.end(l, i) == l.len(),
    decreases l.len() - i,
{
    if i < l.len() {
        lemma_no_start_run(l, i + 1);
    }
}

/// Every conflict is shown once: a text has as many display blocks as choices
/// are asked for.
pub proof fn one_choice_per_display_block(segs: Seq<Segment>, n: int)
    requires
        0 <= n <= segs.len(),
    ensures
        display_blocks(segs, n).len() == conflict_count(segs, n),
    decreases n,
{
    if n > 0 {
        one_choice_per_display_block(segs, n - 1);
    }
}

/// The blocks are numbered in order, from zero.
pub proof fn blocks_are_numbered_in_order(s: Seq<char>)
    ensures
        segments(s) matches Some(segs) ==> forall|i: int|
            #![trigger display_blocks(segs, segs.len() as int)[i]]
            0 <= i < display_blocks(segs, segs.len() as int).len() ==> display_blocks(
                segs,
                segs.len() as int,
            )[i].index == i,
{
    let l = text::lines_inclusive(s);
    if segments(s) is Some {
        lemma_numbering(l, 0, 0);
        let segs = segments(s)->0;
        lemma_display_index(segs, segs.len() as int, 0);
    }
}

/// Segment `i` is the conflict with the number of conflicts before it plus `k`.
spec fn numbered(segs: Seq<Segment>, k: nat) -> bool {
    forall|i: int|
        #![trigger segs[i]]
        0 <= i < segs.len() && segs[i] is Conflict ==> segs[i]->Conflict_0.index == conflict_count(
            segs,
            i,
        ) + k
}

proof fn lemma_count_add(a: Seq<Segment>, b: Seq<Segment>, n: int)
    requires
        0 <= n <= b.len(),
    ensures
        conflict_count(a + b, a.len() + n) == conflict_count(a, a.len() as int) + conflict_count(
            b,
            n,
        ),
    decreases n,
{
    if n > 0 {
        lemma_count_add(a, b, n - 1);
        assert((a + b)[a.len() + n - 1] == b[n - 1]);
    } else {
        lemma_count_prefix(a, b, a.len() as int);
    }
}

proof fn lemma_count_prefix(a: Seq<Segment>, b: Seq<Segment>, n: int)
    requires
        0 <= n <= a.len(),
    ensures
        conflict_count(a + b, n) == conflict_count(a, n),
    decreases n,
{
    if n > 0 {
        lemma_count_prefix(a, b, n - 1);
        assert((a + b)[n - 1] == a[n - 1]);
    }
}

proof fn lemma_numbering(l: Seq<Seq<char>>, i: int, k: nat)
    requires
        0 <= i <= l.len(),
    ensures
        segments_from(l, i, k) matches Some(segs) ==> numbered(segs, k),
    decreases l.len() - i,
{
    if segments_from(l, i, k) is Some {
        lemma_run_end(Run::Context, l, i);
        lemma_span_ahead(l, i);
        let n = Run::Context.end(l, i);
        if n < l.len() {
            let s = block_span(l, n)->0;
            lemma_numbering(l, s.next, k + 1);
            let rest = segments_from(l, s.next, k + 1)->0;
            let context = if i < n {
                seq![Segment::Context(range_text(l, (i, n)))]
            } else {
                seq![]
            };
            let head = context + seq![Segment::Conflict(span_block(l, s, k))];
            let segs = head + rest;
            assert(segs =~= segments_from(l, i, k)->0);
            reveal_with_fuel(conflict_count, 3);
            assert(conflict_count(head, head.len() as int) == 1);
            assert forall|j: int|
                #![trigger segs[j]]
                0 <= j < segs.len() && segs[j] is Conflict implies segs[j]->Conflict_0.index
                == conflict_count(segs, j) + k by {
                if j < head.len() {
                    lemma_count_prefix(head, rest, j);
                    assert(segs[j] == head[j]);
                    assert(j == head.len() - 1);
                } else {
                    lemma_count_add(head, rest, j - head.len());
                    assert(segs[j] == rest[j - head.len()]);
                }
            }
        }
    }
}

proof fn lemma_display_index(segs: Seq<Segment>, n: int, k: nat)
    requires
        0 <= n <= segs.len(),
        numbered(segs, k),
    ensures
        display_blocks(segs, n).len() == conflict_count(segs, n),
        forall|i: int|
            #![trigger display_blocks(segs, n)[i]]
            0 <= i < display_blocks(segs, n).len() ==> display_blocks(segs, n)[i].index == i + k,
    decreases n,
{
    if n > 0 {
        lemma_display_index(segs, n - 1, k);
        assert(segs[n - 1] is Conflict ==> segs[n - 1]->Conflict_0.index == conflict_count(
            segs,
            n - 1,
        ) + k);
    }
}

/// Whether a line of a text opens a conflict.
pub open spec fn opens_conflict(s: Seq<char>) -> bool {
    exists|i: int|
        0 <= i < text::lines_inclusive(s).len() && is_start(#[trigger] text::lines_inclusive(s)[i])
}

/// Whether no side of ours that the choices keep opens a conflict itself.
pub open spec fn keeps_no_opening(segs: Seq<Segment>, choices: Seq<ResolveChoice>) -> bool {
    forall|i: int|
        #![trigger segs[i]]
        0 <= i < segs.len() && segs[i] is Conflict && choices[conflict_count(segs, i) as int]
            != ResolveChoice::Theirs ==> !opens_conflict(segs[i]->Conflict_0.ours)
}

/// A resolved text holds no conflict any more, so that resolving it again is
/// refused; only a side of ours with an opening marker of its own can bring one back.
pub proof fn resolving_leaves_no_conflict(
    s: Seq<char>,
    choices: Seq<ResolveChoice>,
    again: Seq<ResolveChoice>,
)
    requires
        resolution(s, choices) is Ok,
        keeps_no_opening(segments(s)->0, choices),
    ensures
        !opens_conflict(resolution(s, choices)->Ok_0),
        resolution(resolution(s, choices)->Ok_0, again) == Err::<Seq<char>, MarkerError>(
            MarkerError::NoMarkers,
        ),
{
    let l = text::lines_inclusive(s);
    text::lines_inclusive_shape(s);
    assert forall|k: int| 0 <= k < l.len() implies text::is_line(#[trigger] l[k]) by {}
    let kept = lemma_kept_lines(l, 0, 0, choices);
    text::cutting_undoes_putting_together(kept);
    no_opening_marker_no_conflict(resolution(s, choices)->Ok_0, again);
}

/// Whether each line ends with a line feed.
spec fn all_ended(l: Seq<Seq<char>>) -> bool {
    forall|k: int| 0 <= k < l.len() ==> text::is_line(#[trigger] l[k]) && l[k].last() == '\n'
}

spec fn no_start(l: Seq<Seq<char>>) -> bool {
    forall|k: int| 0 <= k < l.len() ==> !is_start(#[trigger] l[k])
}

proof fn lemma_range_ended(l: Seq<Seq<char>>, i: int, j: int)
    requires
        text::are_lines(l),
        0 <= i <= j < l.len(),
    ensures
        all_ended(l.subrange(i, j)),
        text::lines_inclusive(range_text(l, (i, j))) == l.subrange(i, j),
{
    let r = l.subrange(i, j);
    assert forall|k: int| 0 <= k < r.len() implies text::is_line(#[trigger] r[k]) && r[k].last()
        == '\n' by {
        assert(r[k] == l[i + k]);
    }
    text::cutting_undoes_putting_together(r);
}

proof fn lemma_run_has_none(r: Run, l: Seq<Seq<char>>, i: int)
    requires
        0 <= i <= l.len(),
    ensures
        forall|k: int| i <= k < r.end(l, i) ==> !r.stops_at(#[trigger] l[k]),
    decreases l.len() - i,
{
    if i < l.len() && !r.stops_at(l[i]) {
        lemma_run_has_none(r, l, i + 1);
    }
}

proof fn lemma_lines_add(a: Seq<Seq<char>>, b: Seq<Seq<char>>)
    requires
        all_ended(a),
        no_start(a),
        text::are_lines(b),
        no_start(b),
    ensures
        text::are_lines(a + b),
        no_start(a + b),
{
    let c = a + b;
    assert forall|k: int| 0 <= k < c.len() implies text::is_line(#[trigger] c[k]) && !is_start(
        c[k],
    ) by {
        if k < a.len() {
            assert(c[k] == a[k]);
        } else {
            assert(c[k] == b[k - a.len()]);
        }
    }
    assert forall|k: int| 0 <= k < c.len() - 1 implies (#[trigger] c[k]).last() == '\n' by {
        if k < a.len() {
            assert(c[k] == a[k]);
        } else {
            assert(c[k] == b[k - a.len()]);
        }
    }
}

proof fn lemma_resolved_prefix(
    a: Seq<Segment>,
    b: Seq<Segment>,
    choices: Seq<ResolveChoice>,
    n: int,
)
    requires
        0 <= n <= a.len(),
    ensures
        resolved(a + b, choices, n) == resolved(a, choices, n),
    decreases n,
{
    if n > 0 {
        lemma_resolved_prefix(a, b, choices, n - 1);
        lemma_count_prefix(a, b, n - 1);
        assert((a + b)[n - 1] == a[n - 1]);
    }
}

proof fn lemma_resolved_add(
    a: Seq<Segment>,
    b: Seq<Segment>,
    choices: Seq<ResolveChoice>,
    n: int,
)
    requires
        0 <= n <= b.len(),
        conflict_count(a, a.len() as int) + conflict_count(b, b.len() as int) <= choices.len(),
    ensures
        resolved(a + b, choices, a.len() + n) == resolved(a, choices, a.len() as int) + resolved(
            b,
            choices.skip(conflict_count(a, a.len() as int) as int),
            n,
        ),
    decreases n,
{
    let c = conflict_count(a, a.len() as int) as int;
    let first = resolved(a, choices, a.len() as int);
    if n > 0 {
        lemma_resolved_add(a, b, choices, n - 1);
        lemma_count_add(a, b, n - 1);
        assert((a + b)[a.len() + n - 1] == b[n - 1]);
        if b[n - 1] is Conflict {
            lemma_conflict_count_grows(b, n, b.len() as int);
            assert(choices.skip(c)[conflict_count(b, n - 1) as int] == choices[c + conflict_count(
                b,
                n - 1,
            )]);
        }
        assert(resolved(a + b, choices, a.len() + n) =~= first + resolved(b, choices.skip(c), n));
    } else {
        lemma_resolved_prefix(a, b, choices, a.len() as int);
        assert(first + resolved(b, choices.skip(c), 0) =~= first);
    }
}

proof fn lemma_later_keep_no_opening(
    head: Seq<Segment>,
    rest: Seq<Segment>,
    choices: Seq<ResolveChoice>,
)
    requires
        keeps_no_opening(head + rest, choices),
        conflict_count(head, head.len() as int) == 1,
        choices.len() == 1 + conflict_count(rest, rest.len() as int),
    ensures
        keeps_no_opening(rest, choices.skip(1)),
{
    let segs = head + rest;
    let later = choices.skip(1);
    assert forall|j: int|
        #![trigger rest[j]]
        0 <= j < rest.len() && rest[j] is Conflict && later[conflict_count(rest, j) as int]
            != ResolveChoice::Theirs implies !opens_conflict(rest[j]->Conflict_0.ours) by {
        lemma_count_add(head, rest, j);
        lemma_conflict_count_grows(rest, j + 1, rest.len() as int);
        assert(segs[head.len() + j] == rest[j]);
        assert(later[conflict_count(rest, j) as int] == choices[conflict_count(
            segs,
            head.len() + j,
        ) as int]);
    }
}

/// The first conflict with the unchanged text before it, if there is any.
spec fn first_part(unchanged: Option<Seq<char>>, b: Block) -> Seq<Segment> {
    match unchanged {
        Some(t) => seq![Segment::Context(t), Segment::Conflict(b)],
        None => seq![Segment::Conflict(b)],
    }
}

proof fn lemma_first_part(unchanged: Option<Seq<char>>, b: Block, choices: Seq<ResolveChoice>)
    ensures
        ({
            let head = first_part(unchanged, b);
            &&& conflict_count(head, head.len() as int) == 1
            &&& conflict_count(head, head.len() - 1) == 0
            &&& resolved(head, choices, head.len() as int) == match unchanged {
                Some(t) => t + chosen(b, choices[0]),
                None => chosen(b, choices[0]),
            }
        }),
{
    reveal_with_fuel(resolved, 3);
    reveal_with_fuel(conflict_count, 3);
    let head = first_part(unchanged, b);
    match unchanged {
        Some(t) => {
            assert(resolved(head, choices, 1) =~= t);
        },
        None => {
            assert(resolved(head, choices, 1) =~= chosen(b, choices[0]));
        },
    }
}

/// The lines that a choice keeps of a block.
spec fn taken(ours: Seq<Seq<char>>, theirs: Seq<Seq<char>>, c: ResolveChoice) -> Seq<Seq<char>> {
    match c {
        ResolveChoice::Ours => ours,
        ResolveChoice::Theirs => theirs,
        ResolveChoice::Both => ours + theirs,
    }
}

proof fn lemma_taken(ours: Seq<Seq<char>>, theirs: Seq<Seq<char>>, c: ResolveChoice, b: Block)
    requires
        all_ended(ours),
        all_ended(theirs),
        no_start(theirs),
        c != ResolveChoice::Theirs ==> no_start(ours),
        b.ours == text::concat(ours),
        b.theirs == text::concat(theirs),
    ensures
        all_ended(taken(ours, theirs, c)),
        no_start(taken(ours, theirs, c)),
        text::concat(taken(ours, theirs, c)) == chosen(b, c),
{
    let t = taken(ours, theirs, c);
    text::lemma_concat_add(ours, theirs);
    assert forall|j: int| 0 <= j < t.len() implies text::is_line(#[trigger] t[j]) && t[j].last()
        == '\n' && !is_start(t[j]) by {
        if c == ResolveChoice::Both {
            if j < ours.len() {
                assert(t[j] == ours[j]);
            } else {
                assert(t[j] == theirs[j - ours.len()]);
            }
        }
    }
}

/// The lines that a choice keeps of the block whose opening marker is line `n`.
proof fn lemma_block_kept(l: Seq<Seq<char>>, n: int, k: nat, c: ResolveChoice) -> (kept: Seq<
    Seq<char>,
>)
    requires
        text::are_lines(l),
        0 <= n < l.len(),
        block_span(l, n) is Some,
        c != ResolveChoice::Theirs ==> !opens_conflict(span_block(l, block_span(l, n)->0, k).ours),
    ensures
        all_ended(kept),
        no_start(kept),
        text::concat(kept) == chosen(span_block(l, block_span(l, n)->0, k), c),
{
    let sp = block_span(l, n)->0;
    let b = span_block(l, sp, k);
    lemma_run_end(Run::Ours, l, n + 1);
    let o = Run::Ours.end(l, n + 1);
    lemma_run_end(Run::Base, l, o + 1);
    let t0 = sp.theirs.0;
    let t1 = sp.theirs.1;
    lemma_run_end(Run::Theirs, l, t0);
    lemma_run_has_none(Run::Theirs, l, t0);
    let ours = l.subrange(n + 1, o);
    let theirs = l.subrange(t0, t1);
    lemma_range_ended(l, n + 1, o);
    lemma_range_ended(l, t0, t1);
    assert(no_start(theirs)) by {
        assert forall|j: int| 0 <= j < theirs.len() implies !is_start(#[trigger] theirs[j]) by {
            assert(theirs[j] == l[t0 + j]);
        }
    }
    if c != ResolveChoice::Theirs {
        assert(no_start(ours)) by {
            assert forall|j: int| 0 <= j < ours.len() implies !is_start(#[trigger] ours[j]) by {
                assert(text::lines_inclusive(b.ours)[j] == ours[j]);
            }
        }
    }
    lemma_taken(ours, theirs, c, b);
    taken(ours, theirs, c)
}

proof fn lemma_unchanged_lines(l: Seq<Seq<char>>, i: int)
    requires
        text::are_lines(l),
        0 <= i <= l.len(),
    ensures
        i <= Run::Context.end(l, i) <= l.len(),
        no_start(l.subrange(i, Run::Context.end(l, i))),
        Run::Context.end(l, i) < l.len() ==> all_ended(l.subrange(i, Run::Context.end(l, i))),
{
    let n = Run::Context.end(l, i);
    lemma_run_end(Run::Context, l, i);
    lemma_run_has_none(Run::Context, l, i);
    let unchanged = l.subrange(i, n);
    assert forall|j: int| 0 <= j < unchanged.len() implies !is_start(#[trigger] unchanged[j]) by {
        assert(unchanged[j] == l[i + j]);
    }
    if n < l.len() {
        lemma_range_ended(l, i, n);
    }
}

/// The lines that a resolution keeps of those from index `i` on.
proof fn lemma_kept_lines(
    l: Seq<Seq<char>>,
    i: int,
    k: nat,
    choices: Seq<ResolveChoice>,
) -> (kept: Seq<Seq<char>>)
    requires
        0 <= i <= l.len(),
        text::are_lines(l),
        segments_from(l, i, k) is Some,
        choices.len() == conflict_count(
            segments_from(l, i, k)->0,
            segments_from(l, i, k)->0.len() as int,
        ),
        keeps_no_opening(segments_from(l, i, k)->0, choices),
    ensures
        text::are_lines(kept),
        no_start(kept),
        text::concat(kept) == resolved(
            segments_from(l, i, k)->0,
            choices,
            segments_from(l, i, k)->0.len() as int,
        ),
    decreases l.len() - i,
{
    let segs = segments_from(l, i, k)->0;
    lemma_unchanged_lines(l, i);
    lemma_span_ahead(l, i);
    let n = Run::Context.end(l, i);
    let unchanged = l.subrange(i, n);
    if n >= l.len() {
        lemma_last_lines(l, i);
        lemma_only_unchanged(segs, unchanged, choices);
        unchanged
    } else {
        let sp = block_span(l, n)->0;
        let b = span_block(l, sp, k);
        let rest = segments_from(l, sp.next, k + 1)->0;
        let before = if i < n {
            Some(range_text(l, (i, n)))
        } else {
            None
        };
        let head = first_part(before, b);
        assert(segs =~= head + rest);
        lemma_first_part(before, b, choices);
        lemma_count_add(head, rest, rest.len() as int);
        lemma_later_keep_no_opening(head, rest, choices);
        let tail = lemma_kept_lines(l, sp.next, k + 1, choices.skip(1));
        lemma_resolved_add(head, rest, choices, rest.len() as int);
        let at = head.len() - 1;
        lemma_count_prefix(head, rest, at);
        assert(segs[at] == Segment::Conflict(b));
        let kept = lemma_block_kept(l, n, k, choices[0]);
        text::lemma_concat_add(kept, tail);
        text::lemma_concat_add(unchanged, kept + tail);
        lemma_lines_add(kept, tail);
        lemma_lines_add(unchanged, kept + tail);
        assert(text::concat(unchanged + (kept + tail)) =~= resolved(
            segs,
            choices,
            segs.len() as int,
        ));
        unchanged + (kept + tail)
    }
}

proof fn lemma_only_unchanged(
    segs: Seq<Segment>,
    unchanged: Seq<Seq<char>>,
    choices: Seq<ResolveChoice>,
)
    requires
        segs == if unchanged.len() > 0 {
            seq![Segment::Context(text::concat(unchanged))]
        } else {
            seq![]
        },
    ensures
        resolved(segs, choices, segs.len() as int) == text::concat(unchanged),
{
    reveal_with_fuel(resolved, 2);
    assert(resolved(segs, choices, segs.len() as int) =~= text::concat(unchanged));
}

proof fn lemma_last_lines(l: Seq<Seq<char>>, i: int)
    requires
        text::are_lines(l),
        0 <= i <= l.len(),
    ensures
        text::are_lines(l.subrange(i, l.len() as int)),
{
    let r = l.subrange(i, l.len() as int);
    assert forall|j: int| 0 <= j < r.len() implies text::is_line(#[trigger] r[j]) by {
        assert(r[j] == l[i + j]);
    }
    assert forall|j: int| 0 <= j < r.len() - 1 implies (#[trigger] r[j]).last() == '\n' by {
        assert(r[j] == l[i + j]);
    }
}

// ---------------------------------------------------------------------------
// Writing a conflicted text
// ---------------------------------------------------------------------------

/// The marker lines of a conflict block.
pub struct Markers {
    pub open: Seq<char>,
    pub base: Option<Seq<char>>,
    pub separator: Seq<char>,
    pub close: Seq<char>,
}

impl Markers {
    /// Whether each line is of its form, and there is one for the ancestor's part exactly
    /// where the block has that part.
    pub open spec fn frame(self, b: Block) -> bool {
        &&& is_start(self.open)
        &&& is_separator(self.separator)
        &&& is_end(self.close)
        &&& self.base is Some <==> b.base is Some
        &&& self.base is Some ==> is_base(self.base->0)
    }

    /// A block between its marker lines.
    pub open spec fn around(self, b: Block) -> Seq<char> {
        self.open + b.ours + (if self.base is Some && b.base is Some {
            self.base->0 + b.base->0
        } else {
            seq![]
        }) + self.separator + b.theirs + self.close
    }
}

/// Segments one behind the other, each conflict between marker lines.
pub open spec fn written(segs: Seq<Segment>, marks: Seq<Markers>) -> Seq<char>
    decreases segs.len(),
{
    if segs.len() == 0 {
        seq![]
    } else {
        match segs[0] {
            Segment::Context(c) => c + written(segs.skip(1), marks),
            Segment::Conflict(b) => marks[0].around(b) + written(segs.skip(1), marks.skip(1)),
        }
    }
}

proof fn lemma_range_then(l: Seq<Seq<char>>, i: int, j: int)
    requires
        0 <= i <= j <= l.len(),
    ensures
        text::concat(l.skip(i)) == range_text(l, (i, j)) + text::concat(l.skip(j)),
{
    text::lemma_concat_add(l.subrange(i, j), l.skip(j));
    assert(l.subrange(i, j) + l.skip(j) =~= l.skip(i));
}

proof fn lemma_line_then(l: Seq<Seq<char>>, i: int)
    requires
        0 <= i < l.len(),
    ensures
        text::concat(l.skip(i)) == l[i] + text::concat(l.skip(i + 1)),
{
    lemma_range_then(l, i, i + 1);
    assert(l.subrange(i, i + 1) =~= seq![l[i]]);
    text::lemma_concat_one(l[i]);
}

proof fn lemma_run_within(r: Run, l: Seq<Seq<char>>, i: int)
    requires
        text::are_lines(l),
        0 <= i <= l.len(),
    ensures
        ({
            let s = range_text(l, (i, r.end(l, i)));
            &&& within(r, s)
            &&& i < r.end(l, i) ==> s.len() > 0
            &&& r.end(l, i) < l.len() ==> whole_lines(s)
        }),
{
    let j = r.end(l, i);
    lemma_run_end(r, l, i);
    lemma_run_has_none(r, l, i);
    let part = l.subrange(i, j);
    let s = text::concat(part);
    assert forall|k: int| 0 <= k < part.len() implies text::is_line(#[trigger] part[k]) by {
        assert(part[k] == l[i + k]);
    }
    assert forall|k: int| 0 <= k < part.len() - 1 implies (#[trigger] part[k]).last() == '\n' by {
        assert(part[k] == l[i + k]);
    }
    text::cutting_undoes_putting_together(part);
    assert forall|k: int| 0 <= k < part.len() implies !r.stops_at(#[trigger] part[k]) by {
        assert(part[k] == l[i + k]);
    }
    if i < j {
        assert(s =~= text::concat(part.drop_last()) + part.last());
        assert(part.last() == l[j - 1]);
        assert(text::is_line(l[j - 1]));
    } else {
        assert(s =~= seq![]);
    }
}

proof fn lemma_span_written(l: Seq<Seq<char>>, n: int, k: nat) -> (m: Markers)
    requires
        text::are_lines(l),
        0 <= n < l.len(),
        is_start(l[n]),
        block_span(l, n) is Some,
    ensures
        n < block_span(l, n)->0.next <= l.len(),
        readable(span_block(l, block_span(l, n)->0, k), m),
        block_span(l, n)->0.next < l.len() ==> m.close.last() == '\n',
        text::concat(l.skip(n)) == m.around(span_block(l, block_span(l, n)->0, k))
            + text::concat(l.skip(block_span(l, n)->0.next)),
{
    let o = Run::Ours.end(l, n + 1);
    let has_base = o < l.len() && is_base(l[o]);
    lemma_run_end(Run::Ours, l, n + 1);
    lemma_run_end(Run::Base, l, o + 1);
    let b = Run::Base.end(l, o + 1);
    let s = if has_base {
        b
    } else {
        o
    };
    lemma_run_end(Run::Theirs, l, s + 1);
    let t = Run::Theirs.end(l, s + 1);
    let sp = block_span(l, n)->0;
    let block = span_block(l, sp, k);
    let m = Markers {
        open: l[n],
        base: if has_base {
            Some(l[o])
        } else {
            None
        },
        separator: l[s],
        close: l[t],
    };
    lemma_line_then(l, n);
    lemma_range_then(l, n + 1, o);
    lemma_run_within(Run::Ours, l, n + 1);
    if has_base {
        lemma_line_then(l, o);
        lemma_range_then(l, o + 1, b);
        lemma_run_within(Run::Base, l, o + 1);
    }
    lemma_run_within(Run::Theirs, l, s + 1);
    lemma_line_then(l, s);
    lemma_range_then(l, s + 1, t);
    lemma_line_then(l, t);
    let end = text::concat(l.skip(t + 1));
    let middle = if has_base {
        l[o] + range_text(l, (o + 1, b))
    } else {
        seq![]
    };
    assert(text::concat(l.skip(o)) =~= middle + text::concat(l.skip(s)));
    lemma_six_parts(l[n], block.ours, middle, l[s], block.theirs, l[t], end);
    m
}

proof fn lemma_six_parts(
    a: Seq<char>,
    b: Seq<char>,
    c: Seq<char>,
    d: Seq<char>,
    e: Seq<char>,
    f: Seq<char>,
    g: Seq<char>,
)
    ensures
        a + (b + (c + (d + (e + (f + g))))) == a + b + c + d + e + f + g,
{
    assert(e + (f + g) =~= e + f + g);
    assert(d + (e + f + g) =~= d + e + f + g);
    assert(c + (d + e + f + g) =~= c + d + e + f + g);
    assert(b + (c + d + e + f + g) =~= b + c + d + e + f + g);
    assert(a + (b + c + d + e + f + g) =~= a + b + c + d + e + f + g);
}

proof fn lemma_written_from(l: Seq<Seq<char>>, i: int, k: nat) -> (marks: Seq<Markers>)
    requires
        text::are_lines(l),
        0 <= i <= l.len(),
        segments_from(l, i, k) is Some,
    ensures
        can_be_read(segments_from(l, i, k)->0, marks, k),
        segments_from(l, i, k)->0.len() > 0 ==> i < l.len(),
        written(segments_from(l, i, k)->0, marks) == text::concat(l.skip(i)),
    decreases l.len() - i,
{
    let segs = segments_from(l, i, k)->0;
    lemma_run_end(Run::Context, l, i);
    lemma_span_ahead(l, i);
    lemma_run_within(Run::Context, l, i);
    let n = Run::Context.end(l, i);
    lemma_range_then(l, i, n);
    let context = if i < n {
        seq![Segment::Context(range_text(l, (i, n)))]
    } else {
        seq![]
    };
    if i == n {
        assert(l.subrange(i, n) =~= seq![]);
    }
    if n >= l.len() {
        assert(l.skip(n) =~= seq![]);
        let none = Seq::<Markers>::empty();
        assert(segs =~= context);
        assert(text::concat(l.skip(n)) =~= seq![]);
        if i < n {
            assert(segs.skip(1) =~= seq![]);
            assert(can_be_read(segs.skip(1), none, k));
            assert(written(segs.skip(1), none) =~= seq![]);
        }
        assert(can_be_read(segs, none, k));
        assert(written(segs, none) =~= text::concat(l.skip(i)));
        none
    } else {
        let m = lemma_span_written(l, n, k);
        let sp = block_span(l, n)->0;
        let b = span_block(l, sp, k);
        let more = lemma_written_from(l, sp.next, k + 1);
        let rest = segments_from(l, sp.next, k + 1)->0;
        let marks = seq![m] + more;
        assert(marks.skip(1) =~= more);
        let behind = seq![Segment::Conflict(b)] + rest;
        assert(behind.skip(1) =~= rest);
        assert(can_be_read(behind, marks, k));
        assert(written(behind, marks) == text::concat(l.skip(n)));
        if i < n {
            assert(segs.skip(1) =~= behind);
            assert(segs[1] == behind[0]);
        } else {
            assert(segs =~= behind);
            assert(range_text(l, (i, n)) + text::concat(l.skip(n)) =~= text::concat(l.skip(n)));
        }
        marks
    }
}

/// Parsing loses nothing but the marker lines: the segments of a text, each conflict
/// between the marker lines that are given back, are the text. Each marker is one line;
/// unchanged parts are not empty, do not follow each other and open no conflict; the
/// parts of a conflict are whole lines, none of which is a marker that would end it; and
/// conflicts are numbered in order.
pub proof fn segments_rebuild_the_text(s: Seq<char>) -> (marks: Seq<Markers>)
    requires
        segments(s) is Some,
    ensures
        can_be_read(segments(s)->0, marks, 0),
        written(segments(s)->0, marks) == s,
{
    let l = text::lines_inclusive(s);
    lemma_lines_are_lines(s);
    let marks = lemma_written_from(l, 0, 0);
    assert(l.skip(0) =~= l);
    marks
}

/// The unchanged parts of a text are not empty, no two stand side by side, and none
/// holds an opening marker.
pub proof fn unchanged_parts_stand_alone(s: Seq<char>, i: int)
    requires
        segments(s) is Some,
        0 <= i < segments(s)->0.len(),
    ensures
        match segments(s)->0[i] {
            Segment::Context(c) => {
                &&& c.len() > 0
                &&& !opens_conflict(c)
                &&& i + 1 < segments(s)->0.len() ==> segments(s)->0[i + 1] is Conflict
            },
            Segment::Conflict(_) => true,
        },
{
    let marks = segments_rebuild_the_text(s);
    if segments(s)->0[i] is Context {
        lemma_unchanged_part(segments(s)->0, marks, 0, i);
    }
}

proof fn lemma_unchanged_part(segs: Seq<Segment>, marks: Seq<Markers>, k: nat, i: int)
    requires
        can_be_read(segs, marks, k),
        0 <= i < segs.len(),
        segs[i] is Context,
    ensures
        segs[i]->Context_0.len() > 0,
        within(Run::Context, segs[i]->Context_0),
        i + 1 < segs.len() ==> segs[i + 1] is Conflict,
    decreases segs.len(),
{
    if i > 0 {
        let rest = segs.skip(1);
        assert(rest[i - 1] == segs[i]);
        if i + 1 < segs.len() {
            assert(rest[i] == segs[i + 1]);
        }
        match segs[0] {
            Segment::Context(_) => lemma_unchanged_part(rest, marks, k, i - 1),
            Segment::Conflict(_) => lemma_unchanged_part(rest, marks.skip(1), k + 1, i - 1),
        }
    }
}

/// Whether no line of a text ends a run of lines.
pub open spec fn within(r: Run, s: Seq<char>) -> bool {
    forall|i: int|
        0 <= i < text::lines_inclusive(s).len() ==> !r.stops_at(
            #[trigger] text::lines_inclusive(s)[i],
        )
}

/// Whether a text is empty or ends with a line feed.
pub open spec fn whole_lines(s: Seq<char>) -> bool {
    s.len() > 0 ==> s.last() == '\n'
}

/// Whether the parts of a block can be told from its marker lines: they are whole lines,
/// and no line of a part is a marker that would end it.
pub open spec fn readable(b: Block, m: Markers) -> bool {
    &&& m.frame(b)
    &&& text::is_line(m.open) && m.open.last() == '\n'
    &&& text::is_line(m.separator) && m.separator.last() == '\n'
    &&& text::is_line(m.close)
    &&& m.base is Some ==> text::is_line(m.base->0) && m.base->0.last() == '\n'
    &&& whole_lines(b.ours) && within(Run::Ours, b.ours)
    &&& whole_lines(b.theirs) && within(Run::Theirs, b.theirs)
    &&& b.base is Some ==> whole_lines(b.base->0) && within(Run::Base, b.base->0)
}

/// Whether segments can be read back from what is written of them: unchanged parts are
/// not empty, do not follow each other and open no conflict, conflicts are numbered from
/// `k` and can be told from their marker lines, and lines are whole but for the last.
pub open spec fn can_be_read(segs: Seq<Segment>, marks: Seq<Markers>, k: nat) -> bool
    decreases segs.len(),
{
    if segs.len() == 0 {
        marks.len() == 0
    } else {
        match segs[0] {
            Segment::Context(c) => {
                &&& c.len() > 0
                &&& within(Run::Context, c)
                &&& segs.len() > 1 ==> whole_lines(c) && segs[1] is Conflict
                &&& can_be_read(segs.skip(1), marks, k)
            },
            Segment::Conflict(b) => {
                &&& marks.len() > 0
                &&& readable(b, marks[0])
                &&& b.index == k
                &&& b.context_before.len() == 0
                &&& b.context_after.len() == 0
                &&& segs.len() > 1 ==> marks[0].close.last() == '\n'
                &&& can_be_read(segs.skip(1), marks.skip(1), k + 1)
            },
        }
    }
}

proof fn lemma_lines_are_lines(s: Seq<char>)
    ensures
        text::are_lines(text::lines_inclusive(s)),
        text::concat(text::lines_inclusive(s)) == s,
        s.len() > 0 <==> text::lines_inclusive(s).len() > 0,
        whole_lines(s) ==> all_ended(text::lines_inclusive(s)),
{
    let l = text::lines_inclusive(s);
    text::lines_inclusive_shape(s);
    text::lines_inclusive_rebuild(s);
    assert forall|i: int| 0 <= i < l.len() implies text::is_line(#[trigger] l[i]) by {}
    if l.len() > 0 {
        assert(text::concat(l) =~= text::concat(l.drop_last()) + l.last());
        assert(s.last() == l.last().last());
    } else {
        assert(text::concat(l) =~= seq![]);
    }
}

proof fn lemma_run_is(r: Run, l: Seq<Seq<char>>, i: int, j: int)
    requires
        0 <= i <= j <= l.len(),
        forall|k: int| i <= k < j ==> !r.stops_at(#[trigger] l[k]),
        j < l.len() ==> r.stops_at(l[j]),
    ensures
        r.end(l, i) == j,
    decreases j - i,
{
    if i < j {
        lemma_run_is(r, l, i + 1, j);
    }
}

/// The lines of a block between its marker lines.
spec fn block_lines(b: Block, m: Markers) -> Seq<Seq<char>> {
    seq![m.open] + text::lines_inclusive(b.ours) + (if m.base is Some {
        seq![m.base->0] + text::lines_inclusive(b.base->0)
    } else {
        seq![]
    }) + seq![m.separator] + text::lines_inclusive(b.theirs) + seq![m.close]
}

/// The lines of segments, each conflict between marker lines.
spec fn written_lines(segs: Seq<Segment>, marks: Seq<Markers>) -> Seq<Seq<char>>
    decreases segs.len(),
{
    if segs.len() == 0 {
        seq![]
    } else {
        match segs[0] {
            Segment::Context(c) => text::lines_inclusive(c) + written_lines(segs.skip(1), marks),
            Segment::Conflict(b) => block_lines(b, marks[0]) + written_lines(
                segs.skip(1),
                marks.skip(1),
            ),
        }
    }
}

proof fn lemma_lines_join(a: Seq<Seq<char>>, b: Seq<Seq<char>>)
    requires
        text::are_lines(a),
        b.len() > 0 ==> all_ended(a),
        text::are_lines(b),
    ensures
        text::are_lines(a + b),
        all_ended(a) && all_ended(b) ==> all_ended(a + b),
{
    let c = a + b;
    assert forall|k: int| 0 <= k < c.len() implies text::is_line(#[trigger] c[k]) by {
        if k < a.len() {
            assert(c[k] == a[k]);
        } else {
            assert(c[k] == b[k - a.len()]);
        }
    }
    assert forall|k: int| 0 <= k < c.len() - 1 implies (#[trigger] c[k]).last() == '\n' by {
        if k < a.len() {
            assert(c[k] == a[k]);
        } else {
            assert(c[k] == b[k - a.len()]);
        }
    }
    if all_ended(a) && all_ended(b) {
        assert forall|k: int| 0 <= k < c.len() implies text::is_line(#[trigger] c[k])
            && c[k].last() == '\n' by {
            if k < a.len() {
                assert(c[k] == a[k]);
            } else {
                assert(c[k] == b[k - a.len()]);
            }
        }
    }
}

proof fn lemma_one_line(l: Seq<char>)
    requires
        text::is_line(l),
    ensures
        text::are_lines(seq![l]),
        l.last() == '\n' ==> all_ended(seq![l]),
        text::concat(seq![l]) == l,
{
    text::lemma_concat_one(l);
}

proof fn lemma_block_lines(b: Block, m: Markers)
    requires
        readable(b, m),
    ensures
        text::are_lines(block_lines(b, m)),
        m.close.last() == '\n' ==> all_ended(block_lines(b, m)),
        text::concat(block_lines(b, m)) == m.around(b),
{
    let ours = text::lines_inclusive(b.ours);
    let theirs = text::lines_inclusive(b.theirs);
    lemma_lines_are_lines(b.ours);
    lemma_lines_are_lines(b.theirs);
    lemma_one_line(m.open);
    lemma_one_line(m.separator);
    lemma_one_line(m.close);
    let middle = if m.base is Some {
        lemma_one_line(m.base->0);
        lemma_lines_are_lines(b.base->0);
        let base = text::lines_inclusive(b.base->0);
        lemma_lines_join(seq![m.base->0], base);
        text::lemma_concat_add(seq![m.base->0], base);
        seq![m.base->0] + base
    } else {
        assert(text::concat(Seq::<Seq<char>>::empty()) =~= seq![]);
        Seq::<Seq<char>>::empty()
    };
    let a = seq![m.open] + ours;
    lemma_lines_join(seq![m.open], ours);
    text::lemma_concat_add(seq![m.open], ours);
    lemma_lines_join(a, middle);
    text::lemma_concat_add(a, middle);
    let c = a + middle;
    lemma_lines_join(c, seq![m.separator]);
    text::lemma_concat_add(c, seq![m.separator]);
    let d = c + seq![m.separator];
    lemma_lines_join(d, theirs);
    text::lemma_concat_add(d, theirs);
    let e = d + theirs;
    lemma_lines_join(e, seq![m.close]);
    text::lemma_concat_add(e, seq![m.close]);
    assert(text::concat(block_lines(b, m)) =~= m.around(b));
}

proof fn lemma_written_lines(segs: Seq<Segment>, marks: Seq<Markers>, k: nat)
    requires
        can_be_read(segs, marks, k),
    ensures
        text::are_lines(written_lines(segs, marks)),
        text::concat(written_lines(segs, marks)) == written(segs, marks),
    decreases segs.len(),
{
    if segs.len() == 0 {
        assert(text::concat(written_lines(segs, marks)) =~= seq![]);
    } else {
        let rest = segs.skip(1);
        if rest.len() == 0 {
            assert(written_lines(rest, marks) =~= seq![]);
            assert(written_lines(rest, marks.skip(1)) =~= seq![]);
        } else {
            assert(rest[0] == segs[1]);
        }
        match segs[0] {
            Segment::Context(c) => {
                lemma_lines_are_lines(c);
                lemma_written_lines(rest, marks, k);
                lemma_lines_join(text::lines_inclusive(c), written_lines(rest, marks));
                text::lemma_concat_add(text::lines_inclusive(c), written_lines(rest, marks));
            },
            Segment::Conflict(b) => {
                lemma_block_lines(b, marks[0]);
                lemma_written_lines(rest, marks.skip(1), k + 1);
                lemma_lines_join(block_lines(b, marks[0]), written_lines(rest, marks.skip(1)));
                text::lemma_concat_add(
                    block_lines(b, marks[0]),
                    written_lines(rest, marks.skip(1)),
                );
            },
        }
    }
}

proof fn lemma_markers_differ(l: Seq<char>)
    ensures
        is_separator(l) ==> !is_base(l) && !is_start(l) && !is_end(l),
        is_base(l) ==> !is_start(l) && !is_separator(l) && !is_end(l),
{
    reveal_strlit("<<<<<<<");
    reveal_strlit("|||||||");
    reveal_strlit("=======");
    reveal_strlit(">>>>>>>");
    if l.len() > 0 {
        if is_separator(l) {
            assert(l[0] == "======="@[0]);
        }
        if is_base(l) {
            assert(l[0] == "|||||||"@[0]);
        }
        if is_start(l) {
            assert(l[0] == "<<<<<<<"@[0]);
        }
        if is_end(l) {
            assert(l[0] == ">>>>>>>"@[0]);
        }
    }
}

proof fn lemma_block_read(l: Seq<Seq<char>>, n: int, b: Block, m: Markers, k: nat)
    requires
        0 <= n,
        n + block_lines(b, m).len() <= l.len(),
        l.subrange(n, n + block_lines(b, m).len()) == block_lines(b, m),
        readable(b, m),
        b.index == k,
        b.context_before.len() == 0,
        b.context_after.len() == 0,
    ensures
        block_span(l, n) matches Some(s) && s.next == n + block_lines(b, m).len() && span_block(
            l,
            s,
            k,
        ) == b,
{
    let p = block_lines(b, m);
    let ours = text::lines_inclusive(b.ours);
    let theirs = text::lines_inclusive(b.theirs);
    let base = text::lines_inclusive(b.base->0);
    lemma_markers_differ(m.separator);
    lemma_lines_are_lines(b.ours);
    lemma_lines_are_lines(b.theirs);
    assert forall|x: int| 0 <= x < p.len() implies #[trigger] l[n + x] == p[x] by {
        assert(l.subrange(n, n + p.len())[x] == p[x]);
    }
    let o = n + 1 + ours.len();
    assert forall|x: int| n + 1 <= x < o implies !Run::Ours.stops_at(#[trigger] l[x]) by {
        assert(l[n + (x - n)] == p[x - n]);
        assert(p[x - n] == ours[x - n - 1]);
    }
    let s = if m.base is Some {
        lemma_markers_differ(m.base->0);
        lemma_lines_are_lines(b.base->0);
        assert(l[n + (o - n)] == p[o - n]);
        assert(l[o] == m.base->0);
        let e = o + 1 + base.len();
        assert forall|x: int| o + 1 <= x < e implies !Run::Base.stops_at(#[trigger] l[x]) by {
            assert(l[n + (x - n)] == p[x - n]);
            assert(p[x - n] == base[x - o - 1]);
        }
        assert(l[n + (e - n)] == p[e - n]);
        assert(l[e] == m.separator);
        lemma_run_is(Run::Base, l, o + 1, e);
        assert(l.subrange(o + 1, e) =~= base) by {
            assert forall|x: int| 0 <= x < base.len() implies l.subrange(o + 1, e)[x]
                == base[x] by {
                assert(l[n + (o + 1 + x - n)] == p[o + 1 + x - n]);
            }
        }
        e
    } else {
        assert(l[n + (o - n)] == p[o - n]);
        assert(l[o] == m.separator);
        o
    };
    lemma_run_is(Run::Ours, l, n + 1, o);
    let t = s + 1 + theirs.len();
    assert forall|x: int| s + 1 <= x < t implies !Run::Theirs.stops_at(#[trigger] l[x]) by {
        assert(l[n + (x - n)] == p[x - n]);
        assert(p[x - n] == theirs[x - s - 1]);
    }
    assert(t - n == p.len() - 1);
    assert(l[n + (t - n)] == p[t - n]);
    assert(l[t] == m.close);
    lemma_run_is(Run::Theirs, l, s + 1, t);
    assert(l.subrange(n + 1, o) =~= ours) by {
        assert forall|x: int| 0 <= x < ours.len() implies l.subrange(n + 1, o)[x] == ours[x] by {
            assert(l[n + (1 + x)] == p[1 + x]);
        }
    }
    assert(l.subrange(s + 1, t) =~= theirs) by {
        assert forall|x: int| 0 <= x < theirs.len() implies l.subrange(s + 1, t)[x]
            == theirs[x] by {
            assert(l[n + (s + 1 + x - n)] == p[s + 1 + x - n]);
        }
    }
    let sp = block_span(l, n)->0;
    assert(b.context_before =~= seq![]);
    assert(b.context_after =~= seq![]);
    assert(span_block(l, sp, k).base == b.base);
}

proof fn lemma_read_from(l: Seq<Seq<char>>, i: int, segs: Seq<Segment>, marks: Seq<Markers>, k: nat)
    requires
        0 <= i <= l.len(),
        can_be_read(segs, marks, k),
        l.skip(i) == written_lines(segs, marks),
    ensures
        segments_from(l, i, k) == Some(segs),
    decreases segs.len(),
{
    if segs.len() == 0 {
        assert(l.skip(i).len() == 0);
        assert(segments_from(l, i, k)->0 =~= segs);
    } else {
        match segs[0] {
            Segment::Context(c) => {
                let lines = text::lines_inclusive(c);
                let rest = segs.skip(1);
                lemma_lines_are_lines(c);
                let n = i + lines.len();
                let more = written_lines(rest, marks);
                assert(l.skip(i) == lines + more);
                assert(l.skip(i).len() == lines.len() + more.len());
                assert forall|x: int| i <= x < n implies !Run::Context.stops_at(
                    #[trigger] l[x],
                ) by {
                    assert(l.skip(i)[x - i] == lines[x - i]);
                }
                assert(l.skip(n) =~= more) by {
                    assert forall|x: int| 0 <= x < more.len() implies l.skip(n)[x] == more[x] by {
                        assert(l.skip(i)[lines.len() + x] == more[x]);
                    }
                }
                assert(l.subrange(i, n) =~= lines) by {
                    assert forall|x: int| 0 <= x < lines.len() implies l.subrange(i, n)[x]
                        == lines[x] by {
                        assert(l.skip(i)[x] == lines[x]);
                    }
                }
                if rest.len() == 0 {
                    assert(more.len() == 0);
                    lemma_run_is(Run::Context, l, i, n);
                    assert(segments_from(l, i, k)->0 =~= segs);
                } else {
                    assert(rest[0] == segs[1]);
                    lemma_conflict_read(l, n, rest, marks, k);
                    lemma_run_is(Run::Context, l, i, n);
                    assert(segs =~= seq![Segment::Context(c)] + rest);
                    let tail = segments_from(l, block_span(l, n)->0.next, k + 1)->0;
                    assert(rest =~= seq![rest[0]] + tail);
                    assert(segments_from(l, i, k)->0 =~= segs);
                }
            },
            Segment::Conflict(b) => {
                lemma_conflict_read(l, i, segs, marks, k);
                lemma_run_is(Run::Context, l, i, i);
                let tail = segments_from(l, block_span(l, i)->0.next, k + 1)->0;
                assert(segs =~= seq![segs[0]] + tail);
                assert(segments_from(l, i, k)->0 =~= segs);
            },
        }
    }
}

proof fn lemma_conflict_read(
    l: Seq<Seq<char>>,
    n: int,
    segs: Seq<Segment>,
    marks: Seq<Markers>,
    k: nat,
)
    requires
        0 <= n <= l.len(),
        segs.len() > 0,
        segs[0] is Conflict,
        can_be_read(segs, marks, k),
        l.skip(n) == written_lines(segs, marks),
    ensures
        n < l.len(),
        is_start(l[n]),
        block_span(l, n) matches Some(s) && n < s.next <= l.len() && Segment::Conflict(
            span_block(l, s, k),
        ) == segs[0] && segments_from(l, s.next, k + 1) == Some(segs.skip(1)),
    decreases segs.len(), 0int,
{
    let b = segs[0]->Conflict_0;
    let m = marks[0];
    let p = block_lines(b, m);
    let more = written_lines(segs.skip(1), marks.skip(1));
    assert(l.skip(n).len() == p.len() + more.len());
    assert forall|x: int| 0 <= x < p.len() implies l[n + x] == p[x] by {
        assert(l.skip(n)[x] == p[x]);
    }
    assert(l[n + 0] == p[0]);
    assert(l.subrange(n, n + p.len()) =~= p);
    lemma_block_read(l, n, b, m, k);
    let next = n + p.len();
    assert(l.skip(next) =~= more) by {
        assert forall|x: int| 0 <= x < more.len() implies l.skip(next)[x] == more[x] by {
            assert(l.skip(n)[p.len() + x] == more[x]);
        }
    }
    lemma_read_from(l, next, segs.skip(1), marks.skip(1), k + 1);
}

/// Parsing gives back what was written: unchanged parts and conflicts between marker
/// lines are read as they were.
pub proof fn parsing_gives_back_what_was_written(segs: Seq<Segment>, marks: Seq<Markers>)
    requires
        can_be_read(segs, marks, 0),
    ensures
        segments(written(segs, marks)) == Some(segs),
{
    let l = written_lines(segs, marks);
    lemma_written_lines(segs, marks, 0);
    text::cutting_undoes_putting_together(l);
    assert(l.skip(0) =~= l);
    lemma_read_from(l, 0, segs, marks, 0);
}

proof fn lemma_one_conflict(
    before: Seq<char>,
    block: Block,
    markers: Markers,
    behind: Seq<char>,
) -> (segs: Seq<Segment>)
    requires
        readable(block, markers),
        block.index == 0,
        block.context_before.len() == 0,
        block.context_after.len() == 0,
        behind.len() > 0 ==> markers.close.last() == '\n',
        whole_lines(before) && within(Run::Context, before),
        within(Run::Context, behind),
    ensures
        segments(before + markers.around(block) + behind) == Some(segs),
        segs == (if before.len() > 0 {
            seq![Segment::Context(before)]
        } else {
            seq![]
        }) + seq![Segment::Conflict(block)] + (if behind.len() > 0 {
            seq![Segment::Context(behind)]
        } else {
            seq![]
        }),
{
    let marks = seq![markers];
    let none = Seq::<Markers>::empty();
    let last = if behind.len() > 0 {
        seq![Segment::Context(behind)]
    } else {
        seq![]
    };
    let tail = seq![Segment::Conflict(block)] + last;
    let segs = if before.len() > 0 {
        seq![Segment::Context(before)] + tail
    } else {
        tail
    };
    let whole = before + markers.around(block) + behind;
    assert(marks.skip(1) =~= none);
    assert(tail.skip(1) =~= last);
    if behind.len() > 0 {
        assert(last.skip(1) =~= seq![]);
        assert(can_be_read(last.skip(1), none, 1));
        assert(written(last.skip(1), none) =~= seq![]);
    }
    assert(can_be_read(last, none, 1));
    assert(written(last, none) =~= behind);
    assert(can_be_read(tail, marks, 0));
    assert(written(tail, marks) =~= markers.around(block) + behind);
    if before.len() > 0 {
        assert(segs.skip(1) =~= tail);
        assert(segs[1] == Segment::Conflict(block));
    }
    assert(can_be_read(segs, marks, 0));
    assert(written(segs, marks) =~= whole);
    parsing_gives_back_what_was_written(segs, marks);
    segs
}

/// Parsing a text that was written around one conflict gives its parts back, with the
/// last lines before it and the first behind it.
pub proof fn one_conflict_is_read_back(
    before: Seq<char>,
    block: Block,
    markers: Markers,
    behind: Seq<char>,
)
    requires
        readable(block, markers),
        block.index == 0,
        block.context_before.len() == 0,
        block.context_after.len() == 0,
        behind.len() > 0 ==> markers.close.last() == '\n',
        whole_lines(before) && within(Run::Context, before),
        within(Run::Context, behind),
    ensures
        ({
            let segs = segments(before + markers.around(block) + behind);
            &&& segs is Some
            &&& display_blocks(segs->0, segs->0.len() as int) == seq![
                Block {
                    context_before: tail_text(before, CONFLICT_DISPLAY_CONTEXT_LINES as nat),
                    context_after: head_text(behind, CONFLICT_DISPLAY_CONTEXT_LINES as nat),
                    ..block
                },
            ]
        }),
{
    let segs = lemma_one_conflict(before, block, markers, behind);
    lemma_lines_are_lines(before);
    lemma_lines_are_lines(behind);
    if before.len() == 0 {
        assert(text::concat(text::lines_inclusive(before).skip(0)) =~= seq![]);
    }
    if behind.len() == 0 {
        assert(text::concat(text::lines_inclusive(behind).take(0)) =~= seq![]);
    }
    reveal_with_fuel(display_blocks, 4);
    let d = display_blocks(segs, segs.len() as int);
    assert(d.len() == 1);
    assert(d[0].context_before =~= tail_text(before, CONFLICT_DISPLAY_CONTEXT_LINES as nat));
    assert(d[0].context_after =~= head_text(behind, CONFLICT_DISPLAY_CONTEXT_LINES as nat));
    assert(d =~= seq![
        Block {
            context_before: tail_text(before, CONFLICT_DISPLAY_CONTEXT_LINES as nat),
            context_after: head_text(behind, CONFLICT_DISPLAY_CONTEXT_LINES as nat),
            ..block
        },
    ]);
}

/// Whether a line of a text begins with some characters.
pub open spec fn has_line_with(s: Seq<char>, start: Seq<char>) -> bool {
    exists|i: int|
        0 <= i < text::lines_inclusive(s).len() && start.is_prefix_of(
            #[trigger] text::lines_inclusive(s)[i],
        )
}

/// Whether a text is one line with its line feed, and begins with some characters.
pub open spec fn is_line_with(l: Seq<char>, start: Seq<char>) -> bool {
    &&& start.is_prefix_of(l)
    &&& l.len() > 0 && l.last() == '\n'
    &&& forall|j: int| 0 <= j < l.len() - 1 ==> l[j] != '\n'
}

/// Resolving a text that was written around one conflict gives what stands before it,
/// the side that is kept, and what stands behind it: our side, their side, or our side
/// and behind it their side. The ancestor's part never stays. Any other number of choices
/// than one is refused.
pub proof fn a_conflict_gives_way_to_what_is_kept(
    before: Seq<char>,
    open: Seq<char>,
    ours: Seq<char>,
    base: Option<(Seq<char>, Seq<char>)>,
    separator: Seq<char>,
    theirs: Seq<char>,
    close: Seq<char>,
    behind: Seq<char>,
    others: Seq<ResolveChoice>,
)
    requires
        is_line_with(open, "<<<<<<<"@),
        base matches Some((m, b)) ==> is_line_with(m, "|||||||"@) && (b.len() == 0 || b.last()
            == '\n') && !has_line_with(b, "<<<<<<<"@) && !has_line_with(b, "======="@)
            && !has_line_with(b, ">>>>>>>"@),
        is_line_with(separator, "======="@),
        ">>>>>>>"@.is_prefix_of(close),
        forall|j: int| 0 <= j < close.len() - 1 ==> close[j] != '\n',
        behind.len() > 0 ==> close.last() == '\n',
        before.len() == 0 || before.last() == '\n',
        ours.len() == 0 || ours.last() == '\n',
        theirs.len() == 0 || theirs.last() == '\n',
        !has_line_with(before, "<<<<<<<"@),
        !has_line_with(ours, "|||||||"@),
        !has_line_with(ours, "======="@),
        !has_line_with(ours, ">>>>>>>"@),
        !has_line_with(theirs, "<<<<<<<"@),
        !has_line_with(theirs, "|||||||"@),
        !has_line_with(theirs, "======="@),
        !has_line_with(theirs, ">>>>>>>"@),
        !has_line_with(behind, "<<<<<<<"@),
    ensures
        ({
            let s = before + open + ours + (match base {
                Some((m, b)) => m + b,
                None => seq![],
            }) + separator + theirs + close + behind;
            &&& resolution(s, seq![ResolveChoice::Ours]) == Ok::<Seq<char>, MarkerError>(
                before + ours + behind,
            )
            &&& resolution(s, seq![ResolveChoice::Theirs]) == Ok::<Seq<char>, MarkerError>(
                before + theirs + behind,
            )
            &&& resolution(s, seq![ResolveChoice::Both]) == Ok::<Seq<char>, MarkerError>(
                before + ours + theirs + behind,
            )
            &&& others.len() != 1 ==> resolution(s, others) == Err::<Seq<char>, MarkerError>(
                MarkerError::ChoiceCountMismatch { got: others.len() as usize, expected: 1 },
            )
        }),
{
    let markers = Markers {
        open,
        base: match base {
            Some((m, _)) => Some(m),
            None => None,
        },
        separator,
        close,
    };
    let block = Block {
        index: 0,
        context_before: seq![],
        base: match base {
            Some((_, b)) => Some(b),
            None => None,
        },
        ours,
        theirs,
        context_after: seq![],
    };
    lemma_readable(block, markers, before, behind);
    let segs = lemma_one_conflict(before, block, markers, behind);
    let middle = match base {
        Some((m, b)) => m + b,
        None => seq![],
    };
    lemma_eight_parts(before, open, ours, middle, separator, theirs, close, behind);
    assert(markers.around(block) == open + ours + middle + separator + theirs + close);
    lemma_resolved_one(segs, before, block, behind, ResolveChoice::Ours);
    lemma_resolved_one(segs, before, block, behind, ResolveChoice::Theirs);
    lemma_resolved_one(segs, before, block, behind, ResolveChoice::Both);
    assert(before + (ours + theirs) + behind =~= before + ours + theirs + behind);
}

proof fn lemma_eight_parts(
    a: Seq<char>,
    b: Seq<char>,
    c: Seq<char>,
    d: Seq<char>,
    e: Seq<char>,
    f: Seq<char>,
    g: Seq<char>,
    h: Seq<char>,
)
    ensures
        a + b + c + d + e + f + g + h == a + (b + c + d + e + f + g) + h,
{
    assert(a + b + c =~= a + (b + c));
    assert(a + (b + c) + d =~= a + (b + c + d));
    assert(a + (b + c + d) + e =~= a + (b + c + d + e));
    assert(a + (b + c + d + e) + f =~= a + (b + c + d + e + f));
    assert(a + (b + c + d + e + f) + g =~= a + (b + c + d + e + f + g));
}

proof fn lemma_readable(b: Block, m: Markers, before: Seq<char>, behind: Seq<char>)
    requires
        is_line_with(m.open, "<<<<<<<"@),
        m.base is Some <==> b.base is Some,
        m.base is Some ==> is_line_with(m.base->0, "|||||||"@) && whole_lines(b.base->0)
            && !has_line_with(b.base->0, "<<<<<<<"@) && !has_line_with(b.base->0, "======="@)
            && !has_line_with(b.base->0, ">>>>>>>"@),
        is_line_with(m.separator, "======="@),
        ">>>>>>>"@.is_prefix_of(m.close),
        forall|j: int| 0 <= j < m.close.len() - 1 ==> m.close[j] != '\n',
        whole_lines(b.ours),
        whole_lines(b.theirs),
        !has_line_with(before, "<<<<<<<"@),
        !has_line_with(b.ours, "|||||||"@),
        !has_line_with(b.ours, "======="@),
        !has_line_with(b.ours, ">>>>>>>"@),
        !has_line_with(b.theirs, "<<<<<<<"@),
        !has_line_with(b.theirs, "|||||||"@),
        !has_line_with(b.theirs, "======="@),
        !has_line_with(b.theirs, ">>>>>>>"@),
        !has_line_with(behind, "<<<<<<<"@),
    ensures
        readable(b, m),
        within(Run::Context, before),
        within(Run::Context, behind),
{
    reveal_strlit(">>>>>>>");
}

proof fn lemma_resolved_one(
    segs: Seq<Segment>,
    before: Seq<char>,
    b: Block,
    behind: Seq<char>,
    c: ResolveChoice,
)
    requires
        segs == (if before.len() > 0 {
            seq![Segment::Context(before)]
        } else {
            seq![]
        }) + seq![Segment::Conflict(b)] + (if behind.len() > 0 {
            seq![Segment::Context(behind)]
        } else {
            seq![]
        }),
    ensures
        conflict_count(segs, segs.len() as int) == 1,
        resolved(segs, seq![c], segs.len() as int) == before + chosen(b, c) + behind,
{
    reveal_with_fuel(conflict_count, 4);
    reveal_with_fuel(resolved, 4);
    assert(resolved(segs, seq![c], segs.len() as int) =~= before + chosen(b, c) + behind);
}

/// How many conflicts stand in the lines from index `i` on, if their markers are well
/// formed.
spec fn conflicts_from(l: Seq<Seq<char>>, i: int) -> Option<nat>
    decreases l.len() - i,
        when 0 <= i <= l.len()
{
    let n = Run::Context.end(l, i);
    if n >= l.len() {
        Some(0)
    } else {
        match block_span(l, n) {
            None => None,
            Some(s) => {
                proof {
                    lemma_span_ahead(l, i);
                }
                match conflicts_from(l, s.next) {
                    None => None,
                    Some(k) => Some(k + 1),
                }
            },
        }
    }
}

/// What choices keep of the lines from index `i` on.
spec fn kept_from(l: Seq<Seq<char>>, i: int, c: Seq<ResolveChoice>) -> Seq<char>
    decreases l.len() - i,
        when 0 <= i <= l.len()
{
    let n = Run::Context.end(l, i);
    if n >= l.len() {
        range_text(l, (i, l.len() as int))
    } else {
        match block_span(l, n) {
            None => seq![],
            Some(s) => {
                proof {
                    lemma_span_ahead(l, i);
                }
                range_text(l, (i, n)) + (chosen(span_block(l, s, 0), c[0]) + kept_from(
                    l,
                    s.next,
                    c.skip(1),
                ))
            },
        }
    }
}

proof fn lemma_kept_from(l: Seq<Seq<char>>, i: int, k: nat, c: Seq<ResolveChoice>)
    requires
        0 <= i <= l.len(),
    ensures
        segments_from(l, i, k) is Some <==> conflicts_from(l, i) is Some,
        segments_from(l, i, k) matches Some(s) ==> {
            &&& conflict_count(s, s.len() as int) == conflicts_from(l, i)->0
            &&& c.len() == conflicts_from(l, i)->0 ==> resolved(s, c, s.len() as int) == kept_from(
                l,
                i,
                c,
            )
        },
    decreases l.len() - i,
{
    lemma_run_end(Run::Context, l, i);
    lemma_span_ahead(l, i);
    let n = Run::Context.end(l, i);
    let none = l.subrange(i, i);
    assert(none =~= seq![]);
    if n >= l.len() {
        let s = segments_from(l, i, k)->0;
        reveal_with_fuel(resolved, 2);
        reveal_with_fuel(conflict_count, 2);
        if i < n {
            assert(resolved(s, c, 1) =~= range_text(l, (i, n)));
        } else {
            assert(l.subrange(i, l.len() as int) =~= none);
            assert(resolved(s, c, 0) =~= range_text(l, (i, n)));
        }
    } else if let Some(sp) = block_span(l, n) {
        lemma_kept_from(l, sp.next, k + 1, c.skip(1));
        if segments_from(l, i, k) is Some {
            let b = span_block(l, sp, k);
            let rest = segments_from(l, sp.next, k + 1)->0;
            let before = if i < n {
                Some(range_text(l, (i, n)))
            } else {
                None
            };
            let head = first_part(before, b);
            assert(segments_from(l, i, k)->0 =~= head + rest);
            lemma_first_part(before, b, c);
            lemma_count_add(head, rest, rest.len() as int);
            if c.len() == conflicts_from(l, i)->0 {
                lemma_resolved_add(head, rest, c, rest.len() as int);
                let later = kept_from(l, sp.next, c.skip(1));
                let here = chosen(span_block(l, sp, 0), c[0]);
                assert(chosen(b, c[0]) == here);
                if i == n {
                    assert(range_text(l, (i, n)) =~= seq![]);
                }
                assert(resolved(head + rest, c, (head + rest).len() as int) =~= range_text(
                    l,
                    (i, n),
                ) + (here + later));
            }
        }
    }
}

proof fn lemma_run_over(r: Run, a: Seq<Seq<char>>, b: Seq<Seq<char>>, i: int)
    requires
        0 <= i <= a.len(),
    ensures
        r.end(a + b, i) == if r.end(a, i) < a.len() {
            r.end(a, i)
        } else {
            a.len() + r.end(b, 0)
        },
    decreases a.len() - i,
{
    let l = a + b;
    if i < a.len() {
        assert(l[i] == a[i]);
        if !r.stops_at(a[i]) {
            lemma_run_over(r, a, b, i + 1);
        }
    } else {
        lemma_run_shift(r, a, b, 0);
    }
}

proof fn lemma_run_shift(r: Run, a: Seq<Seq<char>>, b: Seq<Seq<char>>, j: int)
    requires
        0 <= j,
    ensures
        r.end(a + b, a.len() + j) == a.len() + r.end(b, j),
    decreases b.len() - j,
{
    if j < b.len() {
        assert((a + b)[a.len() + j] == b[j]);
        if !r.stops_at(b[j]) {
            lemma_run_shift(r, a, b, j + 1);
        }
    }
}

proof fn lemma_range_shift(a: Seq<Seq<char>>, b: Seq<Seq<char>>, i: int, j: int)
    requires
        0 <= i <= j <= b.len(),
    ensures
        range_text(a + b, (a.len() + i, a.len() + j)) == range_text(b, (i, j)),
{
    assert((a + b).subrange(a.len() + i, a.len() + j) =~= b.subrange(i, j));
}

proof fn lemma_range_same(a: Seq<Seq<char>>, b: Seq<Seq<char>>, i: int, j: int)
    requires
        0 <= i <= j <= a.len(),
    ensures
        range_text(a + b, (i, j)) == range_text(a, (i, j)),
{
    assert((a + b).subrange(i, j) =~= a.subrange(i, j));
}

proof fn lemma_span_shift(a: Seq<Seq<char>>, b: Seq<Seq<char>>, j: int)
    requires
        0 <= j < b.len(),
    ensures
        block_span(a + b, a.len() + j) is Some <==> block_span(b, j) is Some,
        block_span(b, j) matches Some(s) ==> {
            let t = block_span(a + b, a.len() + j)->0;
            &&& t.next == a.len() + s.next
            &&& span_block(a + b, t, 0).ours == span_block(b, s, 0).ours
            &&& span_block(a + b, t, 0).theirs == span_block(b, s, 0).theirs
        },
{
    let l = a + b;
    let n = a.len() as int;
    lemma_run_end(Run::Ours, b, j + 1);
    lemma_run_shift(Run::Ours, a, b, j + 1);
    let o = Run::Ours.end(b, j + 1);
    lemma_run_end(Run::Base, b, o + 1);
    lemma_run_shift(Run::Base, a, b, o + 1);
    if o < b.len() {
        assert(l[n + o] == b[o]);
    }
    let has_base = o < b.len() && is_base(b[o]);
    let s = if has_base {
        Run::Base.end(b, o + 1)
    } else {
        o
    };
    if s < b.len() {
        assert(l[n + s] == b[s]);
        lemma_run_end(Run::Theirs, b, s + 1);
        lemma_run_shift(Run::Theirs, a, b, s + 1);
        let t = Run::Theirs.end(b, s + 1);
        if t < b.len() {
            assert(l[n + t] == b[t]);
            lemma_range_shift(a, b, j + 1, o);
            lemma_range_shift(a, b, s + 1, t);
        }
    }
}

proof fn lemma_span_same(a: Seq<Seq<char>>, b: Seq<Seq<char>>, i: int)
    requires
        0 <= i < a.len(),
        block_span(a, i) is Some,
    ensures
        block_span(a + b, i) is Some,
        ({
            let s = block_span(a, i)->0;
            let t = block_span(a + b, i)->0;
            &&& t.next == s.next
            &&& span_block(a + b, t, 0).ours == span_block(a, s, 0).ours
            &&& span_block(a + b, t, 0).theirs == span_block(a, s, 0).theirs
        }),
{
    let l = a + b;
    lemma_run_end(Run::Ours, a, i + 1);
    lemma_run_over(Run::Ours, a, b, i + 1);
    let o = Run::Ours.end(a, i + 1);
    lemma_run_end(Run::Base, a, o + 1);
    let has_base = o < a.len() && is_base(a[o]);
    let s = if has_base {
        Run::Base.end(a, o + 1)
    } else {
        o
    };
    assert(l[o] == a[o]);
    if has_base {
        lemma_run_over(Run::Base, a, b, o + 1);
    }
    assert(l[s] == a[s]);
    lemma_run_end(Run::Theirs, a, s + 1);
    lemma_run_over(Run::Theirs, a, b, s + 1);
    let t = Run::Theirs.end(a, s + 1);
    assert(l[t] == a[t]);
    lemma_range_same(a, b, i + 1, o);
    lemma_range_same(a, b, s + 1, t);
}

proof fn lemma_kept_shift(a: Seq<Seq<char>>, b: Seq<Seq<char>>, j: int, c: Seq<ResolveChoice>)
    requires
        0 <= j <= b.len(),
    ensures
        conflicts_from(a + b, a.len() + j) == conflicts_from(b, j),
        kept_from(a + b, a.len() + j, c) == kept_from(b, j, c),
    decreases b.len() - j,
{
    lemma_run_end(Run::Context, b, j);
    lemma_run_shift(Run::Context, a, b, j);
    lemma_span_ahead(b, j);
    let n = Run::Context.end(b, j);
    lemma_range_shift(a, b, j, n);
    if n < b.len() {
        lemma_span_shift(a, b, n);
        if let Some(s) = block_span(b, n) {
            lemma_kept_shift(a, b, s.next, c.skip(1));
        }
    }
}

proof fn lemma_kept_add(
    a: Seq<Seq<char>>,
    b: Seq<Seq<char>>,
    i: int,
    ca: Seq<ResolveChoice>,
    cb: Seq<ResolveChoice>,
)
    requires
        0 <= i <= a.len(),
        conflicts_from(a, i) == Some(ca.len()),
        conflicts_from(b, 0) == Some(cb.len()),
    ensures
        conflicts_from(a + b, i) == Some(ca.len() + cb.len()),
        kept_from(a + b, i, ca + cb) == kept_from(a, i, ca) + kept_from(b, 0, cb),
    decreases a.len() - i,
{
    let l = a + b;
    let c = ca + cb;
    lemma_run_end(Run::Context, a, i);
    lemma_run_over(Run::Context, a, b, i);
    lemma_span_ahead(a, i);
    lemma_span_ahead(l, i);
    let n = Run::Context.end(a, i);
    if n < a.len() {
        let s = block_span(a, n)->0;
        lemma_span_same(a, b, n);
        lemma_range_same(a, b, i, n);
        lemma_kept_add(a, b, s.next, ca.skip(1), cb);
        assert(c.skip(1) =~= ca.skip(1) + cb);
        assert(c[0] == ca[0]);
        let x = range_text(a, (i, n));
        let y = chosen(span_block(a, s, 0), ca[0]);
        let z = kept_from(a, s.next, ca.skip(1));
        let w = kept_from(b, 0, cb);
        assert(x + (y + (z + w)) =~= x + (y + z) + w);
    } else {
        assert(c =~= cb);
        lemma_run_end(Run::Context, b, 0);
        lemma_span_ahead(b, 0);
        let e = Run::Context.end(b, 0);
        let end = a.len() as int;
        assert(l.subrange(i, end + e) =~= a.subrange(i, end) + b.subrange(0, e));
        text::lemma_concat_add(a.subrange(i, end), b.subrange(0, e));
        let x = range_text(a, (i, end));
        let y = range_text(b, (0, e));
        if e < b.len() {
            lemma_span_shift(a, b, e);
            let s = block_span(b, e)->0;
            lemma_kept_shift(a, b, s.next, cb.skip(1));
            let z = chosen(span_block(b, s, 0), cb[0]);
            let w = kept_from(b, s.next, cb.skip(1));
            assert(x + y + (z + w) =~= x + (y + (z + w)));
        }
    }
}

/// The lines of two texts, the first of whole lines, are those of each.
pub proof fn lemma_lines_of_both(a: Seq<char>, b: Seq<char>)
    requires
        whole_lines(a),
    ensures
        text::lines_inclusive(a + b) == text::lines_inclusive(a) + text::lines_inclusive(b),
{
    let la = text::lines_inclusive(a);
    let lb = text::lines_inclusive(b);
    lemma_lines_are_lines(a);
    lemma_lines_are_lines(b);
    lemma_lines_join(la, lb);
    text::lemma_concat_add(la, lb);
    text::cutting_undoes_putting_together(la + lb);
}

proof fn lemma_nothing_to_resolve(a: Seq<char>)
    requires
        !has_line_with(a, "<<<<<<<"@),
    ensures
        conflicts_from(text::lines_inclusive(a), 0) == Some(0nat),
        kept_from(text::lines_inclusive(a), 0, seq![]) == a,
{
    let l = text::lines_inclusive(a);
    lemma_lines_are_lines(a);
    lemma_run_is(Run::Context, l, 0, l.len() as int);
    assert(l.subrange(0, l.len() as int) =~= l);
}

/// A text is resolved part by part: what is kept of two texts one behind the other is
/// what is kept of the first and behind it what is kept of the second, each by its own
/// choices in their order. Text without a conflict stays as it is.
pub proof fn resolving_goes_part_by_part(
    a: Seq<char>,
    b: Seq<char>,
    ca: Seq<ResolveChoice>,
    cb: Seq<ResolveChoice>,
)
    requires
        a.len() == 0 || a.last() == '\n',
    ensures
        resolution(a, ca) is Ok && resolution(b, cb) is Ok ==> resolution(a + b, ca + cb) == Ok::<
            Seq<char>,
            MarkerError,
        >(resolution(a, ca)->Ok_0 + resolution(b, cb)->Ok_0),
        resolution(a, ca) is Ok && !has_line_with(b, "<<<<<<<"@) ==> resolution(a + b, ca) == Ok::<
            Seq<char>,
            MarkerError,
        >(resolution(a, ca)->Ok_0 + b),
        !has_line_with(a, "<<<<<<<"@) && resolution(b, cb) is Ok ==> resolution(a + b, cb) == Ok::<
            Seq<char>,
            MarkerError,
        >(a + resolution(b, cb)->Ok_0),
{
    let la = text::lines_inclusive(a);
    let lb = text::lines_inclusive(b);
    let none = Seq::<ResolveChoice>::empty();
    lemma_lines_of_both(a, b);
    lemma_kept_from(la, 0, 0, ca);
    lemma_kept_from(lb, 0, 0, cb);
    if resolution(a, ca) is Ok && resolution(b, cb) is Ok {
        lemma_kept_add(la, lb, 0, ca, cb);
        lemma_kept_from(la + lb, 0, 0, ca + cb);
    }
    if resolution(a, ca) is Ok && !has_line_with(b, "<<<<<<<"@) {
        lemma_nothing_to_resolve(b);
        lemma_kept_add(la, lb, 0, ca, none);
        assert(ca + none =~= ca);
        lemma_kept_from(la + lb, 0, 0, ca);
    }
    if !has_line_with(a, "<<<<<<<"@) && resolution(b, cb) is Ok {
        lemma_nothing_to_resolve(a);
        lemma_kept_add(la, lb, 0, none, cb);
        assert(none + cb =~= cb);
        lemma_kept_from(la + lb, 0, 0, cb);
    }
}

/// The parts that three versions share are the longest ones: where each version has a
/// line of its own between them, the first of these lines are not all the same, and
/// neither are the last.
pub proof fn nothing_shared_is_left_between(base: Seq<char>, ours: Seq<char>, theirs: Seq<char>)
    ensures
        ({
            let r = line_regions(
                text::lines_inclusive(base),
                text::lines_inclusive(ours),
                text::lines_inclusive(theirs),
            );
            let b = text::lines_inclusive(r.base->0);
            let o = text::lines_inclusive(r.ours);
            let t = text::lines_inclusive(r.theirs);
            b.len() > 0 && o.len() > 0 && t.len() > 0 ==> {
                &&& !(b[0] == o[0] && b[0] == t[0])
                &&& !(b.last() == o.last() && b.last() == t.last())
            }
        }),
{
    let b = text::lines_inclusive(base);
    let o = text::lines_inclusive(ours);
    let t = text::lines_inclusive(theirs);
    lemma_lines_are_lines(base);
    lemma_lines_are_lines(ours);
    lemma_lines_are_lines(theirs);
    lemma_middles_differ(b, o, t);
    let p = shared_start(b, o, t, 0) as int;
    let limit = (min3(b.len(), o.len(), t.len()) - p) as nat;
    let s = shared_end(b, o, t, limit, 0) as int;
    lemma_middle_lines(b, p, b.len() - s);
    lemma_middle_lines(o, p, o.len() - s);
    lemma_middle_lines(t, p, t.len() - s);
}

proof fn lemma_middles_differ(b: Seq<Seq<char>>, o: Seq<Seq<char>>, t: Seq<Seq<char>>)
    ensures
        ({
            let p = shared_start(b, o, t, 0) as int;
            let limit = (min3(b.len(), o.len(), t.len()) - p) as nat;
            let s = shared_end(b, o, t, limit, 0) as int;
            let bm = b.subrange(p, b.len() - s);
            let om = o.subrange(p, o.len() - s);
            let tm = t.subrange(p, t.len() - s);
            &&& 0 <= p && 0 <= s
            &&& p <= b.len() - s && p <= o.len() - s && p <= t.len() - s
            &&& bm.len() > 0 && om.len() > 0 && tm.len() > 0 ==> {
                &&& !(bm[0] == om[0] && bm[0] == tm[0])
                &&& !(bm.last() == om.last() && bm.last() == tm.last())
            }
        }),
{
    lemma_shared_start(b, o, t, 0);
    lemma_start_is_longest(b, o, t, 0);
    let p = shared_start(b, o, t, 0) as int;
    let limit = (min3(b.len(), o.len(), t.len()) - p) as nat;
    assert(b.skip(b.len() as int) =~= seq![]);
    assert(o.skip(o.len() as int) =~= seq![]);
    assert(t.skip(t.len() as int) =~= seq![]);
    lemma_shared_end(b, o, t, limit, 0);
    lemma_end_is_longest(b, o, t, limit, 0);
}

proof fn lemma_start_is_longest(b: Seq<Seq<char>>, o: Seq<Seq<char>>, t: Seq<Seq<char>>, i: nat)
    requires
        i <= min3(b.len(), o.len(), t.len()),
    ensures
        ({
            let p = shared_start(b, o, t, i) as int;
            p < min3(b.len(), o.len(), t.len()) ==> !(b[p] == o[p] && b[p] == t[p])
        }),
    decreases min3(b.len(), o.len(), t.len()) - i,
{
    if i < min3(b.len(), o.len(), t.len()) && b[i as int] == o[i as int] && b[i as int]
        == t[i as int] {
        lemma_start_is_longest(b, o, t, i + 1);
    }
}

proof fn lemma_end_is_longest(
    b: Seq<Seq<char>>,
    o: Seq<Seq<char>>,
    t: Seq<Seq<char>>,
    limit: nat,
    i: nat,
)
    requires
        i <= limit <= min3(b.len(), o.len(), t.len()),
    ensures
        ({
            let s = shared_end(b, o, t, limit, i);
            s < limit ==> !(b[b.len() - 1 - s] == o[o.len() - 1 - s] && b[b.len() - 1 - s]
                == t[t.len() - 1 - s])
        }),
    decreases limit - i,
{
    if i < limit && b[b.len() - 1 - i] == o[o.len() - 1 - i] && b[b.len() - 1 - i] == t[t.len() - 1
        - i] {
        lemma_end_is_longest(b, o, t, limit, i + 1);
    }
}

proof fn lemma_middle_lines(l: Seq<Seq<char>>, i: int, j: int)
    requires
        text::are_lines(l),
        0 <= i <= j <= l.len(),
    ensures
        text::lines_inclusive(text::concat(l.subrange(i, j))) == l.subrange(i, j),
{
    let part = l.subrange(i, j);
    assert forall|k: int| 0 <= k < part.len() implies text::is_line(#[trigger] part[k]) by {
        assert(part[k] == l[i + k]);
    }
    assert forall|k: int| 0 <= k < part.len() - 1 implies (#[trigger] part[k]).last() == '\n' by {
        assert(part[k] == l[i + k]);
    }
    text::cutting_undoes_putting_together(part);
}

/// The regions of the stages give back the text of each side, whichever of the stages
/// exist; a missing side is empty.
pub proof fn stage_regions_rebuild_the_sides(c: ConflictStageContent)
    requires
        stage_regions(c) is Ok,
    ensures
        ({
            let r = stage_regions(c)->Ok_0;
            &&& r.prefix + r.ours + r.suffix == (match c.ours {
                Some(v) => vstd::utf8::decode_utf8(v@),
                None => seq![],
            })
            &&& r.prefix + r.theirs + r.suffix == (match c.theirs {
                Some(v) => vstd::utf8::decode_utf8(v@),
                None => seq![],
            })
            &&& r.base is Some <==> c.base is Some
            &&& c.base matches Some(v) ==> r.prefix + r.base->0 + r.suffix
                == vstd::utf8::decode_utf8(v@)
        }),
{
    let r = stage_regions(c)->Ok_0;
    let none = Seq::<char>::empty();
    if c.base is Some && c.ours is Some && c.theirs is Some {
        regions_rebuild_every_version(
            vstd::utf8::decode_utf8(c.base->0@),
            vstd::utf8::decode_utf8(c.ours->0@),
            vstd::utf8::decode_utf8(c.theirs->0@),
        );
    }
    assert(none + r.ours + none =~= r.ours);
    assert(none + r.theirs + none =~= r.theirs);
    if r.base is Some {
        assert(none + r.base->0 + none =~= r.base->0);
    }
}

/// Keeping both sides of the stages keeps all of each: the result begins with our side
/// but for the shared end, ends with their side but for the shared start, and holds
/// nothing else.
pub proof fn both_sides_are_kept_whole(r: Regions)
    ensures
        (r.prefix + r.ours).is_prefix_of(both_sides(r)),
        (r.theirs + r.suffix).is_suffix_of(both_sides(r)),
        both_sides(r).len() == r.prefix.len() + r.ours.len() + r.theirs.len() + r.suffix.len(),
{
    let b = both_sides(r);
    assert(r.prefix + r.ours =~= b.subrange(0, (r.prefix + r.ours).len() as int));
    assert(r.theirs + r.suffix =~= b.subrange(
        b.len() - (r.theirs + r.suffix).len(),
        b.len() as int,
    ));
}

/// Stages that are text are never refused, and one that is not always is: the first of
/// them, the ancestor before our side before theirs, is named.
pub proof fn the_first_stage_that_is_no_text_is_named(c: ConflictStageContent)
    ensures
        ({
            let bad = |s: Option<Vec<u8>>| s is Some && !vstd::utf8::valid_utf8(s->0@);
            match stage_regions(c) {
                Ok(_) => !bad(c.base) && !bad(c.ours) && !bad(c.theirs),
                Err((Stage::Base, _)) => bad(c.base),
                Err((Stage::Ours, _)) => !bad(c.base) && bad(c.ours),
                Err((Stage::Theirs, _)) => !bad(c.base) && !bad(c.ours) && bad(c.theirs),
            }
        }),
{
}

/// The first lines of a text are its start and the last its end, as many as asked for
/// or all there are.
pub proof fn heads_and_tails_are_whole_lines(s: Seq<char>, limit: nat)
    ensures
        head_text(s, limit).is_prefix_of(s),
        tail_text(s, limit).is_suffix_of(s),
        ({
            let n = text::lines_inclusive(s).len();
            let k = if limit <= n {
                limit
            } else {
                n
            };
            &&& text::lines_inclusive(head_text(s, limit)).len() == k
            &&& text::lines_inclusive(tail_text(s, limit)).len() == k
        }),
{
    let l = text::lines_inclusive(s);
    lemma_lines_are_lines(s);
    let n = l.len() as int;
    let k = if limit <= n {
        limit as int
    } else {
        n
    };
    lemma_middle_lines(l, 0, k);
    lemma_middle_lines(l, n - k, n);
    assert(l.take(k) =~= l.subrange(0, k));
    assert(l.skip(n - k) =~= l.subrange(n - k, n));
    text::lemma_concat_add(l.take(k), l.skip(k));
    assert(l.take(k) + l.skip(k) =~= l);
    text::lemma_concat_add(l.take(n - k), l.skip(n - k));
    assert(l.take(n - k) + l.skip(n - k) =~= l);
    let head = head_text(s, limit);
    let tail = tail_text(s, limit);
    assert(head =~= s.subrange(0, head.len() as int));
    assert(tail =~= s.subrange(s.len() - tail.len(), s.len() as int));
}

/// The conflict that is shown of a text written around one has its two sides, the
/// ancestor's part if there is one, and the three lines next to it on each side, as far
/// as there are so many.
pub proof fn a_shown_conflict_has_its_parts(
    before: Seq<char>,
    block: Block,
    markers: Markers,
    behind: Seq<char>,
)
    requires
        readable(block, markers),
        block.index == 0,
        block.context_before.len() == 0,
        block.context_after.len() == 0,
        behind.len() > 0 ==> markers.close.last() == '\n',
        whole_lines(before) && within(Run::Context, before),
        within(Run::Context, behind),
    ensures
        ({
            let segs = segments(before + markers.around(block) + behind)->0;
            let shown = display_blocks(segs, segs.len() as int);
            let up = text::lines_inclusive(before).len();
            let down = text::lines_inclusive(behind).len();
            &&& shown.len() == 1
            &&& shown[0].ours == block.ours
            &&& shown[0].theirs == block.theirs
            &&& shown[0].base == block.base
            &&& shown[0].context_before.is_suffix_of(before)
            &&& shown[0].context_after.is_prefix_of(behind)
            &&& text::lines_inclusive(shown[0].context_before).len() == if up <= 3 {
                up
            } else {
                3
            }
            &&& text::lines_inclusive(shown[0].context_after).len() == if down <= 3 {
                down
            } else {
                3
            }
        }),
{
    one_conflict_is_read_back(before, block, markers, behind);
    heads_and_tails_are_whole_lines(before, 3);
    heads_and_tails_are_whole_lines(behind, 3);
}

/// Keeping both sides everywhere goes part by part too, with no choices to be counted.
pub proof fn keeping_both_goes_part_by_part(a: Seq<char>, b: Seq<char>)
    requires
        a.len() == 0 || a.last() == '\n',
        resolution(a, all_both(block_count(a))) is Ok,
        resolution(b, all_both(block_count(b))) is Ok,
    ensures
        resolution(a + b, all_both(block_count(a + b))) == Ok::<Seq<char>, MarkerError>(
            resolution(a, all_both(block_count(a)))->Ok_0 + resolution(
                b,
                all_both(block_count(b)),
            )->Ok_0,
        ),
{
    let ca = all_both(block_count(a));
    let cb = all_both(block_count(b));
    let la = text::lines_inclusive(a);
    let lb = text::lines_inclusive(b);
    resolving_goes_part_by_part(a, b, ca, cb);
    lemma_lines_of_both(a, b);
    lemma_kept_from(la, 0, 0, ca);
    lemma_kept_from(lb, 0, 0, cb);
    lemma_kept_add(la, lb, 0, ca, cb);
    lemma_kept_from(la + lb, 0, 0, ca + cb);
    assert(ca + cb =~= all_both(block_count(a + b)));
}

/// Whether a line begins with seven times a character.
pub open spec fn begins_with_seven(l: Seq<char>, c: char) -> bool {
    l.len() >= 7 && forall|j: int| 0 <= j < 7 ==> #[trigger] l[j] == c
}

/// A text holds a marker exactly where one of its lines begins with seven of the same
/// marker character.
pub proof fn a_marker_is_found_at_the_start_of_a_line(s: Seq<char>)
    ensures
        has_markers(s) <==> exists|i: int|
            0 <= i < text::lines(s).len() && {
                let l = #[trigger] text::lines(s)[i];
                begins_with_seven(l, '<') || begins_with_seven(l, '|') || begins_with_seven(l, '=')
                    || begins_with_seven(l, '>')
            },
{
    assert forall|i: int| 0 <= i < text::lines(s).len() implies is_marker(
        #[trigger] text::lines(s)[i],
    ) == ({
        let l = text::lines(s)[i];
        begins_with_seven(l, '<') || begins_with_seven(l, '|') || begins_with_seven(l, '=')
            || begins_with_seven(l, '>')
    }) by {
        let l = text::lines(s)[i];
        reveal_strlit("<<<<<<<");
        reveal_strlit("|||||||");
        reveal_strlit("=======");
        reveal_strlit(">>>>>>>");
        lemma_begins_with(l, "<<<<<<<"@, '<');
        lemma_begins_with(l, "|||||||"@, '|');
        lemma_begins_with(l, "======="@, '=');
        lemma_begins_with(l, ">>>>>>>"@, '>');
    }
}

proof fn lemma_begins_with(l: Seq<char>, m: Seq<char>, c: char)
    requires
        m =~= seq![c, c, c, c, c, c, c],
    ensures
        m.is_prefix_of(l) <==> begins_with_seven(l, c),
{
    if m.is_prefix_of(l) {
        assert forall|j: int| 0 <= j < 7 implies #[trigger] l[j] == c by {
            assert(l.subrange(0, 7)[j] == m[j]);
        }
    }
    if begins_with_seven(l, c) {
        assert(m =~= l.subrange(0, 7));
    }
}

} // verus!
