//! Commit messages from an external generator: the staged diff goes in, the text
//! that comes out is cleaned up.

use crate::text;
use vstd::prelude::*;

verus! {

/// Why no commit message was generated.
#[derive(Debug)]
pub enum AiCommitError {
    NotConfigured,
    DiffFailed,
    NothingStaged,
    GeneratorFailed { stderr: String },
    Cancelled,
}

impl AiCommitError {
    /// The message for the user.
    pub open spec fn text(&self) -> Seq<char> {
        match self {
            AiCommitError::NotConfigured =>
                "No generateCommand configured. Set git.commit.generateCommand in your config."@,
            AiCommitError::DiffFailed => "Failed to get staged diff"@,
            AiCommitError::NothingStaged => "No staged changes to generate a commit message for"@,
            AiCommitError::GeneratorFailed { stderr } => "Generate command failed: "@ + text::trim(
                stderr@,
            ),
            AiCommitError::Cancelled => "AI commit generation cancelled"@,
        }
    }

    /// The message for the user.
    pub fn message(&self) -> (r: String)
        ensures
            r@ == self.text(),
    {
        match self {
            AiCommitError::NotConfigured =>
                "No generateCommand configured. Set git.commit.generateCommand in your config.".to_string(),
            AiCommitError::DiffFailed => "Failed to get staged diff".to_string(),
            AiCommitError::NothingStaged =>
                "No staged changes to generate a commit message for".to_string(),
            AiCommitError::GeneratorFailed { stderr } => {
                let mut s = "Generate command failed: ".to_string();
                s.append(text::trim_str(stderr.as_str()).as_str());
                s
            },
            AiCommitError::Cancelled => "AI commit generation cancelled".to_string(),
        }
    }
}

// ---------------------------------------------------------------------------
// Cleaning up
// ---------------------------------------------------------------------------

/// What stands behind the first line end, or everything where there is none.
pub open spec fn after_first_line(s: Seq<char>) -> Seq<char> {
    let e = text::find_from(s, '\n', 0);
    if e < s.len() {
        s.skip(e + 1)
    } else {
        s
    }
}

/// What a code fence encloses: the text between the line of the first fence and
/// the next fence, or the end where there is none.
pub open spec fn fenced(s: Seq<char>, start: int) -> Seq<char> {
    let content = after_first_line(s.skip(start + 3));
    match text::find_text(content, "```"@) {
        Some(end) => text::trim(content.take(end)),
        None => text::trim(content),
    }
}

/// A line without the backticks around it, if it has one at each end.
pub open spec fn without_backticks(l: Seq<char>) -> Seq<char> {
    if l.len() >= 2 && l[0] == '`' && l.last() == '`' {
        l.subrange(1, l.len() - 1)
    } else {
        l
    }
}

/// The lines with the backticks around the first one removed.
pub open spec fn first_unwrapped(l: Seq<Seq<char>>) -> Seq<Seq<char>> {
    if l.len() > 0 {
        l.update(0, without_backticks(l[0]))
    } else {
        l
    }
}

/// The commit message in what a generator wrote: what its first code fence
/// encloses, or everything with the backticks around the first line removed.
pub open spec fn stripped(raw: Seq<char>) -> Seq<char> {
    let t = text::trim(raw);
    match text::find_text(t, "```"@) {
        Some(start) => fenced(t, start),
        None => text::trim(text::join(first_unwrapped(text::lines(t)), "\n"@)),
    }
}

/// Removes code fences and what stands in front of them.
pub fn strip_markdown_fences(raw: &str) -> (r: String)
    ensures
        r@ == stripped(raw@),
{
    let chars = text::chars_of(raw);
    let trimmed = text::trim_of(chars.as_slice());
    let fence = text::chars_of("```");
    proof {
        reveal_strlit("```");
        assert(fence@.len() == 3);
    }
    let n: usize = trimmed.len();
    match text::find_text_of(trimmed, fence.as_slice()) {
        Some(start) => {
            let after = vstd::slice::slice_subrange(trimmed, start + 3, n);
            let e: usize = text::find_char_from(after, '\n', 0);
            let content_start: usize = if e < after.len() {
                e + 1
            } else {
                0
            };
            let content = vstd::slice::slice_subrange(after, content_start, after.len());
            assert(content@ =~= after_first_line(after@));
            match text::find_text_of(content, fence.as_slice()) {
                Some(end) => text::string_of(
                    text::trim_of(vstd::slice::slice_subrange(content, 0, end)),
                ),
                None => text::string_of(text::trim_of(content)),
            }
        },
        None => {
            let mut lines = text::lines_of(trimmed);
            let ghost before = text::pieces(lines@);
            if lines.len() > 0 {
                let first = lines[0].as_slice();
                if first.len() >= 2 && first[0] == '`' && first[first.len() - 1] == '`' {
                    let inner = text::copy_range(first, 1, first.len() - 1);
                    lines.set(0, inner);
                }
            }
            assert(text::pieces(lines@) =~= first_unwrapped(before));
            let joined = text::join_strings(&text::strings_of(&lines), "\n");
            text::trim_str(joined.as_str())
        },
    }
}

// ---------------------------------------------------------------------------
// The course of a generation
// ---------------------------------------------------------------------------

/// What a generation does next.
#[derive(Debug)]
pub enum AiCommitStep {
    /// Ask git for the staged diff.
    RunDiff,
    /// Run the command in a shell with the diff as its input.
    RunGenerator { command: String, input: String },
    /// Wait a moment, and look again.
    Wait { millis: u64 },
    /// Stop the generator.
    Kill,
    /// The generation ended without a message.
    Stop,
    /// The generator ended: its output is to be read.
    ReadOutput { success: bool },
    /// The generation failed.
    Fail(AiCommitError),
}

/// How long the generator is left alone between two looks.
pub const AI_POLL_MILLIS: u64 = 50;

/// Starts a generation: without a command there is nothing to run.
pub fn begin_generation(generate_command: &str) -> (r: AiCommitStep)
    ensures
        generate_command@.len() == 0 ==> r == AiCommitStep::Fail(AiCommitError::NotConfigured),
        generate_command@.len() > 0 ==> r is RunDiff,
{
    if text::is_empty_str(generate_command) {
        AiCommitStep::Fail(AiCommitError::NotConfigured)
    } else {
        AiCommitStep::RunDiff
    }
}

/// Goes on after the staged diff was asked for.
pub fn after_diff(
    generate_command: &str,
    success: bool,
    diff: &str,
    cancelled: bool,
) -> (r: AiCommitStep)
    ensures
        !success ==> r == AiCommitStep::Fail(AiCommitError::DiffFailed),
        success && text::trim(diff@).len() == 0 ==> r == AiCommitStep::Fail(
            AiCommitError::NothingStaged,
        ),
        success && text::trim(diff@).len() > 0 && cancelled ==> r is Stop,
        success && text::trim(diff@).len() > 0 && !cancelled ==> (r matches AiCommitStep::RunGenerator {
            command,
            input,
        } && command@ == generate_command@ && input@ == diff@),
{
    if !success {
        return AiCommitStep::Fail(AiCommitError::DiffFailed);
    }
    if text::is_empty_str(text::trim_str(diff).as_str()) {
        return AiCommitStep::Fail(AiCommitError::NothingStaged);
    }
    if cancelled {
        return AiCommitStep::Stop;
    }
    AiCommitStep::RunGenerator { command: generate_command.to_string(), input: diff.to_string() }
}

/// Looks after the running generator: `exited` tells whether it succeeded, once it
/// has ended. A cancellation comes first.
pub fn after_poll(cancelled: bool, exited: Option<bool>) -> (r: AiCommitStep)
    ensures
        cancelled ==> r is Kill,
        !cancelled ==> match exited {
            Some(ok) => r == (AiCommitStep::ReadOutput { success: ok }),
            None => r == (AiCommitStep::Wait { millis: AI_POLL_MILLIS }),
        },
{
    if cancelled {
        return AiCommitStep::Kill;
    }
    match exited {
        Some(success) => AiCommitStep::ReadOutput { success },
        None => AiCommitStep::Wait { millis: AI_POLL_MILLIS },
    }
}

/// The message of a generator that ended.
pub fn generated_message(success: bool, stdout: &str, stderr: &str) -> (r: Result<
    String,
    AiCommitError,
>)
    ensures
        match r {
            Ok(m) => success && m@ == stripped(stdout@),
            Err(e) => !success && (e matches AiCommitError::GeneratorFailed { stderr: s } && s@
                == stderr@),
        },
{
    if success {
        Ok(strip_markdown_fences(stdout))
    } else {
        Err(AiCommitError::GeneratorFailed { stderr: stderr.to_string() })
    }
}

/// The message of a generation that cannot be cancelled from outside: to end
/// without a message counts as a failure.
pub fn generate_commit_message(outcome: Result<Option<String>, AiCommitError>) -> (r: Result<
    String,
    AiCommitError,
>)
    ensures
        match outcome {
            Ok(Some(m)) => r == Ok::<String, AiCommitError>(m),
            Ok(None) => r == Err::<String, AiCommitError>(AiCommitError::Cancelled),
            Err(e) => r == Err::<String, AiCommitError>(e),
        },
{
    match outcome {
        Ok(Some(m)) => Ok(m),
        Ok(None) => Err(AiCommitError::Cancelled),
        Err(e) => Err(e),
    }
}

// ---------------------------------------------------------------------------
// Laws
// ---------------------------------------------------------------------------

/// A message without a code fence whose first line is not between backticks is taken as it
/// is, but for the space around it: no line is lost. This holds of line feeds as line
/// ends.
pub proof fn a_plain_message_is_kept(raw: Seq<char>)
    requires
        !text::contains(raw, "```"@),
        !raw.contains('\r'),
        text::lines(text::trim(raw)).len() > 0 ==> {
            let first = text::lines(text::trim(raw))[0];
            !(first.len() >= 2 && first[0] == '`' && first.last() == '`')
        },
    ensures
        stripped(raw) == text::trim(raw),
{
    let t = text::trim(raw);
    let l = text::lines(t);
    lemma_trimmed_part(raw);
    text::find_text_is_first_occurrence(t, "```"@);
    text::joined_lines_are_the_text(t);
    let (a, b) = text::trimming_takes_the_space_around(raw);
    if t.len() > 0 {
        text::ascii_space('\n');
    }
    assert(text::join(l, "\n"@) =~= t);
    assert(first_unwrapped(l) =~= l);
    let none = Seq::<char>::empty();
    text::trimming_looks_inside(none, t, none);
    assert(none + t + none =~= t);
}

proof fn lemma_trimmed_part(raw: Seq<char>)
    ensures
        text::contains(text::trim(raw), "```"@) ==> text::contains(raw, "```"@),
        text::trim(raw).contains('\r') ==> raw.contains('\r'),
{
    let t = text::trim(raw);
    let (a, b) = text::trimming_takes_the_space_around(raw);
    let p = "```"@;
    if text::contains(t, p) {
        let i = choose|i: int| #[trigger] text::occurs_at(t, p, i);
        let k = a.len() + i;
        assert(raw.subrange(k, k + p.len()) =~= t.subrange(i, i + p.len()));
        assert(text::occurs_at(raw, p, k));
    }
    if t.contains('\r') {
        let i = choose|i: int| 0 <= i < t.len() && t[i] == '\r';
        assert(raw[a.len() + i] == '\r');
    }
}

/// The backticks around the first line go, and the rest stays.
pub proof fn backticks_around_the_first_line_go(
    a: Seq<char>,
    line: Seq<char>,
    rest: Seq<char>,
    b: Seq<char>,
)
    requires
        text::all_space(a),
        text::all_space(b),
        !line.contains('\n'),
        rest.len() > 0 ==> rest[0] == '\n' && !text::is_space(rest.last()),
        ({
            let raw = a + (seq!['`'] + line + seq!['`'] + rest) + b;
            !text::contains(raw, "```"@) && !raw.contains('\r')
        }),
    ensures
        stripped(a + (seq!['`'] + line + seq!['`'] + rest) + b) == text::trim(line + rest),
{
    let t = seq!['`'] + line + seq!['`'] + rest;
    let raw = a + t + b;
    text::ascii_space('`');
    assert(t[0] == '`');
    assert(t.last() == if rest.len() > 0 {
        rest.last()
    } else {
        '`'
    });
    text::trimming_looks_inside(a, t, b);
    lemma_trimmed_part(raw);
    text::find_text_is_first_occurrence(t, "```"@);
    let l = text::lines(t);
    text::joined_lines_are_the_text(t);
    text::ascii_space('\n');
    reveal_strlit("\n");
    let nl = seq!['\n'];
    assert("\n"@ =~= nl);
    assert(text::join(l, nl) =~= t);
    let others = l.skip(1);
    assert(l =~= seq![l[0]] + others);
    text::lemma_join_front(l[0], others, nl);
    let tail = if others.len() == 0 {
        seq![]
    } else {
        nl + text::join(others, nl)
    };
    let first = seq!['`'] + line + seq!['`'];
    assert(!first.contains('\n')) by {
        if first.contains('\n') {
            let j = choose|j: int| 0 <= j < first.len() && first[j] == '\n';
            assert(line[j - 1] == '\n');
        }
    }
    assert(!l[0].contains('\n'));
    lemma_same_first_line(l[0], tail, first, rest);
    assert(without_backticks(l[0]) =~= line);
    assert(first_unwrapped(l) =~= seq![line] + others);
    text::lemma_join_front(line, others, nl);
}

proof fn lemma_same_first_line(u: Seq<char>, p: Seq<char>, w: Seq<char>, q: Seq<char>)
    requires
        u + p == w + q,
        !u.contains('\n'),
        !w.contains('\n'),
        p.len() > 0 ==> p[0] == '\n',
        q.len() > 0 ==> q[0] == '\n',
    ensures
        u == w,
        p == q,
{
    let s = u + p;
    if u.len() < w.len() {
        assert(s[u.len() as int] == p[0]);
        assert(s[u.len() as int] == w[u.len() as int]);
    }
    if w.len() < u.len() {
        assert((w + q)[w.len() as int] == q[0]);
        assert(s[w.len() as int] == u[w.len() as int]);
    }
    assert(u =~= s.take(u.len() as int));
    assert(w =~= (w + q).take(w.len() as int));
    assert(p =~= s.skip(u.len() as int));
    assert(q =~= (w + q).skip(w.len() as int));
}

/// Of a text with a code fence in it, what the first fence encloses is the message,
/// without the space around it: what stands in front of the fence, behind its backticks on
/// the same line, and behind the closing fence goes.
pub proof fn a_fence_holds_the_message(
    front: Seq<char>,
    tag: Seq<char>,
    body: Seq<char>,
    behind: Seq<char>,
)
    requires
        !front.contains('`'),
        !tag.contains('\n'),
        !text::contains(body + seq!['`', '`'], "```"@),
    ensures
        stripped(front + "```"@ + tag + seq!['\n'] + body + "```"@ + behind) == text::trim(body),
{
    reveal_strlit("```");
    let f = "```"@;
    text::ascii_space('`');
    let nl = seq!['\n'];
    let fence = f + tag + nl + body + f;
    assert(front + f + tag + nl + body + f + behind =~= front + fence + behind);
    assert(fence[0] == '`' && fence.last() == '`');
    let (x, y) = lemma_trim_around(front, fence, behind);
    assert(!x.contains('`')) by {
        if x.contains('`') {
            let j = choose|j: int| 0 <= j < x.len() && x[j] == '`';
            assert(front[front.len() - x.len() + j] == '`');
        }
    }
    lemma_fenced(x, tag, body, y);
    assert(x + fence + y =~= x + f + (tag + nl + (body + f + y)));
}

/// Trimming reaches into a text only up to what is no space.
proof fn lemma_trim_around(front: Seq<char>, s: Seq<char>, behind: Seq<char>) -> (r: (
    Seq<char>,
    Seq<char>,
))
    requires
        s.len() > 0,
        !text::is_space(s[0]),
        !text::is_space(s.last()),
    ensures
        text::trim(front + s + behind) == r.0 + s + r.1,
        r.0.is_suffix_of(front),
{
    let raw = front + s + behind;
    let t = text::trim(raw);
    let (a, b) = text::trimming_takes_the_space_around(raw);
    let n = front.len() as int;
    let m = n + s.len() - 1;
    assert(raw[n] == s[0] && raw[m] == s.last());
    if a.len() > n {
        assert(a[n] == raw[n]);
    }
    if b.len() > behind.len() {
        let k = m - (raw.len() - b.len());
        assert(b[k] == raw[m]);
    }
    let x = front.skip(a.len() as int);
    let y = behind.take(behind.len() - b.len());
    assert(t =~= raw.subrange(a.len() as int, raw.len() - b.len()));
    assert(t =~= x + s + y);
    assert(x =~= front.subrange(front.len() - x.len(), front.len() as int));
    (x, y)
}

proof fn lemma_fenced(x: Seq<char>, tag: Seq<char>, body: Seq<char>, y: Seq<char>)
    requires
        !x.contains('`'),
        !tag.contains('\n'),
        !text::contains(body + seq!['`', '`'], "```"@),
    ensures
        ({
            let t = x + "```"@ + (tag + seq!['\n'] + (body + "```"@ + y));
            &&& text::find_text(t, "```"@) == Some(x.len() as int)
            &&& fenced(t, x.len() as int) == text::trim(body)
        }),
{
    reveal_strlit("```");
    let f = "```"@;
    let content = body + f + y;
    let s = tag + seq!['\n'] + content;
    let t = x + f + s;
    lemma_first_fence(x, s);
    assert(t.skip(x.len() as int + 3) =~= s);
    lemma_behind_first_line(tag, content);
    text::find_text_is_first_occurrence(content, f);
    let n = body.len() as int;
    assert(content.subrange(n, n + 3) =~= f);
    assert(text::occurs_at(content, f, n));
    let j = text::find_text(content, f)->0;
    if j < n {
        let c = body + seq!['`', '`'];
        assert(content.subrange(j, j + 3) =~= c.subrange(j, j + 3));
        assert(text::occurs_at(c, f, j));
    }
    assert(content.take(j) =~= body);
}

/// A fence that is never closed encloses all that follows.
pub proof fn an_open_fence_holds_the_rest(front: Seq<char>, tag: Seq<char>, body: Seq<char>)
    requires
        !front.contains('`'),
        !tag.contains('\n'),
        !text::contains(body, "```"@),
        text::trim(body).len() > 0,
    ensures
        stripped(front + "```"@ + tag + seq!['\n'] + body) == text::trim(body),
{
    reveal_strlit("```");
    let f = "```"@;
    assert(f =~= seq!['`', '`', '`']);
    text::ascii_space('`');
    let raw = front + f + tag + seq!['\n'] + body;
    let t = text::trim(raw);
    let (a, b) = text::trimming_takes_the_space_around(raw);
    let (p, q) = text::trimming_takes_the_space_around(body);
    let inner = text::trim(body);
    let n = front.len() as int;
    assert(raw[n] == '`');
    if a.len() > n {
        assert(a[n] == raw[n]);
    }
    let last = n + 3 + tag.len() + 1 + p.len() + inner.len() - 1;
    assert(raw[last] == inner.last());
    if b.len() > q.len() {
        let k = last - (raw.len() - b.len());
        assert(b[k] == raw[last]);
    }
    let x = front.skip(a.len() as int);
    let rest = body.take(body.len() - b.len());
    assert(t =~= raw.subrange(a.len() as int, raw.len() - b.len()));
    assert(t =~= x + f + (tag + seq!['\n'] + rest));
    lemma_first_fence(x, tag + seq!['\n'] + rest);
    let start = x.len() as int;
    assert(t.skip(start + 3) =~= tag + seq!['\n'] + rest);
    lemma_behind_first_line(tag, rest);
    text::find_text_is_first_occurrence(rest, f);
    if text::contains(rest, f) {
        let j = choose|j: int| #[trigger] text::occurs_at(rest, f, j);
        assert(body.subrange(j, j + 3) =~= rest.subrange(j, j + 3));
        assert(text::occurs_at(body, f, j));
    }
    let q2 = q.take(q.len() - b.len());
    assert(rest =~= p + inner + q2);
    assert forall|i: int| 0 <= i < q2.len() implies text::is_space(#[trigger] q2[i]) by {
        assert(q2[i] == q[i]);
    }
    text::trimming_looks_inside(p, inner, q2);
}

proof fn lemma_first_fence(x: Seq<char>, rest: Seq<char>)
    requires
        !x.contains('`'),
    ensures
        text::find_text(x + "```"@ + rest, "```"@) == Some(x.len() as int),
{
    reveal_strlit("```");
    let f = "```"@;
    let t = x + f + rest;
    text::find_text_is_first_occurrence(t, f);
    assert(t.subrange(x.len() as int, x.len() as int + 3) =~= f);
    assert(text::occurs_at(t, f, x.len() as int));
    let j = text::find_text(t, f)->0;
    if j < x.len() {
        assert(t.subrange(j, j + 3)[0] == f[0]);
        assert(x[j] == '`');
    }
}

proof fn lemma_behind_first_line(tag: Seq<char>, rest: Seq<char>)
    requires
        !tag.contains('\n'),
    ensures
        after_first_line(tag + seq!['\n'] + rest) == rest,
{
    let s = tag + seq!['\n'] + rest;
    text::lemma_find_from(s, '\n', 0);
    let e = text::find_from(s, '\n', 0);
    assert(s[tag.len() as int] == '\n');
    if e < tag.len() {
        assert(tag[e] == s[e]);
    }
    assert(s.skip(e + 1) =~= rest);
}

/// Each failure is told in its own words; a command that failed is told by what it printed,
/// without the space around it.
pub proof fn failures_are_told_apart(stderr: String)
    ensures
        AiCommitError::NotConfigured.text()
            == "No generateCommand configured. Set git.commit.generateCommand in your config."@,
        AiCommitError::DiffFailed.text() == "Failed to get staged diff"@,
        AiCommitError::NothingStaged.text() == "No staged changes to generate a commit message for"@,
        AiCommitError::Cancelled.text() == "AI commit generation cancelled"@,
        (AiCommitError::GeneratorFailed { stderr }).text() == "Generate command failed: "@
            + text::trim(stderr@),
{
}

} // verus!
