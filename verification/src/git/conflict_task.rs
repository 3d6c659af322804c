//! Resolving an unmerged path, as a course of requests and replies: each step says
//! what is asked of git or of the working tree next, or how the task ended.

use super::merge_conflict;
use super::merge_conflict::{
    Block, ConflictStageContent, MarkerError, ResolveChoice, Stage, TextConflictBlock,
};
use super::GitCommands;
use crate::text;
use vstd::prelude::*;

verus! {

// ---------------------------------------------------------------------------
// Listings of unmerged entries
// ---------------------------------------------------------------------------

/// The stage number in a line of `git ls-files -u`: the third word before the tab.
pub open spec fn line_stage(l: Seq<char>) -> Option<nat> {
    match text::split_once(l, '\t') {
        None => None,
        Some((meta, _)) => {
            let w = text::words(meta);
            if w.len() > 2 {
                text::parse_unsigned(w[2], 255)
            } else {
                None
            }
        },
    }
}

/// Reads the stage number of a listed entry.
pub fn parse_unmerged_stage(line: &[char]) -> (r: Option<usize>)
    ensures
        match r {
            Some(n) => line_stage(line@) == Some(n as nat),
            None => line_stage(line@) is None,
        },
{
    match text::split_once_of(line, '\t') {
        None => None,
        Some((meta, _)) => {
            let words = text::words_of(meta.as_slice());
            assert(text::pieces(words@).len() == words@.len());
            if words.len() > 2 {
                assert(text::pieces(words@)[2] == words@[2]@);
                text::parse_unsigned_of(words[2].as_slice(), 255)
            } else {
                None
            }
        },
    }
}

/// Whether a listing has an entry at a stage.
pub open spec fn has_stage(listing: Seq<char>, stage: nat) -> bool {
    exists|i: int|
        0 <= i < text::lines(listing).len() && line_stage(#[trigger] text::lines(listing)[i])
            == Some(stage)
}

/// Whether a listing has any unmerged entry.
pub open spec fn has_entries(listing: Seq<char>) -> bool {
    exists|i: int|
        0 <= i < text::lines(listing).len() && line_stage(#[trigger] text::lines(listing)[i]) is Some
}

/// Which stages a listing has.
#[derive(Debug, Clone, Copy, PartialEq, Eq, Structural)]
pub struct ListedStages {
    pub any: bool,
    pub base: bool,
    pub ours: bool,
    pub theirs: bool,
}

/// The stages of a listing.
pub open spec fn listed_stages(listing: Seq<char>) -> ListedStages {
    ListedStages {
        any: has_entries(listing),
        base: has_stage(listing, 1),
        ours: has_stage(listing, 2),
        theirs: has_stage(listing, 3),
    }
}

/// Reads the stages of a listing.
pub fn unmerged_stages(listing: &str) -> (r: ListedStages)
    ensures
        r == listed_stages(listing@),
{
    let chars = text::chars_of(listing);
    let lines = text::lines_of(chars.as_slice());
    let ghost l = text::lines(listing@);
    let mut r = ListedStages { any: false, base: false, ours: false, theirs: false };
    let mut i: usize = 0;
    while i < lines.len()
        invariant
            i <= lines@.len(),
            text::pieces(lines@) == l,
            l == text::lines(listing@),
            r.any == exists|j: int| 0 <= j < i && line_stage(#[trigger] l[j]) is Some,
            r.base == exists|j: int| 0 <= j < i && line_stage(#[trigger] l[j]) == Some(1nat),
            r.ours == exists|j: int| 0 <= j < i && line_stage(#[trigger] l[j]) == Some(2nat),
            r.theirs == exists|j: int| 0 <= j < i && line_stage(#[trigger] l[j]) == Some(3nat),
        decreases lines@.len() - i,
    {
        assert(l[i as int] == lines@[i as int]@);
        let ghost before = r;
        match parse_unmerged_stage(lines[i].as_slice()) {
            Some(n) => {
                r.any = true;
                if n == 1 {
                    r.base = true;
                } else if n == 2 {
                    r.ours = true;
                } else if n == 3 {
                    r.theirs = true;
                }
                assert(line_stage(l[i as int]) == Some(n as nat));
            },
            None => {},
        }
        i = i + 1;
    }
    r
}

/// The path in a listed entry: what stands behind the tab.
pub open spec fn line_path(l: Seq<char>) -> Option<Seq<char>> {
    match text::split_once(l, '\t') {
        None => None,
        Some((_, path)) => Some(path),
    }
}

/// The paths in the first `n` lines of a listing.
pub open spec fn paths_before(l: Seq<Seq<char>>, n: int) -> Set<Seq<char>>
    decreases n,
{
    if n <= 0 {
        Set::empty()
    } else {
        match line_path(l[n - 1]) {
            Some(p) => paths_before(l, n - 1).insert(p),
            None => paths_before(l, n - 1),
        }
    }
}

// ---------------------------------------------------------------------------
// Requests and replies
// ---------------------------------------------------------------------------

/// What is asked of git or of the working tree.
#[derive(Debug)]
pub enum Request {
    /// Run git with these arguments; success is expected.
    Git { args: Vec<String> },
    /// Read an object's bytes with `git show`.
    Show { object: String },
    /// Read the file at the task's path as text.
    ReadFile,
    /// Write the file at the task's path, with its directories.
    WriteFile { contents: String },
}

/// A request, as plain values.
pub enum Asked {
    Git(Seq<Seq<char>>),
    Show(Seq<char>),
    ReadFile,
    WriteFile(Seq<char>),
}

impl View for Request {
    type V = Asked;

    open spec fn view(&self) -> Asked {
        match self {
            Request::Git { args } => Asked::Git(text::texts(args@)),
            Request::Show { object } => Asked::Show(object@),
            Request::ReadFile => Asked::ReadFile,
            Request::WriteFile { contents } => Asked::WriteFile(contents@),
        }
    }
}

/// How a request ended.
#[derive(Debug, Clone, Copy, PartialEq, Eq, Structural)]
pub enum ReplyKind {
    Success,
    Failure,
    /// The call could not be made, or the directory could not be created.
    NotStarted,
}

/// The reply to a request: the output or the file as text, or the error text; and
/// the bytes of an object.
#[derive(Debug)]
pub struct Reply {
    pub kind: ReplyKind,
    pub text: String,
    pub bytes: Vec<u8>,
}

/// Why a task failed.
#[derive(Debug)]
pub enum ConflictError {
    NoEntries,
    OneSideDeleted,
    ReadFailed { cause: String },
    MarkersRemain,
    NotCleared,
    StageNotRead { stage: Stage, cause: String },
    StageFailed { stage: Stage, stderr: String },
    StageNotCheckedOut { stage: Stage, cause: String },
    DeletionNotStaged { cause: String },
    ParentNotCreated { cause: String },
    WriteFailed { cause: String },
    NoText,
    /// A stage is not text, of which the block was to be made.
    StageBlockFailed { stage: Stage, cause: String },
    StageNotText { stage: Stage, cause: String },
    Markers { error: MarkerError },
    Git { message: String },
}

/// The number of a stage in the index.
pub open spec fn stage_number(s: Stage) -> nat {
    match s {
        Stage::Base => 1,
        Stage::Ours => 2,
        Stage::Theirs => 3,
    }
}

fn stage_number_of(s: Stage) -> (r: usize)
    ensures
        r == stage_number(s),
{
    match s {
        Stage::Base => 1,
        Stage::Ours => 2,
        Stage::Theirs => 3,
    }
}

/// The cause of a failure behind what failed; nothing where none is known.
pub open spec fn because(cause: Seq<char>) -> Seq<char> {
    if cause.len() == 0 {
        seq![]
    } else {
        ": "@ + cause
    }
}

fn because_of(cause: &String) -> (r: String)
    ensures
        r@ == because(cause@),
{
    if text::is_empty_str(cause.as_str()) {
        let r = String::new();
        assert(r@ =~= seq![]);
        r
    } else {
        ": ".to_string().concat(cause.as_str())
    }
}

/// What is told of a stage that is no text.
pub open spec fn not_text(stage: Stage, cause: Seq<char>) -> Seq<char> {
    stage.name_text() + " stage is not UTF-8 text"@ + because(cause)
}

fn not_text_of(stage: Stage, cause: &String) -> (r: String)
    ensures
        r@ == not_text(stage, cause@),
{
    stage.not_text_message().concat(because_of(cause).as_str())
}

impl ConflictError {
    /// The message for the user.
    pub open spec fn text(&self, path: Seq<char>) -> Seq<char> {
        match self {
            ConflictError::NoEntries => "no unmerged entries found for "@ + path,
            ConflictError::OneSideDeleted => "cannot resolve "@ + path
                + " with both: one side deleted the file"@,
            ConflictError::ReadFailed { cause } => "failed to read conflicted file "@ + path
                + because(cause@),
            ConflictError::MarkersRemain => "cannot mark "@ + path
                + " resolved while conflict markers remain"@,
            ConflictError::NotCleared => "resolution did not clear unmerged entries for "@ + path,
            ConflictError::StageNotRead { stage, cause } => "failed to read stage "@
                + text::decimal(stage_number(*stage)) + " for "@ + path + because(cause@),
            ConflictError::StageFailed { stage, stderr } => "failed to read stage "@
                + text::decimal(stage_number(*stage)) + " for "@ + path + ": "@ + text::trim(
                stderr@,
            ),
            ConflictError::StageNotCheckedOut { stage, cause } => "failed to check out stage "@
                + text::decimal(stage_number(*stage)) + " for "@ + path + because(cause@),
            ConflictError::DeletionNotStaged { cause } => "failed to stage deletion for "@ + path
                + because(cause@),
            ConflictError::ParentNotCreated { cause } => "failed to create parent directory for "@
                + path + because(cause@),
            ConflictError::WriteFailed { cause } => "failed to write resolved file "@ + path
                + because(cause@),
            ConflictError::NoText => "no text conflict content found for "@ + path,
            ConflictError::StageBlockFailed { stage, cause } =>
                "failed to build stage-backed conflict block for "@ + path + ": "@ + not_text(
                *stage,
                cause@,
            ),
            ConflictError::StageNotText { stage, cause } => not_text(*stage, cause@),
            ConflictError::Markers { error } => error.text(),
            ConflictError::Git { message } => message@,
        }
    }

    /// The message for the user.
    pub fn message(&self, path: &str) -> (r: String)
        ensures
            r@ == self.text(path@),
    {
        match self {
            ConflictError::NoEntries => "no unmerged entries found for ".to_string().concat(path),
            ConflictError::OneSideDeleted => "cannot resolve ".to_string().concat(path).concat(
                " with both: one side deleted the file",
            ),
            ConflictError::ReadFailed { cause } =>
                "failed to read conflicted file ".to_string().concat(path).concat(
                because_of(cause).as_str(),
            ),
            ConflictError::MarkersRemain => "cannot mark ".to_string().concat(path).concat(
                " resolved while conflict markers remain",
            ),
            ConflictError::NotCleared =>
                "resolution did not clear unmerged entries for ".to_string().concat(path),
            ConflictError::StageNotRead { stage, cause } =>
                "failed to read stage ".to_string().concat(
                text::decimal_of(stage_number_of(*stage)).as_str(),
            ).concat(" for ").concat(path).concat(because_of(cause).as_str()),
            ConflictError::StageFailed { stage, stderr } =>
                "failed to read stage ".to_string().concat(
                text::decimal_of(stage_number_of(*stage)).as_str(),
            ).concat(" for ").concat(path).concat(": ").concat(
                text::trim_str(stderr.as_str()).as_str(),
            ),
            ConflictError::StageNotCheckedOut { stage, cause } =>
                "failed to check out stage ".to_string().concat(
                text::decimal_of(stage_number_of(*stage)).as_str(),
            ).concat(" for ").concat(path).concat(because_of(cause).as_str()),
            ConflictError::DeletionNotStaged { cause } =>
                "failed to stage deletion for ".to_string().concat(path).concat(
                because_of(cause).as_str(),
            ),
            ConflictError::ParentNotCreated { cause } =>
                "failed to create parent directory for ".to_string().concat(path).concat(
                because_of(cause).as_str(),
            ),
            ConflictError::WriteFailed { cause } =>
                "failed to write resolved file ".to_string().concat(path).concat(
                because_of(cause).as_str(),
            ),
            ConflictError::NoText => "no text conflict content found for ".to_string().concat(path),
            ConflictError::StageBlockFailed { stage, cause } =>
                "failed to build stage-backed conflict block for ".to_string().concat(path).concat(
                ": ",
            ).concat(not_text_of(*stage, cause).as_str()),
            ConflictError::StageNotText { stage, cause } => not_text_of(*stage, cause),
            ConflictError::Markers { error } => error.message(),
            ConflictError::Git { message } => message.clone(),
        }
    }
}

/// Why a task failed, as plain values.
pub enum Failure {
    NoEntries,
    OneSideDeleted,
    ReadFailed(Seq<char>),
    MarkersRemain,
    NotCleared,
    StageNotRead(Stage, Seq<char>),
    StageFailed(Stage, Seq<char>),
    StageNotCheckedOut(Stage, Seq<char>),
    DeletionNotStaged(Seq<char>),
    ParentNotCreated(Seq<char>),
    WriteFailed(Seq<char>),
    NoText,
    StageBlockFailed(Stage, Seq<char>),
    StageNotText(Stage, Seq<char>),
    Markers(MarkerError),
    Git(Seq<char>),
}

impl View for ConflictError {
    type V = Failure;

    open spec fn view(&self) -> Failure {
        match self {
            ConflictError::NoEntries => Failure::NoEntries,
            ConflictError::OneSideDeleted => Failure::OneSideDeleted,
            ConflictError::ReadFailed { cause } => Failure::ReadFailed(cause@),
            ConflictError::MarkersRemain => Failure::MarkersRemain,
            ConflictError::NotCleared => Failure::NotCleared,
            ConflictError::StageNotRead { stage, cause } => Failure::StageNotRead(*stage, cause@),
            ConflictError::StageFailed { stage, stderr } => Failure::StageFailed(*stage, stderr@),
            ConflictError::StageNotCheckedOut { stage, cause } => Failure::StageNotCheckedOut(
                *stage,
                cause@,
            ),
            ConflictError::DeletionNotStaged { cause } => Failure::DeletionNotStaged(cause@),
            ConflictError::ParentNotCreated { cause } => Failure::ParentNotCreated(cause@),
            ConflictError::WriteFailed { cause } => Failure::WriteFailed(cause@),
            ConflictError::NoText => Failure::NoText,
            ConflictError::StageBlockFailed { stage, cause } => Failure::StageBlockFailed(
                *stage,
                cause@,
            ),
            ConflictError::StageNotText { stage, cause } => Failure::StageNotText(*stage, cause@),
            ConflictError::Markers { error } => Failure::Markers(*error),
            ConflictError::Git { message } => Failure::Git(message@),
        }
    }
}

/// What a finished task hands out.
#[derive(Debug)]
pub enum Outcome {
    Stages { content: ConflictStageContent },
    Blocks { blocks: Vec<TextConflictBlock> },
    Resolved,
}

/// What a finished task hands out, as plain values.
pub enum Found {
    Stages(ConflictStageContent),
    Blocks(Seq<Block>),
    Resolved,
}

impl View for Outcome {
    type V = Found;

    open spec fn view(&self) -> Found {
        match self {
            Outcome::Stages { content } => Found::Stages(*content),
            Outcome::Blocks { blocks } => Found::Blocks(merge_conflict::block_texts(blocks@)),
            Outcome::Resolved => Found::Resolved,
        }
    }
}

// ---------------------------------------------------------------------------
// States
// ---------------------------------------------------------------------------

/// What the contents of the three stages are read for.
#[derive(Debug, Clone, Copy, PartialEq, Eq, Structural)]
pub enum ContentGoal {
    /// To hand them out.
    Report,
    /// To show the path as a single conflict.
    Block,
    /// To keep both sides.
    KeepBoth,
}

/// What the stages of a path are listed for.
#[derive(Debug, Clone, Copy, PartialEq, Eq, Structural)]
pub enum ListGoal {
    Content(ContentGoal),
    Resolve(ResolveChoice),
}

/// What a task waits for.
#[derive(Debug)]
pub enum Waiting {
    /// The listing of the path's stages.
    ForStages { goal: ListGoal },
    /// The bytes of one stage; the earlier ones are known.
    ForStage { content_goal: ContentGoal, listed: ListedStages, stage: Stage, known: ConflictStageContent },
    /// That a side was checked out, or that its deletion was staged.
    ForSide { stage: Stage, present: bool },
    /// The conflicted file, both sides of which are to be kept.
    ForBothText,
    /// That the resolved file was written.
    ForWrite,
    /// The file that is about to be marked as resolved.
    ForMarkText,
    /// That the file was staged.
    ForAdd,
    /// The listing that must not show the path any more.
    ForCheck,
    /// The conflicted file, whose blocks are to be shown.
    ForBlocksText,
    /// The conflicted file, to whose blocks the choices belong.
    ForChoicesText { choices: Vec<ResolveChoice> },
}

/// A task on one path.
#[derive(Debug)]
pub struct ConflictTask {
    pub path: String,
    pub waiting: Waiting,
}

/// What comes next in a task.
#[derive(Debug)]
pub enum ConflictStep {
    Ask { request: Request, task: ConflictTask },
    Finish { outcome: Result<Outcome, ConflictError> },
}

/// What comes next in a task, as plain values.
pub enum Next {
    Ask(Asked, Waiting),
    Finish(Result<Found, Failure>),
}

impl ConflictStep {
    /// The step as plain values.
    pub open spec fn next(self) -> Next {
        match self {
            ConflictStep::Ask { request, task } => Next::Ask(request@, task.waiting),
            ConflictStep::Finish { outcome } => match outcome {
                Ok(o) => Next::Finish(Ok(o@)),
                Err(e) => Next::Finish(Err(e@)),
            },
        }
    }

    /// Whether the step stays with a path.
    pub open spec fn stays_with(self, path: Seq<char>) -> bool {
        self matches ConflictStep::Ask { request, task } ==> task.path@ == path
    }
}

/// The listing of a path's unmerged entries is asked for.
pub open spec fn ask_list(path: Seq<char>, w: Waiting) -> Next {
    Next::Ask(Asked::Git(seq!["ls-files"@, "-u"@, "--"@, path]), w)
}

/// The bytes of a stage are asked for.
pub open spec fn ask_stage(
    path: Seq<char>,
    goal: ContentGoal,
    listed: ListedStages,
    stage: Stage,
    known: ConflictStageContent,
) -> Next {
    Next::Ask(
        Asked::Show(":"@ + text::decimal(stage_number(stage)) + ":"@ + path),
        Waiting::ForStage { content_goal: goal, listed, stage, known },
    )
}

/// The first listed stage from the given one on.
pub open spec fn next_stage(listed: ListedStages, from: Stage) -> Option<Stage> {
    if from is Base && listed.base {
        Some(Stage::Base)
    } else if (from is Base || from is Ours) && listed.ours {
        Some(Stage::Ours)
    } else if listed.theirs {
        Some(Stage::Theirs)
    } else {
        None
    }
}

/// The contents of the stages with one more known.
pub open spec fn with_stage(
    known: ConflictStageContent,
    stage: Stage,
    bytes: Vec<u8>,
) -> ConflictStageContent {
    match stage {
        Stage::Base => ConflictStageContent { base: Some(bytes), ..known },
        Stage::Ours => ConflictStageContent { ours: Some(bytes), ..known },
        Stage::Theirs => ConflictStageContent { theirs: Some(bytes), ..known },
    }
}

/// The single block that stands for a path without markers in its file.
pub open spec fn stage_block(r: merge_conflict::Regions) -> Block {
    Block {
        index: 0,
        context_before: merge_conflict::tail_text(
            r.prefix,
            merge_conflict::CONFLICT_DISPLAY_CONTEXT_LINES as nat,
        ),
        base: r.base,
        ours: r.ours,
        theirs: r.theirs,
        context_after: merge_conflict::head_text(
            r.suffix,
            merge_conflict::CONFLICT_DISPLAY_CONTEXT_LINES as nat,
        ),
    }
}

/// What is done with the contents of the stages once they are all known.
pub open spec fn content_known(goal: ContentGoal, c: ConflictStageContent) -> Next {
    match goal {
        ContentGoal::Report => Next::Finish(Ok(Found::Stages(c))),
        ContentGoal::Block => match merge_conflict::stage_regions(c) {
            Err((stage, cause)) => Next::Finish(Err(Failure::StageBlockFailed(stage, cause))),
            Ok(r) => if r.ours.len() == 0 && r.theirs.len() == 0 {
                Next::Finish(Err(Failure::NoText))
            } else {
                Next::Finish(Ok(Found::Blocks(seq![stage_block(r)])))
            },
        },
        ContentGoal::KeepBoth => match merge_conflict::stage_regions(c) {
            Err((stage, cause)) => Next::Finish(Err(Failure::StageNotText(stage, cause))),
            Ok(r) => Next::Ask(
                Asked::WriteFile(merge_conflict::both_sides(r)),
                Waiting::ForWrite,
            ),
        },
    }
}

/// Reads the stages from the given one on, as far as they are listed.
pub open spec fn read_from(
    path: Seq<char>,
    goal: ContentGoal,
    listed: ListedStages,
    from: Option<Stage>,
    known: ConflictStageContent,
) -> Next {
    match from {
        None => content_known(goal, known),
        Some(f) => match next_stage(listed, f) {
            Some(stage) => ask_stage(path, goal, listed, stage, known),
            None => content_known(goal, known),
        },
    }
}

/// The stage behind another.
pub open spec fn stage_after(s: Stage) -> Option<Stage> {
    match s {
        Stage::Base => Some(Stage::Ours),
        Stage::Ours => Some(Stage::Theirs),
        Stage::Theirs => None,
    }
}

/// A side is put into the working tree, or staged as deleted where it has none.
pub open spec fn ask_side(path: Seq<char>, stage: Stage, present: bool) -> Next {
    Next::Ask(
        if present {
            Asked::Git(
                seq![
                    "checkout-index"@,
                    "--force"@,
                    "--stage="@ + text::decimal(stage_number(stage)),
                    "--"@,
                    path,
                ],
            )
        } else {
            Asked::Git(seq!["rm"@, "--force"@, "--"@, path])
        },
        Waiting::ForSide { stage, present },
    )
}

/// The file is read before it is marked as resolved.
pub open spec fn ask_mark() -> Next {
    Next::Ask(Asked::ReadFile, Waiting::ForMarkText)
}

/// The resolved text is written, or the reason why there is none.
pub open spec fn write_resolution(r: Result<Seq<char>, MarkerError>) -> Next {
    match r {
        Ok(t) => Next::Ask(Asked::WriteFile(t), Waiting::ForWrite),
        Err(e) => Next::Finish(Err(Failure::Markers(e))),
    }
}

/// The choice for a path that is a single conflict without markers.
pub open spec fn resolve_whole(path: Seq<char>, choices: Seq<ResolveChoice>) -> Next {
    if choices.len() != 1 {
        Next::Finish(
            Err(
                Failure::Markers(
                    MarkerError::ChoiceCountMismatch { got: choices.len() as usize, expected: 1 },
                ),
            ),
        )
    } else if choices[0] is Both {
        ask_list(
            path,
            Waiting::ForStages { goal: ListGoal::Content(ContentGoal::KeepBoth) },
        )
    } else {
        ask_list(path, Waiting::ForStages { goal: ListGoal::Resolve(choices[0]) })
    }
}

/// What comes after a reply.
pub open spec fn after_reply(path: Seq<char>, w: Waiting, r: Reply) -> Next {
    let ok = r.kind is Success;
    match w {
        Waiting::ForStages { goal } => if !ok {
            Next::Finish(Err(Failure::Git(r.text@)))
        } else {
            let s = listed_stages(r.text@);
            if !s.any {
                Next::Finish(Err(Failure::NoEntries))
            } else {
                match goal {
                    ListGoal::Content(g) => read_from(
                        path,
                        g,
                        s,
                        Some(Stage::Base),
                        ConflictStageContent { base: None, ours: None, theirs: None },
                    ),
                    ListGoal::Resolve(ResolveChoice::Ours) => ask_side(path, Stage::Ours, s.ours),
                    ListGoal::Resolve(ResolveChoice::Theirs) => ask_side(
                        path,
                        Stage::Theirs,
                        s.theirs,
                    ),
                    ListGoal::Resolve(ResolveChoice::Both) => if s.ours && s.theirs {
                        Next::Ask(Asked::ReadFile, Waiting::ForBothText)
                    } else {
                        Next::Finish(Err(Failure::OneSideDeleted))
                    },
                }
            }
        },
        Waiting::ForStage { content_goal: goal, listed, stage, known } => match r.kind {
            ReplyKind::Success => read_from(
                path,
                goal,
                listed,
                stage_after(stage),
                with_stage(known, stage, r.bytes),
            ),
            ReplyKind::Failure => Next::Finish(Err(Failure::StageFailed(stage, r.text@))),
            ReplyKind::NotStarted => Next::Finish(Err(Failure::StageNotRead(stage, r.text@))),
        },
        Waiting::ForSide { stage, present } => if !ok {
            Next::Finish(
                Err(
                    if present {
                        Failure::StageNotCheckedOut(stage, r.text@)
                    } else {
                        Failure::DeletionNotStaged(r.text@)
                    },
                ),
            )
        } else if present {
            ask_mark()
        } else {
            ask_list(path, Waiting::ForCheck)
        },
        Waiting::ForBothText => if !ok {
            Next::Finish(Err(Failure::ReadFailed(r.text@)))
        } else {
            write_resolution(
                merge_conflict::resolution(
                    r.text@,
                    merge_conflict::all_both(merge_conflict::block_count(r.text@)),
                ),
            )
        },
        Waiting::ForWrite => match r.kind {
            ReplyKind::Success => ask_mark(),
            ReplyKind::Failure => Next::Finish(Err(Failure::WriteFailed(r.text@))),
            ReplyKind::NotStarted => Next::Finish(Err(Failure::ParentNotCreated(r.text@))),
        },
        Waiting::ForMarkText => if ok && merge_conflict::has_markers(r.text@) {
            Next::Finish(Err(Failure::MarkersRemain))
        } else {
            Next::Ask(
                Asked::Git(seq!["--literal-pathspecs"@, "add"@, "--"@, path]),
                Waiting::ForAdd,
            )
        },
        Waiting::ForAdd => if !ok {
            Next::Finish(Err(Failure::Git(r.text@)))
        } else {
            ask_list(path, Waiting::ForCheck)
        },
        Waiting::ForCheck => if !ok {
            Next::Finish(Err(Failure::Git(r.text@)))
        } else if has_entries(r.text@) {
            Next::Finish(Err(Failure::NotCleared))
        } else {
            Next::Finish(Ok(Found::Resolved))
        },
        Waiting::ForBlocksText => {
            let whole = ask_list(
                path,
                Waiting::ForStages { goal: ListGoal::Content(ContentGoal::Block) },
            );
            if !ok {
                whole
            } else {
                match merge_conflict::segments(r.text@) {
                    None => Next::Finish(Err(Failure::Markers(MarkerError::Malformed))),
                    Some(segs) => {
                        let blocks = merge_conflict::display_blocks(segs, segs.len() as int);
                        if blocks.len() > 0 {
                            Next::Finish(Ok(Found::Blocks(blocks)))
                        } else {
                            whole
                        }
                    },
                }
            }
        },
        Waiting::ForChoicesText { choices } => if !ok {
            Next::Finish(Err(Failure::ReadFailed(r.text@)))
        } else if merge_conflict::segments(r.text@) is Some && merge_conflict::block_count(r.text@)
            == 0 {
            resolve_whole(path, choices@)
        } else {
            write_resolution(merge_conflict::resolution(r.text@, choices@))
        },
    }
}

// ---------------------------------------------------------------------------
// The task
// ---------------------------------------------------------------------------

fn list_step(path: String, waiting: Waiting) -> (r: ConflictStep)
    ensures
        r.next() == ask_list(path@, waiting),
        r.stays_with(path@),
{
    let args = vec![
        "ls-files".to_string(),
        "-u".to_string(),
        "--".to_string(),
        path.clone(),
    ];
    assert(text::texts(args@) =~= seq!["ls-files"@, "-u"@, "--"@, path@]);
    ConflictStep::Ask { request: Request::Git { args }, task: ConflictTask { path, waiting } }
}

fn fail(error: ConflictError) -> (r: ConflictStep)
    ensures
        r.next() == Next::Finish(Err(error@)),
        forall|p: Seq<char>| r.stays_with(p),
{
    ConflictStep::Finish { outcome: Err(error) }
}

fn content_step(path: String, goal: ContentGoal, content: ConflictStageContent) -> (r: ConflictStep)
    ensures
        r.next() == content_known(goal, content),
        r.stays_with(path@),
{
    match goal {
        ContentGoal::Report => ConflictStep::Finish { outcome: Ok(Outcome::Stages { content }) },
        ContentGoal::Block => match merge_conflict::stage_text_regions(content) {
            Err(e) => fail(ConflictError::StageBlockFailed { stage: e.stage, cause: e.cause }),
            Ok(regions) => {
                if text::is_empty_str(regions.ours.as_str()) && text::is_empty_str(
                    regions.theirs.as_str(),
                ) {
                    return fail(ConflictError::NoText);
                }
                let block = TextConflictBlock {
                    index: 0,
                    context_before: merge_conflict::tail_lines(
                        regions.prefix.as_str(),
                        merge_conflict::CONFLICT_DISPLAY_CONTEXT_LINES,
                    ),
                    base: regions.base,
                    ours: regions.ours,
                    theirs: regions.theirs,
                    context_after: merge_conflict::head_lines(
                        regions.suffix.as_str(),
                        merge_conflict::CONFLICT_DISPLAY_CONTEXT_LINES,
                    ),
                };
                let ghost b = block@;
                let blocks = vec![block];
                assert(merge_conflict::block_texts(blocks@) =~= seq![b]);
                ConflictStep::Finish { outcome: Ok(Outcome::Blocks { blocks }) }
            },
        },
        ContentGoal::KeepBoth => match merge_conflict::resolve_stage_text_regions(content) {
            Err(e) => fail(ConflictError::StageNotText { stage: e.stage, cause: e.cause }),
            Ok(contents) => ConflictStep::Ask {
                request: Request::WriteFile { contents },
                task: ConflictTask { path, waiting: Waiting::ForWrite },
            },
        },
    }
}

fn read_step(
    path: String,
    goal: ContentGoal,
    listed: ListedStages,
    from: Option<Stage>,
    known: ConflictStageContent,
) -> (r: ConflictStep)
    ensures
        r.next() == read_from(path@, goal, listed, from, known),
        r.stays_with(path@),
{
    let stage = match from {
        None => None,
        Some(Stage::Base) => if listed.base {
            Some(Stage::Base)
        } else if listed.ours {
            Some(Stage::Ours)
        } else if listed.theirs {
            Some(Stage::Theirs)
        } else {
            None
        },
        Some(Stage::Ours) => if listed.ours {
            Some(Stage::Ours)
        } else if listed.theirs {
            Some(Stage::Theirs)
        } else {
            None
        },
        Some(Stage::Theirs) => if listed.theirs {
            Some(Stage::Theirs)
        } else {
            None
        },
    };
    match stage {
        None => content_step(path, goal, known),
        Some(stage) => {
            let object = ":".to_string().concat(
                text::decimal_of(stage_number_of(stage)).as_str(),
            ).concat(":").concat(path.as_str());
            ConflictStep::Ask {
                request: Request::Show { object },
                task: ConflictTask {
                    path,
                    waiting: Waiting::ForStage { content_goal: goal, listed, stage, known },
                },
            }
        },
    }
}

fn side_step(path: String, stage: Stage, present: bool) -> (r: ConflictStep)
    ensures
        r.next() == ask_side(path@, stage, present),
        r.stays_with(path@),
{
    let args = if present {
        let number = "--stage=".to_string().concat(
            text::decimal_of(stage_number_of(stage)).as_str(),
        );
        let ghost n = number@;
        let args = vec![
            "checkout-index".to_string(),
            "--force".to_string(),
            number,
            "--".to_string(),
            path.clone(),
        ];
        assert(text::texts(args@) =~= seq!["checkout-index"@, "--force"@, n, "--"@, path@]);
        args
    } else {
        let args = vec!["rm".to_string(), "--force".to_string(), "--".to_string(), path.clone()];
        assert(text::texts(args@) =~= seq!["rm"@, "--force"@, "--"@, path@]);
        args
    };
    ConflictStep::Ask {
        request: Request::Git { args },
        task: ConflictTask { path, waiting: Waiting::ForSide { stage, present } },
    }
}

fn mark_step(path: String) -> (r: ConflictStep)
    ensures
        r.next() == ask_mark(),
        r.stays_with(path@),
{
    ConflictStep::Ask {
        request: Request::ReadFile,
        task: ConflictTask { path, waiting: Waiting::ForMarkText },
    }
}

fn write_step(path: String, resolved: Result<String, MarkerError>) -> (r: ConflictStep)
    ensures
        r.next() == write_resolution(merge_conflict::result_text(resolved)),
        r.stays_with(path@),
{
    match resolved {
        Ok(contents) => ConflictStep::Ask {
            request: Request::WriteFile { contents },
            task: ConflictTask { path, waiting: Waiting::ForWrite },
        },
        Err(error) => fail(ConflictError::Markers { error }),
    }
}

fn whole_step(path: String, choices: Vec<ResolveChoice>) -> (r: ConflictStep)
    ensures
        r.next() == resolve_whole(path@, choices@),
        r.stays_with(path@),
{
    if choices.len() != 1 {
        return fail(
            ConflictError::Markers {
                error: MarkerError::ChoiceCountMismatch { got: choices.len(), expected: 1 },
            },
        );
    }
    match choices[0] {
        ResolveChoice::Both => list_step(
            path,
            Waiting::ForStages { goal: ListGoal::Content(ContentGoal::KeepBoth) },
        ),
        ResolveChoice::Ours => list_step(
            path,
            Waiting::ForStages { goal: ListGoal::Resolve(ResolveChoice::Ours) },
        ),
        ResolveChoice::Theirs => list_step(
            path,
            Waiting::ForStages { goal: ListGoal::Resolve(ResolveChoice::Theirs) },
        ),
    }
}

impl ConflictTask {
    /// Goes on with a reply.
    pub fn step(self, reply: Reply) -> (r: ConflictStep)
        ensures
            r.next() == after_reply(self.path@, self.waiting, reply),
            r.stays_with(self.path@),
    {
        let ok = match reply.kind {
            ReplyKind::Success => true,
            _ => false,
        };
        let path = self.path;
        match self.waiting {
            Waiting::ForStages { goal } => {
                if !ok {
                    return fail(ConflictError::Git { message: reply.text });
                }
                let s = unmerged_stages(reply.text.as_str());
                if !s.any {
                    return fail(ConflictError::NoEntries);
                }
                match goal {
                    ListGoal::Content(g) => read_step(
                        path,
                        g,
                        s,
                        Some(Stage::Base),
                        ConflictStageContent { base: None, ours: None, theirs: None },
                    ),
                    ListGoal::Resolve(ResolveChoice::Ours) => side_step(path, Stage::Ours, s.ours),
                    ListGoal::Resolve(ResolveChoice::Theirs) => side_step(
                        path,
                        Stage::Theirs,
                        s.theirs,
                    ),
                    ListGoal::Resolve(ResolveChoice::Both) => if s.ours && s.theirs {
                        ConflictStep::Ask {
                            request: Request::ReadFile,
                            task: ConflictTask { path, waiting: Waiting::ForBothText },
                        }
                    } else {
                        fail(ConflictError::OneSideDeleted)
                    },
                }
            },
            Waiting::ForStage { content_goal: goal, listed, stage, known } => match reply.kind {
                ReplyKind::Success => {
                    let mut content = known;
                    let after = match stage {
                        Stage::Base => {
                            content.base = Some(reply.bytes);
                            Some(Stage::Ours)
                        },
                        Stage::Ours => {
                            content.ours = Some(reply.bytes);
                            Some(Stage::Theirs)
                        },
                        Stage::Theirs => {
                            content.theirs = Some(reply.bytes);
                            None
                        },
                    };
                    read_step(path, goal, listed, after, content)
                },
                ReplyKind::Failure => fail(
                    ConflictError::StageFailed { stage, stderr: reply.text },
                ),
                ReplyKind::NotStarted => fail(
                    ConflictError::StageNotRead { stage, cause: reply.text },
                ),
            },
            Waiting::ForSide { stage, present } => if !ok {
                if present {
                    fail(ConflictError::StageNotCheckedOut { stage, cause: reply.text })
                } else {
                    fail(ConflictError::DeletionNotStaged { cause: reply.text })
                }
            } else if present {
                mark_step(path)
            } else {
                list_step(path, Waiting::ForCheck)
            },
            Waiting::ForBothText => if !ok {
                fail(ConflictError::ReadFailed { cause: reply.text })
            } else {
                write_step(path, merge_conflict::resolve_markers_with_both(reply.text.as_str()))
            },
            Waiting::ForWrite => match reply.kind {
                ReplyKind::Success => mark_step(path),
                ReplyKind::Failure => fail(ConflictError::WriteFailed { cause: reply.text }),
                ReplyKind::NotStarted => fail(ConflictError::ParentNotCreated { cause: reply.text }),
            },
            Waiting::ForMarkText => {
                if ok && merge_conflict::contains_conflict_markers(reply.text.as_str()) {
                    return fail(ConflictError::MarkersRemain);
                }
                let args = vec![
                    "--literal-pathspecs".to_string(),
                    "add".to_string(),
                    "--".to_string(),
                    path.clone(),
                ];
                assert(text::texts(args@) =~= seq!["--literal-pathspecs"@, "add"@, "--"@, path@]);
                ConflictStep::Ask {
                    request: Request::Git { args },
                    task: ConflictTask { path, waiting: Waiting::ForAdd },
                }
            },
            Waiting::ForAdd => if !ok {
                fail(ConflictError::Git { message: reply.text })
            } else {
                list_step(path, Waiting::ForCheck)
            },
            Waiting::ForCheck => if !ok {
                fail(ConflictError::Git { message: reply.text })
            } else if unmerged_stages(reply.text.as_str()).any {
                fail(ConflictError::NotCleared)
            } else {
                ConflictStep::Finish { outcome: Ok(Outcome::Resolved) }
            },
            Waiting::ForBlocksText => {
                if ok {
                    match merge_conflict::parse_text_conflict_blocks(reply.text.as_str()) {
                        Err(error) => {
                            return fail(ConflictError::Markers { error });
                        },
                        Ok(blocks) => {
                            assert(merge_conflict::block_texts(blocks@).len() == blocks@.len());
                            if blocks.len() > 0 {
                                return ConflictStep::Finish {
                                    outcome: Ok(Outcome::Blocks { blocks }),
                                };
                            }
                        },
                    }
                }
                list_step(
                    path,
                    Waiting::ForStages { goal: ListGoal::Content(ContentGoal::Block) },
                )
            },
            Waiting::ForChoicesText { choices } => {
                if !ok {
                    return fail(ConflictError::ReadFailed { cause: reply.text });
                }
                match merge_conflict::parse_text_conflict_blocks(reply.text.as_str()) {
                    Err(error) => fail(ConflictError::Markers { error }),
                    Ok(blocks) => {
                        proof {
                            let segs = merge_conflict::segments(reply.text@)->0;
                            merge_conflict::one_choice_per_display_block(segs, segs.len() as int);
                            assert(merge_conflict::block_texts(blocks@).len() == blocks@.len());
                        }
                        if blocks.len() == 0 {
                            whole_step(path, choices)
                        } else {
                            write_step(
                                path,
                                merge_conflict::resolve_text_conflict_blocks(
                                    reply.text.as_str(),
                                    choices.as_slice(),
                                ),
                            )
                        }
                    },
                }
            },
        }
    }
}

impl GitCommands {
    /// Starts reading the three stages of an unmerged path.
    pub fn conflict_stages(&self, path: &str) -> (r: ConflictStep)
        ensures
            r.next() == ask_list(
                path@,
                Waiting::ForStages { goal: ListGoal::Content(ContentGoal::Report) },
            ),
            r.stays_with(path@),
    {
        list_step(
            path.to_string(),
            Waiting::ForStages { goal: ListGoal::Content(ContentGoal::Report) },
        )
    }

    /// Whether a listing of a path's entries shows it as unmerged.
    pub fn has_unmerged_entries(&self, listing: &str) -> (r: bool)
        ensures
            r == has_entries(listing@),
    {
        unmerged_stages(listing).any
    }

    /// The arguments of the listing of all unmerged entries.
    pub fn unmerged_args(&self) -> (r: Vec<String>)
        ensures
            text::texts(r@) == seq!["ls-files"@, "-u"@],
    {
        let r = vec!["ls-files".to_string(), "-u".to_string()];
        assert(text::texts(r@) =~= seq!["ls-files"@, "-u"@]);
        r
    }

    /// The unmerged paths of a listing, each once and in order.
    pub fn unmerged_paths(&self, listing: &str) -> (r: Vec<String>)
        ensures
            text::ascending(text::texts(r@)),
            text::texts(r@).to_set() == paths_before(
                text::lines(listing@),
                text::lines(listing@).len() as int,
            ),
    {
        let chars = text::chars_of(listing);
        let lines = text::lines_of(chars.as_slice());
        let ghost l = text::lines(listing@);
        let mut paths: Vec<Vec<char>> = Vec::new();
        let mut i: usize = 0;
        assert(text::pieces(paths@).to_set() =~= Set::empty());
        while i < lines.len()
            invariant
                i <= lines@.len(),
                text::pieces(lines@) == l,
                text::ascending(text::pieces(paths@)),
                text::pieces(paths@).to_set() == paths_before(l, i as int),
            decreases lines@.len() - i,
        {
            assert(l[i as int] == lines@[i as int]@);
            match text::split_once_of(lines[i].as_slice(), '\t') {
                Some((_, path)) => {
                    text::insert_sorted(&mut paths, path);
                },
                None => {},
            }
            i = i + 1;
        }
        text::strings_of(&paths)
    }

    /// Starts resolving a path with one choice for the whole file.
    pub fn resolve_conflict(&self, path: &str, choice: ResolveChoice) -> (r: ConflictStep)
        ensures
            r.next() == ask_list(path@, Waiting::ForStages { goal: ListGoal::Resolve(choice) }),
            r.stays_with(path@),
    {
        list_step(path.to_string(), Waiting::ForStages { goal: ListGoal::Resolve(choice) })
    }

    /// Starts looking for the conflict blocks of a path.
    pub fn conflict_blocks(&self, path: &str) -> (r: ConflictStep)
        ensures
            r.next() == Next::Ask(Asked::ReadFile, Waiting::ForBlocksText),
            r.stays_with(path@),
    {
        ConflictStep::Ask {
            request: Request::ReadFile,
            task: ConflictTask { path: path.to_string(), waiting: Waiting::ForBlocksText },
        }
    }

    /// Starts resolving a path with one choice for each of its blocks.
    pub fn resolve_conflict_blocks(&self, path: &str, choices: Vec<ResolveChoice>) -> (r:
        ConflictStep)
        ensures
            r.next() == Next::Ask(Asked::ReadFile, Waiting::ForChoicesText { choices }),
            r.stays_with(path@),
    {
        ConflictStep::Ask {
            request: Request::ReadFile,
            task: ConflictTask {
                path: path.to_string(),
                waiting: Waiting::ForChoicesText { choices },
            },
        }
    }

    /// Starts marking a path as resolved.
    pub fn mark_conflict_resolved(&self, path: &str) -> (r: ConflictStep)
        ensures
            r.next() == ask_mark(),
            r.stays_with(path@),
    {
        mark_step(path.to_string())
    }
}

// ---------------------------------------------------------------------------
// Laws
// ---------------------------------------------------------------------------

/// A path counts as resolved only after git listed it without unmerged entries.
pub proof fn resolved_only_when_cleared(path: Seq<char>, w: Waiting, r: Reply)
    requires
        after_reply(path, w, r) == Next::Finish(Ok(Found::Resolved)),
    ensures
        w is ForCheck,
        r.kind is Success,
        !has_entries(r.text@),
{
}

/// A file is staged only right after it was read, and never with a conflict
/// marker left in what was read.
pub proof fn never_stages_markers(path: Seq<char>, w: Waiting, r: Reply)
    requires
        after_reply(path, w, r) matches Next::Ask(_, Waiting::ForAdd),
    ensures
        w is ForMarkText,
        r.kind is Success ==> !merge_conflict::has_markers(r.text@),
        after_reply(path, w, r) == Next::Ask(
            Asked::Git(seq!["--literal-pathspecs"@, "add"@, "--"@, path]),
            Waiting::ForAdd,
        ),
{
}

/// Marker lines in the file keep it from being marked as resolved.
pub proof fn markers_refuse_the_mark(path: Seq<char>, r: Reply)
    requires
        r.kind is Success,
        merge_conflict::has_markers(r.text@),
    ensures
        after_reply(path, Waiting::ForMarkText, r) == Next::Finish(
            Err::<Found, Failure>(Failure::MarkersRemain),
        ),
{
}

/// To keep both sides is refused where a side deleted the file, before anything
/// is changed.
pub proof fn both_needs_both_sides(path: Seq<char>, r: Reply)
    requires
        r.kind is Success,
        has_entries(r.text@),
        !has_stage(r.text@, 2) || !has_stage(r.text@, 3),
    ensures
        after_reply(
            path,
            Waiting::ForStages { goal: ListGoal::Resolve(ResolveChoice::Both) },
            r,
        ) == Next::Finish(Err::<Found, Failure>(Failure::OneSideDeleted)),
{
}

/// How many replies a task can still take.
pub open spec fn replies_left(w: Waiting) -> nat {
    match w {
        Waiting::ForChoicesText { .. } => 10,
        Waiting::ForBlocksText => 10,
        Waiting::ForStages { .. } => 9,
        Waiting::ForStage { stage: Stage::Base, .. } => 8,
        Waiting::ForStage { stage: Stage::Ours, .. } => 7,
        Waiting::ForStage { stage: Stage::Theirs, .. } => 6,
        Waiting::ForBothText => 5,
        Waiting::ForWrite => 4,
        Waiting::ForSide { .. } => 4,
        Waiting::ForMarkText => 3,
        Waiting::ForAdd => 2,
        Waiting::ForCheck => 1,
    }
}

/// Every task ends: each reply brings it closer to its end, whatever the reply is.
pub proof fn every_task_ends(path: Seq<char>, w: Waiting, r: Reply)
    ensures
        after_reply(path, w, r) matches Next::Ask(_, v) ==> replies_left(v) < replies_left(w),
{
    match w {
        Waiting::ForStage { content_goal: goal, listed, stage, known } => {
            if r.kind is Success {
                let next = with_stage(known, stage, r.bytes);
                assert(after_reply(path, w, r) == read_from(
                    path,
                    goal,
                    listed,
                    stage_after(stage),
                    next,
                ));
            }
        },
        _ => {},
    }
}

/// The unmerged paths of a listing.
pub open spec fn listed_paths(listing: Seq<char>) -> Set<Seq<char>> {
    paths_before(text::lines(listing), text::lines(listing).len() as int)
}

/// A listed entry, a mode, an object and a stage number before a tab and the path behind
/// it, tells its stage and its path; what the rest of the listing tells comes to it.
pub proof fn a_listed_entry_tells_its_stage(
    mode: Seq<char>,
    object: Seq<char>,
    stage: nat,
    path: Seq<char>,
    rest: Seq<char>,
)
    requires
        stage <= 255,
        mode.len() > 0,
        object.len() > 0,
        forall|j: int| 0 <= j < mode.len() ==> !text::is_space(#[trigger] mode[j]),
        forall|j: int| 0 <= j < object.len() ==> !text::is_space(#[trigger] object[j]),
        !path.contains('\n'),
        path.len() > 0,
        path.last() != '\r',
    ensures
        ({
            let line = mode + " "@ + object + " "@ + text::decimal(stage) + "\t"@ + path;
            let all = listed_stages(line + "\n"@ + rest);
            let others = listed_stages(rest);
            &&& all.any
            &&& all.base <==> stage == 1 || others.base
            &&& all.ours <==> stage == 2 || others.ours
            &&& all.theirs <==> stage == 3 || others.theirs
            &&& listed_paths(line + "\n"@ + rest) == listed_paths(rest).insert(path)
        }),
        !listed_stages(Seq::<char>::empty()).any,
        listed_paths(Seq::<char>::empty()) == Set::<Seq<char>>::empty(),
{
    reveal_strlit("\t");
    let line = mode + " "@ + object + " "@ + text::decimal(stage) + "\t"@ + path;
    lemma_entry_line(mode, object, stage, path);
    text::lines_go_line_by_line(line, rest);
    let l = text::lines(line + "\n"@ + rest);
    let r = text::lines(rest);
    assert(l[0] == line);
    assert(forall|i: int| 0 <= i < r.len() ==> #[trigger] l[i + 1] == r[i]);
    assert(forall|i: int| 0 < i < l.len() ==> #[trigger] l[i] == r[i - 1]);
    lemma_stages_front(line + "\n"@ + rest, rest, line, 1);
    lemma_stages_front(line + "\n"@ + rest, rest, line, 2);
    lemma_stages_front(line + "\n"@ + rest, rest, line, 3);
    assert(line_stage(text::lines(line + "\n"@ + rest)[0]) is Some);
    lemma_paths_front(line, path, r, r.len() as int);
}

proof fn lemma_stages_front(all: Seq<char>, rest: Seq<char>, line: Seq<char>, stage: nat)
    requires
        text::lines(all) == seq![line] + text::lines(rest),
    ensures
        has_stage(all, stage) <==> line_stage(line) == Some(stage) || has_stage(rest, stage),
{
    let l = text::lines(all);
    let r = text::lines(rest);
    assert(l[0] == line);
    if has_stage(rest, stage) {
        let i = choose|i: int| 0 <= i < r.len() && line_stage(#[trigger] r[i]) == Some(stage);
        assert(l[i + 1] == r[i]);
        assert(line_stage(text::lines(all)[i + 1]) == Some(stage));
    }
    if has_stage(all, stage) {
        let i = choose|i: int| 0 <= i < l.len() && line_stage(#[trigger] l[i]) == Some(stage);
        if i > 0 {
            assert(l[i] == r[i - 1]);
            assert(line_stage(text::lines(rest)[i - 1]) == Some(stage));
        }
    }
}

proof fn lemma_paths_front(line: Seq<char>, path: Seq<char>, r: Seq<Seq<char>>, n: int)
    requires
        0 <= n <= r.len(),
        line_path(line) == Some(path),
    ensures
        paths_before(seq![line] + r, n + 1) == paths_before(r, n).insert(path),
    decreases n,
{
    let l = seq![line] + r;
    if n > 0 {
        lemma_paths_front(line, path, r, n - 1);
        assert(l[n] == r[n - 1]);
        match line_path(r[n - 1]) {
            Some(p) => {
                assert(paths_before(r, n - 1).insert(path).insert(p) =~= paths_before(
                    r,
                    n - 1,
                ).insert(p).insert(path));
            },
            None => {},
        }
    } else {
        reveal_with_fuel(paths_before, 2);
        assert(l[0] == line);
    }
}

proof fn lemma_entry_line(mode: Seq<char>, object: Seq<char>, stage: nat, path: Seq<char>)
    requires
        stage <= 255,
        mode.len() > 0,
        object.len() > 0,
        forall|j: int| 0 <= j < mode.len() ==> !text::is_space(#[trigger] mode[j]),
        forall|j: int| 0 <= j < object.len() ==> !text::is_space(#[trigger] object[j]),
        !path.contains('\n'),
        path.len() > 0,
        path.last() != '\r',
    ensures
        ({
            let line = mode + " "@ + object + " "@ + text::decimal(stage) + "\t"@ + path;
            &&& line_stage(line) == Some(stage)
            &&& line_path(line) == Some(path)
            &&& !line.contains('\n')
            &&& line.last() != '\r'
        }),
{
    reveal_strlit("\t");
    reveal_strlit(" ");
    let space = seq![' '];
    let number = text::decimal(stage);
    let line = mode + " "@ + object + " "@ + number + "\t"@ + path;
    assert(" "@ =~= space);
    assert("\t"@ =~= seq!['\t']);
    let meta = mode + space + (object + space + number);
    assert(line =~= meta + seq!['\t'] + path);
    lemma_entry_words(mode, object, stage);
    assert(!meta.contains('\t'));
    text::a_front_is_split_off(meta, '\t', path);
    text::a_written_number_is_read_back(stage, 255);
    if line.contains('\n') {
        let j = choose|j: int| 0 <= j < line.len() && line[j] == '\n';
        if j > meta.len() {
            assert(path[j - meta.len() - 1] == '\n');
        }
    }
}

proof fn lemma_entry_words(mode: Seq<char>, object: Seq<char>, stage: nat)
    requires
        mode.len() > 0,
        object.len() > 0,
        forall|j: int| 0 <= j < mode.len() ==> !text::is_space(#[trigger] mode[j]),
        forall|j: int| 0 <= j < object.len() ==> !text::is_space(#[trigger] object[j]),
    ensures
        ({
            let meta = mode + seq![' '] + (object + seq![' '] + text::decimal(stage));
            &&& text::words(meta) == seq![mode, object, text::decimal(stage)]
            &&& forall|j: int| 0 <= j < meta.len() ==> #[trigger] meta[j] != '\t' && meta[j] != '\n'
        }),
{
    let space = seq![' '];
    let number = text::decimal(stage);
    let meta = mode + space + (object + space + number);
    text::decimals_are_digits(stage);
    text::ascii_space(' ');
    text::ascii_space('\t');
    text::ascii_space('\n');
    assert forall|j: int| 0 <= j < number.len() implies !text::is_space(#[trigger] number[j]) by {
        assert(text::is_digit(number[j]));
        text::ascii_space(number[j]);
    }
    assert forall|j: int| 0 <= j < meta.len() implies meta[j] != '\t' && meta[j] != '\n' by {
        let a = mode.len() as int;
        let b = object.len() as int;
        if j < a {
            assert(!text::is_space(mode[j]));
        } else if a < j && j < a + 1 + b {
            assert(!text::is_space(object[j - a - 1]));
        } else if j > a + 1 + b {
            assert(!text::is_space(number[j - a - b - 2]));
        }
    }
    text::words_go_word_by_word(mode, ' ', object + space + number);
    text::words_go_word_by_word(object, ' ', number);
    text::words_go_word_by_word(number, ' ', seq![]);
    let w = text::words(meta);
    assert(w =~= seq![mode, object, number]);
}

/// Keeping one side of a path puts that side into the working tree, stage two for ours and
/// stage three for theirs; a side that deleted the path has it removed.
pub proof fn one_side_is_checked_out(path: Seq<char>, r: Reply)
    requires
        r.kind is Success,
        has_entries(r.text@),
    ensures
        ({
            let ours = after_reply(
                path,
                Waiting::ForStages { goal: ListGoal::Resolve(ResolveChoice::Ours) },
                r,
            );
            let theirs = after_reply(
                path,
                Waiting::ForStages { goal: ListGoal::Resolve(ResolveChoice::Theirs) },
                r,
            );
            let rm = Asked::Git(seq!["rm"@, "--force"@, "--"@, path]);
            &&& has_stage(r.text@, 2) ==> ours == Next::Ask(
                Asked::Git(seq!["checkout-index"@, "--force"@, "--stage=2"@, "--"@, path]),
                Waiting::ForSide { stage: Stage::Ours, present: true },
            )
            &&& has_stage(r.text@, 3) ==> theirs == Next::Ask(
                Asked::Git(seq!["checkout-index"@, "--force"@, "--stage=3"@, "--"@, path]),
                Waiting::ForSide { stage: Stage::Theirs, present: true },
            )
            &&& !has_stage(r.text@, 2) ==> ours == Next::Ask(
                rm,
                Waiting::ForSide { stage: Stage::Ours, present: false },
            )
            &&& !has_stage(r.text@, 3) ==> theirs == Next::Ask(
                rm,
                Waiting::ForSide { stage: Stage::Theirs, present: false },
            )
        }),
{
    reveal_strlit("--stage=");
    reveal_strlit("--stage=2");
    reveal_strlit("--stage=3");
    assert("--stage="@ + text::decimal(2) =~= "--stage=2"@);
    assert("--stage="@ + text::decimal(3) =~= "--stage=3"@);
}

/// What is put into the working tree is read and staged before git is asked whether the
/// path is still unmerged; what was removed is asked about at once. Only an answer without
/// entries ends well.
pub proof fn a_resolution_is_staged_and_looked_at(
    path: Seq<char>,
    stage: Stage,
    r1: Reply,
    r2: Reply,
    r3: Reply,
    r4: Reply,
)
    requires
        r1.kind is Success,
        !(r2.kind is Success && merge_conflict::has_markers(r2.text@)),
        r3.kind is Success,
        r4.kind is Success,
    ensures
        after_reply(path, Waiting::ForSide { stage, present: true }, r1) == Next::Ask(
            Asked::ReadFile,
            Waiting::ForMarkText,
        ),
        after_reply(path, Waiting::ForWrite, r1) == Next::Ask(
            Asked::ReadFile,
            Waiting::ForMarkText,
        ),
        after_reply(path, Waiting::ForMarkText, r2) == Next::Ask(
            Asked::Git(seq!["--literal-pathspecs"@, "add"@, "--"@, path]),
            Waiting::ForAdd,
        ),
        after_reply(path, Waiting::ForAdd, r3) == Next::Ask(
            Asked::Git(seq!["ls-files"@, "-u"@, "--"@, path]),
            Waiting::ForCheck,
        ),
        after_reply(path, Waiting::ForSide { stage, present: false }, r1) == Next::Ask(
            Asked::Git(seq!["ls-files"@, "-u"@, "--"@, path]),
            Waiting::ForCheck,
        ),
        after_reply(path, Waiting::ForCheck, r4) == if has_entries(r4.text@) {
            Next::Finish(Err(Failure::NotCleared))
        } else {
            Next::Finish(Ok(Found::Resolved))
        },
{
}

/// A request that fails ends the task, with what failed and why.
pub proof fn a_failed_request_ends_the_task(path: Seq<char>, w: Waiting, r: Reply)
    requires
        !(r.kind is Success),
        !(w is ForMarkText),
        !(w is ForBlocksText),
    ensures
        after_reply(path, w, r) matches Next::Finish(Err(_)),
        w is ForStages || w is ForAdd || w is ForCheck ==> after_reply(path, w, r) == Next::Finish(
            Err(Failure::Git(r.text@)),
        ),
        w is ForBothText || w is ForChoicesText ==> after_reply(path, w, r) == Next::Finish(
            Err(Failure::ReadFailed(r.text@)),
        ),
        w is ForWrite && r.kind is Failure ==> after_reply(path, w, r) == Next::Finish(
            Err(Failure::WriteFailed(r.text@)),
        ),
        w is ForWrite && r.kind is NotStarted ==> after_reply(path, w, r) == Next::Finish(
            Err(Failure::ParentNotCreated(r.text@)),
        ),
        w matches Waiting::ForSide { stage, present } ==> after_reply(path, w, r) == Next::Finish(
            Err(
                if present {
                    Failure::StageNotCheckedOut(stage, r.text@)
                } else {
                    Failure::DeletionNotStaged(r.text@)
                },
            ),
        ),
{
}

/// The stages of a path are read one after the other, the base first and theirs last, each
/// by its number, and handed out as they were read. A stage that is not listed is passed
/// over and stays unknown.
pub proof fn stages_are_read_in_order(
    path: Seq<char>,
    listing: Reply,
    base: Reply,
    ours: Reply,
    theirs: Reply,
)
    requires
        listing.kind is Success && base.kind is Success && ours.kind is Success
            && theirs.kind is Success,
        has_stage(listing.text@, 2),
        has_stage(listing.text@, 3),
    ensures
        ({
            let goal = ContentGoal::Report;
            let listed = listed_stages(listing.text@);
            let nothing = ConflictStageContent { base: None, ours: None, theirs: None };
            let first = after_reply(
                path,
                Waiting::ForStages { goal: ListGoal::Content(goal) },
                listing,
            );
            let one = if has_stage(listing.text@, 1) {
                ConflictStageContent { base: Some(base.bytes), ..nothing }
            } else {
                nothing
            };
            let two = ConflictStageContent { ours: Some(ours.bytes), ..one };
            let w1 = Waiting::ForStage {
                content_goal: goal,
                listed,
                stage: Stage::Base,
                known: nothing,
            };
            let w2 = Waiting::ForStage { content_goal: goal, listed, stage: Stage::Ours, known: one };
            let w3 = Waiting::ForStage {
                content_goal: goal,
                listed,
                stage: Stage::Theirs,
                known: two,
            };
            let second = if has_stage(listing.text@, 1) {
                after_reply(path, w1, base)
            } else {
                first
            };
            &&& has_stage(listing.text@, 1) ==> first == Next::Ask(Asked::Show(":1:"@ + path), w1)
            &&& second == Next::Ask(Asked::Show(":2:"@ + path), w2)
            &&& after_reply(path, w2, ours) == Next::Ask(Asked::Show(":3:"@ + path), w3)
            &&& after_reply(path, w3, theirs) == Next::Finish(
                Ok(
                    Found::Stages(
                        ConflictStageContent { theirs: Some(theirs.bytes), ..two },
                    ),
                ),
            )
        }),
{
    lemma_stage_object(path);
    let l = text::lines(listing.text@);
    let i = choose|i: int| 0 <= i < l.len() && line_stage(#[trigger] l[i]) == Some(2nat);
    assert(line_stage(text::lines(listing.text@)[i]) is Some);
    assert(has_entries(listing.text@));
}

proof fn lemma_stage_object(path: Seq<char>)
    ensures
        ":"@ + text::decimal(1) + ":"@ + path == ":1:"@ + path,
        ":"@ + text::decimal(2) + ":"@ + path == ":2:"@ + path,
        ":"@ + text::decimal(3) + ":"@ + path == ":3:"@ + path,
{
    reveal_strlit(":");
    reveal_strlit(":1:");
    reveal_strlit(":2:");
    reveal_strlit(":3:");
    assert(":"@ + text::decimal(1) + ":"@ =~= ":1:"@);
    assert(":"@ + text::decimal(2) + ":"@ =~= ":2:"@);
    assert(":"@ + text::decimal(3) + ":"@ =~= ":3:"@);
}

/// The choices for the blocks of a file lead to the resolved text, or to the reason why
/// there is none; a file without markers is resolved as a whole, by its one choice.
pub proof fn choices_lead_to_the_resolved_text(
    path: Seq<char>,
    choices: Vec<ResolveChoice>,
    r: Reply,
)
    requires
        r.kind is Success,
    ensures
        ({
            let n = after_reply(path, Waiting::ForChoicesText { choices }, r);
            let plain = merge_conflict::segments(r.text@) is Some && merge_conflict::block_count(
                r.text@,
            ) == 0;
            let listing = Asked::Git(seq!["ls-files"@, "-u"@, "--"@, path]);
            &&& !plain ==> match merge_conflict::resolution(r.text@, choices@) {
                Ok(t) => n == Next::Ask(Asked::WriteFile(t), Waiting::ForWrite),
                Err(e) => n == Next::Finish(Err(Failure::Markers(e))),
            }
            &&& plain && choices@ == seq![ResolveChoice::Both] ==> n == Next::Ask(
                listing,
                Waiting::ForStages { goal: ListGoal::Content(ContentGoal::KeepBoth) },
            )
            &&& plain && choices@ == seq![ResolveChoice::Ours] ==> n == Next::Ask(
                listing,
                Waiting::ForStages { goal: ListGoal::Resolve(ResolveChoice::Ours) },
            )
            &&& plain && choices@ == seq![ResolveChoice::Theirs] ==> n == Next::Ask(
                listing,
                Waiting::ForStages { goal: ListGoal::Resolve(ResolveChoice::Theirs) },
            )
            &&& plain && choices@.len() != 1 ==> n matches Next::Finish(Err(_))
        }),
{
}

/// Keeping both sides of a path that has both writes the text of the file with both sides
/// of every block kept.
pub proof fn both_sides_of_every_block_are_kept(path: Seq<char>, listing: Reply, r: Reply)
    requires
        listing.kind is Success,
        has_stage(listing.text@, 2),
        has_stage(listing.text@, 3),
        r.kind is Success,
    ensures
        after_reply(
            path,
            Waiting::ForStages { goal: ListGoal::Resolve(ResolveChoice::Both) },
            listing,
        ) == Next::Ask(Asked::ReadFile, Waiting::ForBothText),
        forall|choices: Seq<ResolveChoice>|
            #![trigger merge_conflict::resolution(r.text@, choices)]
            choices.len() == merge_conflict::block_count(r.text@) && (forall|i: int|
                0 <= i < choices.len() ==> #[trigger] choices[i] is Both) ==> after_reply(
                path,
                Waiting::ForBothText,
                r,
            ) == match merge_conflict::resolution(r.text@, choices) {
                Ok(t) => Next::Ask(Asked::WriteFile(t), Waiting::ForWrite),
                Err(e) => Next::Finish(Err(Failure::Markers(e))),
            },
{
    let l = text::lines(listing.text@);
    let i = choose|i: int| 0 <= i < l.len() && line_stage(#[trigger] l[i]) == Some(2nat);
    assert(line_stage(text::lines(listing.text@)[i]) is Some);
    assert(has_entries(listing.text@));
    let all = merge_conflict::all_both(merge_conflict::block_count(r.text@));
    assert forall|choices: Seq<ResolveChoice>|
        #![trigger merge_conflict::resolution(r.text@, choices)]
        choices.len() == merge_conflict::block_count(r.text@) && (forall|i: int|
            0 <= i < choices.len() ==> #[trigger] choices[i] is Both) implies after_reply(
        path,
        Waiting::ForBothText,
        r,
    ) == match merge_conflict::resolution(r.text@, choices) {
        Ok(t) => Next::Ask(Asked::WriteFile(t), Waiting::ForWrite),
        Err(e) => Next::Finish(Err(Failure::Markers(e))),
    } by {
        assert(choices =~= all);
    }
}

/// A path whose file holds no markers is shown as a single block, made of its stages: what
/// the stages do not share, with at most three lines of what they share on either side.
pub proof fn a_path_without_markers_is_one_block(
    c: ConflictStageContent,
    r: merge_conflict::Regions,
)
    requires
        merge_conflict::stage_regions(c) == Ok::<merge_conflict::Regions, (Stage, Seq<char>)>(r),
    ensures
        r.ours.len() == 0 && r.theirs.len() == 0 ==> content_known(ContentGoal::Block, c)
            == Next::Finish(Err(Failure::NoText)),
        r.ours.len() > 0 || r.theirs.len() > 0 ==> content_known(ContentGoal::Block, c)
            == Next::Finish(
            Ok(
                Found::Blocks(
                    seq![
                        Block {
                            index: 0,
                            context_before: merge_conflict::tail_text(r.prefix, 3),
                            base: r.base,
                            ours: r.ours,
                            theirs: r.theirs,
                            context_after: merge_conflict::head_text(r.suffix, 3),
                        },
                    ],
                ),
            ),
        ),
        content_known(ContentGoal::KeepBoth, c) == Next::Ask(
            Asked::WriteFile(merge_conflict::both_sides(r)),
            Waiting::ForWrite,
        ),
{
}

/// The blocks of a file with markers are those of its text; one without, or one that
/// cannot be read, has its stages listed instead.
pub proof fn blocks_come_from_the_file_or_the_stages(path: Seq<char>, r: Reply)
    ensures
        ({
            let n = after_reply(path, Waiting::ForBlocksText, r);
            let listing = Next::Ask(
                Asked::Git(seq!["ls-files"@, "-u"@, "--"@, path]),
                Waiting::ForStages { goal: ListGoal::Content(ContentGoal::Block) },
            );
            &&& !(r.kind is Success) ==> n == listing
            &&& r.kind is Success ==> match merge_conflict::segments(r.text@) {
                None => n == Next::Finish(
                    Err(Failure::Markers(MarkerError::Malformed)),
                ),
                Some(segs) => {
                    let blocks = merge_conflict::display_blocks(segs, segs.len() as int);
                    n == if blocks.len() == 0 {
                        listing
                    } else {
                        Next::Finish(Ok(Found::Blocks(blocks)))
                    }
                },
            }
        }),
{
}

/// A stage is a number of one byte: a line with a greater one names none.
pub proof fn a_stage_fits_in_a_byte(l: Seq<char>)
    ensures
        line_stage(l) matches Some(n) ==> n <= 255,
{
}

} // verus!
