//! What happens from frame to frame.

use crate::gui::background::CommitPages;
use crate::gui::popup::input;
use crate::gui::popup::input::InputPopup;
use crate::gui::popup::keys::{PopupState, Popups};
use crate::gui::textarea;
use crate::gui::textarea::TextField;
use crate::model::{Model, ModelPart};
use crate::text;
use vstd::prelude::*;

verus! {

// ---------------------------------------------------------------------------
// Loading
// ---------------------------------------------------------------------------

/// The loading of what is known of the repository, part by part.
#[derive(Debug, Clone, Copy, PartialEq, Eq, Structural)]
pub struct ModelLoad {
    /// Whether parts are still to come.
    pub running: bool,
    pub received: usize,
    /// Whether what was known before is being loaded anew.
    pub refresh_in_progress: bool,
}

/// The filters on the commits.
#[derive(Debug)]
pub struct CommitFilters {
    pub branches: Vec<String>,
    pub path: Option<String>,
    pub authors: Vec<String>,
}

impl CommitFilters {
    /// Whether any filter is set.
    pub open spec fn any(self) -> bool {
        self.branches@.len() > 0 || self.path is Some || self.authors@.len() > 0
    }

    /// Tells whether any filter is set.
    pub fn is_set(&self) -> (r: bool)
        ensures
            r == self.any(),
    {
        self.branches.len() > 0 || self.path.is_some() || self.authors.len() > 0
    }

    /// What is shown of the filters: one entry for each branch, one for the path, and
    /// one for all authors.
    pub open spec fn shown(self) -> Seq<Seq<char>> {
        branch_labels(text::texts(self.branches@)) + (match self.path {
            Some(p) => seq!["path: "@ + p@],
            None => seq![],
        }) + if self.authors@.len() > 0 {
            seq!["author: "@ + text::join(text::texts(self.authors@), ", "@)]
        } else {
            seq![]
        }
    }

    /// Says which filters are set.
    pub fn labels(&self) -> (r: Vec<String>)
        ensures
            text::texts(r@) == self.shown(),
    {
        let ghost l = text::texts(self.branches@);
        let mut r: Vec<String> = Vec::new();
        let mut i: usize = 0;
        assert(text::texts(r@) =~= branch_labels(l).take(0));
        while i < self.branches.len()
            invariant
                i <= self.branches@.len(),
                l == text::texts(self.branches@),
                text::texts(r@) == branch_labels(l).take(i as int),
            decreases self.branches@.len() - i,
        {
            let ghost before = r@;
            let mut s = "branch: ".to_string();
            s.append(self.branches[i].as_str());
            assert(l[i as int] == self.branches@[i as int]@);
            r.push(s);
            assert(text::texts(r@) =~= text::texts(before).push(branch_labels(l)[i as int]));
            assert(text::texts(r@) =~= branch_labels(l).take(i as int + 1));
            i = i + 1;
        }
        assert(branch_labels(l).take(l.len() as int) =~= branch_labels(l));
        let ghost one = r@;
        match &self.path {
            Some(p) => {
                let mut s = "path: ".to_string();
                s.append(p.as_str());
                r.push(s);
            },
            None => {},
        }
        let ghost two = r@;
        assert(text::texts(two) =~= text::texts(one) + (match self.path {
            Some(p) => seq!["path: "@ + p@],
            None => seq![],
        }));
        if self.authors.len() > 0 {
            let mut s = "author: ".to_string();
            s.append(text::join_strings(&self.authors, ", ").as_str());
            r.push(s);
        }
        assert(text::texts(r@) =~= self.shown());
        r
    }
}

/// What is shown of the branches that the commits are filtered by.
pub open spec fn branch_labels(l: Seq<Seq<char>>) -> Seq<Seq<char>> {
    Seq::new(l.len(), |i: int| "branch: "@ + l[i])
}

/// What a part brought that other things depend on.
#[derive(Debug, Clone, Copy, PartialEq, Eq, Structural)]
pub struct PartNews {
    pub files: bool,
    pub rebasing: bool,
}

/// What is known of the repository with a part taken in. While the commits are
/// filtered, those of the whole history are not shown.
pub open spec fn taken_in(m: Model, part: ModelPart, filtered: bool) -> Model {
    match part {
        ModelPart::Files(v) => Model { files: v, ..m },
        ModelPart::Branches(v) => Model { branches: v, ..m },
        ModelPart::Commits(v) => if filtered {
            m
        } else {
            Model { commits: v, ..m }
        },
        ModelPart::Stash(v) => Model { stash_entries: v, ..m },
        ModelPart::Remotes(v) => Model { remotes: v, ..m },
        ModelPart::Tags(v) => Model { tags: v, ..m },
        ModelPart::Worktrees(v) => Model { worktrees: v, ..m },
        ModelPart::Submodules(v) => Model { submodules: v, ..m },
        ModelPart::Reflog(v) => Model { reflog_commits: v, ..m },
        ModelPart::DiffStats { additions, deletions } => Model {
            total_additions: additions,
            total_deletions: deletions,
            ..m
        },
        ModelPart::RepoStatus {
            is_rebasing,
            is_merging,
            is_cherry_picking,
            is_bisecting,
            rebase_onto_hash,
        } => Model {
            is_rebasing,
            is_merging,
            is_cherry_picking,
            is_bisecting,
            rebase_onto_hash,
            ..m
        },
        ModelPart::Head { hash, branch_name } => Model {
            head_hash: hash,
            head_branch_name: branch_name,
            ..m
        },
        ModelPart::RepoUrl(url) => Model { repo_url: url, ..m },
        ModelPart::Contributors(c) => Model { contributors: c, ..m },
    }
}

/// What is known of the pages of commits with a part taken in: a history that is
/// shorter than a page is complete.
pub open spec fn pages_with(
    c: CommitPages,
    part: ModelPart,
    filtered: bool,
    limit: nat,
) -> CommitPages {
    match part {
        ModelPart::Commits(v) => if filtered {
            c
        } else {
            CommitPages { complete: v@.len() < limit, ..c }
        },
        _ => c,
    }
}

/// Whether a part tells that a rebase is under way.
pub open spec fn tells_rebase(part: ModelPart) -> bool {
    part matches ModelPart::RepoStatus { is_rebasing, .. } && is_rebasing
}

/// What is known of the repository with parts taken in, one after the other.
pub open spec fn all_taken_in(m: Model, parts: Seq<ModelPart>, filtered: bool) -> Model
    decreases parts.len(),
{
    if parts.len() == 0 {
        m
    } else {
        all_taken_in(taken_in(m, parts[0], filtered), parts.skip(1), filtered)
    }
}

/// What is known of the pages of commits with parts taken in, one after the other.
pub open spec fn pages_with_all(
    c: CommitPages,
    parts: Seq<ModelPart>,
    filtered: bool,
    limit: nat,
) -> CommitPages
    decreases parts.len(),
{
    if parts.len() == 0 {
        c
    } else {
        pages_with_all(pages_with(c, parts[0], filtered, limit), parts.skip(1), filtered, limit)
    }
}

/// What parts bring that other things depend on.
pub open spec fn news_of(parts: Seq<ModelPart>) -> PartNews {
    PartNews {
        files: exists|i: int| 0 <= i < parts.len() && #[trigger] parts[i] is Files,
        rebasing: exists|i: int| 0 <= i < parts.len() && tells_rebase(#[trigger] parts[i]),
    }
}

impl ModelLoad {
    /// Takes in the parts that came in during a frame, in the order in which they came.
    pub fn take_parts(
        &mut self,
        model: &mut Model,
        pages: &mut CommitPages,
        filters: &CommitFilters,
        parts: Vec<ModelPart>,
        limit: usize,
    ) -> (r: PartNews)
        requires
            old(self).received + parts@.len() <= usize::MAX,
        ensures
            *final(self) == (ModelLoad {
                received: (old(self).received + parts@.len()) as usize,
                ..*old(self)
            }),
            *final(model) == all_taken_in(*old(model), parts@, filters.any()),
            *final(pages) == pages_with_all(*old(pages), parts@, filters.any(), limit as nat),
            r == news_of(parts@),
    {
        let mut left = parts;
        let mut news = PartNews { files: false, rebasing: false };
        let ghost mut seen: Seq<ModelPart> = seq![];
        assert(seen + left@ =~= parts@);
        while left.len() > 0
            invariant
                seen + left@ == parts@,
                self.received + left@.len() <= usize::MAX,
                *self == (ModelLoad {
                    received: (old(self).received + seen.len()) as usize,
                    ..*old(self)
                }),
                old(self).received + parts@.len() <= usize::MAX,
                all_taken_in(*model, left@, filters.any()) == all_taken_in(
                    *old(model),
                    parts@,
                    filters.any(),
                ),
                pages_with_all(*pages, left@, filters.any(), limit as nat) == pages_with_all(
                    *old(pages),
                    parts@,
                    filters.any(),
                    limit as nat,
                ),
                news == news_of(seen),
            decreases left@.len(),
        {
            let ghost before = seen;
            let ghost was = left@;
            let part = left.remove(0);
            assert(left@ =~= was.skip(1));
            proof {
                seen = before.push(part);
                assert(seen + left@ =~= before + was);
            }
            let one = self.take_part(model, pages, filters, part, limit);
            assert(news_of(seen).files == (news_of(before).files || part is Files)) by {
                if news_of(before).files {
                    let i = choose|i: int| 0 <= i < before.len() && #[trigger] before[i] is Files;
                    assert(seen[i] is Files);
                }
                if news_of(seen).files {
                    let i = choose|i: int| 0 <= i < seen.len() && #[trigger] seen[i] is Files;
                    if i < before.len() {
                        assert(before[i] is Files);
                    }
                }
                assert(seen[before.len() as int] == part);
            }
            assert(news_of(seen).rebasing == (news_of(before).rebasing || tells_rebase(part))) by {
                if news_of(before).rebasing {
                    let i = choose|i: int|
                        0 <= i < before.len() && tells_rebase(#[trigger] before[i]);
                    assert(tells_rebase(seen[i]));
                }
                if news_of(seen).rebasing {
                    let i = choose|i: int| 0 <= i < seen.len() && tells_rebase(#[trigger] seen[i]);
                    if i < before.len() {
                        assert(tells_rebase(before[i]));
                    }
                }
                assert(seen[before.len() as int] == part);
            }
            news.files = news.files || one.files;
            news.rebasing = news.rebasing || one.rebasing;
        }
        assert(seen =~= parts@);
        news
    }

    /// Takes a part in. `limit` is the length of a page of commits: a history that is
    /// shorter is complete.
    pub fn take_part(
        &mut self,
        model: &mut Model,
        pages: &mut CommitPages,
        filters: &CommitFilters,
        part: ModelPart,
        limit: usize,
    ) -> (r: PartNews)
        requires
            old(self).received < usize::MAX,
        ensures
            *final(self) == (ModelLoad {
                received: (old(self).received + 1) as usize,
                ..*old(self)
            }),
            *final(model) == taken_in(*old(model), part, filters.any()),
            *final(pages) == pages_with(*old(pages), part, filters.any(), limit as nat),
            r.files == part is Files,
            r.rebasing == tells_rebase(part),
    {
        self.received = self.received + 1;
        let mut news = PartNews { files: false, rebasing: false };
        match part {
            ModelPart::Files(v) => {
                model.files = v;
                news.files = true;
            },
            ModelPart::Branches(v) => {
                model.branches = v;
            },
            ModelPart::Commits(v) => {
                if !filters.is_set() {
                    pages.complete = v.len() < limit;
                    model.commits = v;
                }
            },
            ModelPart::Stash(v) => {
                model.stash_entries = v;
            },
            ModelPart::Remotes(v) => {
                model.remotes = v;
            },
            ModelPart::Tags(v) => {
                model.tags = v;
            },
            ModelPart::Worktrees(v) => {
                model.worktrees = v;
            },
            ModelPart::Submodules(v) => {
                model.submodules = v;
            },
            ModelPart::Reflog(v) => {
                model.reflog_commits = v;
            },
            ModelPart::DiffStats { additions, deletions } => {
                model.total_additions = additions;
                model.total_deletions = deletions;
            },
            ModelPart::RepoStatus {
                is_rebasing,
                is_merging,
                is_cherry_picking,
                is_bisecting,
                rebase_onto_hash,
            } => {
                model.is_rebasing = is_rebasing;
                model.is_merging = is_merging;
                model.is_cherry_picking = is_cherry_picking;
                model.is_bisecting = is_bisecting;
                model.rebase_onto_hash = rebase_onto_hash;
                news.rebasing = is_rebasing;
            },
            ModelPart::Head { hash, branch_name } => {
                model.head_hash = hash;
                model.head_branch_name = branch_name;
            },
            ModelPart::RepoUrl(url) => {
                model.repo_url = url;
            },
            ModelPart::Contributors(c) => {
                model.contributors = c;
            },
        }
        news
    }

    /// What follows the parts that came in during a frame.
    pub fn after_parts(
        &mut self,
        news: PartNews,
        received_before: usize,
        part_count: usize,
        rebase_active: bool,
        rebase_dismissed: bool,
        show_file_tree: bool,
    ) -> (r: FrameNews)
        ensures
            r == (FrameNews {
                show_rebase: news.rebasing && !rebase_active && !rebase_dismissed,
                rebuild_tree: news.files && show_file_tree,
                diff: old(self).received > received_before || (old(self).received >= part_count
                    && old(self).refresh_in_progress),
                refreshed: old(self).received >= part_count && old(self).refresh_in_progress,
            }),
            *final(self) == if old(self).received >= part_count {
                ModelLoad { running: false, refresh_in_progress: false, ..*old(self) }
            } else {
                *old(self)
            },
    {
        let done = self.received >= part_count;
        let refreshed = done && self.refresh_in_progress;
        let diff = self.received > received_before || refreshed;
        if done {
            self.running = false;
            self.refresh_in_progress = false;
        }
        FrameNews {
            show_rebase: news.rebasing && !rebase_active && !rebase_dismissed,
            rebuild_tree: news.files && show_file_tree,
            diff,
            refreshed,
        }
    }

    /// Starts to load everything anew, unless that is going on; tells whether it was
    /// started.
    pub fn start_background_refresh(&mut self, pages: &mut CommitPages) -> (r: bool)
        ensures
            r == (!old(self).refresh_in_progress && !old(self).running),
            !r ==> *final(self) == *old(self) && *final(pages) == *old(pages),
            r ==> *final(self) == (ModelLoad {
                running: true,
                received: 0,
                refresh_in_progress: true,
            }) && !final(pages).loading && !final(pages).complete && final(pages).generation
                == crate::gui::diff_pane::next_number(old(pages).generation),
    {
        if self.refresh_in_progress || self.running {
            return false;
        }
        self.running = true;
        self.received = 0;
        self.refresh_in_progress = true;
        pages.reset();
        true
    }
}

/// What follows the parts that came in during a frame.
#[derive(Debug, Clone, Copy, PartialEq, Eq, Structural)]
pub struct FrameNews {
    /// The rebase that is under way is shown.
    pub show_rebase: bool,
    pub rebuild_tree: bool,
    /// The diff is asked for anew.
    pub diff: bool,
    /// Everything was loaded anew: what depends on it is brought up to date.
    pub refreshed: bool,
}

// ---------------------------------------------------------------------------
// The screen
// ---------------------------------------------------------------------------

/// What fills the screen.
#[derive(Debug, Clone, Copy, PartialEq, Eq, Structural)]
pub enum Screen {
    ConflictMode,
    RebaseMode,
    DiffMode,
    Panels,
}

/// What lies over the screen.
#[derive(Debug, Clone, Copy, PartialEq, Eq, Structural)]
pub enum Overlay {
    Nothing,
    Popup,
    Generating,
    RemoteOp,
}

/// What fills the screen: the first mode that is on, or the panels.
pub fn screen(conflict_mode: bool, rebase_mode: bool, diff_mode: bool) -> (r: Screen)
    ensures
        r == if conflict_mode {
            Screen::ConflictMode
        } else if rebase_mode {
            Screen::RebaseMode
        } else if diff_mode {
            Screen::DiffMode
        } else {
            Screen::Panels
        },
{
    if conflict_mode {
        Screen::ConflictMode
    } else if rebase_mode {
        Screen::RebaseMode
    } else if diff_mode {
        Screen::DiffMode
    } else {
        Screen::Panels
    }
}

/// What lies over the screen: a window before what is being generated before an
/// operation on a remote. Over the resolver of conflicts there is only a window.
pub fn overlay(on: Screen, popup_open: bool, generating: bool, remote_op: bool) -> (r: Overlay)
    ensures
        r == if popup_open {
            Overlay::Popup
        } else if on is ConflictMode {
            Overlay::Nothing
        } else if generating {
            Overlay::Generating
        } else if remote_op {
            Overlay::RemoteOp
        } else {
            Overlay::Nothing
        },
{
    if popup_open {
        return Overlay::Popup;
    }
    match on {
        Screen::ConflictMode => Overlay::Nothing,
        _ => if generating {
            Overlay::Generating
        } else if remote_op {
            Overlay::RemoteOp
        } else {
            Overlay::Nothing
        },
    }
}

/// What is shown of a search: what is searched for, how many hits there are, and
/// which one is on show. Nothing where there is no search.
pub fn search_status(active: bool, query: &str, count: usize, at: usize) -> (r: Option<(usize, usize)>)
    ensures
        r == if active || query@.len() > 0 {
            Some((count, at))
        } else {
            None
        },
{
    if active || !text::is_empty_str(query) {
        Some((count, at))
    } else {
        None
    }
}

/// Whether a time, in milliseconds of a clock, is at least so long ago.
pub open spec fn ago(since: Option<u64>, now: u64, ms: int) -> bool {
    since matches Some(t) && (if now > t {
        now - t
    } else {
        0
    }) >= ms
}

/// Whether it is said that a diff is being loaded: only after a moment, so that
/// nothing flickers.
pub fn shows_loading(loading: bool, since: Option<u64>, now: u64) -> (r: bool)
    ensures
        r == (loading && ago(since, now, 50)),
{
    loading && match since {
        Some(t) => now.saturating_sub(t) >= 50,
        None => false,
    }
}

/// Whether it is still said that an operation on a remote succeeded: for five seconds.
pub fn shows_success(success_at: Option<u64>, now: u64) -> (r: bool)
    ensures
        r == (success_at is Some && !ago(success_at, now, 5000)),
{
    match success_at {
        Some(t) => now.saturating_sub(t) < 5000,
        None => false,
    }
}

// ---------------------------------------------------------------------------
// Frames
// ---------------------------------------------------------------------------

/// How long a frame waits for something to happen, in milliseconds: not long while
/// anything moves on the screen.
pub fn frame_timeout(
    generating: bool,
    remote_op: bool,
    diff_loading: bool,
    model_loading: bool,
    refreshing: bool,
    auto_refresh: bool,
) -> (r: u64)
    ensures
        r == if generating || remote_op || diff_loading || model_loading || refreshing {
            16u64
        } else if auto_refresh {
            50
        } else {
            200
        },
{
    if generating || remote_op || diff_loading || model_loading || refreshing {
        16
    } else if auto_refresh {
        50
    } else {
        200
    }
}

/// Whether it is time to load everything anew without being asked to.
pub fn auto_refresh_due(enabled: bool, interval: u64, last_at: u64, now: u64) -> (r: bool)
    ensures
        r == (enabled && interval > 0 && (if now > last_at {
            now - last_at
        } else {
            0
        }) / 1000 >= interval),
{
    enabled && interval > 0 && now.saturating_sub(last_at) / 1000 >= interval
}

/// What is loaded anew at the end of a frame.
#[derive(Debug, Clone, Copy, PartialEq, Eq, Structural)]
pub enum FrameRefresh {
    Nothing,
    Everything,
    Files,
}

/// What is loaded anew at the end of a frame: everything where that is wanted and not
/// going on, or else the files.
pub open spec fn due_refresh(
    needs_refresh: bool,
    needs_files: bool,
    load: ModelLoad,
    files_in_progress: bool,
) -> FrameRefresh {
    if needs_refresh && !load.refresh_in_progress && !load.running {
        FrameRefresh::Everything
    } else if needs_files && !load.refresh_in_progress && !files_in_progress {
        FrameRefresh::Files
    } else {
        FrameRefresh::Nothing
    }
}

/// Decides what is loaded anew at the end of a frame.
pub fn frame_refresh(
    needs_refresh: bool,
    needs_files: bool,
    load: &ModelLoad,
    files_in_progress: bool,
) -> (r: FrameRefresh)
    ensures
        r == due_refresh(needs_refresh, needs_files, *load, files_in_progress),
{
    if needs_refresh && !load.refresh_in_progress && !load.running {
        FrameRefresh::Everything
    } else if needs_files && !load.refresh_in_progress && !files_in_progress {
        FrameRefresh::Files
    } else {
        FrameRefresh::Nothing
    }
}

/// What comes from the terminal.
#[derive(Debug, Clone, Copy, PartialEq, Eq, Structural)]
pub enum TerminalEvent {
    KeyPress,
    KeyOther,
    Mouse,
    Resize,
    FocusGained,
    FocusLost,
    Paste,
}

/// What is done about it.
#[derive(Debug, Clone, Copy, PartialEq, Eq, Structural)]
pub enum EventCourse {
    Key,
    Mouse,
    Resize,
    Refresh,
    Paste,
    Nothing,
}

/// Decides what is done about something that comes from the terminal: of keys only
/// the press counts.
pub fn event_course(event: TerminalEvent, auto_refresh: bool) -> (r: EventCourse)
    ensures
        r == match event {
            TerminalEvent::KeyPress => EventCourse::Key,
            TerminalEvent::Mouse => EventCourse::Mouse,
            TerminalEvent::Resize => EventCourse::Resize,
            TerminalEvent::FocusGained => if auto_refresh {
                EventCourse::Refresh
            } else {
                EventCourse::Nothing
            },
            TerminalEvent::Paste => EventCourse::Paste,
            _ => EventCourse::Nothing,
        },
{
    match event {
        TerminalEvent::KeyPress => EventCourse::Key,
        TerminalEvent::Mouse => EventCourse::Mouse,
        TerminalEvent::Resize => EventCourse::Resize,
        TerminalEvent::FocusGained => if auto_refresh {
            EventCourse::Refresh
        } else {
            EventCourse::Nothing
        },
        TerminalEvent::Paste => EventCourse::Paste,
        TerminalEvent::KeyOther | TerminalEvent::FocusLost => EventCourse::Nothing,
    }
}

// ---------------------------------------------------------------------------
// Leaving
// ---------------------------------------------------------------------------

/// Whether the program is to end, and what is to be opened then.
#[derive(Debug)]
pub struct Leaving {
    pub should_quit: bool,
    pub pending_repo_open: Option<String>,
}

impl Leaving {
    /// Nothing is to end.
    pub fn new() -> (r: Self)
        ensures
            !r.should_quit,
            r.pending_repo_open is None,
    {
        Leaving { should_quit: false, pending_repo_open: None }
    }

    /// Ends the program to open another repository.
    pub fn request_repo_open(&mut self, path: String)
        ensures
            *final(self) == (Leaving { should_quit: true, pending_repo_open: Some(path) }),
    {
        self.pending_repo_open = Some(path);
        self.should_quit = true;
    }

    /// Takes what is to be opened.
    pub fn take_pending_repo_open(&mut self) -> (r: Option<String>)
        ensures
            r == old(self).pending_repo_open,
            *final(self) == (Leaving { pending_repo_open: None, ..*old(self) }),
    {
        self.pending_repo_open.take()
    }
}

// ---------------------------------------------------------------------------
// Size
// ---------------------------------------------------------------------------

/// Whether a field was filled anew with its own text and wrapped for show.
pub open spec fn rewrapped(before: TextField, after: TextField, w: nat) -> bool {
    exists|mid: TextField|
        #![trigger textarea::soft_wrapped_to(mid, after, w)]
        input::holds(mid, text::join(before.text().lines, seq![])) && textarea::soft_wrapped_to(
            mid,
            after,
            w,
        )
}

impl InputPopup {
    /// Whether a new width of the screen turns the window into another: its text is
    /// wrapped anew.
    pub open spec fn resized(self, inner: int, configured: int, after: InputPopup) -> bool {
        after == (InputPopup { textarea: after.textarea, ..self }) && if self.is_commit {
            textarea::hard_wrapped_to(
                self.textarea,
                after.textarea,
                input::wrap_width(inner, configured) as nat,
            )
        } else if inner > 0 && text::join(self.textarea.text().lines, seq![]).len() > 0 {
            rewrapped(self.textarea, after.textarea, inner as nat)
        } else {
            after.textarea == self.textarea
        }
    }

    /// Wraps the text anew for a width of the screen.
    pub fn resize(&mut self, inner: usize, configured: usize)
        ensures
            old(self).resized(inner as int, configured as int, *final(self)),
    {
        if self.is_commit {
            let w: usize = input::effective_wrap_width(inner, configured);
            textarea::auto_wrap_textarea(&mut self.textarea, w);
        } else {
            let raw = self.textarea.joined();
            if inner > 0 && !text::is_empty_str(raw.as_str()) {
                let mut field = TextField::with_text(raw.as_str());
                let ghost mid = field;
                textarea::soft_wrap(&mut field, inner);
                assert(input::holds(mid, raw@));
                assert(textarea::soft_wrapped_to(mid, field, inner as nat));
                self.textarea = field;
            }
        }
    }
}

impl Popups {
    /// Takes a new width of the screen. Gives the width at which the body of a commit
    /// message is wrapped anew, if one is open.
    pub fn handle_resize(&mut self, screen_width: u16, configured: usize) -> (r: Option<usize>)
        requires
            screen_width * 60 <= u16::MAX,
        ensures
            ({
                let inner = input::inner_width(screen_width as int);
                let w = input::wrap_width(inner, configured as int);
                match old(self).popup {
                    PopupState::Input(p) => r is None && (final(
                        self).popup matches PopupState::Input(p2) && p.resized(
                        inner,
                        configured as int,
                        p2,
                    )) && *final(self) == old(self).with(final(self).popup),
                    PopupState::CommitInput(_) => *final(self) == *old(self) && if w > 0 {
                        r matches Some(n) && n == w
                    } else {
                        r is None
                    },
                    _ => r is None && *final(self) == *old(self),
                }
            }),
    {
        let inner: usize = input::popup_inner_width(screen_width);
        let w: usize = input::effective_wrap_width(inner, configured);
        let ghost start = *self;
        let mut popup = PopupState::Closed;
        core::mem::swap(&mut self.popup, &mut popup);
        match popup {
            PopupState::Input(p) => {
                let mut p = p;
                p.resize(inner, configured);
                self.popup = PopupState::Input(p);
                None
            },
            PopupState::CommitInput(p) => {
                self.popup = PopupState::CommitInput(p);
                assert(*self == start);
                if w > 0 {
                    Some(w)
                } else {
                    None
                }
            },
            other => {
                self.popup = other;
                assert(*self == start);
                None
            },
        }
    }
}

// ---------------------------------------------------------------------------
// Laws
// ---------------------------------------------------------------------------

/// While everything is being loaded anew, no further load is started, of everything
/// or of the files.
pub proof fn one_refresh_at_a_time(needs_refresh: bool, needs_files: bool, load: ModelLoad, files: bool)
    requires
        load.refresh_in_progress,
    ensures
        due_refresh(needs_refresh, needs_files, load, files) is Nothing,
{
}

/// The commits that a filter shows stay while everything is loaded anew.
pub proof fn filtered_commits_stay(m: Model, part: ModelPart)
    ensures
        taken_in(m, part, true).commits == m.commits,
{
}

/// A part that comes in changes what it is about and nothing else.
pub proof fn a_part_changes_its_own(m: Model, part: ModelPart, filtered: bool)
    ensures
        ({
            let n = taken_in(m, part, filtered);
            &&& part matches ModelPart::Files(v) ==> n.files == v
            &&& part matches ModelPart::Branches(v) ==> n.branches == v
            &&& part matches ModelPart::Commits(v) ==> !filtered ==> n.commits == v
            &&& part matches ModelPart::Stash(v) ==> n.stash_entries == v
            &&& part matches ModelPart::Remotes(v) ==> n.remotes == v
            &&& part matches ModelPart::Tags(v) ==> n.tags == v
            &&& part matches ModelPart::Worktrees(v) ==> n.worktrees == v
            &&& part matches ModelPart::Submodules(v) ==> n.submodules == v
            &&& part matches ModelPart::Reflog(v) ==> n.reflog_commits == v
            &&& part matches ModelPart::DiffStats { additions, deletions } ==> n.total_additions
                == additions && n.total_deletions == deletions
            &&& part matches ModelPart::Head { hash, branch_name } ==> n.head_hash == hash
                && n.head_branch_name == branch_name
            &&& part matches ModelPart::RepoUrl(url) ==> n.repo_url == url
            &&& part matches ModelPart::Contributors(c) ==> n.contributors == c
            &&& !(part is Files) ==> n.files == m.files
            &&& !(part is Branches) ==> n.branches == m.branches
            &&& !(part is Commits) ==> n.commits == m.commits
            &&& !(part is Stash) ==> n.stash_entries == m.stash_entries
            &&& !(part is Remotes) ==> n.remotes == m.remotes
            &&& !(part is Tags) ==> n.tags == m.tags
            &&& !(part is Worktrees) ==> n.worktrees == m.worktrees
            &&& !(part is Submodules) ==> n.submodules == m.submodules
            &&& !(part is Reflog) ==> n.reflog_commits == m.reflog_commits
            &&& !(part is DiffStats) ==> n.total_additions == m.total_additions
                && n.total_deletions == m.total_deletions
            &&& !(part is RepoStatus) ==> n.is_rebasing == m.is_rebasing && n.is_merging
                == m.is_merging && n.is_cherry_picking == m.is_cherry_picking && n.is_bisecting
                == m.is_bisecting && n.rebase_onto_hash == m.rebase_onto_hash
            &&& !(part is Head) ==> n.head_hash == m.head_hash && n.head_branch_name
                == m.head_branch_name
            &&& !(part is RepoUrl) ==> n.repo_url == m.repo_url
            &&& !(part is Contributors) ==> n.contributors == m.contributors
            &&& n.sub_commits == m.sub_commits && n.sub_remote_branches == m.sub_remote_branches
            &&& n.commit_files == m.commit_files
        }),
{
}

/// What the repository is in the middle of is taken over flag by flag.
pub proof fn the_status_is_taken_over(
    m: Model,
    is_rebasing: bool,
    is_merging: bool,
    is_cherry_picking: bool,
    is_bisecting: bool,
    rebase_onto_hash: String,
    filtered: bool,
)
    ensures
        ({
            let part = ModelPart::RepoStatus {
                is_rebasing,
                is_merging,
                is_cherry_picking,
                is_bisecting,
                rebase_onto_hash,
            };
            let n = taken_in(m, part, filtered);
            &&& n.is_rebasing == is_rebasing && n.is_merging == is_merging
            &&& n.is_cherry_picking == is_cherry_picking && n.is_bisecting == is_bisecting
            &&& n.rebase_onto_hash == rebase_onto_hash
            &&& tells_rebase(part) == is_rebasing
        }),
{
}

/// Parts are taken in in the order in which they come: of two of a kind the later counts.
pub proof fn the_last_part_counts(m: Model, parts: Seq<ModelPart>, last: ModelPart, filtered: bool)
    ensures
        all_taken_in(m, parts.push(last), filtered) == taken_in(
            all_taken_in(m, parts, filtered),
            last,
            filtered,
        ),
    decreases parts.len(),
{
    let all = parts.push(last);
    if parts.len() > 0 {
        the_last_part_counts(taken_in(m, parts[0], filtered), parts.skip(1), last, filtered);
        assert(all.skip(1) =~= parts.skip(1).push(last));
        assert(all[0] == parts[0]);
    } else {
        assert(all[0] == last);
        assert(all.skip(1) =~= Seq::<ModelPart>::empty());
        reveal_with_fuel(all_taken_in, 2);
    }
}

/// A history is known to be complete exactly where the commits that came are fewer than a
/// page; filtered commits and all other parts tell nothing of it.
pub proof fn a_short_history_is_complete(
    c: CommitPages,
    part: ModelPart,
    filtered: bool,
    limit: nat,
)
    ensures
        part matches ModelPart::Commits(v) ==> !filtered ==> (pages_with(
            c,
            part,
            filtered,
            limit,
        ).complete <==> v@.len() < limit),
        filtered || !(part is Commits) ==> pages_with(c, part, filtered, limit) == c,
        pages_with(c, part, filtered, limit).loading == c.loading,
        pages_with(c, part, filtered, limit).generation == c.generation,
{
}

/// Everything is loaded anew where that is wanted and nothing is being loaded; the files
/// alone where only they are wanted, and no load of them or of everything anew goes on.
pub proof fn what_is_wanted_is_loaded(
    needs_refresh: bool,
    needs_files: bool,
    load: ModelLoad,
    files: bool,
)
    ensures
        due_refresh(needs_refresh, needs_files, load, files) is Everything <==> needs_refresh
            && !load.running && !load.refresh_in_progress,
        due_refresh(needs_refresh, needs_files, load, files) is Files ==> needs_files && !files,
        !needs_refresh && needs_files && !load.refresh_in_progress && !files ==> due_refresh(
            needs_refresh,
            needs_files,
            load,
            files,
        ) is Files,
        !needs_refresh && !needs_files ==> due_refresh(needs_refresh, needs_files, load, files)
            is Nothing,
{
}

/// A time is so long ago from the moment on when that long has passed, and no time at all is
/// never ago.
pub proof fn time_passes(t: u64, now: u64, ms: int)
    requires
        ms > 0,
    ensures
        ago(Some(t), now, ms) <==> now >= t + ms,
        !ago(None, now, ms),
{
}

/// The filters are shown one by one: the branches first, then the path, then the authors
/// together.
pub proof fn filters_are_shown_in_order(f: CommitFilters)
    ensures
        ({
            let l = f.shown();
            let n = f.branches@.len() as int;
            &&& forall|i: int| 0 <= i < n ==> #[trigger] l[i] == "branch: "@ + f.branches@[i]@
            &&& f.path is Some ==> l[n] == "path: "@ + f.path->0@
            &&& f.authors@.len() > 0 ==> l.last() == "author: "@ + text::join(
                text::texts(f.authors@),
                ", "@,
            )
            &&& l.len() == n + (if f.path is Some {
                1int
            } else {
                0
            }) + if f.authors@.len() > 0 {
                1int
            } else {
                0
            }
            &&& l.len() > 0 <==> f.any()
        }),
{
}

/// Parts are taken in one after the other, in the order in which they came.
pub proof fn parts_are_taken_in_one_by_one(
    m: Model,
    c: CommitPages,
    part: ModelPart,
    rest: Seq<ModelPart>,
    filtered: bool,
    limit: nat,
)
    ensures
        all_taken_in(m, seq![], filtered) == m,
        all_taken_in(m, seq![part] + rest, filtered) == all_taken_in(
            taken_in(m, part, filtered),
            rest,
            filtered,
        ),
        pages_with_all(c, seq![], filtered, limit) == c,
        pages_with_all(c, seq![part] + rest, filtered, limit) == pages_with_all(
            pages_with(c, part, filtered, limit),
            rest,
            filtered,
            limit,
        ),
{
    assert((seq![part] + rest).skip(1) =~= rest);
}

} // verus!
