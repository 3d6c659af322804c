//! What runs in the background: pages of commits, fetches, operations on remotes, and
//! reloads of the list of files.

use crate::gui::context::ContextId;
use crate::gui::diff_pane;
use crate::gui::picker;
use crate::gui::popup::keys::{ConfirmPopup, PopupState, Popups};
use crate::gui::popup::menu::Menu;
use crate::gui::popup::{Action, MessageKind, Notice};
use crate::model::Commit;
use crate::text;
use vstd::prelude::*;

verus! {

// ---------------------------------------------------------------------------
// Pages of commits
// ---------------------------------------------------------------------------

/// How near to the last loaded commit more are asked for.
pub const COMMIT_PAGE_PREFETCH_THRESHOLD: usize = 100;

/// The pages in which the history of commits is loaded.
#[derive(Debug, Clone, Copy, PartialEq, Eq, Structural)]
pub struct CommitPages {
    pub loading: bool,
    /// Whether there is nothing more to load.
    pub complete: bool,
    pub generation: u64,
}

/// Whether a commit with a hash is among some.
pub open spec fn has_hash(v: Seq<Commit>, hash: Seq<char>) -> bool {
    exists|i: int| 0 <= i < v.len() && (#[trigger] v[i]).hash@ == hash
}

/// Commits followed by the first `n` of a page, without those that are there already.
pub open spec fn extended(v: Seq<Commit>, page: Seq<Commit>, n: int) -> Seq<Commit>
    decreases n,
{
    if n <= 0 {
        v
    } else {
        let sofar = extended(v, page, n - 1);
        if has_hash(sofar, page[n - 1].hash@) {
            sofar
        } else {
            sofar.push(page[n - 1])
        }
    }
}

fn holds_hash(v: &Vec<Commit>, hash: &str) -> (r: bool)
    ensures
        r == has_hash(v@, hash@),
{
    let mut i: usize = 0;
    while i < v.len()
        invariant
            i <= v@.len(),
            forall|j: int| 0 <= j < i ==> (#[trigger] v@[j]).hash@ != hash@,
        decreases v@.len() - i,
    {
        if text::same_str(v[i].hash.as_str(), hash) {
            assert(v@[i as int].hash@ == hash@);
            return true;
        }
        i = i + 1;
    }
    false
}

/// Whether more commits are wanted: the selection or the last row in view is near the
/// last one that is loaded.
pub open spec fn near_tail(selected: int, scroll: int, rows: int, len: int) -> bool {
    ||| picker::at_most(selected + COMMIT_PAGE_PREFETCH_THRESHOLD, usize::MAX as int) >= len
    ||| picker::at_most(
        picker::at_most(scroll + rows, usize::MAX as int) + COMMIT_PAGE_PREFETCH_THRESHOLD,
        usize::MAX as int,
    ) >= len
}

impl CommitPages {
    /// Nothing loaded yet.
    pub fn new() -> (r: Self)
        ensures
            r == (CommitPages { loading: false, complete: false, generation: 0 }),
    {
        CommitPages { loading: false, complete: false, generation: 0 }
    }

    /// Starts over: what is on its way is dropped.
    pub fn reset(&mut self)
        ensures
            *final(self) == (CommitPages {
                loading: false,
                complete: false,
                generation: diff_pane::next_number(old(self).generation),
            }),
    {
        self.generation = self.generation.wrapping_add(1);
        self.loading = false;
        self.complete = false;
    }

    /// Notes that the commits were loaded anew: `loaded` of them, where a page has
    /// `limit`. With less than a page there is nothing more to load.
    pub fn after_model_refresh(&mut self, loaded: usize, limit: usize)
        ensures
            *final(self) == (CommitPages { complete: loaded < limit, ..*old(self) }),
    {
        self.complete = loaded < limit;
    }

    /// Decides whether a further page is asked for. `limit` is the length of a page;
    /// a history shorter than one page is complete. The page starts behind the `len`
    /// commits that are loaded.
    pub fn maybe_request_more_commits(
        &mut self,
        active: ContextId,
        len: usize,
        limit: usize,
        selected: usize,
        scroll: usize,
        rows: usize,
    ) -> (r: bool)
        ensures
            final(self).generation == old(self).generation,
            if active != ContextId::Commits || old(self).loading || old(self).complete {
                !r && *final(self) == *old(self)
            } else if len < limit {
                !r && *final(self) == (CommitPages { complete: true, ..*old(self) })
            } else if near_tail(selected as int, scroll as int, rows as int, len as int) {
                r && *final(self) == (CommitPages { loading: true, ..*old(self) })
            } else {
                !r && *final(self) == *old(self)
            },
    {
        if active != ContextId::Commits || self.loading || self.complete {
            return false;
        }
        if len < limit {
            self.complete = true;
            return false;
        }
        let end: usize = scroll.saturating_add(rows);
        if selected.saturating_add(COMMIT_PAGE_PREFETCH_THRESHOLD) >= len || end.saturating_add(
            COMMIT_PAGE_PREFETCH_THRESHOLD,
        ) >= len {
            self.loading = true;
            true
        } else {
            false
        }
    }

    /// Takes a page. One that was asked for before the history started over is
    /// dropped. Tells whether it was taken.
    pub fn receive_page(
        &mut self,
        generation: u64,
        page: Vec<Commit>,
        limit: usize,
        commits: &mut Vec<Commit>,
    ) -> (r: bool)
        ensures
            r == (generation == old(self).generation),
            !r ==> *final(self) == *old(self) && *final(commits) == *old(commits),
            r ==> *final(self) == (CommitPages {
                loading: false,
                complete: page@.len() < limit,
                ..*old(self)
            }) && final(commits)@ == extended(old(commits)@, page@, page@.len() as int),
    {
        if generation != self.generation {
            return false;
        }
        self.loading = false;
        self.complete = page.len() < limit;
        let ghost start = commits@;
        let mut i: usize = 0;
        while i < page.len()
            invariant
                i <= page@.len(),
                commits@ == extended(start, page@, i as int),
            decreases page@.len() - i,
        {
            if !holds_hash(commits, page[i].hash.as_str()) {
                commits.push(
                    Commit {
                        hash: page[i].hash.clone(),
                        name: page[i].name.clone(),
                        author_name: page[i].author_name.clone(),
                    },
                );
            }
            i = i + 1;
        }
        true
    }

    /// Takes the failure of a page: there is nothing more to load. It is said, unless
    /// a window is open.
    pub fn receive_page_failure(&mut self, generation: u64, error: &str, popups: &mut Popups)
        ensures
            generation != old(self).generation ==> *final(self) == *old(self) && *final(popups)
                == *old(popups),
            generation == old(self).generation ==> *final(self) == (CommitPages {
                loading: false,
                complete: true,
                ..*old(self)
            }) && if old(popups).popup is Closed {
                *final(popups) == old(popups).with(final(popups).popup) && (final(
                    popups).popup matches PopupState::Message(n) && n.is_error(
                    "Commits"@,
                    "Could not load more commits: "@ + error@,
                ))
            } else {
                *final(popups) == *old(popups)
            },
    {
        if generation != self.generation {
            return;
        }
        self.loading = false;
        self.complete = true;
        match &popups.popup {
            PopupState::Closed => {
                let mut message = "Could not load more commits: ".to_string();
                message.append(error);
                popups.show_error("Commits", message.as_str());
            },
            _ => {},
        }
    }
}

// ---------------------------------------------------------------------------
// Fetches
// ---------------------------------------------------------------------------

/// Fetches that are made from time to time without being asked for.
#[derive(Debug, Clone, Copy, PartialEq, Eq, Structural)]
pub struct AutoFetch {
    pub in_flight: bool,
    /// When the last one was started, in milliseconds of a clock.
    pub last_at: Option<u64>,
}

/// Whether it is time for a fetch: the first is made at once, the others once the
/// interval (in seconds) has passed.
pub open spec fn fetch_due(last_at: Option<u64>, now: u64, interval: u64) -> bool {
    match last_at {
        None => true,
        Some(t) => (if now > t {
            now - t
        } else {
            0
        }) / 1000 >= interval,
    }
}

impl AutoFetch {
    /// Decides whether a fetch is started now: it is enabled, no other one and no
    /// operation on a remote is under way, and it is time.
    pub fn maybe_start_auto_fetch(
        &mut self,
        enabled: bool,
        interval: u64,
        remote_busy: bool,
        now: u64,
    ) -> (r: bool)
        ensures
            r == (enabled && interval > 0 && !old(self).in_flight && !remote_busy && fetch_due(
                old(self).last_at,
                now,
                interval,
            )),
            r ==> *final(self) == (AutoFetch { in_flight: true, last_at: Some(now) }),
            !r ==> *final(self) == *old(self),
    {
        if !enabled || interval == 0 || self.in_flight || remote_busy {
            return false;
        }
        let due = match self.last_at {
            None => true,
            Some(t) => now.saturating_sub(t) / 1000 >= interval,
        };
        if !due {
            return false;
        }
        self.last_at = Some(now);
        self.in_flight = true;
        true
    }

    /// Takes the result of a fetch. Tells whether everything is loaded anew: it is
    /// where something was fetched; failures are not spoken of.
    pub fn receive_auto_fetch_result(&mut self, fetched: Option<bool>) -> (r: bool)
        ensures
            *final(self) == (AutoFetch { in_flight: false, ..*old(self) }),
            r == (fetched == Some(true)),
    {
        self.in_flight = false;
        match fetched {
            Some(b) => b,
            None => false,
        }
    }
}

// ---------------------------------------------------------------------------
// Operations on remotes
// ---------------------------------------------------------------------------

/// An operation on a remote: at most one is under way.
#[derive(Debug)]
pub struct RemoteOp {
    /// What is shown of the one under way.
    pub label: Option<String>,
    /// When the last one succeeded, in milliseconds of a clock.
    pub success_at: Option<u64>,
    /// The branch that is being checked out by name.
    pub pending_checkout: Option<String>,
}

/// What is shown of an operation with a title.
pub open spec fn op_label(title: Seq<char>) -> Seq<char> {
    if title == "Push"@ {
        "Pushing"@
    } else if title == "Pull"@ {
        "Pulling"@
    } else if title == "Fetch"@ {
        "Fetching"@
    } else {
        title
    }
}

/// Whether a message, in lower case, says that what was to be checked out does not
/// exist.
pub open spec fn names_missing_ref(lowered: Seq<char>) -> bool {
    ||| text::contains(lowered, "did not match any file(s) known to git"@)
    ||| text::contains(lowered, "unknown revision or path not in the working tree"@)
    ||| text::contains(lowered, "invalid reference:"@)
}

/// Tells whether a message in lower case says that what was to be checked out does
/// not exist.
pub fn lowered_names_missing_ref(lowered: &str) -> (r: bool)
    ensures
        r == names_missing_ref(lowered@),
{
    text::contains_str(lowered, "did not match any file(s) known to git") || text::contains_str(
        lowered,
        "unknown revision or path not in the working tree",
    ) || text::contains_str(lowered, "invalid reference:")
}

/// Tells whether a checkout failed because what it names does not exist.
pub fn is_checkout_ref_not_found(err: &str) -> (r: bool)
    ensures
        r == names_missing_ref(text::lowercase(err@)),
{
    let lowered = err.to_lowercase();
    lowered_names_missing_ref(lowered.as_str())
}

/// Whether a window asks whether a branch that does not exist is to be made.
pub open spec fn asks_to_create(p: PopupState, name: String) -> bool {
    p matches PopupState::Confirm(c) && c.title@ == "Branch not found"@ && c.message@
        == "Branch not found. Create a new branch named "@ + name@ + "?"@ && c.on_confirm
        == Action::CreateBranch { name }
}

impl RemoteOp {
    /// Nothing under way.
    pub fn new() -> (r: Self)
        ensures
            r.label is None,
            r.success_at is None,
            r.pending_checkout is None,
    {
        RemoteOp { label: None, success_at: None, pending_checkout: None }
    }

    /// Starts an operation, unless one is under way; tells whether it was started.
    pub fn start_remote_op(&mut self, title: &str) -> (r: bool)
        ensures
            r == (old(self).label is None),
            !r ==> *final(self) == *old(self),
            r ==> final(self).label is Some && final(self).label->0@ == op_label(title@) && final(
                self).success_at is None && final(self).pending_checkout
                == old(self).pending_checkout,
    {
        if self.label.is_some() {
            return false;
        }
        let label = if text::same_str(title, "Push") {
            "Pushing".to_string()
        } else if text::same_str(title, "Pull") {
            "Pulling".to_string()
        } else if text::same_str(title, "Fetch") {
            "Fetching".to_string()
        } else {
            title.to_string()
        };
        self.label = Some(label);
        self.success_at = None;
        true
    }

    /// Takes the end of an operation, given whether its error says that what was to be
    /// checked out does not exist. Success loads everything anew. A branch that was to
    /// be checked out and does not exist is offered to be made; any other error is
    /// shown.
    pub fn take_result(
        &mut self,
        error: Option<&str>,
        ref_missing: bool,
        now: u64,
        popups: &mut Popups,
    ) -> (r: bool)
        ensures
            final(self).label is None,
            final(self).pending_checkout is None,
            r == (error is None),
            final(self).success_at == if error is None {
                Some(now)
            } else {
                old(self).success_at
            },
            match error {
                None => *final(popups) == *old(popups),
                Some(e) => *final(popups) == old(popups).with(final(popups).popup) && match old(self).pending_checkout {
                    Some(name) if ref_missing => asks_to_create(final(popups).popup, name),
                    _ => final(popups).popup matches PopupState::Message(n) && n.is_error(
                        "Error"@,
                        e@,
                    ),
                },
            },
    {
        self.label = None;
        match error {
            None => {
                self.pending_checkout = None;
                self.success_at = Some(now);
                true
            },
            Some(e) => {
                match self.pending_checkout.take() {
                    Some(name) if ref_missing => {
                        let mut message = "Branch not found. Create a new branch named ".to_string();
                        message.append(name.as_str());
                        message.append("?");
                        popups.popup = PopupState::Confirm(
                            ConfirmPopup {
                                title: "Branch not found".to_string(),
                                message,
                                on_confirm: Action::CreateBranch { name },
                            },
                        );
                    },
                    _ => {
                        popups.show_error("Error", e);
                    },
                }
                false
            },
        }
    }

    /// Takes the end of an operation.
    pub fn receive_remote_op_result(&mut self, error: Option<&str>, now: u64, popups: &mut Popups) -> (r:
        bool)
        ensures
            final(self).label is None,
            final(self).pending_checkout is None,
            r == (error is None),
            final(self).success_at == if error is None {
                Some(now)
            } else {
                old(self).success_at
            },
            match error {
                None => *final(popups) == *old(popups),
                Some(e) => *final(popups) == old(popups).with(final(popups).popup) && match old(self).pending_checkout {
                    Some(name) if names_missing_ref(text::lowercase(e@)) => asks_to_create(
                        final(popups).popup,
                        name,
                    ),
                    _ => final(popups).popup matches PopupState::Message(n) && n.is_error(
                        "Error"@,
                        e@,
                    ),
                },
            },
    {
        let missing = match error {
            Some(e) => is_checkout_ref_not_found(e),
            None => false,
        };
        self.take_result(error, missing, now, popups)
    }
}

// ---------------------------------------------------------------------------
// Reloads of the list of files
// ---------------------------------------------------------------------------

/// Reloads of the list of files: at most one is under way, and any number that are
/// asked for meanwhile become one more.
#[derive(Debug, Clone, Copy, PartialEq, Eq, Structural)]
pub struct FilesRefresh {
    pub in_progress: bool,
    pub needed: bool,
}

/// What is done when files are staged or unstaged.
#[derive(Debug, Clone, Copy, PartialEq, Eq, Structural)]
pub enum StageCourse {
    Nothing,
    /// The index is changed, then the list is reloaded.
    ChangeAndReload,
    /// The index is changed; a reload follows the one under way.
    ChangeOnly,
}

/// How a reload ended.
#[derive(Debug)]
pub enum FilesReply {
    Loaded,
    Failed(String),
    /// It has not ended yet.
    Pending,
    /// It ended without an answer.
    Gone,
}

/// What follows the end of a reload.
#[derive(Debug)]
pub enum FilesOutcome {
    Nothing,
    /// The new list is shown, and another reload is started.
    ApplyAndReload,
    /// The new list is shown, and so is the diff of what is selected in it.
    ApplyAndDiff,
    /// The error is shown.
    ShowError(String),
}

impl FilesRefresh {
    /// What holds once a change of the index was begun: a reload runs, and where one ran
    /// already another is needed.
    pub open spec fn staged(self) -> FilesRefresh {
        if self.in_progress {
            FilesRefresh { needed: true, ..self }
        } else {
            FilesRefresh { in_progress: true, ..self }
        }
    }

    /// What holds once the list was loaded: a reload runs only where another was needed.
    pub open spec fn loaded(self) -> FilesRefresh {
        FilesRefresh { in_progress: self.needed, needed: false }
    }

    /// Starts a reload, unless one is under way; tells whether it was started.
    pub fn start_files_refresh(&mut self) -> (r: bool)
        ensures
            r == !old(self).in_progress,
            *final(self) == if r {
                FilesRefresh { in_progress: true, needed: false }
            } else {
                *old(self)
            },
    {
        if self.in_progress {
            return false;
        }
        self.needed = false;
        self.in_progress = true;
        true
    }

    /// Decides what is done when some files are staged or unstaged. A reload never
    /// overtakes the change of the index.
    pub fn enqueue_stage(&mut self, any_paths: bool) -> (r: StageCourse)
        ensures
            if !any_paths {
                r is Nothing && *final(self) == *old(self)
            } else {
                *final(self) == old(self).staged() && r == if old(self).in_progress {
                    StageCourse::ChangeOnly
                } else {
                    StageCourse::ChangeAndReload
                }
            },
    {
        if !any_paths {
            return StageCourse::Nothing;
        }
        if !self.in_progress {
            self.in_progress = true;
            StageCourse::ChangeAndReload
        } else {
            self.needed = true;
            StageCourse::ChangeOnly
        }
    }

    /// Takes the end of a reload.
    pub fn receive_files_refresh(&mut self, reply: FilesReply) -> (r: FilesOutcome)
        ensures
            match reply {
                FilesReply::Loaded => *final(self) == old(self).loaded() && if old(self).needed {
                    r is ApplyAndReload
                } else {
                    r is ApplyAndDiff
                },
                FilesReply::Failed(e) => r == FilesOutcome::ShowError(e) && *final(self) == (
                FilesRefresh { in_progress: false, ..*old(self) }),
                FilesReply::Pending => r is Nothing && *final(self) == *old(self),
                FilesReply::Gone => r is Nothing && *final(self) == (FilesRefresh {
                    in_progress: false,
                    ..*old(self)
                }),
            },
    {
        match reply {
            FilesReply::Loaded => {
                self.in_progress = false;
                if self.needed {
                    self.start_files_refresh();
                    FilesOutcome::ApplyAndReload
                } else {
                    FilesOutcome::ApplyAndDiff
                }
            },
            FilesReply::Failed(e) => {
                self.in_progress = false;
                FilesOutcome::ShowError(e)
            },
            FilesReply::Pending => FilesOutcome::Nothing,
            FilesReply::Gone => {
                self.in_progress = false;
                FilesOutcome::Nothing
            },
        }
    }
}

// ---------------------------------------------------------------------------
// Items of menus
// ---------------------------------------------------------------------------

/// What an item of a menu that worked in the background found.
#[derive(Debug)]
pub enum MenuAsyncResult {
    CopyToClipboard(String),
    OpenUrl(String),
}

impl Popups {
    /// An item of the menu put aside goes to work in the background: the menu is open
    /// again and shows it.
    pub fn start_menu_async(&mut self, index: usize)
        ensures
            match old(self).pending_menu {
                Some(PopupState::Menu(m)) => *final(self) == (Popups {
                    popup: PopupState::Menu(Menu { loading_index: Some(index), ..m }),
                    pending_menu: None,
                    ..*old(self)
                }),
                _ => *final(self) == (Popups { pending_menu: None, ..*old(self) }),
            },
    {
        match self.pending_menu.take() {
            Some(PopupState::Menu(m)) => {
                let mut m = m;
                m.loading_index = Some(index);
                self.popup = PopupState::Menu(m);
            },
            _ => {},
        }
    }

    /// Whether a menu is open of which an item works in the background.
    pub open spec fn menu_at_work(self) -> bool {
        self.popup matches PopupState::Menu(m) && m.loading_index is Some
    }

    /// Takes what an item found in the background. Where its menu was left meanwhile
    /// it is dropped. Otherwise the menu closes, and what was found is to be used; a
    /// failure is told.
    pub fn receive_menu_async(&mut self, result: Result<MenuAsyncResult, String>) -> (r: Option<
        MenuAsyncResult,
    >)
        ensures
            if !old(self).menu_at_work() {
                r is None && *final(self) == *old(self)
            } else {
                match result {
                    Ok(found) => r == Some(found) && *final(self) == old(self).with(
                        PopupState::Closed,
                    ),
                    Err(e) => r is None && *final(self) == old(self).with(final(self).popup) && (
                    final(self).popup matches PopupState::Message(n) && n.title@
                        == "No PR found"@ && n.message == e && n.kind is Info),
                }
            },
    {
        let at_work = match &self.popup {
            PopupState::Menu(m) => m.loading_index.is_some(),
            _ => false,
        };
        if !at_work {
            return None;
        }
        match result {
            Ok(found) => {
                self.popup = PopupState::Closed;
                Some(found)
            },
            Err(e) => {
                self.popup = PopupState::Message(
                    Notice { title: "No PR found".to_string(), message: e, kind: MessageKind::Info },
                );
                None
            },
        }
    }
}

// ---------------------------------------------------------------------------
// Laws
// ---------------------------------------------------------------------------

/// Whether no two commits have the same hash.
pub open spec fn distinct_hashes(v: Seq<Commit>) -> bool {
    forall|i: int, j: int| 0 <= i < j < v.len() ==> (#[trigger] v[i]).hash@ != (#[trigger] v[j]).hash@
}

/// What is staged while the list is loading is seen: however many changes there are, one
/// more reload is started once that list is there, and it leaves nothing to be done.
pub proof fn a_change_during_a_reload_is_seen(f: FilesRefresh)
    requires
        f.in_progress,
    ensures
        f.staged().in_progress && f.staged().needed,
        f.staged().staged() == f.staged(),
        f.staged().loaded().in_progress && !f.staged().loaded().needed,
        !f.staged().loaded().loaded().in_progress,
{
}

/// A page never makes a commit occur twice, keeps those that were loaded in their
/// places, and leaves none of its own out.
pub proof fn a_page_adds_each_commit_once(v: Seq<Commit>, page: Seq<Commit>, n: int)
    requires
        distinct_hashes(v),
        0 <= n <= page.len(),
    ensures
        distinct_hashes(extended(v, page, n)),
        v.is_prefix_of(extended(v, page, n)),
        forall|i: int| 0 <= i < n ==> has_hash(extended(v, page, n), (#[trigger] page[i]).hash@),
    decreases n,
{
    if n > 0 {
        a_page_adds_each_commit_once(v, page, n - 1);
        let sofar = extended(v, page, n - 1);
        let all = extended(v, page, n);
        assert forall|i: int| 0 <= i < n implies has_hash(all, (#[trigger] page[i]).hash@) by {
            if i < n - 1 {
                let k = choose|k: int|
                    0 <= k < sofar.len() && (#[trigger] sofar[k]).hash@ == page[i].hash@;
                assert(all[k] == sofar[k]);
            } else if !has_hash(sofar, page[n - 1].hash@) {
                assert(all.last() == page[n - 1]);
            }
        }
    }
}

/// The first fetch is due at once, and each other one exactly when the interval has passed
/// since the one before.
pub proof fn fetches_keep_their_interval(t: u64, now: u64, interval: u64)
    ensures
        fetch_due(None, now, interval),
        fetch_due(Some(t), now, interval) <==> interval == 0 || now >= t + 1000 * interval,
{
    let d = if now > t {
        now - t
    } else {
        0
    };
    assert(d / 1000 >= interval <==> d >= 1000 * interval) by (nonlinear_arith)
        requires
            d >= 0,
    ;
}

/// More commits are wanted exactly where the selection or the last row in view is within a
/// hundred of the last commit that is loaded.
pub proof fn more_is_wanted_near_the_end(selected: int, scroll: int, rows: int, len: int)
    requires
        0 <= selected && 0 <= scroll && 0 <= rows,
        0 <= len <= usize::MAX,
    ensures
        near_tail(selected, scroll, rows, len) <==> selected + 100 >= len || scroll + rows + 100
            >= len,
{
}

/// A page of commits none of which is there yet comes behind those that are, in its order;
/// commits that are there already change nothing.
pub proof fn a_new_page_comes_behind(v: Seq<Commit>, page: Seq<Commit>, n: int)
    requires
        0 <= n <= page.len(),
        distinct_hashes(v + page),
    ensures
        extended(v, page, n) == v + page.take(n),
        forall|w: Seq<Commit>|
            (forall|i: int| 0 <= i < n ==> has_hash(w, (#[trigger] page[i]).hash@))
                ==> #[trigger] extended(w, page, n) == w,
    decreases n,
{
    if n > 0 {
        a_new_page_comes_behind(v, page, n - 1);
        let sofar = extended(v, page, n - 1);
        let all = v + page;
        if has_hash(sofar, page[n - 1].hash@) {
            let i = choose|i: int| 0 <= i < sofar.len() && (#[trigger] sofar[i]).hash@ == page[n
                - 1].hash@;
            assert(sofar[i] == all[i]);
            assert(all[v.len() + n - 1] == page[n - 1]);
        }
        assert(page.take(n) =~= page.take(n - 1).push(page[n - 1]));
        assert(extended(v, page, n) =~= v + page.take(n));
        assert forall|w: Seq<Commit>|
            (forall|i: int| 0 <= i < n ==> has_hash(w, (#[trigger] page[i]).hash@)) implies
            #[trigger] extended(w, page, n) == w by {
            assert(extended(w, page, n - 1) == w);
            assert(has_hash(w, page[n - 1].hash@));
        }
    } else {
        assert(v + page.take(0) =~= v);
    }
}

/// Pushing, pulling and fetching are shown as going on, any other operation by its title.
pub proof fn operations_are_shown(title: Seq<char>)
    ensures
        op_label("Push"@) == "Pushing"@,
        op_label("Pull"@) == "Pulling"@,
        op_label("Fetch"@) == "Fetching"@,
        title != "Push"@ && title != "Pull"@ && title != "Fetch"@ ==> op_label(title) == title,
{
    reveal_strlit("Push");
    reveal_strlit("Pull");
    reveal_strlit("Fetch");
    assert("Push"@[2] == 's' && "Pull"@[2] == 'l' && "Fetch"@[2] == 't');
}

/// A message says that a reference is missing wherever one of git's three ways to say so
/// stands in it, whatever stands around it.
pub proof fn missing_references_are_recognised(a: Seq<char>, b: Seq<char>)
    ensures
        names_missing_ref(a + "did not match any file(s) known to git"@ + b),
        names_missing_ref(a + "unknown revision or path not in the working tree"@ + b),
        names_missing_ref(a + "invalid reference:"@ + b),
        !names_missing_ref(Seq::<char>::empty()),
{
    reveal_strlit("did not match any file(s) known to git");
    reveal_strlit("unknown revision or path not in the working tree");
    reveal_strlit("invalid reference:");
    let x = "did not match any file(s) known to git"@;
    let y = "unknown revision or path not in the working tree"@;
    let z = "invalid reference:"@;
    let n = a.len() as int;
    assert((a + x + b).subrange(n, n + x.len()) =~= x);
    assert(text::occurs_at(a + x + b, x, n));
    assert((a + y + b).subrange(n, n + y.len()) =~= y);
    assert(text::occurs_at(a + y + b, y, n));
    assert((a + z + b).subrange(n, n + z.len()) =~= z);
    assert(text::occurs_at(a + z + b, z, n));
}

} // verus!
