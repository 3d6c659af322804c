//! The generation of a commit message in the background.

use crate::gui::diff_pane;
use crate::gui::input::{KeyCode, KeyEvent};
use crate::gui::popup::commit_input::{CommitInput, CommitInputFocus, CommitInputKind};
use crate::gui::popup::history;
use crate::gui::popup::input;
use crate::gui::popup::keys::{PopupState, Popups};
use crate::gui::popup::Action;
use crate::gui::textarea;
use crate::gui::textarea::TextField;
use crate::model::Commit;
use crate::text;
use vstd::prelude::*;

verus! {

/// How long after the first Esc a second one cancels, in milliseconds.
pub const CANCEL_WINDOW_MS: u64 = 900;

/// What a message is generated from.
#[derive(Debug)]
pub enum AiCommitSource {
    /// What is staged.
    Staged,
    /// The changes of a commit.
    Commit(String),
}

/// A generation under way.
#[derive(Debug, Clone, Copy, PartialEq, Eq, Structural)]
pub struct AiCommitJob {
    pub generation: u64,
    /// When Esc was pressed first, in milliseconds of a clock.
    pub cancel_armed_at: Option<u64>,
}

/// The generation of commit messages: at most one is under way.
#[derive(Debug)]
pub struct AiCommit {
    pub job: Option<AiCommitJob>,
    pub generation: u64,
    pub source: AiCommitSource,
}

/// How a generation ended.
#[derive(Debug)]
pub enum AiCommitOutcome {
    Message(String),
    Cancelled,
    Failed(String),
}

/// What pressing Esc does to a generation.
#[derive(Debug, Clone, Copy, PartialEq, Eq, Structural)]
pub enum CancelStep {
    /// Nothing: the key goes on.
    Pass,
    /// The generation is cancelled.
    Cancel,
}

/// The text of a message on a failure.
pub open spec fn failure_text(e: Seq<char>) -> Seq<char> {
    e + "\n\nYour commit draft was saved. Open the commit prompt again to restore it."@
}

/// The width at which the body of a generated message is wrapped.
pub fn generated_body_width(screen: u16, configured: usize) -> (r: usize)
    requires
        screen * 60 <= u16::MAX,
    ensures
        r == input::wrap_width(
            crate::gui::picker::minus(input::popup_width(screen as int, u16::MAX as int), 4),
            configured as int,
        ),
{
    let share: u16 = screen * 60 / 100;
    let wide: u16 = if share <= 60 {
        share
    } else {
        60
    };
    let wanted: u16 = if wide >= 30 {
        wide
    } else {
        30
    };
    input::effective_wrap_width(wanted.saturating_sub(4) as usize, configured)
}

/// The windows after the editor that waited for a message is kept to come back to.
pub open spec fn draft_kept(p: Popups) -> Popups {
    Popups {
        saved_commit: match p.pending_commit {
            Some(e) => Some(e),
            None => p.saved_commit,
        },
        pending_commit: None,
        ..p
    }
}

fn keep_draft(p: &mut Popups)
    ensures
        *final(p) == draft_kept(*old(p)),
{
    match p.pending_commit.take() {
        Some(e) => {
            p.saved_commit = Some(e);
        },
        None => {},
    }
}

/// Whether a message is in the editor that waited for it, or in a new one, with a
/// text for the body.
pub open spec fn message_shown(before: Popups, after: Popups, message: Seq<char>, body: Option<String>) -> bool {
    let (summary, rest) = history::first_line_split(message);
    &&& after == (Popups { popup: after.popup, pending_commit: None, ..before })
    &&& match before.pending_commit {
        Some(PopupState::CommitInput(e)) => (after.popup matches PopupState::CommitInput(e2) && e2
            == (CommitInput { summary_textarea: e2.summary_textarea, ..e })
            && e2.summary_textarea.unselected() && e2.summary_textarea.text() == textarea::retyped(
            e.summary_textarea.text(),
            summary,
        )) && text::opt_text(body) == Some(rest),
        Some(other) => after.popup == other && body is None,
        None => (after.popup matches PopupState::CommitInput(e2) && e2.kind is Commit
            && e2.focus is Summary && e2.on_confirm == Action::CreateCommit && input::holds(
            e2.summary_textarea,
            summary,
        )) && text::opt_text(body) == Some(rest),
    }
}

impl AiCommit {
    /// Nothing under way.
    pub fn new() -> (r: Self)
        ensures
            r.job is None,
            r.generation == 0,
            r.source is Staged,
    {
        AiCommit { job: None, generation: 0, source: AiCommitSource::Staged }
    }

    /// Starts a generation, unless one is under way. Gives its number.
    pub fn start_ai_commit_generation(&mut self) -> (r: Option<u64>)
        ensures
            final(self).source == old(self).source,
            match old(self).job {
                Some(_) => r is None && *final(self) == *old(self),
                None => {
                    let n = diff_pane::next_number(old(self).generation);
                    &&& r == Some(n)
                    &&& final(self).generation == n
                    &&& final(self).job == Some(
                        AiCommitJob { generation: n, cancel_armed_at: None },
                    )
                },
            },
    {
        if self.job.is_some() {
            return None;
        }
        self.generation = self.generation.wrapping_add(1);
        self.job = Some(AiCommitJob { generation: self.generation, cancel_armed_at: None });
        Some(self.generation)
    }

    /// Has a message generated for the editor that is open, which waits for it. A
    /// message for a commit that is being reworded is generated from that commit.
    /// Without a command that generates one, this is said. Gives the number of the
    /// generation that was started.
    pub fn trigger_ai_commit_generation_from_editor(
        &mut self,
        popups: &mut Popups,
        generate_command: &str,
        commits: &Vec<Commit>,
        selected: usize,
    ) -> (r: Option<u64>)
        ensures
            if old(self).job is Some {
                r is None && *final(self) == *old(self) && *final(popups) == *old(popups)
            } else if text::trim(generate_command@).len() == 0 {
                r is None && *final(self) == *old(self) && *final(popups) == old(popups).with(
                    final(popups).popup,
                ) && (final(popups).popup matches PopupState::Message(n) && n.is_error(
                    "AI generation unavailable"@,
                    "Set git.commit.generateCommand in your config first."@,
                ))
            } else {
                let n = diff_pane::next_number(old(self).generation);
                &&& r == Some(n)
                &&& final(self).generation == n
                &&& final(self).job == Some(AiCommitJob { generation: n, cancel_armed_at: None })
                &&& *final(popups) == (Popups {
                    popup: PopupState::Closed,
                    pending_commit: Some(old(popups).popup),
                    ..*old(popups)
                })
                &&& match old(popups).popup {
                    PopupState::CommitInput(e) if e.kind is Reword && selected < commits@.len() =>
                        final(self).source matches AiCommitSource::Commit(h) && h@
                            == commits@[selected as int].hash@,
                    _ => final(self).source is Staged,
                }
            },
    {
        if self.job.is_some() {
            return None;
        }
        let command = text::trim_str(generate_command);
        if text::is_empty_str(command.as_str()) {
            popups.show_error(
                "AI generation unavailable",
                "Set git.commit.generateCommand in your config first.",
            );
            return None;
        }
        let reword = match &popups.popup {
            PopupState::CommitInput(e) => match e.kind {
                CommitInputKind::Reword => true,
                CommitInputKind::Commit => false,
            },
            _ => false,
        };
        self.source = if reword && selected < commits.len() {
            AiCommitSource::Commit(commits[selected].hash.clone())
        } else {
            AiCommitSource::Staged
        };
        let mut popup = PopupState::Closed;
        core::mem::swap(&mut popups.popup, &mut popup);
        popups.pending_commit = Some(popup);
        self.start_ai_commit_generation()
    }

    /// Whether Esc now cancels: it was pressed a moment ago.
    pub open spec fn armed(self, now: u64) -> bool {
        self.job matches Some(j) && (j.cancel_armed_at matches Some(t) && (now < t || now - t
            <= CANCEL_WINDOW_MS))
    }

    /// Applies a key to a generation under way: a second Esc within a moment cancels
    /// it, and the editor that waited is kept to come back to.
    pub fn handle_ai_commit_cancel_key(&mut self, popups: &mut Popups, key: KeyEvent, now: u64) -> (r:
        CancelStep)
        ensures
            final(self).generation == old(self).generation,
            final(self).source == old(self).source,
            if !(key.code is Esc) || old(self).job is None {
                r is Pass && *final(self) == *old(self) && *final(popups) == *old(popups)
            } else if old(self).armed(now) {
                r is Cancel && final(self).job is None && *final(popups) == draft_kept(
                    *old(popups),
                )
            } else {
                r is Pass && *final(popups) == *old(popups) && final(self).job == Some(
                    AiCommitJob { cancel_armed_at: Some(now), ..old(self).job->0 },
                )
            },
    {
        if key.code != KeyCode::Esc {
            return CancelStep::Pass;
        }
        match self.job {
            None => CancelStep::Pass,
            Some(job) => {
                let armed = match job.cancel_armed_at {
                    Some(t) => now.saturating_sub(t) <= CANCEL_WINDOW_MS,
                    None => false,
                };
                if armed {
                    self.job = None;
                    keep_draft(popups);
                    CancelStep::Cancel
                } else {
                    self.job = Some(
                        AiCommitJob { generation: job.generation, cancel_armed_at: Some(now) },
                    );
                    CancelStep::Pass
                }
            },
        }
    }

    /// Takes the outcome of a generation. That of an older one is dropped. A message
    /// opens the editor; without one the editor that waited is kept to come back to.
    /// Gives a text for the body of the editor.
    pub fn receive_ai_commit_result(
        &mut self,
        popups: &mut Popups,
        generation: u64,
        outcome: AiCommitOutcome,
    ) -> (r: Option<String>)
        ensures
            final(self).generation == old(self).generation,
            if old(self).job matches Some(j) && j.generation == generation {
                &&& final(self).job is None
                &&& final(self).source is Staged
                &&& match outcome {
                    AiCommitOutcome::Message(m) => message_shown(
                        *old(popups),
                        *final(popups),
                        m@,
                        r,
                    ),
                    AiCommitOutcome::Cancelled => r is None && *final(popups) == draft_kept(
                        *old(popups),
                    ),
                    AiCommitOutcome::Failed(e) => r is None && *final(popups) == draft_kept(
                        *old(popups),
                    ).with(final(popups).popup) && (final(
                        popups).popup matches PopupState::Message(n) && n.is_error(
                        "AI generation failed"@,
                        failure_text(e@),
                    )),
                }
            } else {
                r is None && *final(self) == *old(self) && *final(popups) == *old(popups)
            },
    {
        let current = match self.job {
            Some(j) => j.generation == generation,
            None => false,
        };
        if !current {
            return None;
        }
        self.job = None;
        self.source = AiCommitSource::Staged;
        match outcome {
            AiCommitOutcome::Message(m) => {
                match popups.pending_commit.take() {
                    Some(PopupState::CommitInput(e)) => {
                        let mut e = e;
                        let body = e.replace_message(m.as_str());
                        popups.popup = PopupState::CommitInput(e);
                        Some(body)
                    },
                    Some(other) => {
                        popups.popup = other;
                        None
                    },
                    None => {
                        let (summary, body) = history::split_first_line(m.as_str());
                        popups.popup = PopupState::CommitInput(
                            CommitInput {
                                kind: CommitInputKind::Commit,
                                focus: CommitInputFocus::Summary,
                                summary_textarea: TextField::with_text(summary.as_str()),
                                on_confirm: Action::CreateCommit,
                            },
                        );
                        Some(body)
                    },
                }
            },
            AiCommitOutcome::Cancelled => {
                keep_draft(popups);
                None
            },
            AiCommitOutcome::Failed(e) => {
                keep_draft(popups);
                let mut message = e;
                message.append(
                    "\n\nYour commit draft was saved. Open the commit prompt again to restore it.",
                );
                popups.show_error("AI generation failed", message.as_str());
                None
            },
        }
    }
}

// ---------------------------------------------------------------------------
// Laws
// ---------------------------------------------------------------------------

/// However a generation ends without a message, the editor that waited for it is kept
/// to come back to.
pub proof fn a_waiting_editor_is_never_lost(p: Popups)
    requires
        p.pending_commit is Some,
    ensures
        draft_kept(p).saved_commit == p.pending_commit,
{
}

/// A second Esc cancels a generation up to nine tenths of a second behind the first.
pub proof fn a_second_esc_cancels_for_a_moment(c: AiCommit, t: u64, now: u64)
    requires
        c.job matches Some(j) && j.cancel_armed_at == Some(t),
        t <= now,
    ensures
        c.armed(now) <==> now <= t + 900,
{
}

/// Without a first Esc nothing is cancelled.
pub proof fn the_first_esc_cancels_nothing(c: AiCommit, now: u64)
    requires
        c.job matches Some(j) ==> j.cancel_armed_at is None,
    ensures
        !c.armed(now),
{
}

/// Where no editor waits, one that was left before is still come back to, and the window that
/// is open stays.
pub proof fn an_earlier_draft_stays(p: Popups)
    ensures
        p.pending_commit is None ==> draft_kept(p) == p,
        draft_kept(p).popup == p.popup,
        draft_kept(p).pending_commit is None,
{
}

} // verus!
