//! Undo and redo by the reflog.

use crate::gui::popup::keys::ConfirmPopup;
use crate::gui::popup::Action;
use crate::text;
use vstd::prelude::*;

verus! {

/// How a step of undo or redo is made.
#[derive(Debug, Clone, PartialEq, Eq)]
pub enum ReflogUndoAction {
    /// The tip of the current branch moves.
    Reset(String),
    /// HEAD goes elsewhere; no branch moves.
    Checkout(String),
}

/// Whether an entry of the reflog says that HEAD went from one reference to another.
pub open spec fn moved_between_refs(subject: Seq<char>) -> bool {
    let s = text::trim_start(subject);
    "checkout:"@.is_prefix_of(s) || "switch:"@.is_prefix_of(s)
}

impl ReflogUndoAction {
    /// Whether the step leads to a commit in the way that an entry calls for.
    pub open spec fn leads_to(self, target: Seq<char>, subject: Seq<char>) -> bool {
        match self {
            ReflogUndoAction::Checkout(t) => moved_between_refs(subject) && t@ == target,
            ReflogUndoAction::Reset(t) => !moved_between_refs(subject) && t@ == target,
        }
    }
}

/// Decides how a move of HEAD is undone or made again, from what the reflog says of
/// it. One between references takes a checkout: a reset would put the current branch
/// onto another one's tip.
pub fn reflog_undo_action(target_hash: &str, op_subject: &str) -> (r: ReflogUndoAction)
    ensures
        r.leads_to(target_hash@, op_subject@),
{
    let chars = text::chars_of(op_subject);
    let subject = text::trim_start_of(chars.as_slice());
    if text::starts_with(subject, "checkout:") || text::starts_with(subject, "switch:") {
        ReflogUndoAction::Checkout(target_hash.to_string())
    } else {
        ReflogUndoAction::Reset(target_hash.to_string())
    }
}

/// An entry of the reflog: the hash, and what was done.
pub struct ReflogLine {
    pub hash: Seq<char>,
    pub subject: Seq<char>,
}

/// An entry of the reflog as it is printed: what stands before the first tab and
/// behind it.
pub open spec fn reflog_line(line: Seq<char>) -> ReflogLine {
    let i = text::find_from(line, '\t', 0);
    if i < line.len() {
        ReflogLine { hash: line.take(i), subject: line.skip(i + 1) }
    } else {
        ReflogLine { hash: line, subject: seq![] }
    }
}

/// The entry with an index of a reflog as it is printed.
pub open spec fn reflog_entry(stdout: Seq<char>, i: int) -> ReflogLine {
    reflog_line(text::lines(stdout)[i])
}

fn parse_line(line: &[char]) -> (r: (String, String))
    ensures
        r.0@ == reflog_line(line@).hash,
        r.1@ == reflog_line(line@).subject,
{
    let i: usize = text::find_char_from(line, '\t', 0);
    if i < line.len() {
        let hash = text::copy_range(line, 0, i);
        let subject = text::copy_range(line, i + 1, line.len());
        assert(hash@ =~= line@.take(i as int));
        assert(subject@ =~= line@.skip(i as int + 1));
        (text::string_of(hash.as_slice()), text::string_of(subject.as_slice()))
    } else {
        let rest = String::new();
        assert(rest@ =~= seq![]);
        (text::string_of(line), rest)
    }
}

/// The arguments with which git prints the reflog.
pub fn reflog_args() -> (r: Vec<String>)
    ensures
        text::texts(r@) == seq!["reflog"@, "--format=%H%x09%gs"@, "-n"@, "20"@],
{
    let r = vec![
        "reflog".to_string(),
        "--format=%H%x09%gs".to_string(),
        "-n".to_string(),
        "20".to_string(),
    ];
    assert(text::texts(r@) =~= seq!["reflog"@, "--format=%H%x09%gs"@, "-n"@, "20"@]);
    r
}

/// The question before a step.
pub open spec fn step_question(undo: bool, checkout: bool, index: nat, hash: Seq<char>) -> Seq<char> {
    (if undo {
        if checkout {
            "Undo branch switch — checkout "@
        } else {
            "Undo to reflog entry "@
        }
    } else {
        if checkout {
            "Redo branch switch — checkout "@
        } else {
            "Redo to reflog entry "@
        }
    }) + text::decimal(index) + "? ("@ + text::short_hash(hash) + ")"@
}

/// Whether a question asks for a step to an entry, made as another one calls for.
pub open spec fn asks_step(
    c: ConfirmPopup,
    undo: bool,
    index: int,
    target: ReflogLine,
    subject: Seq<char>,
) -> bool {
    &&& c.title@ == if undo {
        "Undo"@
    } else {
        "Redo"@
    }
    &&& c.message@ == step_question(
        undo,
        moved_between_refs(subject),
        index as nat,
        target.hash,
    )
    &&& c.on_confirm matches Action::MoveHead { target: t, index: i } && t.leads_to(
        target.hash,
        subject,
    ) && i == index
}

fn ask_step(undo: bool, index: usize, hash: &str, subject: &str) -> (r: ConfirmPopup)
    requires
        text::can_shorten(hash@),
    ensures
        asks_step(
            r,
            undo,
            index as int,
            ReflogLine { hash: hash@, subject: subject@ },
            subject@,
        ),
{
    let target = reflog_undo_action(hash, subject);
    let checkout = match &target {
        ReflogUndoAction::Checkout(_) => true,
        ReflogUndoAction::Reset(_) => false,
    };
    let mut message = if undo {
        if checkout {
            "Undo branch switch — checkout ".to_string()
        } else {
            "Undo to reflog entry ".to_string()
        }
    } else {
        if checkout {
            "Redo branch switch — checkout ".to_string()
        } else {
            "Redo to reflog entry ".to_string()
        }
    };
    message.append(text::decimal_of(index).as_str());
    message.append("? (");
    message.append(text::short_hash_of(hash).as_str());
    message.append(")");
    let title = if undo {
        "Undo".to_string()
    } else {
        "Redo".to_string()
    };
    ConfirmPopup { title, message, on_confirm: Action::MoveHead { target, index } }
}

/// Asks for a step back: to the entry after the one that was reached last, made as
/// that one calls for. `stdout` is the reflog as git printed it.
pub fn undo(stdout: &str, undo_reflog_idx: usize) -> (r: Option<ConfirmPopup>)
    requires
        undo_reflog_idx < usize::MAX,
        undo_reflog_idx + 1 < text::lines(stdout@).len() ==> text::can_shorten(
            reflog_entry(stdout@, undo_reflog_idx + 1).hash,
        ),
    ensures
        if undo_reflog_idx + 1 < text::lines(stdout@).len() {
            r is Some && asks_step(
                r->0,
                true,
                undo_reflog_idx + 1,
                reflog_entry(stdout@, undo_reflog_idx + 1),
                reflog_entry(stdout@, undo_reflog_idx as int).subject,
            )
        } else {
            r is None
        },
{
    let chars = text::chars_of(stdout);
    let lines = text::lines_of(chars.as_slice());
    let next: usize = undo_reflog_idx + 1;
    assert(text::pieces(lines@).len() == lines@.len());
    if next >= lines.len() {
        return None;
    }
    assert(text::pieces(lines@)[next as int] == lines@[next as int]@);
    assert(text::pieces(lines@)[undo_reflog_idx as int] == lines@[undo_reflog_idx as int]@);
    let (hash, _) = parse_line(lines[next].as_slice());
    let (_, subject) = parse_line(lines[undo_reflog_idx].as_slice());
    Some(ask_step(true, next, hash.as_str(), subject.as_str()))
}

/// Asks for a step forward again: to the entry before the one that was reached last,
/// made as that entry calls for. There is none before the first step back.
pub fn redo(stdout: &str, undo_reflog_idx: usize) -> (r: Option<ConfirmPopup>)
    requires
        0 < undo_reflog_idx <= text::lines(stdout@).len() ==> text::can_shorten(
            reflog_entry(stdout@, undo_reflog_idx - 1).hash,
        ),
    ensures
        if 0 < undo_reflog_idx <= text::lines(stdout@).len() {
            r is Some && asks_step(
                r->0,
                false,
                undo_reflog_idx - 1,
                reflog_entry(stdout@, undo_reflog_idx - 1),
                reflog_entry(stdout@, undo_reflog_idx - 1).subject,
            )
        } else {
            r is None
        },
{
    if undo_reflog_idx == 0 {
        return None;
    }
    let chars = text::chars_of(stdout);
    let lines = text::lines_of(chars.as_slice());
    let prev: usize = undo_reflog_idx - 1;
    assert(text::pieces(lines@).len() == lines@.len());
    if prev >= lines.len() {
        return None;
    }
    assert(text::pieces(lines@)[prev as int] == lines@[prev as int]@);
    let (hash, subject) = parse_line(lines[prev].as_slice());
    Some(ask_step(false, prev, hash.as_str(), subject.as_str()))
}

// ---------------------------------------------------------------------------
// Laws
// ---------------------------------------------------------------------------

/// A move between references is never undone or made again by a reset, and no other
/// move by a checkout.
pub proof fn a_branch_switch_is_never_reset(
    action: ReflogUndoAction,
    target: Seq<char>,
    subject: Seq<char>,
)
    requires
        action.leads_to(target, subject),
    ensures
        action is Checkout <==> moved_between_refs(subject),
        action is Reset <==> !moved_between_refs(subject),
{
}

/// A step forward after a step back is made in the same way and leads to the entry
/// that the step back started from.
pub proof fn redo_takes_an_undo_back(stdout: Seq<char>, i: int, back: ConfirmPopup, forth: ConfirmPopup)
    requires
        asks_step(
            back,
            true,
            i + 1,
            reflog_entry(stdout, i + 1),
            reflog_entry(stdout, i).subject,
        ),
        asks_step(forth, false, i, reflog_entry(stdout, i), reflog_entry(stdout, i).subject),
    ensures
        back.on_confirm->target is Checkout <==> forth.on_confirm->target is Checkout,
        forth.on_confirm->target.leads_to(
            reflog_entry(stdout, i).hash,
            reflog_entry(stdout, i).subject,
        ),
        forth.on_confirm->MoveHead_index == i,
{
}

/// A printed entry is its hash, a tab and what was done, and is read back as such; the tabs
/// behind the first belong to what was done.
pub proof fn a_printed_entry_is_read_back(hash: Seq<char>, subject: Seq<char>)
    requires
        !hash.contains('\t'),
    ensures
        reflog_line(hash + "\t"@ + subject).hash == hash,
        reflog_line(hash + "\t"@ + subject).subject == subject,
        reflog_line(hash).hash == hash,
        reflog_line(hash).subject.len() == 0,
{
    reveal_strlit("\t");
    assert("\t"@ =~= seq!['\t']);
    text::a_front_is_split_off(hash, '\t', subject);
    let s = hash + seq!['\t'] + subject;
    text::lemma_find_from(s, '\t', 0);
    text::lemma_find_from(hash, '\t', 0);
}

/// Going from one reference to another is told from all else by how the entry begins, with
/// white space in front or without; the moves that commit, reset, merge or rebase make are
/// none.
pub proof fn switches_are_told_by_their_start(rest: Seq<char>)
    ensures
        moved_between_refs("checkout:"@ + rest),
        moved_between_refs("switch:"@ + rest),
        moved_between_refs(" checkout:"@ + rest),
        !moved_between_refs("commit"@ + rest),
        !moved_between_refs("reset"@ + rest),
        !moved_between_refs("merge"@ + rest),
        !moved_between_refs("rebase"@ + rest),
{
    reveal_strlit("checkout:");
    reveal_strlit(" checkout:");
    reveal_strlit("switch:");
    reveal_strlit("commit");
    reveal_strlit("reset");
    reveal_strlit("merge");
    reveal_strlit("rebase");
    text::ascii_space('c');
    text::ascii_space('s');
    text::ascii_space('r');
    text::ascii_space('m');
    text::ascii_space(' ');
    let a = "checkout:"@ + rest;
    let b = "switch:"@ + rest;
    assert(a[0] == 'c' && b[0] == 's');
    assert("checkout:"@.is_prefix_of(a));
    assert("switch:"@.is_prefix_of(b));
    assert(text::trim_start(a) == a);
    assert(text::trim_start(b) == b);
    let c = " checkout:"@ + rest;
    assert(c.skip(1) =~= a);
    assert(c[0] == ' ');
    assert(text::trim_start(c) == text::trim_start(a));
    lemma_no_switch("commit"@ + rest);
    lemma_no_switch("reset"@ + rest);
    lemma_no_switch("merge"@ + rest);
    lemma_no_switch("rebase"@ + rest);
}

proof fn lemma_no_switch(s: Seq<char>)
    requires
        s.len() >= 2,
        s[0] == 'r' || s[0] == 'm' || (s[0] == 'c' && s[1] == 'o'),
    ensures
        !moved_between_refs(s),
{
    reveal_strlit("checkout:");
    reveal_strlit("switch:");
    text::ascii_space(s[0]);
    assert(text::trim_start(s) == s);
    if "checkout:"@.is_prefix_of(s) {
        assert(s[0] == "checkout:"@[0]);
        assert(s[1] == "checkout:"@[1]);
    }
    if "switch:"@.is_prefix_of(s) {
        assert(s[0] == "switch:"@[0]);
    }
}

/// The question names the entry by its number and the commit by its short hash, and tells
/// whether a branch is switched or HEAD is moved.
pub proof fn the_question_names_the_entry(index: nat, hash: Seq<char>)
    ensures
        ({
            let entry = text::decimal(index) + "? ("@ + text::short_hash(hash) + ")"@;
            &&& step_question(true, true, index, hash) == "Undo branch switch — checkout "@ + entry
            &&& step_question(true, false, index, hash) == "Undo to reflog entry "@ + entry
            &&& step_question(false, true, index, hash) == "Redo branch switch — checkout "@ + entry
            &&& step_question(false, false, index, hash) == "Redo to reflog entry "@ + entry
        }),
{
    let entry = text::decimal(index) + "? ("@ + text::short_hash(hash) + ")"@;
    assert(step_question(true, true, index, hash) =~= "Undo branch switch — checkout "@ + entry);
    assert(step_question(true, false, index, hash) =~= "Undo to reflog entry "@ + entry);
    assert(step_question(false, true, index, hash) =~= "Redo branch switch — checkout "@ + entry);
    assert(step_question(false, false, index, hash) =~= "Redo to reflog entry "@ + entry);
}

/// A step leads to the commit that it was made for, and to no other: by a checkout where HEAD
/// went from one reference to another, and by a reset else.
pub proof fn a_step_leads_to_its_commit(a: ReflogUndoAction, target: Seq<char>, subject: Seq<char>)
    requires
        a.leads_to(target, subject),
    ensures
        a is Checkout <==> moved_between_refs(subject),
        a matches ReflogUndoAction::Checkout(t) ==> t@ == target,
        a matches ReflogUndoAction::Reset(t) ==> t@ == target,
{
}

} // verus!
