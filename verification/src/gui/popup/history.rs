//! The messages of earlier commits, and how a message is split and joined.

use crate::text;
use vstd::prelude::*;

verus! {

/// How many messages are kept.
pub const COMMIT_HISTORY_MAX: usize = 50;

/// The messages of earlier commits, the newest first, and where one is in them.
#[derive(Debug)]
pub struct CommitHistory {
    pub messages: Vec<String>,
    /// The message on show; none while what was typed is.
    pub idx: Option<usize>,
    /// What was typed before the first message was shown.
    pub draft: String,
}

/// The texts other than one, in order.
pub open spec fn others(l: Seq<Seq<char>>, text: Seq<char>) -> Seq<Seq<char>>
    decreases l.len(),
{
    if l.len() == 0 {
        seq![]
    } else if l.last() == text {
        others(l.drop_last(), text)
    } else {
        others(l.drop_last(), text).push(l.last())
    }
}

/// The messages after one was used: it comes first and occurs once, and the oldest
/// are dropped.
pub open spec fn remembered(l: Seq<Seq<char>>, text: Seq<char>) -> Seq<Seq<char>> {
    let all = seq![text] + others(l, text);
    if all.len() <= COMMIT_HISTORY_MAX {
        all
    } else {
        all.take(COMMIT_HISTORY_MAX as int)
    }
}

impl CommitHistory {
    /// The message on show is one of the history.
    pub open spec fn wf(self) -> bool {
        self.idx matches Some(i) ==> i < self.messages@.len()
    }

    /// A history with nothing on show.
    pub fn new(messages: Vec<String>) -> (r: Self)
        ensures
            r.messages == messages,
            r.idx is None,
            r.draft@.len() == 0,
            r.wf(),
    {
        CommitHistory { messages, idx: None, draft: String::new() }
    }

    /// Notes that a message was used, unless it is blank; tells whether the history
    /// has to be saved. Nothing is on show afterwards.
    pub fn remember(&mut self, message: &str) -> (r: bool)
        ensures
            r == (text::trim(message@).len() > 0),
            text::texts(final(self).messages@) == if r {
                remembered(text::texts(old(self).messages@), message@)
            } else {
                text::texts(old(self).messages@)
            },
            !r ==> final(self).messages == old(self).messages,
            final(self).idx is None,
            final(self).draft == old(self).draft,
            final(self).wf(),
    {
        self.idx = None;
        let trimmed = text::trim_str(message);
        if text::is_empty_str(trimmed.as_str()) {
            return false;
        }
        let ghost before = text::texts(self.messages@);
        let mut all: Vec<String> = Vec::new();
        all.push(message.to_string());
        let mut i: usize = 0;
        assert(text::texts(all@) =~= seq![message@] + others(before.take(0), message@));
        while i < self.messages.len()
            invariant
                i <= self.messages@.len(),
                before == text::texts(self.messages@),
                text::texts(all@) == seq![message@] + others(before.take(i as int), message@),
            decreases self.messages@.len() - i,
        {
            assert(before[i as int] == self.messages@[i as int]@);
            assert(before.take(i as int + 1).drop_last() =~= before.take(i as int));
            let ghost sofar = all@;
            if !text::same_str(self.messages[i].as_str(), message) {
                all.push(self.messages[i].clone());
                assert(text::texts(all@) =~= text::texts(sofar).push(before[i as int]));
                assert(text::texts(all@) =~= seq![message@] + others(
                    before.take(i as int + 1),
                    message@,
                ));
            }
            i = i + 1;
        }
        assert(before.take(before.len() as int) =~= before);
        let ghost whole = all@;
        all.truncate(COMMIT_HISTORY_MAX);
        assert(text::texts(all@) =~= remembered(before, message@));
        self.messages = all;
        true
    }

    /// Where one is in the history.
    pub open spec fn place(self) -> HistoryPlace {
        HistoryPlace { idx: self.idx, draft: self.draft@ }
    }

    /// Goes to an older message. What was typed (`current`) is kept first. Gives the
    /// message to show.
    pub fn older(&mut self, current: String) -> (r: String)
        requires
            old(self).wf(),
            old(self).messages@.len() > 0,
        ensures
            final(self).wf(),
            final(self).messages == old(self).messages,
            final(self).place() == old(self).place().older(current@, old(self).messages@.len()),
            r@ == final(self).place().shown(text::texts(old(self).messages@)),
    {
        let last: usize = self.messages.len() - 1;
        let place: usize = match self.idx {
            None => {
                self.draft = current;
                0
            },
            Some(i) => if i < last {
                i + 1
            } else {
                last
            },
        };
        self.idx = Some(place);
        self.messages[place].clone()
    }

    /// Goes to a newer message, behind the newest to what was typed. Gives the text
    /// to show; none where that is on show already.
    pub fn newer(&mut self) -> (r: Option<String>)
        requires
            old(self).wf(),
        ensures
            final(self).wf(),
            final(self).messages == old(self).messages,
            old(self).idx is None ==> r is None && *final(self) == *old(self),
            old(self).idx is Some ==> final(self).place() == old(self).place().newer()
                && text::opt_text(r) == Some(
                final(self).place().shown(text::texts(old(self).messages@)),
            ),
    {
        match self.idx {
            None => None,
            Some(i) => if i == 0 {
                self.idx = None;
                Some(self.draft.clone())
            } else {
                self.idx = Some(i - 1);
                Some(self.messages[i - 1].clone())
            },
        }
    }
}

/// Where one is in the history: at a message, or at what was typed.
pub struct HistoryPlace {
    pub idx: Option<usize>,
    pub draft: Seq<char>,
}

impl HistoryPlace {
    /// One message older, or at the oldest of `len`. What was typed is kept on the
    /// way to the first message.
    pub open spec fn older(self, current: Seq<char>, len: nat) -> HistoryPlace {
        match self.idx {
            None => HistoryPlace { idx: Some(0), draft: current },
            Some(i) => HistoryPlace {
                idx: Some(
                    if i < len - 1 {
                        (i + 1) as usize
                    } else {
                        (len - 1) as usize
                    },
                ),
                ..self
            },
        }
    }

    /// One message newer, or at what was typed.
    pub open spec fn newer(self) -> HistoryPlace {
        match self.idx {
            None => self,
            Some(i) => HistoryPlace {
                idx: if i == 0 {
                    None
                } else {
                    Some((i - 1) as usize)
                },
                ..self
            },
        }
    }

    /// What is on show at the place.
    pub open spec fn shown(self, l: Seq<Seq<char>>) -> Seq<char> {
        match self.idx {
            Some(i) => l[i as int],
            None => self.draft,
        }
    }
}

// ---------------------------------------------------------------------------
// The file
// ---------------------------------------------------------------------------

/// The texts that are not empty, in order.
pub open spec fn filled(l: Seq<Seq<char>>) -> Seq<Seq<char>>
    decreases l.len(),
{
    if l.len() == 0 {
        seq![]
    } else if l.last().len() == 0 {
        filled(l.drop_last())
    } else {
        filled(l.drop_last()).push(l.last())
    }
}

/// The messages that a history file holds: they are separated by zero characters,
/// and empty ones do not count.
pub open spec fn read_history(contents: Seq<char>) -> Seq<Seq<char>> {
    filled(text::split(contents, '\0'))
}

/// Reads a history file. `contents` is what it holds, if it could be read.
pub fn load_commit_history(contents: Option<&str>) -> (r: Vec<String>)
    ensures
        text::texts(r@) == match contents {
            Some(c) => read_history(c@),
            None => seq![],
        },
{
    let mut r: Vec<String> = Vec::new();
    assert(text::texts(r@) =~= seq![]);
    match contents {
        None => r,
        Some(c) => {
            let chars = text::chars_of(c);
            let parts = text::split_at_char(chars.as_slice(), '\0');
            let ghost all = text::split(c@, '\0');
            let mut i: usize = 0;
            assert(all.take(0) =~= seq![]);
            while i < parts.len()
                invariant
                    i <= parts@.len(),
                    text::pieces(parts@) == all,
                    text::texts(r@) == filled(all.take(i as int)),
                decreases parts@.len() - i,
            {
                assert(all[i as int] == parts@[i as int]@);
                assert(all.take(i as int + 1).drop_last() =~= all.take(i as int));
                if parts[i].len() > 0 {
                    let ghost before = r@;
                    r.push(text::string_of(parts[i].as_slice()));
                    assert(text::texts(r@) =~= text::texts(before).push(all[i as int]));
                }
                i = i + 1;
            }
            assert(all.take(all.len() as int) =~= all);
            r
        },
    }
}

/// The contents of the history file.
pub fn save_commit_history(messages: &Vec<String>) -> (r: String)
    ensures
        r@ == text::join(text::texts(messages@), "\0"@),
{
    text::join_strings(messages, "\0")
}

// ---------------------------------------------------------------------------
// Messages
// ---------------------------------------------------------------------------

/// The text without the line feeds at its start.
pub open spec fn without_leading_newlines(s: Seq<char>) -> Seq<char>
    decreases s.len(),
{
    if s.len() > 0 && s[0] == '\n' {
        without_leading_newlines(s.skip(1))
    } else {
        s
    }
}

/// A text as its first line and what follows, without the line feeds between.
pub open spec fn first_line_split(s: Seq<char>) -> (Seq<char>, Seq<char>) {
    let i = text::find_from(s, '\n', 0);
    if i < s.len() {
        (s.take(i), without_leading_newlines(s.skip(i + 1)))
    } else {
        (s, seq![])
    }
}

/// Splits a text into its first line and what follows.
pub fn split_first_line(msg: &str) -> (r: (String, String))
    ensures
        r.0@ == first_line_split(msg@).0,
        r.1@ == first_line_split(msg@).1,
{
    let chars = text::chars_of(msg);
    let i: usize = text::find_char_from(chars.as_slice(), '\n', 0);
    if i < chars.len() {
        let mut start: usize = i + 1;
        while start < chars.len() && chars[start] == '\n'
            invariant
                start <= chars@.len(),
                without_leading_newlines(chars@.skip(i as int + 1)) == without_leading_newlines(
                    chars@.skip(start as int),
                ),
            decreases chars@.len() - start,
        {
            assert(chars@.skip(start as int).skip(1) =~= chars@.skip(start as int + 1));
            start = start + 1;
        }
        let head = text::copy_range(chars.as_slice(), 0, i);
        let tail = text::copy_range(chars.as_slice(), start, chars.len());
        assert(head@ =~= msg@.take(i as int));
        assert(tail@ =~= chars@.skip(start as int));
        (text::string_of(head.as_slice()), text::string_of(tail.as_slice()))
    } else {
        let rest = String::new();
        assert(rest@ =~= seq![]);
        (msg.to_string(), rest)
    }
}

/// Where the first blank line ends, looked for from the line that starts at position `i`
/// on: one that holds nothing but white space.
pub open spec fn blank_line_end(s: Seq<char>, i: int) -> Option<int>
    decreases s.len() - i,
{
    if i < 0 || i >= s.len() {
        None
    } else {
        let end = text::line_end(s, i);
        if text::trim(s.subrange(i, end)).len() == 0 {
            Some(end)
        } else if end <= i {
            None
        } else {
            blank_line_end(s, end)
        }
    }
}

/// A message as its summary and its body: the first line, and everything behind the
/// first blank line that follows. Without a blank line there is no body.
pub open spec fn split_message(s: Seq<char>) -> (Seq<char>, Seq<char>) {
    let i = text::find_from(s, '\n', 0);
    (
        s.take(i),
        match blank_line_end(s, i + 1) {
            Some(end) => s.skip(end),
            None => seq![],
        },
    )
}

fn find_blank_line_end(s: &[char], start: usize) -> (r: Option<usize>)
    ensures
        match r {
            Some(end) => blank_line_end(s@, start as int) == Some(end as int) && end <= s@.len(),
            None => blank_line_end(s@, start as int) is None,
        },
{
    let mut i: usize = start;
    while i < s.len()
        invariant
            blank_line_end(s@, start as int) == blank_line_end(s@, i as int),
        decreases s@.len() - i,
    {
        let e: usize = text::find_char_from(s, '\n', i);
        let end: usize = if e < s.len() {
            e + 1
        } else {
            e
        };
        let line = vstd::slice::slice_subrange(s, i, end);
        if text::trim_of(line).len() == 0 {
            return Some(end);
        }
        i = end;
    }
    None
}

/// Splits a message into its summary and its body.
pub fn split_commit_message(msg: &str) -> (r: (String, String))
    ensures
        r.0@ == split_message(msg@).0,
        r.1@ == split_message(msg@).1,
{
    let chars = text::chars_of(msg);
    let i: usize = text::find_char_from(chars.as_slice(), '\n', 0);
    let head = text::copy_range(chars.as_slice(), 0, i);
    assert(head@ =~= msg@.take(i as int));
    let summary = text::string_of(head.as_slice());
    let found = if i < chars.len() {
        find_blank_line_end(chars.as_slice(), i + 1)
    } else {
        None
    };
    match found {
        Some(end) => {
            let tail = text::copy_range(chars.as_slice(), end, chars.len());
            assert(tail@ =~= msg@.skip(end as int));
            (summary, text::string_of(tail.as_slice()))
        },
        None => {
            let rest = String::new();
            assert(rest@ =~= seq![]);
            (summary, rest)
        },
    }
}

/// A message from its first line and the trimmed rest, an empty line between.
pub open spec fn joined_message(summary: Seq<char>, body: Seq<char>) -> Seq<char> {
    if text::trim(body).len() == 0 {
        summary
    } else {
        summary + "\n\n"@ + text::trim(body)
    }
}

/// Joins a message from its first line and the rest.
pub fn join_commit_message(summary: &str, body: &str) -> (r: String)
    ensures
        r@ == joined_message(summary@, body@),
{
    let mut r = summary.to_string();
    let trimmed = text::trim_str(body);
    if !text::is_empty_str(trimmed.as_str()) {
        r.append("\n\n");
        r.append(trimmed.as_str());
    }
    r
}

/// What was typed, kept to come back to: unlike in a message that is used, the
/// rest stays as it is.
pub open spec fn draft_message(summary: Seq<char>, body: Seq<char>) -> Seq<char> {
    if text::trim(body).len() == 0 {
        summary
    } else {
        summary + "\n\n"@ + body
    }
}

/// Keeps what was typed.
pub fn draft_of(summary: &str, body: &str) -> (r: String)
    ensures
        r@ == draft_message(summary@, body@),
{
    let mut r = summary.to_string();
    let trimmed = text::trim_str(body);
    if !text::is_empty_str(trimmed.as_str()) {
        r.append("\n\n");
        r.append(body);
    }
    r
}

// ---------------------------------------------------------------------------
// Laws
// ---------------------------------------------------------------------------

proof fn lemma_others(l: Seq<Seq<char>>, text: Seq<char>)
    ensures
        others(l, text).len() <= l.len(),
        !others(l, text).contains(text),
        forall|x: Seq<char>| x != text && l.contains(x) ==> others(l, text).contains(x),
    decreases l.len(),
{
    if l.len() > 0 {
        lemma_others(l.drop_last(), text);
        let rest = others(l.drop_last(), text);
        if l.last() != text {
            let all = rest.push(l.last());
            assert forall|i: int| 0 <= i < all.len() implies all[i] != text by {
                if i < rest.len() {
                    assert(rest.contains(rest[i]));
                }
            }
        }
        assert forall|x: Seq<char>| x != text && l.contains(x) implies others(l, text).contains(
            x,
        ) by {
            let k = choose|k: int| 0 <= k < l.len() && l[k] == x;
            if k < l.len() - 1 {
                assert(l.drop_last()[k] == x);
                assert(l.drop_last().contains(x));
                let j = choose|j: int| 0 <= j < rest.len() && rest[j] == x;
                assert(others(l, text)[j] == x);
            } else {
                assert(others(l, text).last() == x);
            }
        }
    }
}

/// After a message was used it is the first of the history and occurs in it once,
/// and the history is no longer than allowed.
pub proof fn a_used_message_comes_first_and_once(l: Seq<Seq<char>>, text: Seq<char>)
    ensures
        remembered(l, text).len() <= COMMIT_HISTORY_MAX,
        remembered(l, text).len() > 0,
        remembered(l, text)[0] == text,
        forall|i: int| 0 < i < remembered(l, text).len() ==> remembered(l, text)[i] != text,
{
    lemma_others(l, text);
    let rest = others(l, text);
    assert forall|i: int| 0 < i < remembered(l, text).len() implies remembered(l, text)[i]
        != text by {
        assert(rest.contains(rest[i - 1]));
    }
}

/// While there is room, using a message forgets none of the others.
pub proof fn no_message_is_forgotten_while_there_is_room(
    l: Seq<Seq<char>>,
    text: Seq<char>,
    other: Seq<char>,
)
    requires
        l.len() < COMMIT_HISTORY_MAX,
        l.contains(other),
    ensures
        remembered(l, text).contains(other),
{
    lemma_others(l, text);
    let rest = others(l, text);
    if other != text {
        let j = choose|j: int| 0 <= j < rest.len() && rest[j] == other;
        assert(remembered(l, text)[j + 1] == other);
    } else {
        assert(remembered(l, text)[0] == other);
    }
}

proof fn lemma_filled_keeps(l: Seq<Seq<char>>)
    requires
        forall|i: int| 0 <= i < l.len() ==> (#[trigger] l[i]).len() > 0,
    ensures
        filled(l) == l,
    decreases l.len(),
{
    if l.len() > 0 {
        assert(forall|i: int| 0 <= i < l.len() - 1 ==> l.drop_last()[i] == l[i]);
        lemma_filled_keeps(l.drop_last());
        assert(l.drop_last().push(l.last()) =~= l);
    }
}

/// A history that was saved is read back as it was, if its messages are not empty
/// and hold no zero character.
pub proof fn saved_history_is_read_back(l: Seq<Seq<char>>)
    requires
        forall|i: int| 0 <= i < l.len() ==> (#[trigger] l[i]).len() > 0,
        forall|i: int| 0 <= i < l.len() ==> !(#[trigger] l[i]).contains('\0'),
    ensures
        read_history(text::join(l, "\0"@)) == l,
{
    reveal_strlit("\0");
    assert("\0"@ =~= seq!['\0']);
    if l.len() == 0 {
        let e = Seq::<char>::empty();
        assert(text::join(l, "\0"@) =~= e);
        reveal_with_fuel(filled, 3);
        assert(text::find_from(e, '\0', 0) == 0);
        assert(e.subrange(0, 0) =~= e);
        assert(text::split(e, '\0') =~= seq![e]);
        assert(seq![e].drop_last() =~= seq![]);
        assert(read_history(e) =~= l);
    } else {
        assert forall|i: int, j: int|
            #![trigger l[i][j]]
            0 <= i < l.len() && 0 <= j < l[i].len() implies l[i][j] != '\0' by {
            assert(l[i].contains(l[i][j]));
        }
        text::split_undoes_join(l, '\0');
        lemma_filled_keeps(l);
    }
}

proof fn lemma_first_newline(s: Seq<char>, rest: Seq<char>, i: int)
    requires
        0 <= i <= s.len(),
        !s.contains('\n'),
        rest.len() > 0,
        rest[0] == '\n',
    ensures
        text::find_from(s + rest, '\n', i) == s.len(),
    decreases s.len() - i,
{
    if i < s.len() {
        assert((s + rest)[i] == s[i]);
        assert(s.contains(s[i]));
        lemma_first_newline(s, rest, i + 1);
    } else {
        assert((s + rest)[i] == '\n');
    }
}

/// Behind a summary without line feeds, the body is what follows an empty line, whatever
/// it holds.
pub proof fn body_follows_the_blank_line(summary: Seq<char>, body: Seq<char>)
    requires
        !summary.contains('\n'),
    ensures
        split_message(summary + "\n\n"@ + body) == (summary, body),
{
    reveal_strlit("\n\n");
    let rest = "\n\n"@ + body;
    let s = summary + "\n\n"@ + body;
    let n = summary.len() as int;
    assert(s =~= summary + rest);
    lemma_first_newline(summary, rest, 0);
    assert(s.take(n) =~= summary);
    assert(s[n + 1] == '\n');
    assert(text::line_end(s, n + 1) == n + 2);
    let line = s.subrange(n + 1, n + 2);
    assert(line =~= seq!['\n']);
    assert(text::trim_start(line).len() == 0) by {
        assert(line.skip(1) =~= seq![]);
        assert(text::trim_start(line.skip(1)) =~= seq![]);
    }
    assert(text::trim_end(text::trim_start(line)).len() == 0);
    assert(s.skip(n + 2) =~= body);
}

/// Splitting a message that was joined gives its parts back, if the first holds no
/// line feed: the rest comes back trimmed.
pub proof fn split_undoes_joining_a_message(summary: Seq<char>, body: Seq<char>)
    requires
        !summary.contains('\n'),
    ensures
        split_message(joined_message(summary, body)) == (summary, text::trim(body)),
{
    if text::trim(body).len() == 0 {
        lemma_split_one_line(summary);
        assert(text::trim(body) =~= seq![]);
    } else {
        body_follows_the_blank_line(summary, text::trim(body));
    }
}

/// What was typed comes back as it was from the draft that is kept of it, if the
/// summary holds no line feed; a blank body comes back empty.
pub proof fn split_undoes_keeping_a_draft(summary: Seq<char>, body: Seq<char>)
    requires
        !summary.contains('\n'),
    ensures
        split_message(draft_message(summary, body)) == (
            summary,
            if text::trim(body).len() == 0 {
                seq![]
            } else {
                body
            },
        ),
{
    if text::trim(body).len() == 0 {
        lemma_split_one_line(summary);
    } else {
        body_follows_the_blank_line(summary, body);
    }
}

proof fn lemma_split_one_line(s: Seq<char>)
    requires
        !s.contains('\n'),
    ensures
        split_message(s) == (s, Seq::<char>::empty()),
{
    text::lemma_find_from(s, '\n', 0);
    let i = text::find_from(s, '\n', 0);
    if i < s.len() {
        assert(s.contains(s[i]));
    }
    assert(s.take(s.len() as int) =~= s);
}

/// Going to an older message and back to the newer one shows what was typed, or the
/// message that was on show.
pub proof fn newer_undoes_older(p: HistoryPlace, current: Seq<char>, l: Seq<Seq<char>>)
    requires
        0 < l.len() <= usize::MAX,
        p.idx matches Some(i) ==> i + 1 < l.len(),
    ensures
        p.older(current, l.len()).newer().idx == p.idx,
        p.older(current, l.len()).newer().shown(l) == if p.idx is None {
            current
        } else {
            p.shown(l)
        },
{
}

/// Going back in the history shows the newest message first and an older one each time, up
/// to the oldest; going forward shows a newer one each time, and behind the newest what was
/// typed.
pub proof fn the_history_goes_from_new_to_old(
    p: HistoryPlace,
    current: Seq<char>,
    l: Seq<Seq<char>>,
)
    requires
        0 < l.len() <= usize::MAX,
        p.idx matches Some(i) ==> i < l.len(),
    ensures
        p.idx is None ==> p.older(current, l.len()).shown(l) == l[0] && p.older(
            current,
            l.len(),
        ).draft == current,
        p.idx matches Some(i) ==> p.older(current, l.len()).shown(l) == l[if i + 1 < l.len() {
            i + 1
        } else {
            i as int
        }] && p.older(current, l.len()).draft == p.draft,
        p.idx matches Some(i) ==> p.newer().shown(l) == if i > 0 {
            l[i - 1]
        } else {
            p.draft
        },
        p.idx is None ==> p.newer().shown(l) == p.draft,
        p.newer().draft == p.draft,
{
}

/// A message that is used comes before all others, which stay in their order; of more than
/// fifty the oldest are dropped.
pub proof fn the_others_stay_in_order(l: Seq<Seq<char>>, text: Seq<char>)
    ensures
        others(l, text) == l.filter(|x: Seq<char>| x != text),
        ({
            let all = seq![text] + l.filter(|x: Seq<char>| x != text);
            remembered(l, text) == if all.len() <= 50 {
                all
            } else {
                all.take(50)
            }
        }),
    decreases l.len(),
{
    reveal(Seq::filter);
    if l.len() > 0 {
        the_others_stay_in_order(l.drop_last(), text);
    }
}

/// A message is its summary alone where the body is blank, and else the summary, an empty
/// line and the body without the space around it; a draft keeps the body as it is.
pub proof fn a_message_has_an_empty_line(summary: Seq<char>, body: Seq<char>)
    ensures
        text::trim(body).len() == 0 ==> joined_message(summary, body) == summary && draft_message(
            summary,
            body,
        ) == summary,
        text::trim(body).len() > 0 ==> joined_message(summary, body) == summary + "\n\n"@
            + text::trim(body) && draft_message(summary, body) == summary + "\n\n"@ + body,
{
}

/// The first line of a text is what stands before its first line feed, and what follows
/// begins with the first character that is no line feed.
pub proof fn the_first_line_is_split_off(line: Seq<char>, rest: Seq<char>)
    requires
        !line.contains('\n'),
    ensures
        rest.len() == 0 || rest[0] != '\n' ==> first_line_split(line + "\n"@ + rest) == (line, rest),
        first_line_split(line + "\n"@ + ("\n"@ + rest)) == first_line_split(line + "\n"@ + rest),
        first_line_split(line) == (line, Seq::<char>::empty()),
{
    reveal_strlit("\n");
    let n = line.len() as int;
    let s = line + "\n"@ + rest;
    let t = line + "\n"@ + ("\n"@ + rest);
    lemma_first_newline(line, "\n"@ + rest, 0);
    assert(line + ("\n"@ + rest) =~= s);
    lemma_first_newline(line, "\n"@ + ("\n"@ + rest), 0);
    assert(line + ("\n"@ + ("\n"@ + rest)) =~= t);
    assert(s.take(n) =~= line);
    assert(t.take(n) =~= line);
    assert(s.skip(n + 1) =~= rest);
    let u = "\n"@ + rest;
    assert(t.skip(n + 1) =~= u);
    assert(u[0] == '\n');
    assert(u.skip(1) =~= rest);
    assert(without_leading_newlines(u) == without_leading_newlines(rest));
    text::lemma_find_from(line, '\n', 0);
    if text::find_from(line, '\n', 0) < line.len() {
        assert(line.contains('\n'));
    }
}

proof fn lemma_find_behind(front: Seq<char>, s: Seq<char>, i: int)
    requires
        0 <= i <= s.len(),
    ensures
        text::find_from(front + s, '\n', front.len() + i) == front.len() + text::find_from(
            s,
            '\n',
            i,
        ),
    decreases s.len() - i,
{
    if i < s.len() {
        assert((front + s)[front.len() + i] == s[i]);
        lemma_find_behind(front, s, i + 1);
    }
}

proof fn lemma_blank_behind(front: Seq<char>, s: Seq<char>, i: int)
    requires
        0 <= i <= s.len(),
    ensures
        blank_line_end(front + s, front.len() + i) == match blank_line_end(s, i) {
            Some(end) => Some(front.len() + end),
            None => None,
        },
    decreases s.len() - i,
{
    if i < s.len() {
        let t = front + s;
        let n = front.len() as int;
        lemma_find_behind(front, s, i);
        text::lemma_find_from(s, '\n', i);
        let end = text::line_end(s, i);
        assert(text::line_end(t, n + i) == n + end);
        assert(i < end <= s.len());
        assert(t.subrange(n + i, n + end) =~= s.subrange(i, end));
        lemma_blank_behind(front, s, end);
    }
}

proof fn lemma_trim_line(line: Seq<char>)
    ensures
        text::trim(line + seq!['\n']) == text::trim(line),
{
    let (a, b) = text::trimming_takes_the_space_around(line);
    let t = text::trim(line);
    let c = b + seq!['\n'];
    text::ascii_space('\n');
    assert forall|i: int| 0 <= i < c.len() implies text::is_space(#[trigger] c[i]) by {
        if i < b.len() {
            assert(c[i] == b[i]);
        }
    }
    assert(a + t + b + seq!['\n'] =~= a + t + c);
    text::trimming_looks_inside(a, t, c);
}

/// The body of a message is what follows the first blank line, be it empty or of white space;
/// the lines between the summary and it belong to neither.
pub proof fn a_message_goes_line_by_line(summary: Seq<char>, line: Seq<char>, rest: Seq<char>)
    requires
        !summary.contains('\n'),
        !line.contains('\n'),
    ensures
        text::trim(line).len() == 0 ==> split_message(
            summary + seq!['\n'] + (line + seq!['\n'] + rest),
        ) == (summary, rest),
        text::trim(line).len() > 0 ==> split_message(
            summary + seq!['\n'] + (line + seq!['\n'] + rest),
        ) == (summary, split_message(summary + seq!['\n'] + rest).1),
{
    let nl = seq!['\n'];
    let front = summary + nl;
    let t = line + nl + rest;
    let s = front + t;
    let n = summary.len() as int;
    assert(s =~= summary + (nl + t));
    assert(front + rest =~= summary + (nl + rest));
    lemma_first_newline(summary, nl + t, 0);
    lemma_first_newline(summary, nl + rest, 0);
    assert(s.take(n) =~= summary);
    lemma_blank_behind(front, t, 0);
    lemma_blank_behind(front, rest, 0);
    assert(t =~= line + (nl + rest));
    lemma_first_newline(line, nl + rest, 0);
    let e = line.len() as int + 1;
    assert(text::line_end(t, 0) == e);
    assert(t.subrange(0, e) =~= line + nl);
    lemma_trim_line(line);
    if text::trim(line).len() == 0 {
        assert(s.skip(front.len() + e) =~= rest);
    } else {
        assert(t =~= (line + nl) + rest);
        lemma_blank_behind(line + nl, rest, 0);
        match blank_line_end(rest, 0) {
            Some(end) => {
                lemma_blank_end(rest, 0);
                assert(s.skip(front.len() + e + end) =~= (front + rest).skip(front.len() + end));
            },
            None => {},
        }
    }
}

proof fn lemma_blank_end(s: Seq<char>, i: int)
    requires
        0 <= i <= s.len(),
    ensures
        blank_line_end(s, i) matches Some(end) ==> i <= end <= s.len(),
    decreases s.len() - i,
{
    if i < s.len() {
        text::lemma_find_from(s, '\n', i);
        lemma_blank_end(s, text::line_end(s, i));
    }
}

/// A history file holds the texts between its zero characters that are not empty, in order.
pub proof fn empty_messages_do_not_count(contents: Seq<char>)
    ensures
        read_history(contents) == text::split(contents, '\0').filter(
            |m: Seq<char>| m.len() > 0,
        ),
{
    lemma_filled_filter(text::split(contents, '\0'));
}

proof fn lemma_filled_filter(l: Seq<Seq<char>>)
    ensures
        filled(l) == l.filter(|m: Seq<char>| m.len() > 0),
    decreases l.len(),
{
    reveal(Seq::filter);
    if l.len() > 0 {
        lemma_filled_filter(l.drop_last());
    }
}

} // verus!
