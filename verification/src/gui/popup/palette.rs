//! The command palette: the keys of the program in sections, to be searched and run.

use crate::gui::input::{KeyCode, KeyEvent, KeyModifiers};
use crate::gui::picker;
use crate::gui::popup::checklist;
use crate::gui::textarea;
use crate::gui::textarea::TextField;
use crate::text;
use vstd::prelude::*;

verus! {

/// What a command does.
#[derive(Debug, Clone, Copy, PartialEq, Eq, Structural)]
pub enum CommandAction {
    /// The same as a key.
    Dispatch(KeyEvent),
    OpenThemePicker,
    /// Nothing: it is only listed.
    Unavailable,
}

/// A command with its key.
#[derive(Debug)]
pub struct CommandEntry {
    pub key: String,
    pub description: String,
    pub action: CommandAction,
}

/// Commands under a title.
#[derive(Debug)]
pub struct CommandSection {
    pub title: String,
    pub entries: Vec<CommandEntry>,
}

/// The palette; the selection counts the visible commands.
#[derive(Debug)]
pub struct CommandPalette {
    pub sections: Vec<CommandSection>,
    pub selected: usize,
    pub search_textarea: TextField,
    pub scroll_offset: usize,
}

/// What a key leads to, beyond the selection.
#[derive(Debug, Clone, Copy, PartialEq, Eq, Structural)]
pub enum PaletteStep {
    Stay,
    Leave,
    Run(CommandAction),
}

// ---------------------------------------------------------------------------
// Rows
// ---------------------------------------------------------------------------

/// Whether a command is visible under a search, given in lower case.
pub open spec fn entry_visible(e: CommandEntry, lowered: Seq<char>) -> bool {
    lowered.len() == 0 || text::contains(text::lowercase(e.key@), lowered) || text::contains(
        text::lowercase(e.description@),
        lowered,
    )
}

/// Which commands are visible under a search, section by section.
pub open spec fn shown_entries(sections: Seq<CommandSection>, lowered: Seq<char>) -> Seq<Seq<bool>> {
    Seq::new(
        sections.len(),
        |s: int|
            Seq::new(
                sections[s].entries@.len(),
                |i: int| entry_visible(sections[s].entries@[i], lowered),
            ),
    )
}

/// The contents of rows of flags.
pub open spec fn flags(v: Seq<Vec<bool>>) -> Seq<Seq<bool>> {
    Seq::new(v.len(), |i: int| v[i]@)
}

/// How many commands of a section are visible.
pub open spec fn in_section(f: Seq<bool>) -> nat {
    checklist::visible_count(f, f.len() as int)
}

/// How many commands of the first `n` sections are visible.
pub open spec fn total(f: Seq<Seq<bool>>, n: int) -> nat
    decreases n,
{
    if n <= 0 {
        0
    } else {
        total(f, n - 1) + in_section(f[n - 1])
    }
}

/// How many of the first `n` sections have a title row: those with a visible command.
pub open spec fn titles(f: Seq<Seq<bool>>, n: int) -> nat
    decreases n,
{
    if n <= 0 {
        0
    } else {
        titles(f, n - 1) + if in_section(f[n - 1]) > 0 {
            1nat
        } else {
            0
        }
    }
}

/// The section, from `s` on, that the visible command with a number belongs to.
pub open spec fn section_of(f: Seq<Seq<bool>>, sel: int, s: int) -> Option<int>
    decreases f.len() - s,
{
    if s < 0 || s >= f.len() {
        None
    } else if sel < total(f, s + 1) {
        Some(s)
    } else {
        section_of(f, sel, s + 1)
    }
}

/// The row of the visible command with a number, titles counted; behind the last
/// one, the number of rows.
pub open spec fn display_row(f: Seq<Seq<bool>>, sel: int) -> int {
    match section_of(f, sel, 0) {
        Some(s) => sel + titles(f, s + 1),
        None => (total(f, f.len() as int) + titles(f, f.len() as int)) as int,
    }
}

/// The place of the visible command with a number: its section, and its index there.
pub open spec fn place_of(f: Seq<Seq<bool>>, sel: int) -> Option<(int, int)> {
    match section_of(f, sel, 0) {
        Some(s) => match checklist::nth_visible(f[s], sel - total(f, s), 0) {
            Some(i) => Some((s, i)),
            None => None,
        },
        None => None,
    }
}

/// How many commands there are in the first `n` sections.
pub open spec fn all_entries(sections: Seq<CommandSection>, n: int) -> nat
    decreases n,
{
    if n <= 0 {
        0
    } else {
        all_entries(sections, n - 1) + sections[n - 1].entries@.len()
    }
}

/// Whether flags belong to sections: one for each command.
pub open spec fn fit_sections(f: Seq<Seq<bool>>, sections: Seq<CommandSection>) -> bool {
    f.len() == sections.len() && forall|s: int|
        0 <= s < f.len() ==> (#[trigger] f[s]).len() == sections[s].entries@.len()
}

pub(crate) proof fn lemma_counts(f: Seq<Seq<bool>>, sections: Seq<CommandSection>, n: int)
    requires
        fit_sections(f, sections),
        0 <= n <= f.len(),
    ensures
        total(f, n) <= all_entries(sections, n),
        titles(f, n) <= n,
    decreases n,
{
    if n > 0 {
        lemma_counts(f, sections, n - 1);
        lemma_visible_count(f[n - 1], f[n - 1].len() as int);
    }
}

proof fn lemma_visible_count(f: Seq<bool>, n: int)
    requires
        0 <= n <= f.len(),
    ensures
        checklist::visible_count(f, n) <= n,
    decreases n,
{
    if n > 0 {
        lemma_visible_count(f, n - 1);
    }
}

proof fn lemma_all_entries_grow(sections: Seq<CommandSection>, m: int, n: int)
    requires
        0 <= m <= n <= sections.len(),
    ensures
        all_entries(sections, m) <= all_entries(sections, n),
    decreases n - m,
{
    if m < n {
        lemma_all_entries_grow(sections, m, n - 1);
    }
}

fn count_section(f: &Vec<bool>) -> (r: usize)
    ensures
        r == in_section(f@),
        r <= f@.len(),
{
    let mut r: usize = 0;
    let mut i: usize = 0;
    while i < f.len()
        invariant
            i <= f@.len(),
            r <= i,
            r == checklist::visible_count(f@, i as int),
        decreases f@.len() - i,
    {
        if f[i] {
            r = r + 1;
        }
        i = i + 1;
    }
    r
}

/// Counts the visible commands.
pub fn count_visible(sections: &Vec<CommandSection>, shown: &Vec<Vec<bool>>) -> (r: usize)
    requires
        fit_sections(flags(shown@), sections@),
        all_entries(sections@, sections@.len() as int) <= usize::MAX,
    ensures
        r == total(flags(shown@), shown@.len() as int),
{
    let ghost f = flags(shown@);
    let mut r: usize = 0;
    let mut s: usize = 0;
    while s < shown.len()
        invariant
            s <= shown@.len(),
            f == flags(shown@),
            fit_sections(f, sections@),
            all_entries(sections@, sections@.len() as int) <= usize::MAX,
            r == total(f, s as int),
        decreases shown@.len() - s,
    {
        proof {
            lemma_counts(f, sections@, s as int + 1);
            lemma_all_entries_grow(sections@, s as int + 1, sections@.len() as int);
        }
        assert(f[s as int] == shown@[s as int]@);
        r = r + count_section(&shown[s]);
        s = s + 1;
    }
    r
}

/// Finds the row of the visible command with a number.
pub fn find_display_idx(sections: &Vec<CommandSection>, shown: &Vec<Vec<bool>>, sel: usize) -> (r:
    usize)
    requires
        fit_sections(flags(shown@), sections@),
        all_entries(sections@, sections@.len() as int) + sections@.len() <= usize::MAX,
    ensures
        r == display_row(flags(shown@), sel as int),
{
    let ghost f = flags(shown@);
    let mut before: usize = 0;
    let mut headers: usize = 0;
    let mut s: usize = 0;
    while s < shown.len()
        invariant
            s <= shown@.len(),
            f == flags(shown@),
            fit_sections(f, sections@),
            all_entries(sections@, sections@.len() as int) + sections@.len() <= usize::MAX,
            before == total(f, s as int),
            headers == titles(f, s as int),
            before <= sel,
            section_of(f, sel as int, 0) == section_of(f, sel as int, s as int),
        decreases shown@.len() - s,
    {
        proof {
            lemma_counts(f, sections@, s as int + 1);
            lemma_all_entries_grow(sections@, s as int + 1, sections@.len() as int);
        }
        assert(f[s as int] == shown@[s as int]@);
        let n: usize = count_section(&shown[s]);
        if n > 0 {
            headers = headers + 1;
        }
        if sel - before < n {
            return sel + headers;
        }
        before = before + n;
        s = s + 1;
    }
    proof {
        lemma_counts(f, sections@, f.len() as int);
    }
    before + headers
}

proof fn lemma_nth_in_section(f: Seq<bool>, n: int)
    requires
        0 <= n < in_section(f),
    ensures
        checklist::nth_visible(f, n, 0) is Some,
{
    checklist::toggling_hits_the_visible_item(f, n);
}

/// Finds the place of the visible command with a number.
pub fn find_entry(sections: &Vec<CommandSection>, shown: &Vec<Vec<bool>>, sel: usize) -> (r: Option<
    (usize, usize),
>)
    requires
        fit_sections(flags(shown@), sections@),
        all_entries(sections@, sections@.len() as int) <= usize::MAX,
    ensures
        match place_of(flags(shown@), sel as int) {
            Some((s, i)) => (r matches Some((rs, ri)) && rs == s && ri == i) && 0 <= s
                < sections@.len() && 0 <= i < sections@[s].entries@.len(),
            None => r is None,
        },
{
    let ghost f = flags(shown@);
    let mut before: usize = 0;
    let mut s: usize = 0;
    while s < shown.len()
        invariant
            s <= shown@.len(),
            f == flags(shown@),
            fit_sections(f, sections@),
            all_entries(sections@, sections@.len() as int) <= usize::MAX,
            before == total(f, s as int),
            before <= sel,
            section_of(f, sel as int, 0) == section_of(f, sel as int, s as int),
        decreases shown@.len() - s,
    {
        proof {
            lemma_counts(f, sections@, s as int + 1);
            lemma_all_entries_grow(sections@, s as int + 1, sections@.len() as int);
        }
        assert(f[s as int] == shown@[s as int]@);
        let n: usize = count_section(&shown[s]);
        if sel - before < n {
            proof {
                lemma_nth_in_section(f[s as int], sel - before);
            }
            let row = &shown[s];
            let mut left: usize = sel - before;
            let mut i: usize = 0;
            while i < row.len()
                invariant
                    i <= row@.len(),
                    checklist::nth_visible(row@, sel - before, 0) == checklist::nth_visible(
                        row@,
                        left as int,
                        i as int,
                    ),
                    checklist::nth_visible(row@, sel - before, 0) is Some,
                    s < shown@.len(),
                    *row == shown@[s as int],
                    f == flags(shown@),
                    f[s as int] == row@,
                    fit_sections(f, sections@),
                    before == total(f, s as int),
                    section_of(f, sel as int, 0) == Some(s as int),
                decreases row@.len() - i,
            {
                if row[i] {
                    if left == 0 {
                        return Some((s, i));
                    }
                    left = left - 1;
                }
                i = i + 1;
            }
            return None;
        }
        before = before + n;
        s = s + 1;
    }
    None
}

fn flags_of(entries: &Vec<CommandEntry>, lowered: &str) -> (r: Vec<bool>)
    ensures
        r@.len() == entries@.len(),
        forall|j: int|
            0 <= j < r@.len() ==> #[trigger] r@[j] == entry_visible(entries@[j], lowered@),
{
    let empty = text::is_empty_str(lowered);
    let mut r: Vec<bool> = Vec::new();
    let mut i: usize = 0;
    while i < entries.len()
        invariant
            i <= entries@.len(),
            empty == (lowered@.len() == 0),
            r@.len() == i,
            forall|j: int|
                0 <= j < i ==> #[trigger] r@[j] == entry_visible(entries@[j], lowered@),
        decreases entries@.len() - i,
    {
        let key = entries[i].key.to_lowercase();
        let description = entries[i].description.to_lowercase();
        let hit = text::contains_str(key.as_str(), lowered) || text::contains_str(
            description.as_str(),
            lowered,
        );
        r.push(empty || hit);
        i = i + 1;
    }
    r
}

// ---------------------------------------------------------------------------
// Keys
// ---------------------------------------------------------------------------

/// How many rows of the palette are in view on a screen.
pub open spec fn palette_rows(h: int) -> int {
    picker::minus(picker::at_most(picker::minus(h, 4), 50), 5)
}

/// The number of rows in view on a screen.
pub fn palette_visible_height(h: usize) -> (r: usize)
    ensures
        r == palette_rows(h as int),
        r <= 45,
{
    let limit: usize = h.saturating_sub(4);
    let popup: usize = if limit <= 50 {
        limit
    } else {
        50
    };
    popup.saturating_sub(5)
}

/// What a key does in the palette.
#[derive(Debug, Clone, Copy, PartialEq, Eq, Structural)]
pub enum PaletteKey {
    Leave,
    Run,
    Down,
    Up,
    Search,
}

/// What a key does in the palette: Esc and the question mark leave it, if at most
/// shift is held.
pub open spec fn palette_key(key: KeyEvent) -> PaletteKey {
    let bare = key.modifiers == KeyModifiers::none_held() || key.modifiers == (KeyModifiers {
        shift: true,
        ..KeyModifiers::none_held()
    });
    match key.code {
        KeyCode::Esc if bare => PaletteKey::Leave,
        KeyCode::Char('?') if bare => PaletteKey::Leave,
        KeyCode::Enter => PaletteKey::Run,
        KeyCode::Down => PaletteKey::Down,
        KeyCode::Up => PaletteKey::Up,
        _ => PaletteKey::Search,
    }
}

fn classify(key: KeyEvent) -> (r: PaletteKey)
    ensures
        r == palette_key(key),
{
    let bare = key.modifiers == KeyModifiers::none() || key.modifiers == (KeyModifiers {
        shift: true,
        ..KeyModifiers::none()
    });
    match key.code {
        KeyCode::Esc if bare => PaletteKey::Leave,
        KeyCode::Char('?') if bare => PaletteKey::Leave,
        KeyCode::Enter => PaletteKey::Run,
        KeyCode::Down => PaletteKey::Down,
        KeyCode::Up => PaletteKey::Up,
        _ => PaletteKey::Search,
    }
}

/// The number after a selection among `n`, or the last.
pub open spec fn stepped_down(selected: int, n: int) -> int {
    if n == 0 {
        selected
    } else if selected + 1 < n {
        selected + 1
    } else {
        n - 1
    }
}

/// The scroll offset that brings a row below the view to its last place.
pub open spec fn down_to(row: int, scroll: int, height: int) -> int {
    if row >= scroll + height {
        picker::minus(row, height - 1)
    } else {
        scroll
    }
}

/// The scroll offset that brings a row at the top of the view or above it one place
/// below the top, so that a title above it can be seen.
pub open spec fn up_to(selected: int, row: int, scroll: int) -> int {
    if selected == 0 {
        0
    } else if row <= scroll {
        picker::minus(row, 1)
    } else {
        scroll
    }
}

impl CommandPalette {
    /// Whether the numbers of the palette leave room for the sums formed with them.
    pub open spec fn fits(self) -> bool {
        &&& all_entries(self.sections@, self.sections@.len() as int) + self.sections@.len()
            <= usize::MAX
        &&& self.selected < usize::MAX
        &&& self.scroll_offset + 50 <= usize::MAX
    }

    /// What is searched for.
    pub open spec fn search(self) -> Seq<char> {
        text::join(self.search_textarea.text().lines, seq![])
    }

    /// Tells which commands are visible under what is searched for. Letter case does
    /// not matter.
    pub fn shown(&self) -> (r: Vec<Vec<bool>>)
        ensures
            flags(r@) == shown_entries(self.sections@, text::lowercase(self.search())),
            fit_sections(flags(r@), self.sections@),
    {
        let search = self.search_textarea.joined();
        let lowered = search.to_lowercase();
        let ghost goal = shown_entries(self.sections@, lowered@);
        let mut r: Vec<Vec<bool>> = Vec::new();
        let mut s: usize = 0;
        while s < self.sections.len()
            invariant
                s <= self.sections@.len(),
                goal == shown_entries(self.sections@, lowered@),
                r@.len() == s,
                forall|k: int| 0 <= k < s ==> (#[trigger] r@[k])@ == goal[k],
            decreases self.sections@.len() - s,
        {
            let row = flags_of(&self.sections[s].entries, lowered.as_str());
            assert(row@ =~= goal[s as int]);
            r.push(row);
            s = s + 1;
        }
        assert(flags(r@) =~= goal);
        r
    }

    /// Whether a key turns the palette into another and leads to a step, given which of
    /// its commands are visible.
    pub open spec fn answered(
        self,
        key: KeyEvent,
        f: Seq<Seq<bool>>,
        list_height: usize,
        after: CommandPalette,
        r: PaletteStep,
    ) -> bool {
        &&& after.sections == self.sections
        &&& match palette_key(key) {
            PaletteKey::Leave => r is Leave && after == self,
            PaletteKey::Run => after == self && r == match place_of(
                f,
                self.selected as int,
            ) {
                Some((s, i)) => PaletteStep::Run(self.sections@[s].entries@[i].action),
                None => PaletteStep::Stay,
            },
            PaletteKey::Down => {
                let at = stepped_down(
                    self.selected as int,
                    total(f, f.len() as int) as int,
                );
                &&& r is Stay
                &&& after.selected == at
                &&& after.scroll_offset == down_to(
                    display_row(f, at),
                    self.scroll_offset as int,
                    list_height as int,
                )
                &&& after.search_textarea == self.search_textarea
            },
            PaletteKey::Up => {
                let at = picker::minus(self.selected as int, 1);
                &&& r is Stay
                &&& after.selected == at
                &&& after.scroll_offset == up_to(
                    at,
                    display_row(f, at),
                    self.scroll_offset as int,
                )
                &&& after.search_textarea == self.search_textarea
            },
            PaletteKey::Search => {
                &&& r is Stay
                &&& exists|taken: bool| #[trigger]
                    textarea::key_applied(
                        self.search_textarea,
                        key,
                        after.search_textarea,
                        taken,
                    )
                &&& if after.search() == self.search() {
                    after.selected == self.selected && after.scroll_offset
                        == self.scroll_offset
                } else {
                    after.selected == 0 && after.scroll_offset == 0
                }
            },
        }
    }

    /// Whether the palette, of which some rows are in view, can follow the key that goes
    /// down, given which of its commands are visible.
    pub open spec fn follows_down(self, f: Seq<Seq<bool>>, height: int) -> bool {
        picker::can_follow(
            display_row(f, stepped_down(self.selected as int, total(f, f.len() as int) as int)),
            self.scroll_offset as int,
            height,
        )
    }

    /// Tells whether the palette can follow the key that goes down.
    pub fn can_follow_down(&self, shown: &Vec<Vec<bool>>, list_height: usize) -> (r: bool)
        requires
            self.fits(),
            fit_sections(flags(shown@), self.sections@),
        ensures
            r == self.follows_down(flags(shown@), list_height as int),
    {
        if list_height > 0 {
            return true;
        }
        let ghost f = flags(shown@);
        assert(f.len() == shown@.len());
        let n: usize = count_visible(&self.sections, shown);
        let at: usize = if n == 0 {
            self.selected
        } else if self.selected + 1 < n {
            self.selected + 1
        } else {
            n - 1
        };
        find_display_idx(&self.sections, shown, at) < self.scroll_offset
    }

    /// Applies a key to the palette, given which of its commands are visible.
    pub fn key_with(&mut self, key: KeyEvent, shown: &Vec<Vec<bool>>, list_height: usize) -> (r:
        PaletteStep)
        requires
            old(self).fits(),
            fit_sections(flags(shown@), old(self).sections@),
            list_height <= 45,
            key.code is Down ==> old(self).follows_down(flags(shown@), list_height as int),
        ensures
            old(self).answered(key, flags(shown@), list_height, *final(self), r),
    {
        let ghost f = flags(shown@);
        assert(f.len() == shown@.len());
        let ghost before = *self;
        match classify(key) {
            PaletteKey::Leave => PaletteStep::Leave,
            PaletteKey::Run => {
                match find_entry(&self.sections, shown, self.selected) {
                    Some((s, i)) => {
                        let action = self.sections[s].entries[i].action;
                        assert(place_of(f, self.selected as int) == Some((s as int, i as int)));
                        PaletteStep::Run(action)
                    },
                    None => PaletteStep::Stay,
                }
            },
            PaletteKey::Down => {
                let n: usize = count_visible(&self.sections, shown);
                if n > 0 {
                    self.selected = if self.selected + 1 < n {
                        self.selected + 1
                    } else {
                        n - 1
                    };
                }
                let row: usize = find_display_idx(&self.sections, shown, self.selected);
                if row >= self.scroll_offset + list_height {
                    self.scroll_offset = row.saturating_sub(list_height - 1);
                }
                PaletteStep::Stay
            },
            PaletteKey::Up => {
                self.selected = self.selected.saturating_sub(1);
                if self.selected == 0 {
                    self.scroll_offset = 0;
                } else {
                    let row: usize = find_display_idx(&self.sections, shown, self.selected);
                    if row <= self.scroll_offset {
                        self.scroll_offset = row.saturating_sub(1);
                    }
                }
                PaletteStep::Stay
            },
            PaletteKey::Search => {
                let typed = self.search_textarea.joined();
                let ghost field = self.search_textarea;
                let taken = textarea::textarea_input(&mut self.search_textarea, key);
                assert(textarea::key_applied(field, key, self.search_textarea, taken));
                let after = self.search_textarea.joined();
                if !text::same_str(after.as_str(), typed.as_str()) {
                    self.selected = 0;
                    self.scroll_offset = 0;
                }
                assert(self.search() == after@);
                assert(before.search() == typed@);
                PaletteStep::Stay
            },
        }
    }

    /// Whether a pasted text turns the palette into another.
    pub open spec fn pasted(self, data: Seq<char>, after: CommandPalette) -> bool {
        &&& after == (CommandPalette {
            search_textarea: after.search_textarea,
            selected: 0,
            scroll_offset: 0,
            ..self
        })
        &&& textarea::pasted(
            self.search_textarea,
            after.search_textarea,
            super::input::single_line(data),
        )
    }

    /// Puts a pasted text into the search and starts again at the top.
    pub fn paste(&mut self, data: &str)
        ensures
            old(self).pasted(data@, *final(self)),
    {
        let cleaned = super::input::flatten(data);
        self.search_textarea.insert_str(cleaned.as_str());
        self.selected = 0;
        self.scroll_offset = 0;
    }
}

// ---------------------------------------------------------------------------
// Laws
// ---------------------------------------------------------------------------

pub(crate) proof fn lemma_section_of(f: Seq<Seq<bool>>, sel: int, s: int)
    requires
        0 <= s <= f.len(),
        total(f, s) <= sel,
    ensures
        match section_of(f, sel, s) {
            Some(k) => s <= k < f.len() && total(f, k) <= sel < total(f, k + 1),
            None => total(f, f.len() as int) <= sel,
        },
    decreases f.len() - s,
{
    if s < f.len() && sel >= total(f, s + 1) {
        lemma_section_of(f, sel, s + 1);
    }
}

/// There is a command to run exactly when the selection is within the visible
/// commands, and it is a visible one.
pub proof fn the_selected_command_is_visible(f: Seq<Seq<bool>>, sel: int)
    requires
        0 <= sel,
    ensures
        place_of(f, sel) is Some <==> sel < total(f, f.len() as int),
        place_of(f, sel) matches Some((s, i)) ==> 0 <= s < f.len() && 0 <= i < f[s].len()
            && f[s][i],
{
    lemma_section_of(f, sel, 0);
    match section_of(f, sel, 0) {
        Some(s) => {
            lemma_totals_grow(f, s + 1, f.len() as int);
            checklist::toggling_hits_the_visible_item(f[s], sel - total(f, s));
        },
        None => {},
    }
}

pub(crate) proof fn lemma_totals_grow(f: Seq<Seq<bool>>, m: int, n: int)
    requires
        0 <= m <= n,
    ensures
        total(f, m) <= total(f, n),
        titles(f, m) <= titles(f, n),
    decreases n - m,
{
    if m < n {
        lemma_totals_grow(f, m, n - 1);
    }
}

/// The rows of the visible commands are in the order of the commands.
pub proof fn rows_follow_the_commands(f: Seq<Seq<bool>>, a: int, b: int)
    requires
        0 <= a < b < total(f, f.len() as int),
    ensures
        display_row(f, a) < display_row(f, b),
{
    lemma_section_of(f, a, 0);
    lemma_section_of(f, b, 0);
    let sa = section_of(f, a, 0)->0;
    let sb = section_of(f, b, 0)->0;
    if sb < sa {
        lemma_totals_grow(f, sb + 1, sa);
    }
    lemma_totals_grow(f, sa + 1, sb + 1);
}

/// A command is shown without a search, and with one where its key or its description holds
/// what is searched for.
pub proof fn a_search_shows_matching_commands(e: CommandEntry, lowered: Seq<char>)
    ensures
        entry_visible(e, Seq::<char>::empty()),
        lowered.len() > 0 ==> (entry_visible(e, lowered) <==> text::find_text(
            text::lowercase(e.key@),
            lowered,
        ) is Some || text::find_text(text::lowercase(e.description@), lowered) is Some),
{
    text::find_text_is_first_occurrence(text::lowercase(e.key@), lowered);
    text::find_text_is_first_occurrence(text::lowercase(e.description@), lowered);
}

/// The command that is run is the visible one with as many visible ones before it as the
/// selection counts, in its section and in those before.
pub proof fn the_command_that_is_run(f: Seq<Seq<bool>>, sel: int)
    requires
        0 <= sel < total(f, f.len() as int),
    ensures
        place_of(f, sel) matches Some((s, i)) && 0 <= s < f.len() && 0 <= i < f[s].len() && f[s][i]
            && total(f, s) + checklist::visible_count(f[s], i) == sel,
{
    the_selected_command_is_visible(f, sel);
    lemma_section_of(f, sel, 0);
    let s = section_of(f, sel, 0)->0;
    checklist::toggling_hits_the_visible_item(f[s], sel - total(f, s));
}

/// The first visible command stands below the title of its section, each next one right below
/// the one before, or with a title between them where a section begins.
pub proof fn titles_stand_above_their_commands(f: Seq<Seq<bool>>, sel: int)
    requires
        0 <= sel,
        sel + 1 < total(f, f.len() as int),
    ensures
        section_of(f, sel, 0) == section_of(f, sel + 1, 0) ==> display_row(f, sel + 1)
            == display_row(f, sel) + 1,
        section_of(f, sel, 0) != section_of(f, sel + 1, 0) ==> display_row(f, sel + 1)
            == display_row(f, sel) + 2,
        display_row(f, 0) == 1,
{
    lemma_section_of(f, sel, 0);
    lemma_section_of(f, sel + 1, 0);
    lemma_section_of(f, 0, 0);
    let a = section_of(f, sel, 0)->0;
    let b = section_of(f, sel + 1, 0)->0;
    let z = section_of(f, 0, 0)->0;
    lemma_titles_between(f, 0, z);
    if a != b {
        lemma_total_grows(f, b + 1, a);
        lemma_total_grows(f, a + 1, b);
        lemma_titles_between(f, a + 1, b);
    }
}

proof fn lemma_total_grows(f: Seq<Seq<bool>>, m: int, n: int)
    requires
        0 <= m,
        n <= f.len(),
    ensures
        m <= n ==> total(f, m) <= total(f, n),
    decreases n - m,
{
    if m < n {
        lemma_total_grows(f, m, n - 1);
    }
}

proof fn lemma_titles_between(f: Seq<Seq<bool>>, m: int, n: int)
    requires
        0 <= m <= n < f.len(),
        total(f, m) == total(f, n),
        total(f, n) < total(f, n + 1),
    ensures
        titles(f, n + 1) == titles(f, m) + 1,
    decreases n - m,
{
    if m < n {
        lemma_total_grows(f, m + 1, n);
        assert(total(f, m + 1) == total(f, m));
        lemma_titles_between(f, m + 1, n);
        assert(titles(f, m + 1) == titles(f, m));
    }
}

/// The keys of the palette: the arrows move by one command, enter runs the selected one, and
/// escape and the question mark leave, unless more than shift is held; a search starts again
/// at the top.
pub proof fn keys_of_the_palette(
    p: CommandPalette,
    key: KeyEvent,
    f: Seq<Seq<bool>>,
    height: usize,
    after: CommandPalette,
    r: PaletteStep,
)
    requires
        p.answered(key, f, height, after, r),
        0 <= p.selected < total(f, f.len() as int),
    ensures
        key.code is Down ==> after.selected == if p.selected + 1 < total(f, f.len() as int) {
            p.selected + 1
        } else {
            p.selected as int
        },
        key.code is Up ==> after.selected == if p.selected > 0 {
            p.selected - 1
        } else {
            0
        },
        key.code is Enter ==> (place_of(f, p.selected as int) matches Some((s, i)) && r
            == PaletteStep::Run(p.sections@[s].entries@[i].action)),
        (key.code is Esc || key.code == KeyCode::Char('?')) && !key.modifiers.control
            && !key.modifiers.alt && !key.modifiers.command && !key.modifiers.meta
            && !key.modifiers.hyper ==> r is Leave,
        r is Run ==> key.code is Enter,
        r is Leave ==> key.code is Esc || key.code == KeyCode::Char('?'),
        after.search() != p.search() ==> after.selected == 0 && after.scroll_offset == 0,
{
    the_selected_command_is_visible(f, p.selected as int);
    assert(key.modifiers == (KeyModifiers { shift: key.modifiers.shift, ..key.modifiers }));
}

/// A row that is moved to is in view afterwards, and the view moves only where it was not.
pub proof fn the_palette_follows_the_selection(row: int, scroll: int, height: int)
    requires
        0 <= row,
        0 <= scroll,
        0 < height,
    ensures
        row >= scroll ==> down_to(row, scroll, height) <= row < down_to(row, scroll, height)
            + height,
        scroll <= row < scroll + height ==> down_to(row, scroll, height) == scroll,
        row > scroll ==> up_to(1, row, scroll) == scroll,
        0 < row <= scroll ==> up_to(1, row, scroll) == row - 1,
        up_to(0, row, scroll) == 0,
{
}

/// The palette has the rows of the screen but nine, and never more than 45.
pub proof fn the_rows_of_the_palette(h: int)
    requires
        0 <= h,
    ensures
        9 <= h <= 54 ==> palette_rows(h) == h - 9,
        h > 54 ==> palette_rows(h) == 45,
        h < 9 ==> palette_rows(h) == 0,
{
}

} // verus!
