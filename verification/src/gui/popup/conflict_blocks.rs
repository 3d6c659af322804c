//! The list of the blocks of a conflict, with a choice for each.

use crate::git::merge_conflict::{ResolveChoice, TextConflictBlock};
use crate::gui::input::{KeyCode, KeyEvent};
use vstd::prelude::*;

verus! {

/// How many blocks are in view.
pub const VISIBLE_BLOCKS: usize = 5;

/// The blocks of a file in conflict, and what was chosen for each.
#[derive(Debug)]
pub struct ConflictBlocks {
    pub path: String,
    pub blocks: Vec<TextConflictBlock>,
    pub choices: Vec<Option<ResolveChoice>>,
    pub selected: usize,
    pub scroll_offset: usize,
}

/// What a key leads to, beyond the selection and the choices.
#[derive(Debug)]
pub enum ConflictBlocksStep {
    Stay,
    /// Every block has a choice: the file is resolved with them.
    Resolve(Vec<ResolveChoice>),
    Leave,
}

/// The first block from `i` on without a choice.
pub open spec fn unresolved_from(choices: Seq<Option<ResolveChoice>>, i: int) -> Option<int>
    decreases choices.len() - i,
{
    if i < 0 || i >= choices.len() {
        None
    } else if choices[i] is None {
        Some(i)
    } else {
        unresolved_from(choices, i + 1)
    }
}

/// The choices that were made, in order.
pub open spec fn made(choices: Seq<Option<ResolveChoice>>, n: int) -> Seq<ResolveChoice>
    decreases n,
{
    if n <= 0 {
        seq![]
    } else {
        match choices[n - 1] {
            Some(c) => made(choices, n - 1).push(c),
            None => made(choices, n - 1),
        }
    }
}

/// The scroll offset that brings a block below the view to its last row.
pub open spec fn scrolled_down(selected: int, scroll: int) -> int {
    if selected >= scroll + VISIBLE_BLOCKS {
        if selected >= VISIBLE_BLOCKS - 1 {
            selected - (VISIBLE_BLOCKS - 1)
        } else {
            0
        }
    } else {
        scroll
    }
}

/// The scroll offset that brings a block above the view to its first row.
pub open spec fn scrolled_up(selected: int, scroll: int) -> int {
    if selected < scroll {
        selected
    } else {
        scroll
    }
}

/// The choice after another, from the last on to the first.
pub open spec fn next_choice(c: Option<ResolveChoice>) -> ResolveChoice {
    match c {
        None => ResolveChoice::Ours,
        Some(ResolveChoice::Ours) => ResolveChoice::Theirs,
        Some(ResolveChoice::Theirs) => ResolveChoice::Both,
        Some(ResolveChoice::Both) => ResolveChoice::Ours,
    }
}

/// What a key does in the list.
#[derive(Debug, Clone, Copy, PartialEq, Eq, Structural)]
pub enum BlocksKey {
    Down,
    Up,
    Choose(ResolveChoice),
    Cycle,
    Confirm,
    Leave,
    Nothing,
}

/// What a key does in the list.
pub open spec fn blocks_key(key: KeyEvent) -> BlocksKey {
    match key.code {
        KeyCode::Char('j') | KeyCode::Down => BlocksKey::Down,
        KeyCode::Char('k') | KeyCode::Up => BlocksKey::Up,
        KeyCode::Char('o') => BlocksKey::Choose(ResolveChoice::Ours),
        KeyCode::Char('t') => BlocksKey::Choose(ResolveChoice::Theirs),
        KeyCode::Char('b') => BlocksKey::Choose(ResolveChoice::Both),
        KeyCode::Char(' ') | KeyCode::Char('c') => BlocksKey::Cycle,
        KeyCode::Enter => BlocksKey::Confirm,
        KeyCode::Esc => BlocksKey::Leave,
        _ => BlocksKey::Nothing,
    }
}

fn classify(key: KeyEvent) -> (r: BlocksKey)
    ensures
        r == blocks_key(key),
{
    match key.code {
        KeyCode::Char('j') | KeyCode::Down => BlocksKey::Down,
        KeyCode::Char('k') | KeyCode::Up => BlocksKey::Up,
        KeyCode::Char('o') => BlocksKey::Choose(ResolveChoice::Ours),
        KeyCode::Char('t') => BlocksKey::Choose(ResolveChoice::Theirs),
        KeyCode::Char('b') => BlocksKey::Choose(ResolveChoice::Both),
        KeyCode::Char(' ') | KeyCode::Char('c') => BlocksKey::Cycle,
        KeyCode::Enter => BlocksKey::Confirm,
        KeyCode::Esc => BlocksKey::Leave,
        _ => BlocksKey::Nothing,
    }
}

impl ConflictBlocks {
    /// Whether the sums that place the selection can be formed.
    pub open spec fn fits(self) -> bool {
        self.selected < usize::MAX && self.scroll_offset + VISIBLE_BLOCKS <= usize::MAX
            && self.choices@.len() < usize::MAX
    }

    /// The list with its first unresolved block selected and in view, if there is
    /// one.
    pub open spec fn at_unresolved(self) -> ConflictBlocks {
        match unresolved_from(self.choices@, 0) {
            Some(i) => ConflictBlocks {
                selected: i as usize,
                scroll_offset: if i < self.scroll_offset {
                    i as usize
                } else {
                    scrolled_down(i, self.scroll_offset as int) as usize
                },
                ..self
            },
            None => self,
        }
    }

    /// Selects the first block without a choice; tells whether there is one.
    pub fn focus_first_unresolved(&mut self) -> (r: bool)
        requires
            old(self).fits(),
        ensures
            r == (unresolved_from(old(self).choices@, 0) is Some),
            *final(self) == old(self).at_unresolved(),
            final(self).fits(),
    {
        let mut i: usize = 0;
        while i < self.choices.len() && self.choices[i].is_some()
            invariant
                i <= self.choices@.len(),
                unresolved_from(self.choices@, 0) == unresolved_from(self.choices@, i as int),
            decreases self.choices@.len() - i,
        {
            i = i + 1;
        }
        if i >= self.choices.len() {
            return false;
        }
        self.selected = i;
        if self.selected < self.scroll_offset {
            self.scroll_offset = self.selected;
        } else if self.selected >= self.scroll_offset + VISIBLE_BLOCKS {
            self.scroll_offset = self.selected.saturating_sub(VISIBLE_BLOCKS - 1);
        }
        true
    }

    /// The list after a key.
    pub open spec fn after(self, key: KeyEvent) -> ConflictBlocks {
        match blocks_key(key) {
            BlocksKey::Down => if self.selected + 1 < self.blocks@.len() {
                ConflictBlocks {
                    selected: (self.selected + 1) as usize,
                    scroll_offset: scrolled_down(
                        self.selected + 1,
                        self.scroll_offset as int,
                    ) as usize,
                    ..self
                }
            } else {
                self
            },
            BlocksKey::Up => if self.selected > 0 {
                ConflictBlocks {
                    selected: (self.selected - 1) as usize,
                    scroll_offset: scrolled_up(
                        self.selected - 1,
                        self.scroll_offset as int,
                    ) as usize,
                    ..self
                }
            } else {
                self
            },
            BlocksKey::Confirm => self.at_unresolved(),
            _ => self,
        }
    }

    /// The choices after a key.
    pub open spec fn choices_after(self, key: KeyEvent) -> Seq<Option<ResolveChoice>> {
        let i = self.selected as int;
        if i >= self.choices@.len() {
            self.choices@
        } else {
            match blocks_key(key) {
                BlocksKey::Choose(c) => self.choices@.update(i, Some(c)),
                BlocksKey::Cycle => self.choices@.update(i, Some(next_choice(self.choices@[i]))),
                _ => self.choices@,
            }
        }
    }

    fn collect(&self) -> (r: Vec<ResolveChoice>)
        ensures
            r@ == made(self.choices@, self.choices@.len() as int),
    {
        let mut r: Vec<ResolveChoice> = Vec::new();
        let mut i: usize = 0;
        assert(r@ =~= seq![]);
        while i < self.choices.len()
            invariant
                i <= self.choices@.len(),
                r@ == made(self.choices@, i as int),
            decreases self.choices@.len() - i,
        {
            match self.choices[i] {
                Some(c) => {
                    r.push(c);
                },
                None => {},
            }
            i = i + 1;
        }
        r
    }

    fn choose_current(&mut self, choice: ResolveChoice)
        ensures
            *final(self) == (ConflictBlocks { choices: final(self).choices, ..*old(self) }),
            final(self).choices@ == if old(self).selected < old(self).choices@.len() {
                old(self).choices@.update(old(self).selected as int, Some(choice))
            } else {
                old(self).choices@
            },
    {
        if self.selected < self.choices.len() {
            self.choices.set(self.selected, Some(choice));
        }
    }

    /// Whether a key turns the list into another and leads to a step.
    pub open spec fn answered(self, key: KeyEvent, after: ConflictBlocks, r: ConflictBlocksStep) -> bool {
        &&& after == (ConflictBlocks {
            choices: after.choices,
            ..self.after(key)
        })
        &&& after.choices@ == self.choices_after(key)
        &&& match blocks_key(key) {
            BlocksKey::Confirm => if unresolved_from(self.choices@, 0) is Some {
                r is Stay
            } else {
                r matches ConflictBlocksStep::Resolve(c) && c@ == made(
                    self.choices@,
                    self.choices@.len() as int,
                )
            },
            BlocksKey::Leave => r is Leave,
            _ => r is Stay,
        }
    }

    /// Applies a key to the list.
    pub fn key(&mut self, key: KeyEvent) -> (r: ConflictBlocksStep)
        requires
            old(self).fits(),
        ensures
            final(self).fits(),
            old(self).answered(key, *final(self), r),
    {
        match classify(key) {
            BlocksKey::Down => {
                if self.selected + 1 < self.blocks.len() {
                    self.selected = self.selected + 1;
                    if self.selected >= self.scroll_offset + VISIBLE_BLOCKS {
                        self.scroll_offset = self.selected.saturating_sub(VISIBLE_BLOCKS - 1);
                    }
                }
                ConflictBlocksStep::Stay
            },
            BlocksKey::Up => {
                if self.selected > 0 {
                    self.selected = self.selected - 1;
                    if self.selected < self.scroll_offset {
                        self.scroll_offset = self.selected;
                    }
                }
                ConflictBlocksStep::Stay
            },
            BlocksKey::Choose(choice) => {
                self.choose_current(choice);
                ConflictBlocksStep::Stay
            },
            BlocksKey::Cycle => {
                if self.selected < self.choices.len() {
                    let next = match self.choices[self.selected] {
                        None => ResolveChoice::Ours,
                        Some(ResolveChoice::Ours) => ResolveChoice::Theirs,
                        Some(ResolveChoice::Theirs) => ResolveChoice::Both,
                        Some(ResolveChoice::Both) => ResolveChoice::Ours,
                    };
                    self.choose_current(next);
                }
                ConflictBlocksStep::Stay
            },
            BlocksKey::Confirm => {
                if self.focus_first_unresolved() {
                    return ConflictBlocksStep::Stay;
                }
                ConflictBlocksStep::Resolve(self.collect())
            },
            BlocksKey::Leave => ConflictBlocksStep::Leave,
            BlocksKey::Nothing => ConflictBlocksStep::Stay,
        }
    }
}

// ---------------------------------------------------------------------------
// Laws
// ---------------------------------------------------------------------------

proof fn lemma_made_all(choices: Seq<Option<ResolveChoice>>, n: int)
    requires
        0 <= n <= choices.len(),
        forall|i: int| 0 <= i < n ==> (#[trigger] choices[i]) is Some,
    ensures
        made(choices, n).len() == n,
        forall|i: int| 0 <= i < n ==> Some(#[trigger] made(choices, n)[i]) == choices[i],
    decreases n,
{
    if n > 0 {
        lemma_made_all(choices, n - 1);
    }
}

proof fn lemma_unresolved(choices: Seq<Option<ResolveChoice>>, i: int)
    requires
        0 <= i <= choices.len(),
    ensures
        match unresolved_from(choices, i) {
            Some(k) => i <= k < choices.len() && choices[k] is None && forall|j: int|
                i <= j < k ==> (#[trigger] choices[j]) is Some,
            None => forall|j: int| i <= j < choices.len() ==> (#[trigger] choices[j]) is Some,
        },
    decreases choices.len() - i,
{
    if i < choices.len() {
        lemma_unresolved(choices, i + 1);
    }
}

/// A file is resolved only with a choice for every block, each in its place.
pub proof fn resolved_with_every_choice(choices: Seq<Option<ResolveChoice>>)
    requires
        unresolved_from(choices, 0) is None,
    ensures
        made(choices, choices.len() as int).len() == choices.len(),
        forall|i: int|
            0 <= i < choices.len() ==> Some(
                #[trigger] made(choices, choices.len() as int)[i],
            ) == choices[i],
{
    lemma_unresolved(choices, 0);
    lemma_made_all(choices, choices.len() as int);
}

/// Confirming while a choice is missing keeps all choices and goes to the first
/// block without one, which comes into view.
pub proof fn confirming_too_early_goes_to_the_first_gap(b: ConflictBlocks)
    requires
        b.fits(),
        unresolved_from(b.choices@, 0) is Some,
    ensures
        ({
            let a = b.at_unresolved();
            &&& a.choices == b.choices
            &&& a.selected < b.choices@.len()
            &&& b.choices@[a.selected as int] is None
            &&& forall|j: int| 0 <= j < a.selected ==> (#[trigger] b.choices@[j]) is Some
            &&& a.scroll_offset <= a.selected < a.scroll_offset + VISIBLE_BLOCKS
        }),
{
    lemma_unresolved(b.choices@, 0);
}

/// What each key does in the list: `o`, `t` and `b` choose ours, theirs and both, the space
/// and `c` go through the choices, and the arrows and `j` and `k` move.
pub proof fn the_list_has_its_keys(key: KeyEvent)
    ensures
        blocks_key(key) == BlocksKey::Choose(ResolveChoice::Ours) <==> key.code == KeyCode::Char(
            'o',
        ),
        blocks_key(key) == BlocksKey::Choose(ResolveChoice::Theirs) <==> key.code == KeyCode::Char(
            't',
        ),
        blocks_key(key) == BlocksKey::Choose(ResolveChoice::Both) <==> key.code == KeyCode::Char(
            'b',
        ),
        blocks_key(key) is Cycle <==> key.code == KeyCode::Char(' ') || key.code == KeyCode::Char(
            'c',
        ),
        blocks_key(key) is Down <==> key.code is Down || key.code == KeyCode::Char('j'),
        blocks_key(key) is Up <==> key.code is Up || key.code == KeyCode::Char('k'),
        blocks_key(key) is Confirm <==> key.code is Enter,
        blocks_key(key) is Leave <==> key.code is Esc,
{
}

/// Going through the choices begins with ours, and goes on with theirs and both before it
/// comes back to ours.
pub proof fn the_choices_go_round(c: ResolveChoice)
    ensures
        next_choice(None) is Ours,
        next_choice(Some(next_choice(None))) is Theirs,
        next_choice(Some(next_choice(Some(next_choice(None))))) is Both,
        next_choice(Some(next_choice(Some(next_choice(Some(c)))))) == c,
        next_choice(Some(c)) != c,
{
}

/// A key that chooses changes the choice of the selected block and of no other, and moves
/// nothing; every other key leaves the choices as they are.
pub proof fn choosing_changes_one_choice(
    b: ConflictBlocks,
    key: KeyEvent,
    after: ConflictBlocks,
    r: ConflictBlocksStep,
)
    requires
        b.selected < b.choices@.len(),
        b.answered(key, after, r),
    ensures
        after.choices@.len() == b.choices@.len(),
        forall|i: int|
            0 <= i < b.choices@.len() && i != b.selected ==> #[trigger] after.choices@[i]
                == b.choices@[i],
        key.code == KeyCode::Char('o') ==> after.choices@[b.selected as int] == Some(
            ResolveChoice::Ours,
        ),
        key.code == KeyCode::Char('t') ==> after.choices@[b.selected as int] == Some(
            ResolveChoice::Theirs,
        ),
        key.code == KeyCode::Char('b') ==> after.choices@[b.selected as int] == Some(
            ResolveChoice::Both,
        ),
        key.code is Char && after.choices@ != b.choices@ ==> after.selected == b.selected
            && after.scroll_offset == b.scroll_offset,
        !(key.code is Char) ==> after.choices@ == b.choices@,
        after.blocks == b.blocks,
        after.path == b.path,
{
}

/// Moving down selects the block below, moving up the one above; at the ends of the list
/// the selection stays. A selection that was in view stays in view.
pub proof fn moving_goes_block_by_block(
    b: ConflictBlocks,
    key: KeyEvent,
    after: ConflictBlocks,
    r: ConflictBlocksStep,
)
    requires
        b.selected < b.blocks@.len(),
        b.fits(),
        b.answered(key, after, r),
        b.scroll_offset <= b.selected < b.scroll_offset + 5,
    ensures
        key.code is Down || key.code == KeyCode::Char('j') ==> after.selected == if b.selected + 1
            < b.blocks@.len() {
            b.selected + 1
        } else {
            b.selected as int
        },
        key.code is Up || key.code == KeyCode::Char('k') ==> after.selected == if b.selected > 0 {
            b.selected - 1
        } else {
            0
        },
        !(key.code is Enter) ==> after.scroll_offset <= after.selected < after.scroll_offset + 5,
        key.code is Esc <==> r is Leave,
        r is Resolve ==> key.code is Enter,
{
}

/// Without a selected block no key changes a choice.
pub proof fn nothing_is_chosen_without_a_block(b: ConflictBlocks, key: KeyEvent)
    requires
        b.selected >= b.choices@.len(),
    ensures
        b.choices_after(key) == b.choices@,
{
}

/// Five blocks are in view: one of them leaves the view where it is, one below comes to its
/// last row and one above to its first.
pub proof fn five_blocks_are_in_view(selected: int, scroll: int)
    requires
        0 <= selected,
        0 <= scroll,
    ensures
        scroll <= selected < scroll + 5 ==> scrolled_down(selected, scroll) == scroll
            && scrolled_up(selected, scroll) == scroll,
        selected >= scroll + 5 ==> scrolled_down(selected, scroll) == selected - 4,
        selected < scroll ==> scrolled_up(selected, scroll) == selected,
{
}

} // verus!
