//! The state of the conflict resolver: the blocks of a file and the choice for
//! each.

use crate::git::merge_conflict::{ResolveChoice, TextConflictBlock};
use crate::text;
use vstd::prelude::*;

verus! {

/// A conflict block with the choice for it, once one was made.
#[derive(Debug, Clone, PartialEq, Eq)]
pub struct ConflictBlockState {
    pub block: TextConflictBlock,
    pub choice: Option<ResolveChoice>,
}

/// The state of the conflict resolver.
#[derive(Debug, Clone)]
pub struct ConflictModeState {
    pub active: bool,
    pub path: String,
    pub blocks: Vec<ConflictBlockState>,
    pub selected: usize,
    pub scroll: usize,
    pub visible_height: usize,
}

/// The choices cannot be applied: the block with this number, counted from one, is
/// the first without a choice.
#[derive(Debug, Clone, Copy, PartialEq, Eq, Structural)]
pub struct UnresolvedBlock {
    pub number: usize,
}

impl UnresolvedBlock {
    /// The message for the user.
    pub open spec fn text(self) -> Seq<char> {
        "Choose ours/theirs/both for every block first (block "@ + text::decimal(
            self.number as nat,
        ) + " is unresolved)"@
    }

    /// The message for the user.
    pub fn message(&self) -> (r: String)
        ensures
            r@ == self.text(),
    {
        "Choose ours/theirs/both for every block first (block ".to_string().concat(
            text::decimal_of(self.number).as_str(),
        ).concat(" is unresolved)")
    }
}

/// The blocks as they are when the resolver opens: none has a choice.
pub open spec fn without_choices(blocks: Seq<TextConflictBlock>) -> Seq<ConflictBlockState> {
    Seq::new(blocks.len(), |i: int| ConflictBlockState { block: blocks[i], choice: None })
}

/// How many of the first `n` blocks have no choice.
pub open spec fn unresolved_before(blocks: Seq<ConflictBlockState>, n: int) -> nat
    decreases n,
{
    if n <= 0 {
        0
    } else {
        unresolved_before(blocks, n - 1) + if blocks[n - 1].choice is None {
            1nat
        } else {
            0
        }
    }
}

/// Whether block `i` is the first without a choice.
pub open spec fn first_unresolved(blocks: Seq<ConflictBlockState>, i: int) -> bool {
    0 <= i < blocks.len() && blocks[i].choice is None && forall|j: int|
        0 <= j < i ==> (#[trigger] blocks[j]).choice is Some
}

/// Whether every block has a choice.
pub open spec fn all_resolved(blocks: Seq<ConflictBlockState>) -> bool {
    forall|i: int| 0 <= i < blocks.len() ==> (#[trigger] blocks[i]).choice is Some
}

/// The choices of blocks that all have one.
pub open spec fn choices_of(blocks: Seq<ConflictBlockState>) -> Seq<ResolveChoice> {
    Seq::new(blocks.len(), |i: int| blocks[i].choice->0)
}

/// At least one row.
pub open spec fn rows(visible_height: usize) -> int {
    if visible_height >= 1 {
        visible_height as int
    } else {
        1
    }
}

/// The first row shown after the selection was brought into view: it moves as
/// little as it must, and no further than to show the end of the list.
pub open spec fn scrolled(selected: int, scroll: int, height: int, len: int) -> int {
    let wanted = if selected < scroll {
        selected
    } else if selected >= scroll + height {
        selected - (height - 1)
    } else {
        scroll
    };
    let limit = if len >= height {
        len - height
    } else {
        0
    };
    if wanted <= limit {
        wanted
    } else {
        limit
    }
}

impl ConflictModeState {
    /// Whether the sum of the first row and the height can be computed.
    pub open spec fn fits(self, visible_height: usize) -> bool {
        self.scroll + rows(visible_height) <= usize::MAX
    }

    /// The state with the selection in view.
    pub open spec fn in_view(self, visible_height: usize) -> ConflictModeState {
        ConflictModeState {
            visible_height,
            scroll: scrolled(
                self.selected as int,
                self.scroll as int,
                rows(visible_height),
                self.blocks@.len() as int,
            ) as usize,
            ..self
        }
    }

    /// A closed resolver.
    pub fn new() -> (r: Self)
        ensures
            !r.active,
            r.path@ == Seq::<char>::empty(),
            r.blocks@ == Seq::<ConflictBlockState>::empty(),
            r.selected == 0,
            r.scroll == 0,
            r.visible_height == 0,
    {
        ConflictModeState {
            active: false,
            path: String::new(),
            blocks: Vec::new(),
            selected: 0,
            scroll: 0,
            visible_height: 0,
        }
    }

    /// Opens the resolver on the blocks of a file.
    pub fn enter(&mut self, path: String, blocks: Vec<TextConflictBlock>)
        ensures
            final(self).active,
            final(self).path == path,
            final(self).blocks@ == without_choices(blocks@),
            final(self).selected == 0,
            final(self).scroll == 0,
            final(self).visible_height == 0,
    {
        let ghost source = blocks@;
        let mut left = blocks;
        let mut states: Vec<ConflictBlockState> = Vec::new();
        let mut i: usize = 0;
        let n: usize = left.len();
        while i < n
            invariant
                i <= n,
                n == source.len(),
                left@ == source.skip(i as int),
                states@ == without_choices(source).take(i as int),
            decreases n - i,
        {
            let block = left.remove(0);
            states.push(ConflictBlockState { block, choice: None });
            assert(source.skip(i as int).remove(0) =~= source.skip(i as int + 1));
            assert(without_choices(source).take(i as int + 1) =~= without_choices(source).take(
                i as int,
            ).push(without_choices(source)[i as int]));
            i = i + 1;
        }
        assert(without_choices(source).take(n as int) =~= without_choices(source));
        self.active = true;
        self.path = path;
        self.blocks = states;
        self.selected = 0;
        self.scroll = 0;
        self.visible_height = 0;
    }

    /// Closes the resolver.
    pub fn exit(&mut self)
        ensures
            !final(self).active,
            final(self).path@ == Seq::<char>::empty(),
            final(self).blocks@ == Seq::<ConflictBlockState>::empty(),
            final(self).selected == 0,
            final(self).scroll == 0,
            final(self).visible_height == 0,
    {
        self.active = false;
        self.path = String::new();
        self.blocks = Vec::new();
        self.selected = 0;
        self.scroll = 0;
        self.visible_height = 0;
    }

    /// Chooses for the selected block.
    pub fn set_choice_current(&mut self, choice: ResolveChoice)
        ensures
            final(self).blocks@ == if old(self).selected < old(self).blocks@.len() {
                old(self).blocks@.update(
                    old(self).selected as int,
                    ConflictBlockState {
                        choice: Some(choice),
                        ..old(self).blocks@[old(self).selected as int]
                    },
                )
            } else {
                old(self).blocks@
            },
            *final(self) == (ConflictModeState { blocks: final(self).blocks, ..*old(self) }),
    {
        if self.selected < self.blocks.len() {
            let i: usize = self.selected;
            self.blocks[i].choice = Some(choice);
        }
    }

    /// How many blocks have no choice yet.
    pub fn unresolved_count(&self) -> (r: usize)
        ensures
            r == unresolved_before(self.blocks@, self.blocks@.len() as int),
            r == 0 <==> all_resolved(self.blocks@),
    {
        let mut n: usize = 0;
        let mut i: usize = 0;
        while i < self.blocks.len()
            invariant
                i <= self.blocks@.len(),
                n <= i,
                n == unresolved_before(self.blocks@, i as int),
                n == 0 <==> (forall|j: int|
                    0 <= j < i ==> (#[trigger] self.blocks@[j]).choice is Some),
            decreases self.blocks@.len() - i,
        {
            if self.blocks[i].choice.is_none() {
                n = n + 1;
            }
            i = i + 1;
        }
        n
    }

    /// The choices in the order of the blocks, if every block has one.
    pub fn collect_choices(&self) -> (r: Result<Vec<ResolveChoice>, UnresolvedBlock>)
        ensures
            match r {
                Ok(choices) => all_resolved(self.blocks@) && choices@ == choices_of(self.blocks@),
                Err(e) => e.number > 0 && first_unresolved(self.blocks@, e.number - 1),
            },
    {
        let mut choices: Vec<ResolveChoice> = Vec::new();
        let mut i: usize = 0;
        while i < self.blocks.len()
            invariant
                i <= self.blocks@.len(),
                choices@.len() == i,
                forall|j: int| 0 <= j < i ==> (#[trigger] self.blocks@[j]).choice is Some,
                forall|j: int| 0 <= j < i ==> #[trigger] choices@[j] == self.blocks@[j].choice->0,
            decreases self.blocks@.len() - i,
        {
            match self.blocks[i].choice {
                Some(choice) => {
                    choices.push(choice);
                },
                None => {
                    return Err(UnresolvedBlock { number: i + 1 });
                },
            }
            i = i + 1;
        }
        assert(choices@ =~= choices_of(self.blocks@));
        Ok(choices)
    }

    /// Selects the block above, if there is one.
    pub fn move_up(&mut self)
        requires
            old(self).fits(old(self).visible_height),
        ensures
            *final(self) == (ConflictModeState {
                selected: if old(self).selected > 0 {
                    (old(self).selected - 1) as usize
                } else {
                    0
                },
                ..*old(self)
            }).in_view(old(self).visible_height),
    {
        if self.selected > 0 {
            self.selected = self.selected - 1;
        }
        let height: usize = self.visible_height;
        self.ensure_visible(height);
    }

    /// Selects the block below, if there is one.
    pub fn move_down(&mut self)
        requires
            old(self).fits(old(self).visible_height),
        ensures
            *final(self) == (ConflictModeState {
                selected: if old(self).selected + 1 < old(self).blocks@.len() {
                    (old(self).selected + 1) as usize
                } else {
                    old(self).selected
                },
                ..*old(self)
            }).in_view(old(self).visible_height),
    {
        if self.blocks.len() > 0 && self.selected < self.blocks.len() - 1 {
            self.selected = self.selected + 1;
        }
        let height: usize = self.visible_height;
        self.ensure_visible(height);
    }

    /// Brings the selection into view.
    pub fn ensure_visible(&mut self, visible_height: usize)
        requires
            old(self).fits(visible_height),
        ensures
            *final(self) == old(self).in_view(visible_height),
    {
        self.visible_height = visible_height;
        let height: usize = if visible_height >= 1 {
            visible_height
        } else {
            1
        };
        if self.selected < self.scroll {
            self.scroll = self.selected;
        } else if self.selected >= self.scroll + height {
            self.scroll = self.selected - (height - 1);
        }
        let max_scroll: usize = if self.blocks.len() >= height {
            self.blocks.len() - height
        } else {
            0
        };
        if self.scroll > max_scroll {
            self.scroll = max_scroll;
        }
    }
}

// ---------------------------------------------------------------------------
// Laws
// ---------------------------------------------------------------------------

/// After it was brought into view, a selected block is among the rows shown, and
/// no row behind the last block is shown while there are blocks above.
pub proof fn selection_is_shown(s: ConflictModeState, visible_height: usize)
    requires
        s.selected < s.blocks@.len(),
    ensures
        ({
            let v = s.in_view(visible_height);
            &&& v.scroll <= v.selected < v.scroll + rows(visible_height)
            &&& v.scroll == 0 || v.scroll + rows(visible_height) <= v.blocks@.len()
        }),
{
}

/// A block that was given a choice counts as resolved, and no other block changes:
/// one fewer is left if it had no choice before.
pub proof fn choosing_resolves_one_block(
    blocks: Seq<ConflictBlockState>,
    i: int,
    choice: ResolveChoice,
)
    requires
        0 <= i < blocks.len(),
    ensures
        ({
            let after = blocks.update(i, ConflictBlockState { choice: Some(choice), ..blocks[i] });
            unresolved_before(after, after.len() as int) == unresolved_before(
                blocks,
                blocks.len() as int,
            ) - if blocks[i].choice is None {
                1int
            } else {
                0
            }
        }),
{
    lemma_choosing(blocks, i, choice, blocks.len() as int);
}

proof fn lemma_choosing(blocks: Seq<ConflictBlockState>, i: int, choice: ResolveChoice, n: int)
    requires
        0 <= i < blocks.len(),
        0 <= n <= blocks.len(),
    ensures
        ({
            let after = blocks.update(i, ConflictBlockState { choice: Some(choice), ..blocks[i] });
            unresolved_before(after, n) == unresolved_before(blocks, n) - if i < n
                && blocks[i].choice is None {
                1int
            } else {
                0
            }
        }),
    decreases n,
{
    if n > 0 {
        lemma_choosing(blocks, i, choice, n - 1);
    }
}

/// Where the selected block is already among the rows shown, and no row is wasted, nothing
/// scrolls; else the selected block comes into the first or the last row, whichever is
/// nearer. Nothing but the place of the view changes.
pub proof fn the_view_moves_as_little_as_it_must(s: ConflictModeState, visible_height: usize)
    requires
        visible_height >= 1,
        s.selected < s.blocks@.len(),
        s.scroll + visible_height <= s.blocks@.len(),
    ensures
        ({
            let v = s.in_view(visible_height);
            &&& s.scroll <= s.selected < s.scroll + visible_height ==> v.scroll == s.scroll
            &&& s.selected < s.scroll ==> v.scroll == s.selected
            &&& s.selected >= s.scroll + visible_height ==> v.scroll + visible_height == s.selected
                + 1
            &&& v.selected == s.selected && v.blocks == s.blocks && v.path == s.path
            &&& v.active == s.active && v.visible_height == visible_height
        }),
{
}

/// The blocks that are counted as unresolved are those without a choice.
pub proof fn blocks_without_a_choice_are_counted(blocks: Seq<ConflictBlockState>)
    ensures
        unresolved_before(blocks, blocks.len() as int) == blocks.filter(
            |b: ConflictBlockState| b.choice is None,
        ).len(),
    decreases blocks.len(),
{
    reveal(Seq::filter);
    if blocks.len() > 0 {
        let d = blocks.drop_last();
        blocks_without_a_choice_are_counted(d);
        lemma_unresolved_same(blocks, d, d.len() as int);
    }
}

proof fn lemma_unresolved_same(a: Seq<ConflictBlockState>, b: Seq<ConflictBlockState>, n: int)
    requires
        0 <= n <= b.len() <= a.len(),
        forall|i: int| 0 <= i < b.len() ==> a[i] == #[trigger] b[i],
    ensures
        unresolved_before(a, n) == unresolved_before(b, n),
    decreases n,
{
    if n > 0 {
        lemma_unresolved_same(a, b, n - 1);
        assert(a[n - 1] == b[n - 1]);
    }
}

/// All is resolved exactly where no block is left without a choice.
pub proof fn one_gap_is_enough(blocks: Seq<ConflictBlockState>, i: int)
    requires
        0 <= i < blocks.len(),
    ensures
        blocks[i].choice is None ==> !all_resolved(blocks),
        all_resolved(blocks.drop_last()) && blocks.last().choice is Some ==> all_resolved(blocks),
        all_resolved(seq![]),
{
    if all_resolved(blocks.drop_last()) && blocks.last().choice is Some {
        assert forall|k: int| 0 <= k < blocks.len() implies (#[trigger] blocks[k]).choice is Some by {
            if k < blocks.len() - 1 {
                assert(blocks.drop_last()[k] == blocks[k]);
            }
        }
    }
}

} // verus!
