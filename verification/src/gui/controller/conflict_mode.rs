//! The keys of the conflict resolver.

use crate::git::merge_conflict::ResolveChoice;
use crate::gui::input::{KeyCode, KeyEvent};
use crate::gui::modes::conflict_mode;
use crate::gui::modes::conflict_mode::{ConflictBlockState, ConflictModeState};
use crate::gui::popup::{Notice, Refresh};
use vstd::prelude::*;

verus! {

/// What a key does in the conflict resolver.
#[derive(Debug, Clone, Copy, PartialEq, Eq, Structural)]
pub enum ConflictKey {
    Leave,
    Down,
    Up,
    NextUnresolved,
    PrevUnresolved,
    Choose(ResolveChoice),
    Save,
    Nothing,
}

/// What a key does in the conflict resolver.
pub open spec fn conflict_key(key: KeyEvent) -> ConflictKey {
    match key.code {
        KeyCode::Esc | KeyCode::Char('q') => ConflictKey::Leave,
        KeyCode::Down | KeyCode::Char('j') => if key.modifiers.alt {
            ConflictKey::Nothing
        } else {
            ConflictKey::Down
        },
        KeyCode::Up | KeyCode::Char('k') => if key.modifiers.alt {
            ConflictKey::Nothing
        } else {
            ConflictKey::Up
        },
        KeyCode::Char('n') => ConflictKey::NextUnresolved,
        KeyCode::Char('p') => ConflictKey::PrevUnresolved,
        KeyCode::Char('o') => ConflictKey::Choose(ResolveChoice::Ours),
        KeyCode::Char('t') => ConflictKey::Choose(ResolveChoice::Theirs),
        KeyCode::Char('b') => ConflictKey::Choose(ResolveChoice::Both),
        KeyCode::Enter | KeyCode::Char('s') => ConflictKey::Save,
        _ => ConflictKey::Nothing,
    }
}

fn classify(key: KeyEvent) -> (r: ConflictKey)
    ensures
        r == conflict_key(key),
{
    match key.code {
        KeyCode::Char('q') | KeyCode::Esc => ConflictKey::Leave,
        KeyCode::Char('j') if !key.modifiers.alt => ConflictKey::Down,
        KeyCode::Down if !key.modifiers.alt => ConflictKey::Down,
        KeyCode::Char('k') if !key.modifiers.alt => ConflictKey::Up,
        KeyCode::Up if !key.modifiers.alt => ConflictKey::Up,
        KeyCode::Char('n') => ConflictKey::NextUnresolved,
        KeyCode::Char('p') => ConflictKey::PrevUnresolved,
        KeyCode::Char('o') => ConflictKey::Choose(ResolveChoice::Ours),
        KeyCode::Char('t') => ConflictKey::Choose(ResolveChoice::Theirs),
        KeyCode::Char('b') => ConflictKey::Choose(ResolveChoice::Both),
        KeyCode::Enter | KeyCode::Char('s') => ConflictKey::Save,
        _ => ConflictKey::Nothing,
    }
}

/// The block `step` places further down, from the end on to the start.
pub open spec fn place_below(selected: int, step: int, len: int) -> int {
    (selected + step) % len
}

/// The block `step` places further up, from the start on to the end.
pub open spec fn place_above(selected: int, step: int, len: int) -> int {
    (selected + len - step) % len
}

/// The first block without a choice, looked for from `step` places below on (or
/// above); the search goes round once and ends at the selected block itself.
pub open spec fn unresolved_from(
    blocks: Seq<ConflictBlockState>,
    selected: int,
    step: int,
    down: bool,
) -> Option<int>
    decreases blocks.len() + 1 - step,
{
    if step < 1 || step > blocks.len() {
        None
    } else {
        let i = if down {
            place_below(selected, step, blocks.len() as int)
        } else {
            place_above(selected, step, blocks.len() as int)
        };
        if blocks[i].choice is None {
            Some(i)
        } else {
            unresolved_from(blocks, selected, step + 1, down)
        }
    }
}

/// The state with the next block without a choice selected, where there is one.
pub open spec fn at_unresolved(s: ConflictModeState, down: bool) -> ConflictModeState {
    match unresolved_from(s.blocks@, s.selected as int, 1, down) {
        Some(i) => (ConflictModeState { selected: i as usize, ..s }).in_view(s.visible_height),
        None => s,
    }
}

/// Whether the state can be moved in: the sums that place the selection can be formed.
pub open spec fn movable(s: ConflictModeState) -> bool {
    &&& s.selected + s.blocks@.len() <= usize::MAX
    &&& s.fits(s.visible_height)
}

fn move_to_unresolved(s: &mut ConflictModeState, down: bool)
    requires
        movable(*old(s)),
    ensures
        *final(s) == at_unresolved(*old(s), down),
{
    let len: usize = s.blocks.len();
    let mut tried: usize = 0;
    while tried < len
        invariant
            tried <= len,
            len == s.blocks@.len(),
            *s == *old(s),
            movable(*s),
            unresolved_from(s.blocks@, s.selected as int, 1, down) == unresolved_from(
                s.blocks@,
                s.selected as int,
                tried + 1,
                down,
            ),
        decreases len - tried,
    {
        let step: usize = tried + 1;
        let i: usize = if down {
            (s.selected + step) % len
        } else {
            (s.selected + (len - step)) % len
        };
        assert(i < len);
        assert(i == if down {
            place_below(s.selected as int, step as int, len as int)
        } else {
            place_above(s.selected as int, step as int, len as int)
        });
        if s.blocks[i].choice.is_none() {
            s.selected = i;
            let height: usize = s.visible_height;
            s.ensure_visible(height);
            return;
        }
        tried = step;
    }
}

/// Applies a key to the conflict resolver; tells whether the choices are to be
/// saved.
pub fn handle_key(s: &mut ConflictModeState, key: KeyEvent) -> (save: bool)
    requires
        movable(*old(s)),
    ensures
        save == (conflict_key(key) is Save),
        match conflict_key(key) {
            ConflictKey::Leave => !final(s).active && final(s).blocks@.len() == 0
                && final(s).path@.len() == 0 && final(s).selected == 0 && final(s).scroll == 0
                && final(s).visible_height == 0,
            ConflictKey::Down => *final(s) == (ConflictModeState {
                selected: if old(s).selected + 1 < old(s).blocks@.len() {
                    (old(s).selected + 1) as usize
                } else {
                    old(s).selected
                },
                ..*old(s)
            }).in_view(old(s).visible_height),
            ConflictKey::Up => *final(s) == (ConflictModeState {
                selected: if old(s).selected > 0 {
                    (old(s).selected - 1) as usize
                } else {
                    0
                },
                ..*old(s)
            }).in_view(old(s).visible_height),
            ConflictKey::NextUnresolved => *final(s) == at_unresolved(*old(s), true),
            ConflictKey::PrevUnresolved => *final(s) == at_unresolved(*old(s), false),
            ConflictKey::Choose(c) => {
                &&& final(s).blocks@ == if old(s).selected < old(s).blocks@.len() {
                    old(s).blocks@.update(
                        old(s).selected as int,
                        ConflictBlockState {
                            choice: Some(c),
                            ..old(s).blocks@[old(s).selected as int]
                        },
                    )
                } else {
                    old(s).blocks@
                }
                &&& *final(s) == (ConflictModeState { blocks: final(s).blocks, ..*old(s) })
            },
            ConflictKey::Save | ConflictKey::Nothing => *final(s) == *old(s),
        },
{
    match classify(key) {
        ConflictKey::Leave => {
            s.exit();
            false
        },
        ConflictKey::Down => {
            s.move_down();
            false
        },
        ConflictKey::Up => {
            s.move_up();
            false
        },
        ConflictKey::NextUnresolved => {
            move_to_unresolved(s, true);
            false
        },
        ConflictKey::PrevUnresolved => {
            move_to_unresolved(s, false);
            false
        },
        ConflictKey::Choose(c) => {
            s.set_choice_current(c);
            false
        },
        ConflictKey::Save => true,
        ConflictKey::Nothing => false,
    }
}

/// What saving asks for: the choices for the blocks of the path, or a message where
/// a block has none.
pub fn save(s: &ConflictModeState) -> (r: Result<(String, Vec<ResolveChoice>), Notice>)
    ensures
        match r {
            Ok(p) => conflict_mode::all_resolved(s.blocks@) && p.0@ == s.path@ && p.1@
                == conflict_mode::choices_of(s.blocks@),
            Err(n) => exists|i: int|
                conflict_mode::first_unresolved(s.blocks@, i) && i < usize::MAX && n.is_error(
                    "Unresolved conflict blocks"@,
                    #[trigger] (conflict_mode::UnresolvedBlock { number: (i + 1) as usize }).text(),
                ),
        },
{
    match s.collect_choices() {
        Ok(choices) => Ok((s.path.clone(), choices)),
        Err(e) => {
            let notice = Notice::error("Unresolved conflict blocks", e.message().as_str());
            proof {
                let i = e.number - 1;
                assert((conflict_mode::UnresolvedBlock { number: (i + 1) as usize }) == e);
                assert(notice.is_error(
                    "Unresolved conflict blocks"@,
                    (conflict_mode::UnresolvedBlock { number: (i + 1) as usize }).text(),
                ));
            }
            Err(notice)
        },
    }
}

/// What comes after the choices were applied: on success the resolver closes and
/// everything is loaded anew, a failure is shown.
pub fn after_save(s: &mut ConflictModeState, failure: Option<&str>) -> (r: Result<Refresh, Notice>)
    ensures
        match failure {
            None => r == Ok::<Refresh, Notice>(Refresh { all: true, files: true, diff: true })
                && !final(s).active && final(s).blocks@.len() == 0 && final(s).path@.len() == 0
                && final(s).selected == 0 && final(s).scroll == 0 && final(s).visible_height == 0,
            Some(message) => *final(s) == *old(s) && (r matches Err(n) && n.is_error(
                "Resolve conflict failed"@,
                message@,
            )),
        },
{
    match failure {
        None => {
            s.exit();
            Ok(Refresh { all: true, files: true, diff: true })
        },
        Some(message) => Err(Notice::error("Resolve conflict failed", message)),
    }
}

// ---------------------------------------------------------------------------
// Laws
// ---------------------------------------------------------------------------

proof fn lemma_unresolved_found(
    blocks: Seq<ConflictBlockState>,
    selected: int,
    step: int,
    down: bool,
    k: int,
)
    requires
        1 <= step <= k <= blocks.len(),
        blocks[if down {
            place_below(selected, k, blocks.len() as int)
        } else {
            place_above(selected, k, blocks.len() as int)
        }].choice is None,
    ensures
        unresolved_from(blocks, selected, step, down) is Some,
    decreases k - step,
{
    if step < k {
        let i = if down {
            place_below(selected, step, blocks.len() as int)
        } else {
            place_above(selected, step, blocks.len() as int)
        };
        if blocks[i].choice is Some {
            lemma_unresolved_found(blocks, selected, step + 1, down, k);
        }
    }
}

/// While a block is without a choice, going to the next one finds a block without a
/// choice, in both directions and from any selection.
pub proof fn going_to_unresolved_finds_one(
    blocks: Seq<ConflictBlockState>,
    selected: int,
    i: int,
    down: bool,
)
    requires
        0 <= i < blocks.len(),
        blocks[i].choice is None,
    ensures
        unresolved_from(blocks, selected, 1, down) matches Some(j) && 0 <= j < blocks.len()
            && blocks[j].choice is None,
{
    let n = blocks.len() as int;
    let d = if down {
        i - selected - 1
    } else {
        selected - i - 1
    };
    let k = d % n + 1;
    vstd::arithmetic::div_mod::lemma_fundamental_div_mod(d, n);
    vstd::arithmetic::div_mod::lemma_mod_bound(d, n);
    vstd::arithmetic::div_mod::lemma_small_mod(i as nat, n as nat);
    let q = d / n;
    if down {
        vstd::arithmetic::div_mod::lemma_mod_multiples_vanish(-q, i, n);
        assert(n * (-q) + i == selected + k) by (nonlinear_arith)
            requires
                d == n * q + (k - 1),
                d == i - selected - 1,
        ;
    } else {
        vstd::arithmetic::div_mod::lemma_mod_multiples_vanish(q + 1, i, n);
        assert(n * (q + 1) + i == selected + n - k) by (nonlinear_arith)
            requires
                d == n * q + (k - 1),
                d == selected - i - 1,
        ;
    }
    lemma_unresolved_found(blocks, selected, 1, down, k);
    lemma_unresolved_is_one(blocks, selected, 1, down);
}

proof fn lemma_unresolved_is_one(
    blocks: Seq<ConflictBlockState>,
    selected: int,
    step: int,
    down: bool,
)
    requires
        1 <= step,
    ensures
        unresolved_from(blocks, selected, step, down) matches Some(j) ==> 0 <= j < blocks.len()
            && blocks[j].choice is None,
    decreases blocks.len() + 1 - step,
{
    if step <= blocks.len() {
        let n = blocks.len() as int;
        assert(0 <= (selected + step) % n < n) by (nonlinear_arith)
            requires
                n > 0,
        ;
        assert(0 <= (selected + n - step) % n < n) by (nonlinear_arith)
            requires
                n > 0,
        ;
        lemma_unresolved_is_one(blocks, selected, step + 1, down);
    }
}

/// What each key does in the resolver: `o`, `t` and `b` choose ours, theirs and both, the
/// arrows and `j` and `k` move, `n` and `p` go to blocks without a choice, enter and `s`
/// save, escape and `q` leave, and any other key does nothing.
pub proof fn the_resolver_has_its_keys(key: KeyEvent)
    ensures
        conflict_key(key) == ConflictKey::Choose(ResolveChoice::Ours) <==> key.code
            == KeyCode::Char('o'),
        conflict_key(key) == ConflictKey::Choose(ResolveChoice::Theirs) <==> key.code
            == KeyCode::Char('t'),
        conflict_key(key) == ConflictKey::Choose(ResolveChoice::Both) <==> key.code
            == KeyCode::Char('b'),
        conflict_key(key) is Save <==> key.code is Enter || key.code == KeyCode::Char('s'),
        conflict_key(key) is Leave <==> key.code is Esc || key.code == KeyCode::Char('q'),
        conflict_key(key) is NextUnresolved <==> key.code == KeyCode::Char('n'),
        conflict_key(key) is PrevUnresolved <==> key.code == KeyCode::Char('p'),
        conflict_key(key) is Down <==> !key.modifiers.alt && (key.code is Down || key.code
            == KeyCode::Char('j')),
        conflict_key(key) is Up <==> !key.modifiers.alt && (key.code is Up || key.code
            == KeyCode::Char('k')),
{
}

/// Going to the next block without a choice passes none over: downwards all blocks between
/// the selected one and it have a choice, round the end if need be, and upwards likewise.
/// The selected block itself comes last.
pub proof fn no_unresolved_block_is_passed_over(
    blocks: Seq<ConflictBlockState>,
    selected: int,
    i: int,
)
    requires
        0 <= selected < blocks.len(),
        0 <= i < blocks.len(),
        blocks[i].choice is None,
    ensures
        unresolved_from(blocks, selected, 1, true) matches Some(j) && {
            &&& i > selected ==> selected < j <= i
            &&& i <= selected ==> j > selected || j <= i
        },
        unresolved_from(blocks, selected, 1, false) matches Some(j) && {
            &&& i < selected ==> i <= j < selected
            &&& i >= selected ==> j < selected || j >= i
        },
{
    going_to_unresolved_finds_one(blocks, selected, i, true);
    going_to_unresolved_finds_one(blocks, selected, i, false);
    let n = blocks.len() as int;
    let below = if i > selected {
        i - selected
    } else {
        i - selected + n
    };
    let above = if i < selected {
        selected - i
    } else {
        selected - i + n
    };
    lemma_place(selected, below, n);
    lemma_place(selected, above, n);
    lemma_unresolved_within(blocks, selected, 1, true, below);
    lemma_unresolved_within(blocks, selected, 1, false, above);
}

proof fn lemma_place(selected: int, step: int, n: int)
    requires
        0 <= selected < n,
        1 <= step <= n,
    ensures
        place_below(selected, step, n) == if selected + step < n {
            selected + step
        } else {
            selected + step - n
        },
        place_above(selected, step, n) == if selected >= step {
            selected - step
        } else {
            selected + n - step
        },
{
    let a = selected + step;
    let b = selected + n - step;
    if a < n {
        vstd::arithmetic::div_mod::lemma_small_mod(a as nat, n as nat);
    } else {
        vstd::arithmetic::div_mod::lemma_small_mod((a - n) as nat, n as nat);
        vstd::arithmetic::div_mod::lemma_mod_add_multiples_vanish(a - n, n);
    }
    if b < n {
        vstd::arithmetic::div_mod::lemma_small_mod(b as nat, n as nat);
    } else {
        vstd::arithmetic::div_mod::lemma_small_mod((b - n) as nat, n as nat);
        vstd::arithmetic::div_mod::lemma_mod_add_multiples_vanish(b - n, n);
    }
}

proof fn lemma_unresolved_within(
    blocks: Seq<ConflictBlockState>,
    selected: int,
    step: int,
    down: bool,
    k: int,
)
    requires
        0 <= selected < blocks.len(),
        1 <= step <= k <= blocks.len(),
        blocks[if down {
            place_below(selected, k, blocks.len() as int)
        } else {
            place_above(selected, k, blocks.len() as int)
        }].choice is None,
    ensures
        unresolved_from(blocks, selected, step, down) matches Some(j) && {
            let n = blocks.len() as int;
            if down {
                (selected + step <= j <= selected + k && j < n) || (j <= selected + k - n && j
                    >= selected + step - n)
            } else {
                (selected - k <= j <= selected - step && j >= 0) || (j >= selected + n - k && j
                    <= selected + n - step)
            }
        },
    decreases k - step,
{
    let n = blocks.len() as int;
    lemma_place(selected, step, n);
    let i = if down {
        place_below(selected, step, n)
    } else {
        place_above(selected, step, n)
    };
    if blocks[i].choice is Some {
        lemma_unresolved_within(blocks, selected, step + 1, down, k);
    }
}

} // verus!
