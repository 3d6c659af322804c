//! Clean-up of what the user types for names and paths.

use crate::text;
use vstd::prelude::*;

verus! {

/// The trimmed text with a dash for each space.
pub open spec fn dashed(raw: Seq<char>) -> Seq<char> {
    let t = text::trim(raw);
    Seq::new(
        t.len(),
        |i: int|
            if t[i] == ' ' {
                '-'
            } else {
                t[i]
            },
    )
}

/// Trims a text and puts a dash in place of each space.
pub fn replace_spaces_with_dashes(raw: &str) -> (r: String)
    ensures
        r@ == dashed(raw@),
{
    let chars = text::chars_of(raw);
    let t = text::trim_of(chars.as_slice());
    let mut out: Vec<char> = Vec::new();
    let mut i: usize = 0;
    while i < t.len()
        invariant
            i <= t@.len(),
            t@ == text::trim(raw@),
            out@.len() == i,
            forall|j: int| 0 <= j < i ==> out@[j] == dashed(raw@)[j],
        decreases t@.len() - i,
    {
        let c: char = t[i];
        out.push(
            if c == ' ' {
                '-'
            } else {
                c
            },
        );
        i = i + 1;
    }
    assert(out@ =~= dashed(raw@));
    text::string_of(out.as_slice())
}

/// No space is left, and nothing else changes.
pub proof fn no_space_is_left(raw: Seq<char>)
    ensures
        dashed(raw).len() == text::trim(raw).len(),
        forall|i: int|
            0 <= i < dashed(raw).len() ==> #[trigger] dashed(raw)[i] != ' ' && (dashed(raw)[i]
                == text::trim(raw)[i] || dashed(raw)[i] == '-'),
{
}

/// Each space gives way to a dash, and every other character stays.
pub proof fn only_spaces_give_way(raw: Seq<char>, i: int)
    requires
        0 <= i < text::trim(raw).len(),
    ensures
        text::trim(raw)[i] == ' ' ==> dashed(raw)[i] == '-',
        text::trim(raw)[i] != ' ' ==> dashed(raw)[i] == text::trim(raw)[i],
        dashed(raw).len() == text::trim(raw).len(),
{
}

} // verus!
