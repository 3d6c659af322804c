//! Light and dark appearance for the "System" colour theme.
//!
//! What counts is the terminal's background, not the desktop's preference: the
//! terminal is asked first, and only hints from the environment come after it.

use crate::text;
use vstd::prelude::*;

verus! {

/// Whether the terminal shows light text on dark ground or the reverse.
#[derive(Debug, Clone, Copy, PartialEq, Eq, Structural)]
pub enum Appearance {
    Dark,
    Light,
}

/// The last field of a text whose fields are separated by semicolons.
pub open spec fn last_field(raw: Seq<char>) -> Seq<char> {
    text::split(raw, ';').last()
}

/// What `COLORFGBG` says: its last field is the palette index of the background,
/// of which 0 to 6 and 8 are dark. A value that is no such index says nothing.
pub open spec fn colorfgbg_opinion(raw: Seq<char>) -> Option<Appearance> {
    match text::parse_unsigned(text::trim(last_field(raw)), 255) {
        Some(bg) => if bg <= 6 || bg == 8 {
            Some(Appearance::Dark)
        } else {
            Some(Appearance::Light)
        },
        None => None,
    }
}

/// Reads the value of `COLORFGBG`, which is `fg;bg` or `fg;<extra>;bg`.
pub fn parse_colorfgbg(raw: &str) -> (r: Option<Appearance>)
    ensures
        r == colorfgbg_opinion(raw@),
{
    let chars = text::chars_of(raw);
    let fields = text::split_at_char(chars.as_slice(), ';');
    let last: &Vec<char> = &fields[fields.len() - 1];
    assert(last@ == text::pieces(fields@).last());
    match text::parse_unsigned_of(text::trim_of(last.as_slice()), 255) {
        Some(bg) => if bg <= 6 || bg == 8 {
            Some(Appearance::Dark)
        } else {
            Some(Appearance::Light)
        },
        None => None,
    }
}

/// The appearance that was detected at startup; dark where nothing was detected.
pub fn appearance(detected: Option<Appearance>) -> (r: Appearance)
    ensures
        r == match detected {
            Some(a) => a,
            None => Appearance::Dark,
        },
{
    match detected {
        Some(a) => a,
        None => Appearance::Dark,
    }
}

/// The appearance that a detection yields: an earlier result stays, then the
/// terminal's own answer counts, then the hint from the environment, then dark.
pub open spec fn detected(
    earlier: Option<Appearance>,
    terminal: Option<Appearance>,
    colorfgbg: Option<Seq<char>>,
) -> Appearance {
    if earlier is Some {
        earlier->0
    } else if terminal is Some {
        terminal->0
    } else if colorfgbg is Some && colorfgbg_opinion(colorfgbg->0) is Some {
        colorfgbg_opinion(colorfgbg->0)->0
    } else {
        Appearance::Dark
    }
}

/// The appearance from what was found earlier, what the terminal answered and the
/// value of `COLORFGBG`.
pub fn detect(
    earlier: Option<Appearance>,
    terminal: Option<Appearance>,
    colorfgbg: Option<&str>,
) -> (r: Appearance)
    ensures
        r == detected(
            earlier,
            terminal,
            match colorfgbg {
                Some(s) => Some(s@),
                None => None,
            },
        ),
{
    if let Some(a) = earlier {
        return a;
    }
    if let Some(a) = terminal {
        return a;
    }
    match colorfgbg {
        Some(raw) => appearance(parse_colorfgbg(raw)),
        None => Appearance::Dark,
    }
}

/// Repeated detection is a no-op: once something was found, it is found again.
pub proof fn detection_is_stable(
    earlier: Option<Appearance>,
    terminal: Option<Appearance>,
    colorfgbg: Option<Seq<char>>,
    terminal2: Option<Appearance>,
    colorfgbg2: Option<Seq<char>>,
)
    ensures
        detected(Some(detected(earlier, terminal, colorfgbg)), terminal2, colorfgbg2) == detected(
            earlier,
            terminal,
            colorfgbg,
        ),
{
}

/// The last number of `COLORFGBG` tells the appearance, whatever stands before it: the
/// colours 0 to 6 and 8 are dark, all others light, and what is no colour tells nothing.
pub proof fn the_last_colour_is_the_background(front: Seq<char>, n: nat)
    ensures
        ({
            let raw = front + ";"@ + text::decimal(n);
            &&& n <= 6 || n == 8 ==> colorfgbg_opinion(raw) == Some(Appearance::Dark)
            &&& n == 7 || 9 <= n <= 255 ==> colorfgbg_opinion(raw) == Some(Appearance::Light)
            &&& n > 255 ==> colorfgbg_opinion(raw) is None
        }),
{
    reveal_strlit(";");
    assert(";"@ =~= seq![';']);
    let d = text::decimal(n);
    text::decimals_are_digits(n);
    assert forall|j: int| 0 <= j < d.len() implies d[j] != ';' by {
        assert(text::is_digit(d[j]));
    }
    text::lemma_split_behind(front, ';', d, 0);
    assert(text::is_digit(d[0]));
    assert(text::is_digit(d[d.len() - 1]));
    text::ascii_space(d[0]);
    text::ascii_space(d[d.len() - 1]);
    let none = Seq::<char>::empty();
    text::trimming_looks_inside(none, d, none);
    assert(none + d + none =~= d);
    text::a_written_number_is_read_back(n, 255);
}

/// What was found earlier counts before what the terminal answers, and that before the hint
/// from the environment; without any of them the terminal is taken for dark.
pub proof fn the_terminal_counts_before_the_environment(
    a: Appearance,
    terminal: Option<Appearance>,
    hint: Option<Seq<char>>,
)
    ensures
        detected(Some(a), terminal, hint) == a,
        detected(None, Some(a), hint) == a,
        hint matches Some(h) ==> colorfgbg_opinion(h) == Some(a) ==> detected(None, None, hint)
            == a,
        hint matches Some(h) ==> colorfgbg_opinion(h) is None ==> detected(None, None, hint)
            is Dark,
        detected(None, None, None) is Dark,
{
}

} // verus!
