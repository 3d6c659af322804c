//! The themes that come with the program.

use super::appearance::Appearance;
use crate::text;
use vstd::prelude::*;

verus! {

/// The ids of the themes that come with the program, in the order of their list.
pub open spec fn builtin_ids() -> Seq<Seq<char>> {
    seq!["system"@, "default"@, "default-light"@]
}

/// Lists the ids of the themes that come with the program. They are kept in saved
/// settings, so none of them changes.
pub fn builtin_theme_ids() -> (r: Vec<String>)
    ensures
        text::texts(r@) == builtin_ids(),
{
    let mut r: Vec<String> = Vec::new();
    r.push("system".to_string());
    r.push("default".to_string());
    r.push("default-light".to_string());
    assert(text::texts(r@) =~= builtin_ids());
    r
}

/// What a theme looks like: that of the system as the terminal does, the light one light,
/// and any other, known or not, dark.
pub open spec fn look_of(id: Seq<char>, detected: Appearance) -> Appearance {
    if id == "system"@ {
        detected
    } else if id == "default-light"@ {
        Appearance::Light
    } else {
        Appearance::Dark
    }
}

/// Tells what a theme looks like, given what was detected of the terminal.
pub fn builtin_look(id: &str, detected: Appearance) -> (r: Appearance)
    ensures
        r == look_of(id@, detected),
{
    if text::same_str(id, "system") {
        detected
    } else if text::same_str(id, "default-light") {
        Appearance::Light
    } else {
        Appearance::Dark
    }
}

/// The themes that come with the program differ: whatever the terminal looks like, the
/// dark one is dark and the light one light.
pub proof fn the_default_themes_differ(detected: Appearance)
    ensures
        look_of("default"@, detected) is Dark,
        look_of("default-light"@, detected) is Light,
        look_of("system"@, detected) == detected,
{
    reveal_strlit("system");
    reveal_strlit("default");
    reveal_strlit("default-light");
    assert("default"@.len() != "default-light"@.len());
    assert("system"@.len() != "default-light"@.len());
    assert("system"@.len() != "default"@.len());
}

/// Any theme but that of the system and the light one is dark, known or not.
pub proof fn other_themes_are_dark(id: Seq<char>, detected: Appearance)
    requires
        id != "system"@,
        id != "default-light"@,
    ensures
        look_of(id, detected) is Dark,
{
}

} // verus!
