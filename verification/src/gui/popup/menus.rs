//! The menus that the program opens itself.

use super::menu::{Menu, MenuItem};
use super::Action;
use crate::git::merge_conflict::ResolveChoice;
use crate::text;
use vstd::prelude::*;

verus! {

/// An item of a menu, as plain values.
pub struct Offer {
    pub label: Seq<char>,
    pub description: Seq<char>,
    pub key: Seq<char>,
    pub action: Option<Deed>,
}

/// What an item does, as plain values.
pub enum Deed {
    Resolve(Seq<char>, ResolveChoice),
    OpenResolver(Seq<char>),
    Edit(Seq<char>),
    Mark(Seq<char>),
    ConflictMenu(Seq<char>),
    /// An action that carries nothing.
    Plain(Action),
    Repo(Seq<char>),
}

/// Whether an action does what plain values describe.
pub open spec fn does(a: Action, d: Deed) -> bool {
    match d {
        Deed::Resolve(p, c) => a matches Action::ResolveConflict { path, choice } && path@ == p
            && choice == c,
        Deed::OpenResolver(p) => a matches Action::OpenBlockResolver { path } && path@ == p,
        Deed::Edit(p) => a matches Action::EditConflict { path } && path@ == p,
        Deed::Mark(p) => a matches Action::MarkResolved { path } && path@ == p,
        Deed::ConflictMenu(p) => a matches Action::ShowConflictMenu { path } && path@ == p,
        Deed::Plain(b) => a == b,
        Deed::Repo(p) => a matches Action::OpenRepo { path } && path@ == p,
    }
}

/// Whether an item is the one that plain values describe.
pub open spec fn offers(i: MenuItem, o: Offer) -> bool {
    &&& i.label@ == o.label
    &&& i.description@ == o.description
    &&& text::opt_text(i.key) == Some(o.key)
    &&& match o.action {
        Some(d) => i.action is Some && does(i.action->0, d),
        None => i.action is None,
    }
}

/// Whether items are those that plain values describe, in order.
pub open spec fn offers_all(v: Seq<MenuItem>, l: Seq<Offer>) -> bool {
    v.len() == l.len() && forall|i: int| 0 <= i < v.len() ==> offers(#[trigger] v[i], l[i])
}

fn item(label: &str, description: &str, key: &str, action: Option<Action>) -> (r: MenuItem)
    ensures
        r.label@ == label@,
        r.description@ == description@,
        text::opt_text(r.key) == Some(key@),
        r.action == action,
{
    MenuItem {
        label: label.to_string(),
        description: description.to_string(),
        key: Some(key.to_string()),
        action,
    }
}

// ---------------------------------------------------------------------------
// Conflicts
// ---------------------------------------------------------------------------

/// An item that resolves a conflict by taking one side or both.
pub open spec fn resolve_offer(label: Seq<char>, key: Seq<char>, path: Seq<char>, c: ResolveChoice) -> Offer {
    Offer {
        label,
        description: "write selected resolution, git add, and refresh"@,
        key,
        action: Some(Deed::Resolve(path, c)),
    }
}

/// The ways to resolve the conflict of a file.
pub open spec fn conflict_offers(path: Seq<char>) -> Seq<Offer> {
    seq![
        Offer {
            label: "Open native merge view"@,
            description: "JetBrains-style ours/result/theirs view with per-block choices"@,
            key: "d"@,
            action: Some(Deed::OpenResolver(path)),
        },
        resolve_offer("Use ours (stage 2) and stage file"@, "o"@, path, ResolveChoice::Ours),
        resolve_offer("Use theirs (stage 3) and stage file"@, "t"@, path, ResolveChoice::Theirs),
        resolve_offer("Use both and stage file"@, "b"@, path, ResolveChoice::Both),
        Offer {
            label: "Open in editor"@,
            description: "manual resolution in configured editor"@,
            key: "e"@,
            action: Some(Deed::Edit(path)),
        },
        Offer {
            label: "Mark resolved and stage file"@,
            description: "git add only if conflict markers are gone"@,
            key: "s"@,
            action: Some(Deed::Mark(path)),
        },
    ]
}

/// The menu with the ways to resolve the conflict of a file.
pub fn conflict_resolution_menu(path: &str) -> (r: Menu)
    ensures
        r.title@ == "Resolve conflict: "@ + path@,
        offers_all(r.items@, conflict_offers(path@)),
        r.selected == 0,
        r.loading_index is None,
{
    let written = "write selected resolution, git add, and refresh";
    let mut items: Vec<MenuItem> = Vec::new();
    items.push(
        item(
            "Open native merge view",
            "JetBrains-style ours/result/theirs view with per-block choices",
            "d",
            Some(Action::OpenBlockResolver { path: path.to_string() }),
        ),
    );
    items.push(
        item(
            "Use ours (stage 2) and stage file",
            written,
            "o",
            Some(Action::ResolveConflict { path: path.to_string(), choice: ResolveChoice::Ours }),
        ),
    );
    items.push(
        item(
            "Use theirs (stage 3) and stage file",
            written,
            "t",
            Some(Action::ResolveConflict { path: path.to_string(), choice: ResolveChoice::Theirs }),
        ),
    );
    items.push(
        item(
            "Use both and stage file",
            written,
            "b",
            Some(Action::ResolveConflict { path: path.to_string(), choice: ResolveChoice::Both }),
        ),
    );
    items.push(
        item(
            "Open in editor",
            "manual resolution in configured editor",
            "e",
            Some(Action::EditConflict { path: path.to_string() }),
        ),
    );
    items.push(
        item(
            "Mark resolved and stage file",
            "git add only if conflict markers are gone",
            "s",
            Some(Action::MarkResolved { path: path.to_string() }),
        ),
    );
    let mut title = "Resolve conflict: ".to_string();
    title.append(path);
    Menu::new(title, items)
}

// ---------------------------------------------------------------------------
// Operations under way
// ---------------------------------------------------------------------------

/// An item that does something that needs nothing more.
pub open spec fn plain_offer(label: Seq<char>, description: Seq<char>, key: Seq<char>, a: Action) -> Offer {
    Offer { label, description, key, action: Some(Deed::Plain(a)) }
}

/// What can be done about a selected file in conflict and about the operations that
/// are under way.
pub open spec fn operation_offers(
    conflicted: Option<Seq<char>>,
    rebasing: bool,
    merging: bool,
    cherry_picking: bool,
) -> Seq<Offer> {
    let first = match conflicted {
        Some(path) => seq![
            Offer {
                label: "Resolve selected conflict: "@ + path,
                description: "choose ours/theirs/both, edit manually, or mark resolved"@,
                key: "r"@,
                action: Some(Deed::ConflictMenu(path)),
            },
        ],
        None => seq![],
    };
    let rebase = if rebasing {
        seq![
            plain_offer(
                "Continue rebase"@,
                "git rebase --continue"@,
                "c"@,
                Action::ContinueRebase,
            ),
            plain_offer("Abort rebase"@, "git rebase --abort"@, "a"@, Action::AbortRebase),
            plain_offer("Skip this commit"@, "git rebase --skip"@, "s"@, Action::SkipRebase),
        ]
    } else {
        seq![]
    };
    let merge = if merging {
        seq![
            plain_offer(
                "Continue merge"@,
                "git merge --continue (requires all conflicts resolved)"@,
                "c"@,
                Action::ContinueMerge,
            ),
            plain_offer("Abort merge"@, "git merge --abort"@, "a"@, Action::AbortMerge),
        ]
    } else {
        seq![]
    };
    let cherry = if cherry_picking {
        seq![
            plain_offer(
                "Continue cherry-pick"@,
                "git cherry-pick --continue"@,
                "c"@,
                Action::ContinueCherryPick,
            ),
            plain_offer(
                "Abort cherry-pick"@,
                "git cherry-pick --abort"@,
                "a"@,
                Action::AbortCherryPick,
            ),
            plain_offer(
                "Skip this commit"@,
                "git cherry-pick --skip"@,
                "s"@,
                Action::SkipCherryPick,
            ),
        ]
    } else {
        seq![]
    };
    first + rebase + merge + cherry
}

/// The menu for the operations that are under way.
pub fn rebase_options_menu(
    conflicted: Option<&str>,
    is_rebasing: bool,
    is_merging: bool,
    is_cherry_picking: bool,
) -> (r: Menu)
    ensures
        r.title@ == "Rebase/Merge/Cherry-pick options"@,
        offers_all(
            r.items@,
            operation_offers(
                match conflicted {
                    Some(p) => Some(p@),
                    None => None,
                },
                is_rebasing,
                is_merging,
                is_cherry_picking,
            ),
        ),
        r.selected == 0,
        r.loading_index is None,
{
    let mut items: Vec<MenuItem> = Vec::new();
    match conflicted {
        Some(path) => {
            let mut label = "Resolve selected conflict: ".to_string();
            label.append(path);
            items.push(
                item(
                    label.as_str(),
                    "choose ours/theirs/both, edit manually, or mark resolved",
                    "r",
                    Some(Action::ShowConflictMenu { path: path.to_string() }),
                ),
            );
        },
        None => {},
    }
    if is_rebasing {
        items.push(
            item(
                "Continue rebase",
                "git rebase --continue",
                "c",
                Some(Action::ContinueRebase),
            ),
        );
        items.push(item("Abort rebase", "git rebase --abort", "a", Some(Action::AbortRebase)));
        items.push(item("Skip this commit", "git rebase --skip", "s", Some(Action::SkipRebase)));
    }
    if is_merging {
        items.push(
            item(
                "Continue merge",
                "git merge --continue (requires all conflicts resolved)",
                "c",
                Some(Action::ContinueMerge),
            ),
        );
        items.push(item("Abort merge", "git merge --abort", "a", Some(Action::AbortMerge)));
    }
    if is_cherry_picking {
        items.push(
            item(
                "Continue cherry-pick",
                "git cherry-pick --continue",
                "c",
                Some(Action::ContinueCherryPick),
            ),
        );
        items.push(
            item(
                "Abort cherry-pick",
                "git cherry-pick --abort",
                "a",
                Some(Action::AbortCherryPick),
            ),
        );
        items.push(
            item(
                "Skip this commit",
                "git cherry-pick --skip",
                "s",
                Some(Action::SkipCherryPick),
            ),
        );
    }
    Menu::new("Rebase/Merge/Cherry-pick options".to_string(), items)
}

/// Whether a merge can go on: it cannot while files are unmerged, which the message
/// names.
pub fn may_continue_merge(unresolved: &Vec<String>) -> (r: Option<String>)
    ensures
        text::opt_text(r) == if unresolved@.len() > 0 {
            Some(
                "cannot continue merge while conflicts remain: "@ + text::join(
                    text::texts(unresolved@),
                    ", "@,
                ),
            )
        } else {
            None
        },
{
    if unresolved.len() == 0 {
        return None;
    }
    let mut s = "cannot continue merge while conflicts remain: ".to_string();
    s.append(text::join_strings(unresolved, ", ").as_str());
    Some(s)
}

// ---------------------------------------------------------------------------
// The editor of commit messages
// ---------------------------------------------------------------------------

/// What can be done from the editor of a commit message. A message can be generated
/// only where a command for it is configured.
pub open spec fn editor_offers(generate: Seq<char>) -> Seq<Offer> {
    seq![
        plain_offer("Open in editor"@, seq![], "e"@, Action::RestoreEditor),
        plain_offer("Add co-author"@, seq![], "c"@, Action::AskCoAuthor),
        plain_offer("Paste commit message from clipboard"@, seq![], "p"@, Action::PasteMessage),
        plain_offer("Clear summary and description"@, seq![], "x"@, Action::ClearMessage),
        Offer {
            label: if generate.len() > 0 {
                "Generate w/ AI ("@ + generate + ")"@
            } else {
                "Generate w/ AI (not configured)"@
            },
            description: seq![],
            key: "g"@,
            action: if generate.len() > 0 {
                Some(Deed::Plain(Action::GenerateMessage))
            } else {
                None
            },
        },
    ]
}

/// Whether a menu is the one of the editor of commit messages.
pub open spec fn is_editor_menu(m: Menu, generate: Seq<char>) -> bool {
    &&& m.title@ == "Commit menu"@
    &&& offers_all(m.items@, editor_offers(generate))
    &&& m.selected == 0
    &&& m.loading_index is None
}

/// The menu of the editor of commit messages. `generate` is the command that
/// generates one, empty for none.
pub fn commit_editor_menu(generate: &str) -> (r: Menu)
    ensures
        is_editor_menu(r, generate@),
        r.wf(),
{
    proof {
        reveal_strlit("");
        assert(""@ =~= seq![]);
    }
    let mut items: Vec<MenuItem> = Vec::new();
    items.push(item("Open in editor", "", "e", Some(Action::RestoreEditor)));
    items.push(item("Add co-author", "", "c", Some(Action::AskCoAuthor)));
    items.push(
        item("Paste commit message from clipboard", "", "p", Some(Action::PasteMessage)),
    );
    items.push(item("Clear summary and description", "", "x", Some(Action::ClearMessage)));
    if text::is_empty_str(generate) {
        items.push(item("Generate w/ AI (not configured)", "", "g", None));
    } else {
        let mut label = "Generate w/ AI (".to_string();
        label.append(generate);
        label.append(")");
        items.push(item(label.as_str(), "", "g", Some(Action::GenerateMessage)));
    }
    Menu::new("Commit menu".to_string(), items)
}

// ---------------------------------------------------------------------------
// Laws
// ---------------------------------------------------------------------------

/// The keys of the menu of a conflict do what they stand for: `o` takes ours, `t` theirs and
/// `b` both, `d` opens the resolver, `e` the editor, and `s` marks the file; all are about the
/// file that the menu is for, and no key is there twice.
pub proof fn conflict_keys_take_their_side(path: Seq<char>, i: int)
    requires
        0 <= i < conflict_offers(path).len(),
    ensures
        ({
            let o = conflict_offers(path)[i];
            &&& o.key == "o"@ ==> o.action == Some(Deed::Resolve(path, ResolveChoice::Ours))
            &&& o.key == "t"@ ==> o.action == Some(Deed::Resolve(path, ResolveChoice::Theirs))
            &&& o.key == "b"@ ==> o.action == Some(Deed::Resolve(path, ResolveChoice::Both))
            &&& o.key == "d"@ ==> o.action == Some(Deed::OpenResolver(path))
            &&& o.key == "e"@ ==> o.action == Some(Deed::Edit(path))
            &&& o.key == "s"@ ==> o.action == Some(Deed::Mark(path))
            &&& conflict_offers(path).len() == 6
            &&& forall|j: int|
                0 <= j < 6 && j != i ==> (#[trigger] conflict_offers(path)[j]).key != o.key
        }),
{
    lemma_letters();
}

proof fn lemma_letters()
    ensures
        "o"@.len() == 1 && "t"@.len() == 1 && "b"@.len() == 1 && "d"@.len() == 1 && "e"@.len() == 1
            && "s"@.len() == 1 && "c"@.len() == 1 && "a"@.len() == 1 && "r"@.len() == 1,
        "o"@[0] == 'o' && "t"@[0] == 't' && "b"@[0] == 'b' && "d"@[0] == 'd' && "e"@[0] == 'e'
            && "s"@[0] == 's' && "c"@[0] == 'c' && "a"@[0] == 'a' && "r"@[0] == 'r',
{
    reveal_strlit("o");
    reveal_strlit("t");
    reveal_strlit("b");
    reveal_strlit("d");
    reveal_strlit("e");
    reveal_strlit("s");
    reveal_strlit("c");
    reveal_strlit("a");
    reveal_strlit("r");
}

/// What is offered is what git can do in the operation under way: to go on, to give up, or to
/// skip a commit, each under its own key; a selected file in conflict comes first.
pub proof fn offers_belong_to_the_operation(conflicted: Option<Seq<char>>)
    ensures
        ({
            let n = if conflicted is Some {
                1int
            } else {
                0
            };
            let r = operation_offers(conflicted, true, false, false);
            let m = operation_offers(conflicted, false, true, false);
            let c = operation_offers(conflicted, false, false, true);
            &&& conflicted matches Some(path) ==> r[0].action == Some(Deed::ConflictMenu(path))
                && r[0].key == "r"@
            &&& r.len() == n + 3 && m.len() == n + 2 && c.len() == n + 3
            &&& r[n].key == "c"@ && r[n].action == Some(Deed::Plain(Action::ContinueRebase))
                && r[n].description == "git rebase --continue"@
            &&& r[n + 1].key == "a"@ && r[n + 1].action == Some(Deed::Plain(Action::AbortRebase))
                && r[n + 1].description == "git rebase --abort"@
            &&& r[n + 2].key == "s"@ && r[n + 2].action == Some(Deed::Plain(Action::SkipRebase))
                && r[n + 2].description == "git rebase --skip"@
            &&& m[n].key == "c"@ && m[n].action == Some(Deed::Plain(Action::ContinueMerge))
            &&& m[n + 1].key == "a"@ && m[n + 1].action == Some(Deed::Plain(Action::AbortMerge))
                && m[n + 1].description == "git merge --abort"@
            &&& c[n].key == "c"@ && c[n].action == Some(Deed::Plain(Action::ContinueCherryPick))
                && c[n].description == "git cherry-pick --continue"@
            &&& c[n + 1].key == "a"@ && c[n + 1].action == Some(
                Deed::Plain(Action::AbortCherryPick),
            ) && c[n + 1].description == "git cherry-pick --abort"@
            &&& c[n + 2].key == "s"@ && c[n + 2].action == Some(
                Deed::Plain(Action::SkipCherryPick),
            ) && c[n + 2].description == "git cherry-pick --skip"@
            &&& operation_offers(conflicted, false, false, false).len() == n
        }),
{
}

/// Where several operations are under way, their offers come one behind the other: the
/// rebase, the merge, the cherry-pick.
pub proof fn offers_come_in_order(conflicted: Option<Seq<char>>)
    ensures
        operation_offers(conflicted, true, true, true) == operation_offers(
            conflicted,
            true,
            false,
            false,
        ) + operation_offers(None, false, true, false) + operation_offers(None, false, false, true),
{
    assert(operation_offers(conflicted, true, true, true) =~= operation_offers(
        conflicted,
        true,
        false,
        false,
    ) + operation_offers(None, false, true, false) + operation_offers(None, false, false, true));
}

/// A message can be generated from the menu of the editor exactly where a command for it is
/// configured; the other items are always there.
pub proof fn generating_needs_a_command(generate: Seq<char>)
    ensures
        ({
            let l = editor_offers(generate);
            &&& l.len() == 5
            &&& l[0].action == Some(Deed::Plain(Action::RestoreEditor)) && l[0].key == "e"@
            &&& l[1].action == Some(Deed::Plain(Action::AskCoAuthor)) && l[1].key == "c"@
            &&& l[2].action == Some(Deed::Plain(Action::PasteMessage)) && l[2].key == "p"@
            &&& l[3].action == Some(Deed::Plain(Action::ClearMessage)) && l[3].key == "x"@
            &&& l[4].key == "g"@
            &&& l[4].action == Some(Deed::Plain(Action::GenerateMessage)) <==> generate.len() > 0
            &&& l[4].action is None <==> generate.len() == 0
        }),
{
}

/// An item has the words, the key and the deed that it was made from.
pub proof fn an_item_is_what_was_offered(i: MenuItem, o: Offer)
    requires
        offers(i, o),
    ensures
        i.label@ == o.label,
        i.description@ == o.description,
        i.key matches Some(k) && k@ == o.key,
        i.action is Some <==> o.action is Some,
        o.action matches Some(Deed::Mark(p)) ==> (i.action matches Some(
            Action::MarkResolved { path },
        ) && path@ == p),
        o.action matches Some(Deed::Edit(p)) ==> (i.action matches Some(
            Action::EditConflict { path },
        ) && path@ == p),
        o.action matches Some(Deed::OpenResolver(p)) ==> (i.action matches Some(
            Action::OpenBlockResolver { path },
        ) && path@ == p),
        o.action matches Some(Deed::Resolve(p, c)) ==> (i.action matches Some(
            Action::ResolveConflict { path, choice },
        ) && path@ == p && choice == c),
        o.action matches Some(Deed::Repo(p)) ==> (i.action matches Some(
            Action::OpenRepo { path },
        ) && path@ == p),
{
}

/// The menu of the editor opens at its first item, and has one item for each of its keys.
pub proof fn the_editor_menu_has_its_keys(m: Menu, generate: Seq<char>)
    requires
        is_editor_menu(m, generate),
    ensures
        m.selected == 0,
        m.loading_index is None,
        m.items@.len() == 5,
        m.items@[0].key matches Some(k) && k@ == "e"@,
        m.items@[1].key matches Some(k) && k@ == "c"@,
        m.items@[2].key matches Some(k) && k@ == "p"@,
        m.items@[3].key matches Some(k) && k@ == "x"@,
        m.items@[4].key matches Some(k) && k@ == "g"@,
        m.items@[0].action == Some(Action::RestoreEditor),
        m.items@[1].action == Some(Action::AskCoAuthor),
        m.items@[2].action == Some(Action::PasteMessage),
        m.items@[3].action == Some(Action::ClearMessage),
{
    assert(offers(m.items@[0], editor_offers(generate)[0]));
    assert(offers(m.items@[1], editor_offers(generate)[1]));
    assert(offers(m.items@[2], editor_offers(generate)[2]));
    assert(offers(m.items@[3], editor_offers(generate)[3]));
    assert(offers(m.items@[4], editor_offers(generate)[4]));
}

} // verus!
