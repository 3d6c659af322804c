//! Windows: menus, lists, text fields, the editor of commit messages, the palette.

use lazygitrs::git::merge_conflict::ResolveChoice;
use lazygitrs::gui::context::ContextId;
use lazygitrs::gui::input::{KeyCode, KeyEvent, KeyModifiers};
use lazygitrs::gui::picker::ListPickerItem;
use lazygitrs::gui::popup::checklist::{Checklist, ChecklistItem, ChecklistStep};
use lazygitrs::gui::popup::commands::{
    bind_commands, show_command_palette, show_diff_command_palette, BranchesKeys, CommitsKeys,
    FilesKeys, Keybinding, StashKeys, UniversalKeys,
};
use lazygitrs::gui::popup::commit_input::{
    co_author, BodyEdit, CommitInput, CommitInputFocus, CommitInputKind,
};
use lazygitrs::gui::popup::history::{
    load_commit_history, save_commit_history, CommitHistory, COMMIT_HISTORY_MAX,
};
use lazygitrs::gui::popup::input::{
    commit_body_wrap_width, effective_wrap_width, flatten, popup_inner_width, InputPopup,
};
use lazygitrs::gui::popup::keys::{ConfirmPopup, PopupEffect, PopupEnv, PopupState, Popups};
use lazygitrs::gui::popup::menu::{Menu, MenuItem, MenuStep};
use lazygitrs::gui::popup::menus::{
    commit_editor_menu, conflict_resolution_menu, may_continue_merge, rebase_options_menu,
};
use lazygitrs::gui::popup::palette::{palette_visible_height, CommandAction};
use lazygitrs::gui::popup::paste::PasteEffect;
use lazygitrs::gui::popup::pickers::{fresh_core, ListPicker, RefPicker, ThemePicker};
use lazygitrs::gui::popup::ref_pickers::{
    show_interactive_rebase_picker, show_recent_repos, show_reset_picker, show_theme_picker,
};
use lazygitrs::gui::popup::{Action, MessageKind, Notice};
use lazygitrs::gui::textarea::{
    auto_wrap_textarea, classify_field_key, hard_wrap_plan, soft_wrap_plan, soft_wrap_textarea,
    textarea_input, FieldEdit, TextField,
};
use lazygitrs::model::{Branch, Commit, Model, Remote, RemoteBranch, Tag};

fn key(code: KeyCode) -> KeyEvent {
    KeyEvent::new(code, KeyModifiers::none())
}

fn control(c: char) -> KeyEvent {
    let mut m = KeyModifiers::none();
    m.control = true;
    KeyEvent::new(KeyCode::Char(c), m)
}

fn popups(popup: PopupState) -> Popups {
    Popups {
        popup,
        pending_commit: None,
        saved_commit: None,
        pending_menu: None,
        history: CommitHistory::new(Vec::new()),
        current_theme: 0,
    }
}

fn env() -> PopupEnv {
    PopupEnv {
        screen_width: 100,
        screen_height: 40,
        wrap_width: 72,
        menu_key: false,
        ai_key: false,
        generate_command: String::new(),
        body: String::new(),
        picked: None,
    }
}

fn item(label: &str, key: &str, action: Option<Action>) -> MenuItem {
    MenuItem {
        label: label.to_string(),
        description: String::new(),
        key: Some(key.to_string()),
        action,
    }
}

fn menu() -> Menu {
    Menu::new(
        "M".to_string(),
        vec![
            item("a", "a", Some(Action::DoNothing)),
            item("b", "b", None),
            item("c", "c", Some(Action::ContinueMerge)),
        ],
    )
}

fn commit_editor(summary: &str) -> CommitInput {
    CommitInput {
        kind: CommitInputKind::Commit,
        focus: CommitInputFocus::Summary,
        summary_textarea: TextField::with_text(summary),
        on_confirm: Action::CreateCommit,
    }
}

fn check(label: &str) -> ChecklistItem {
    ChecklistItem { label: label.to_string(), checked: false, is_free_entry: false }
}

fn checklist() -> Checklist {
    Checklist {
        title: "C".to_string(),
        items: vec![check("Alpha"), check("Beta"), check("alphabet")],
        selected: 0,
        search_textarea: TextField::new(),
        free_entry_category: None,
        on_confirm: Action::Callback(1),
    }
}

fn list_item(value: &str) -> ListPickerItem {
    ListPickerItem {
        value: value.to_string(),
        label: value.to_string(),
        category: String::new(),
    }
}

fn t(s: &str) -> String {
    s.to_string()
}

fn keybinding() -> Keybinding {
    Keybinding {
        universal: UniversalKeys {
            quit: t("q"),
            quit_alt1: t("<c-c>"),
            return_key: t("<esc>"),
            toggle_panel: t("<tab>"),
            toggle_panel_reverse: t("<backtab>"),
            prev_item: t("<up>"),
            next_item: t("<down>"),
            prev_page: t(","),
            next_page: t("."),
            goto_top: t("<"),
            goto_bottom: t(">"),
            prev_block: t("<left>"),
            next_block: t("<right>"),
            start_search: t("/"),
            next_match: t("n"),
            prev_match: t("N"),
            scroll_up_main_alt1: t("K"),
            scroll_down_main_alt1: t("J"),
            scroll_left: t("H"),
            scroll_right: t("L"),
            undo: t("z"),
            redo: t("<c-z>"),
            refresh: t("R"),
            push_files: t("P"),
            pull_files: t("p"),
            next_screen_mode: t("+"),
            prev_screen_mode: t("_"),
            create_rebase_options_menu: t("m"),
            create_patch_options_menu: t("<c-p>"),
            toggle_diff_view_layout: t("\\"),
            edit: t("e"),
            open_file: t("o"),
            revert_block: t("r"),
            undo_revert_block: t("u"),
        },
        files: FilesKeys {
            commit_changes: t("c"),
            generate_ai_commit: t("<c-g>"),
            amend_last_commit: t("A"),
            commit_changes_with_editor: t("C"),
            toggle_staged_all: t("a"),
            stash_all_changes: t("s"),
            view_stash_options: t("S"),
            toggle_tree_view: t("`"),
            fetch: t("f"),
            ignore_file: t("i"),
        },
        branches: BranchesKeys {
            merge_into_current_branch: t("M"),
            rebase_branch: t("r"),
            rename_branch: t("R"),
            fast_forward: t("f"),
            set_upstream: t("u"),
            create_pull_request: t("o"),
        },
        commits: CommitsKeys {
            cherry_pick_copy: t("C"),
            squash_down: t("s"),
            rename_commit: t("r"),
            view_reset_options: t("g"),
            mark_commit_as_fixup: t("f"),
            create_fixup_commit: t("F"),
            squash_above_commits: t("S"),
            move_up_commit: t("<c-k>"),
            move_down_commit: t("<c-j>"),
            amend_to_commit: t("A"),
            pick_commit: t("p"),
            revert_commit: t("t"),
            tag_commit: t("T"),
            checkout_commit: t("<space>"),
            view_bisect_options: t("b"),
            interactive_rebase: t("i"),
            open_log_menu: t("<c-l>"),
            paste_commits: t("V"),
        },
        stash: StashKeys { pop_stash: t("g"), rename_stash: t("r") },
    }
}

// ---------------------------------------------------------------------------
// Menus
// ---------------------------------------------------------------------------

#[test]
fn a_menu_skips_what_cannot_be_chosen() {
    let mut m = menu();
    assert_eq!(m.key(key(KeyCode::Down)), MenuStep::Stay);
    assert_eq!(m.selected, 2);
    assert_eq!(m.key(key(KeyCode::Up)), MenuStep::Stay);
    assert_eq!(m.selected, 0);
    assert_eq!(m.key(key(KeyCode::Char('c'))), MenuStep::Run(2));
    assert_eq!(m.key(key(KeyCode::Char('b'))), MenuStep::Stay);
    assert_eq!(m.key(key(KeyCode::Enter)), MenuStep::Run(0));
    assert_eq!(m.key(key(KeyCode::Esc)), MenuStep::Leave);
    m.loading_index = Some(0);
    assert_eq!(m.key(key(KeyCode::Enter)), MenuStep::Stay);
}

#[test]
fn a_chosen_item_runs_with_its_menu_put_aside() {
    let mut p = popups(PopupState::Menu(menu()));
    match p.handle_popup_key(key(KeyCode::Enter), env()) {
        PopupEffect::RunMenu(0) => {}
        other => panic!("not run: {other:?}"),
    }
    assert!(matches!(p.popup, PopupState::Closed));
    assert!(p.pending_menu.is_some());
    p.start_menu_async(0);
    assert!(matches!(p.popup, PopupState::Menu(ref m) if m.loading_index == Some(0)));
    let mut p = popups(PopupState::Closed);
    p.after_menu_action(Some("no"));
    assert!(matches!(p.popup, PopupState::Message(ref n) if n.message == "no"));
}

#[test]
fn menus_offer_what_can_be_done() {
    let m = conflict_resolution_menu("a.txt");
    assert_eq!(m.title, "Resolve conflict: a.txt");
    assert_eq!(m.items.len(), 6);
    assert!(matches!(
        m.items[1].action,
        Some(Action::ResolveConflict { choice: ResolveChoice::Ours, .. })
    ));
    let r = rebase_options_menu(Some("a.txt"), true, false, false);
    assert!(r.items.iter().any(|i| matches!(i.action, Some(Action::AbortRebase))));
    assert!(r.items.iter().any(|i| matches!(i.action, Some(Action::ShowConflictMenu { .. }))));
    let r = rebase_options_menu(None, false, true, false);
    assert!(r.items.iter().any(|i| matches!(i.action, Some(Action::AbortMerge))));
    assert!(!r.items.iter().any(|i| matches!(i.action, Some(Action::AbortRebase))));
    assert!(may_continue_merge(&vec![]).is_none());
    assert!(may_continue_merge(&vec![t("a.txt")]).unwrap().contains("a.txt"));
    let off = commit_editor_menu("");
    let on = commit_editor_menu("gen");
    assert!(off.items.iter().all(|i| !matches!(i.action, Some(Action::GenerateMessage))));
    assert!(on.items.iter().any(|i| matches!(i.action, Some(Action::GenerateMessage))));
}

#[test]
fn recent_repositories_are_listed_in_order() {
    let mut p = popups(PopupState::Closed);
    show_recent_repos(&mut p, &vec![]);
    assert!(matches!(p.popup, PopupState::Closed));
    show_recent_repos(&mut p, &vec![t("/a"), t("/b")]);
    match &p.popup {
        PopupState::Menu(m) => {
            assert_eq!(m.title, "Recent repos");
            assert_eq!(m.items[1].label, "/b");
            assert!(matches!(
                m.items[1].action,
                Some(Action::OpenRepo { ref path }) if path == "/b"
            ));
        }
        other => panic!("no menu: {other:?}"),
    }
}

// ---------------------------------------------------------------------------
// Questions and messages
// ---------------------------------------------------------------------------

#[test]
fn only_yes_confirms() {
    let ask = || {
        popups(PopupState::Confirm(ConfirmPopup {
            title: t("T"),
            message: t("?"),
            on_confirm: Action::AbortRebase,
        }))
    };
    let mut p = ask();
    assert!(matches!(
        p.handle_popup_key(key(KeyCode::Char('y')), env()),
        PopupEffect::RunConfirm(Action::AbortRebase)
    ));
    let mut p = ask();
    assert!(matches!(
        p.handle_popup_key(key(KeyCode::Char('n')), env()),
        PopupEffect::Nothing
    ));
    assert!(matches!(p.popup, PopupState::Closed));
}

#[test]
fn a_message_closes_on_any_key_and_loading_on_none() {
    let mut p = popups(PopupState::Message(Notice {
        title: t("T"),
        message: t("m"),
        kind: MessageKind::Info,
    }));
    p.handle_popup_key(key(KeyCode::Char('x')), env());
    assert!(matches!(p.popup, PopupState::Closed));
    let mut p = popups(PopupState::Loading { title: t("T"), message: t("m") });
    p.handle_popup_key(key(KeyCode::Esc), env());
    assert!(matches!(p.popup, PopupState::Loading { .. }));
    p.show_error("Oops", "bad");
    assert!(matches!(p.popup, PopupState::Message(ref n) if n.kind == MessageKind::Error));
}

// ---------------------------------------------------------------------------
// Text fields
// ---------------------------------------------------------------------------

#[test]
fn a_field_types_moves_and_deletes() {
    let mut f = TextField::with_text("ab cd");
    assert_eq!(f.joined(), "ab cd");
    assert!(textarea_input(&mut f, key(KeyCode::Char('!'))));
    assert_eq!(f.joined(), "ab cd!");
    assert!(textarea_input(&mut f, key(KeyCode::Backspace)));
    assert_eq!(f.joined(), "ab cd");
    textarea_input(&mut f, key(KeyCode::Home));
    textarea_input(&mut f, key(KeyCode::Delete));
    assert_eq!(f.joined(), "b cd");
    assert_eq!(f.cursor(), (0, 0));
    f.insert_str("x\ny");
    assert_eq!(f.lines(), ["x", "yb cd"]);
    assert_eq!(f.cursor(), (1, 1));
    assert_eq!(f.joined_lines(), "x\nyb cd");
    f.wipe();
    assert_eq!(f.lines(), [""]);
    f.retype("new\ntext");
    assert_eq!(f.lines(), ["new", "text"]);
    assert!(!textarea_input(&mut f, key(KeyCode::Esc)));
    let mut word = KeyModifiers::none();
    word.alt = true;
    let mut f = TextField::with_text("one two");
    textarea_input(&mut f, KeyEvent::new(KeyCode::Left, word));
    assert_eq!(f.cursor(), (0, 4));
    textarea_input(&mut f, control('u'));
    assert_eq!(f.joined(), "two");
}

#[test]
fn what_is_selected_is_typed_over() {
    let mut shift = KeyModifiers::none();
    shift.shift = true;
    let with_shift = |code: KeyCode| KeyEvent::new(code, shift);
    let mut f = TextField::with_text("one\ntwo\nten");
    textarea_input(&mut f, key(KeyCode::Left));
    assert_eq!(f.cursor(), (2, 2));
    textarea_input(&mut f, with_shift(KeyCode::Up));
    textarea_input(&mut f, with_shift(KeyCode::Left));
    assert_eq!(f.cursor(), (1, 1));
    textarea_input(&mut f, key(KeyCode::Char('X')));
    assert_eq!(f.lines(), ["one", "tXn"]);
    assert_eq!(f.cursor(), (1, 2));
    textarea_input(&mut f, with_shift(KeyCode::Left));
    textarea_input(&mut f, key(KeyCode::Backspace));
    assert_eq!(f.lines(), ["one", "tn"]);
    textarea_input(&mut f, with_shift(KeyCode::Right));
    textarea_input(&mut f, key(KeyCode::Delete));
    assert_eq!(f.lines(), ["one", "t"]);
    textarea_input(&mut f, with_shift(KeyCode::Left));
    f.insert_str("a\nb");
    assert_eq!(f.lines(), ["one", "a", "b"]);
    textarea_input(&mut f, with_shift(KeyCode::Up));
    textarea_input(&mut f, key(KeyCode::Up));
    assert_eq!(f.cursor(), (0, 1));
    textarea_input(&mut f, key(KeyCode::Up));
    assert_eq!(f.cursor(), (0, 1));
    textarea_input(&mut f, with_shift(KeyCode::Down));
    textarea_input(&mut f, control('u'));
    assert_eq!(f.lines(), ["o", "b"]);
    assert_eq!(f.cursor(), (0, 1));
    textarea_input(&mut f, key(KeyCode::Enter));
    assert_eq!(f.lines(), ["o", "", "b"]);
    textarea_input(&mut f, key(KeyCode::Backspace));
    assert_eq!(f.lines(), ["o", "b"]);
}

#[test]
fn words_are_crossed_and_deleted() {
    let mut alt = KeyModifiers::none();
    alt.alt = true;
    let with_alt = |code: KeyCode| KeyEvent::new(code, alt);
    let mut f = TextField::with_text("fn foo(a) \nx");
    textarea_input(&mut f, key(KeyCode::Up));
    textarea_input(&mut f, key(KeyCode::Home));
    for place in [(0, 3), (0, 6), (0, 7), (0, 8), (1, 0), (1, 1)] {
        textarea_input(&mut f, with_alt(KeyCode::Right));
        assert_eq!(f.cursor(), place);
    }
    for place in [(1, 0), (0, 10), (0, 8), (0, 7), (0, 6), (0, 3), (0, 0)] {
        textarea_input(&mut f, with_alt(KeyCode::Left));
        assert_eq!(f.cursor(), place);
    }
    assert!(textarea_input(&mut f, with_alt(KeyCode::Char('d'))));
    assert_eq!(f.lines(), [" foo(a) ", "x"]);
    assert!(textarea_input(&mut f, with_alt(KeyCode::Delete)));
    assert_eq!(f.lines(), ["(a) ", "x"]);
    for left in [vec!["a) ", "x"], vec![") ", "x"], vec![" ", "x"], vec!["", "x"], vec!["x"]] {
        assert!(textarea_input(&mut f, with_alt(KeyCode::Delete)));
        assert_eq!(f.lines(), left);
    }
    assert!(textarea_input(&mut f, with_alt(KeyCode::Char('d'))));
    assert!(!textarea_input(&mut f, with_alt(KeyCode::Char('d'))));
    assert_eq!(f.lines(), [""]);
}

#[test]
fn a_tab_reaches_to_the_next_multiple_of_four() {
    let mut f = TextField::with_text("ab");
    assert!(textarea_input(&mut f, key(KeyCode::Tab)));
    assert_eq!(f.lines(), ["ab  "]);
    assert!(textarea_input(&mut f, key(KeyCode::Tab)));
    assert_eq!(f.lines(), ["ab      "]);
    assert_eq!(f.cursor(), (0, 8));
    let mut f = TextField::with_text("日a");
    assert!(textarea_input(&mut f, key(KeyCode::Tab)));
    assert_eq!(f.lines(), ["日a "]);
    let mut control_tab = KeyModifiers::none();
    control_tab.control = true;
    assert!(!textarea_input(&mut f, KeyEvent::new(KeyCode::Tab, control_tab)));
    assert_eq!(f.lines(), ["日a "]);
}

#[test]
fn long_lines_are_wrapped_at_spaces() {
    let lines = vec![t("aaa bbb ccc")];
    assert_eq!(hard_wrap_plan(&lines, 0, 11, 7), Some((t("aaa\nbbb ccc"), 1, 7)));
    assert_eq!(hard_wrap_plan(&vec![t("short")], 0, 5, 7), None);
    assert!(soft_wrap_plan(&lines, 0, 11, 7).is_some());
    let mut f = TextField::with_text("aaa bbb ccc");
    auto_wrap_textarea(&mut f, 7);
    assert_eq!(f.lines(), ["aaa", "bbb ccc"]);
    assert_eq!(f.cursor(), (1, 7));
}

#[test]
fn a_wrapped_line_keeps_the_cursor_as_far_behind_the_start() {
    assert_eq!(hard_wrap_plan(&vec![t("ab")], 0, 2, 1), Some((t("a\nb"), 1, 0)));
    assert_eq!(hard_wrap_plan(&vec![t("ab")], 0, 1, 1), Some((t("a\nb"), 0, 1)));
    assert_eq!(hard_wrap_plan(&vec![t("abcdef")], 0, 5, 3), Some((t("abc\ndef"), 1, 1)));
    assert_eq!(hard_wrap_plan(&vec![t("aa   bb")], 0, 2, 4), Some((t("aa \nbb"), 0, 2)));
    assert_eq!(hard_wrap_plan(&vec![t("aa   bb")], 0, 4, 4), Some((t("aa \nbb"), 1, 0)));
    assert_eq!(hard_wrap_plan(&vec![t("aa   bb")], 0, 6, 4), Some((t("aa \nbb"), 1, 2)));
    let lines = vec![t("abcdef"), t("x"), t("ghijk")];
    assert_eq!(hard_wrap_plan(&lines, 2, 5, 3), Some((t("abc\ndef\nx\nghi\njk"), 4, 0)));
    assert_eq!(hard_wrap_plan(&vec![t("abcd     ")], 0, 9, 4), Some((t("abcd"), 1, 0)));
    let mut f = TextField::with_text("abcd     ");
    auto_wrap_textarea(&mut f, 4);
    assert_eq!(f.lines(), ["abcd"]);
    assert_eq!(f.cursor(), (0, 0));
}

#[test]
fn breaks_in_place_of_spaces_keep_the_cursor_at_its_character() {
    let lines = vec![t("one two"), t("three four five")];
    let new = t("one\ntwo\nthree\nfour\nfive");
    for (col, row, column) in [(0, 2, 0), (5, 2, 5), (6, 3, 0), (10, 3, 4), (13, 4, 2), (15, 4, 4)] {
        assert_eq!(hard_wrap_plan(&lines, 1, col, 5), Some((new.clone(), row, column)));
    }
}

#[test]
fn wide_characters_are_not_cut() {
    assert_eq!(hard_wrap_plan(&vec![t("ééé")], 0, 3, 3), Some((t("é\né\né"), 1, 0)));
    assert_eq!(hard_wrap_plan(&vec![t("ééé")], 0, 2, 4), Some((t("éé\né"), 0, 2)));
    assert_eq!(hard_wrap_plan(&vec![t("日本")], 0, 2, 1), Some((t("日\n本"), 0, 2)));
    let mut f = TextField::with_text("日本 語語語 a");
    auto_wrap_textarea(&mut f, 7);
    assert_eq!(f.lines(), ["日本", "語語", "語 a"]);
    assert_eq!(f.cursor(), (1, 1));
    assert!(f.lines().iter().all(|l| l.len() <= 7));
}

#[test]
fn a_soft_wrap_keeps_the_cursor_behind_the_text() {
    let lines = vec![t("abcdefghij")];
    assert_eq!(soft_wrap_plan(&lines, 0, 10, 5), Some((t("abcde\nfghij"), 1, 5)));
    assert_eq!(soft_wrap_plan(&lines, 0, 5, 5), Some((t("abcde\nfghij"), 1, 0)));
    assert_eq!(soft_wrap_plan(&lines, 0, 9, 5), Some((t("abcde\nfghij"), 1, 4)));
    let mut f = TextField::with_text("abcdefghij");
    soft_wrap_textarea(&mut f, 5);
    assert_eq!(f.lines(), ["abcde", "fghij"]);
    assert_eq!(f.cursor(), (1, 5));
    soft_wrap_textarea(&mut f, 5);
    assert_eq!(f.lines(), ["abcde", "fghij"]);
    assert_eq!(f.joined(), "abcdefghij");
    let mut f = TextField::with_text("a\rbcdef");
    soft_wrap_textarea(&mut f, 4);
    assert_eq!(f.lines(), ["a\rbc", "def"]);
    assert_eq!(f.cursor(), (1, 3));
}

#[test]
fn shortcuts_edit_the_field() {
    let held = |code, control, alt| {
        let mut m = KeyModifiers::none();
        m.control = control;
        m.alt = alt;
        KeyEvent::new(code, m)
    };
    assert_eq!(classify_field_key(held(KeyCode::Backspace, true, false)), FieldEdit::DeleteToHead);
    let mut f = TextField::with_text("one two");
    textarea_input(&mut f, held(KeyCode::Backspace, true, false));
    assert_eq!(f.lines(), [""]);
    let mut f = TextField::with_text("one two");
    textarea_input(&mut f, control('w'));
    assert_eq!(f.lines(), ["one "]);
    textarea_input(&mut f, held(KeyCode::Char('h'), false, true));
    assert_eq!(f.lines(), [""]);
    let mut f = TextField::with_text("ab\n  ");
    textarea_input(&mut f, control('w'));
    assert_eq!(f.lines(), ["ab", ""]);
    textarea_input(&mut f, control('w'));
    assert_eq!(f.lines(), ["ab"]);
    let mut f = TextField::with_text("ab\n\ncd\nef\n\ngh");
    textarea_input(&mut f, held(KeyCode::Up, true, false));
    assert_eq!(f.cursor(), (2, 2));
    textarea_input(&mut f, held(KeyCode::Down, true, false));
    assert_eq!(f.cursor(), (5, 2));
    textarea_input(&mut f, held(KeyCode::Char('<'), false, true));
    assert_eq!(f.cursor(), (0, 2));
    textarea_input(&mut f, control('b'));
    textarea_input(&mut f, control('k'));
    assert_eq!(f.lines(), ["a", "", "cd", "ef", "", "gh"]);
    textarea_input(&mut f, control('k'));
    assert_eq!(f.lines(), ["a", "cd", "ef", "", "gh"]);
    textarea_input(&mut f, control('j'));
    assert_eq!(f.lines(), ["", "cd", "ef", "", "gh"]);
    textarea_input(&mut f, control('n'));
    textarea_input(&mut f, control('d'));
    assert_eq!(f.lines(), ["", "d", "ef", "", "gh"]);
    textarea_input(&mut f, control('h'));
    assert_eq!(f.lines(), ["d", "ef", "", "gh"]);
    textarea_input(&mut f, control('m'));
    assert_eq!(f.lines(), ["", "d", "ef", "", "gh"]);
    textarea_input(&mut f, held(KeyCode::Char('n'), true, true));
    assert_eq!(f.cursor(), (4, 0));
    textarea_input(&mut f, held(KeyCode::Char('q'), true, false));
    textarea_input(&mut f, held(KeyCode::Char('q'), false, true));
    textarea_input(&mut f, held(KeyCode::Delete, true, false));
    assert_eq!(f.lines(), ["", "d", "ef", "", "gh"]);
    assert_eq!(f.cursor(), (4, 0));
}

#[test]
fn a_field_tells_whether_a_key_changed_it() {
    let mut f = TextField::with_text("ab");
    assert!(textarea_input(&mut f, key(KeyCode::Char('c'))));
    assert!(!textarea_input(&mut f, control('d')));
    assert!(!textarea_input(&mut f, key(KeyCode::Delete)));
    assert!(!textarea_input(&mut f, key(KeyCode::Left)));
    assert!(textarea_input(&mut f, control('d')));
    assert!(textarea_input(&mut f, key(KeyCode::Backspace)));
    assert!(textarea_input(&mut f, control('h')));
    assert!(!textarea_input(&mut f, key(KeyCode::Backspace)));
    assert!(!textarea_input(&mut f, control('x')));
    assert!(!textarea_input(&mut f, control('c')));
    assert!(!textarea_input(&mut f, key(KeyCode::Esc)));
    assert_eq!(f.lines(), [""]);
}

#[test]
fn an_empty_field_tells_what_is_asked_for() {
    let asks = |is_commit, on_confirm| InputPopup {
        title: t("Q"),
        textarea: TextField::new(),
        is_commit,
        confirm_focused: false,
        on_confirm,
    };
    assert_eq!(asks(false, Action::WorktreePath).placeholder(), "Path");
    assert_eq!(
        asks(false, Action::WorktreeBranch { path: t("p") }).placeholder(),
        "Branch name"
    );
    assert_eq!(asks(false, Action::AppendCoAuthor).placeholder(), "Name <email@example.com>");
    assert_eq!(asks(true, Action::DoNothing).placeholder(), "Enter commit message...");
    assert_eq!(asks(false, Action::DoNothing).placeholder(), "");
}

#[test]
fn widths_follow_the_screen() {
    assert_eq!(effective_wrap_width(50, 72), 50);
    assert_eq!(effective_wrap_width(100, 72), 72);
    assert_eq!(effective_wrap_width(100, 0), 100);
    assert!(popup_inner_width(100) < 100);
    assert!(commit_body_wrap_width(100, 20) <= 20);
    assert_eq!(flatten("a\nb"), "a b");
}

#[test]
fn a_line_is_asked_for_and_confirmed() {
    let field = InputPopup {
        title: t("Name"),
        textarea: TextField::new(),
        is_commit: false,
        confirm_focused: false,
        on_confirm: Action::Callback(3),
    };
    let mut p = popups(PopupState::Input(field));
    for c in ['h', 'i'] {
        p.handle_popup_key(key(KeyCode::Char(c)), env());
    }
    match p.handle_popup_key(key(KeyCode::Enter), env()) {
        PopupEffect::RunInput { action: Action::Callback(3), text, save_history } => {
            assert_eq!(text, "hi");
            assert!(!save_history);
        }
        other => panic!("not confirmed: {other:?}"),
    }
    assert!(matches!(p.popup, PopupState::Closed));
}

// ---------------------------------------------------------------------------
// Commit messages
// ---------------------------------------------------------------------------

#[test]
fn enter_in_the_summary_commits_and_is_remembered() {
    let mut p = popups(PopupState::CommitInput(commit_editor("fix: x")));
    let mut e = env();
    e.body = t("why");
    match p.handle_popup_key(key(KeyCode::Enter), e) {
        PopupEffect::RunInput { text, save_history, .. } => {
            assert_eq!(text, "fix: x\n\nwhy");
            assert!(save_history);
        }
        other => panic!("not committed: {other:?}"),
    }
    assert_eq!(p.history.messages, ["fix: x\n\nwhy"]);
}

#[test]
fn the_menu_of_the_editor_leads_back_to_it() {
    let behind = |summary: &str| {
        let mut p = popups(PopupState::CommitInput(commit_editor(summary)));
        p.saved_commit = Some(PopupState::CommitInput(commit_editor("older")));
        p.show_commit_editor_menu("");
        p
    };
    let summary = |p: &Popups| match &p.popup {
        PopupState::CommitInput(e) => e.summary_textarea.joined(),
        other => panic!("no editor: {other:?}"),
    };
    let mut p = behind("wip");
    p.restore_editor();
    assert_eq!(summary(&p), "wip");
    assert!(p.pending_commit.is_none() && p.saved_commit.is_some());

    let mut p = behind("wip");
    let waiting = p.ask_co_author();
    assert!(matches!(
        p.popup,
        PopupState::Input(ref q) if q.title == "Co-author (Name <email>)"
            && matches!(q.on_confirm, Action::AppendCoAuthor)
    ));
    assert!(waiting.is_some() && p.pending_commit.is_none());
    assert_eq!(p.append_co_author(waiting, "A <a@b>"), Some(t("\n\nCo-authored-by: A <a@b>")));
    assert_eq!(summary(&p), "wip");
    let mut p = behind("wip");
    let waiting = p.ask_co_author();
    assert_eq!(p.append_co_author(waiting, ""), None);
    assert_eq!(p.append_co_author(None, "A"), None);
    assert_eq!(summary(&p), "wip");

    let mut p = behind("wip");
    assert_eq!(p.paste_message(Some("new\nline\n\nbody")), Some(t("line\n\nbody")));
    assert_eq!(summary(&p), "new");
    let mut p = behind("wip");
    assert_eq!(p.paste_message(Some("")), None);
    assert_eq!(p.paste_message(None), None);
    assert_eq!(summary(&p), "wip");

    let mut p = behind("wip");
    assert!(p.clear_message());
    assert_eq!(summary(&p), "");
    assert!(p.saved_commit.is_none());
    assert!(!p.clear_message());
}

#[test]
fn a_left_editor_comes_back() {
    let mut p = popups(PopupState::CommitInput(commit_editor("wip")));
    p.handle_popup_key(key(KeyCode::Esc), env());
    assert!(matches!(p.popup, PopupState::Closed));
    match p.saved_commit {
        Some(PopupState::CommitInput(ref c)) => assert_eq!(c.summary_textarea.joined(), "wip"),
        ref other => panic!("not kept: {other:?}"),
    }
}

#[test]
fn typing_in_the_body_edits_the_body() {
    let mut editor = commit_editor("s");
    editor.focus = CommitInputFocus::Body;
    let mut p = popups(PopupState::CommitInput(editor));
    match p.handle_popup_key(key(KeyCode::Char('z')), env()) {
        PopupEffect::EditBody(BodyEdit::Insert('z')) => {}
        other => panic!("not typed: {other:?}"),
    }
    match p.handle_paste("pasted", 100, 72) {
        PasteEffect::InsertBody(s) => assert_eq!(s, "pasted"),
        other => panic!("not pasted: {other:?}"),
    }
    assert_eq!(co_author(""), None);
    assert_eq!(co_author("Ann <a@b>"), Some(t("\n\nCo-authored-by: Ann <a@b>")));
}

#[test]
fn the_menu_of_the_editor_keeps_the_editor() {
    let mut p = popups(PopupState::CommitInput(commit_editor("draft")));
    p.show_commit_editor_menu("gen");
    assert!(matches!(p.popup, PopupState::Menu(_)));
    p.handle_popup_key(key(KeyCode::Esc), env());
    match p.popup {
        PopupState::CommitInput(ref c) => assert_eq!(c.summary_textarea.joined(), "draft"),
        ref other => panic!("editor lost: {other:?}"),
    }
}

#[test]
fn used_messages_come_back_newest_first() {
    let mut h = CommitHistory::new(vec![t("b"), t("a")]);
    assert!(h.remember("a"));
    assert_eq!(h.messages, ["a", "b"]);
    assert!(!h.remember("  "));
    assert_eq!(h.older(t("typed")), "a");
    assert_eq!(h.older(t("a")), "b");
    assert_eq!(h.newer(), Some(t("a")));
    assert_eq!(h.newer(), Some(t("typed")));
    assert_eq!(h.newer(), None);
    let saved = save_commit_history(&h.messages);
    assert_eq!(load_commit_history(Some(&saved)), h.messages);
    assert!(load_commit_history(None).is_empty());
    let mut many = CommitHistory::new(Vec::new());
    for i in 0..COMMIT_HISTORY_MAX + 5 {
        many.remember(&format!("m{i}"));
    }
    assert_eq!(many.messages.len(), COMMIT_HISTORY_MAX);
    assert_eq!(many.messages[0], format!("m{}", COMMIT_HISTORY_MAX + 4));
}

// ---------------------------------------------------------------------------
// Lists
// ---------------------------------------------------------------------------

#[test]
fn a_checklist_toggles_what_is_visible() {
    let mut c = checklist();
    c.search_textarea = TextField::with_text("ALPHA");
    let visible = c.visible();
    assert_eq!(visible, [true, false, true]);
    c.selected = 1;
    c.key_with(key(KeyCode::Char(' ')), &visible);
    assert!(c.items[2].checked && !c.items[1].checked);
    match c.key_with(key(KeyCode::Enter), &visible) {
        ChecklistStep::Confirm(labels) => assert_eq!(labels, ["alphabet"]),
        other => panic!("not confirmed: {other:?}"),
    }
}

#[test]
fn a_reference_is_picked_or_typed() {
    let picker = RefPicker {
        title: t("R"),
        core: fresh_core(vec![list_item("main"), list_item("dev")], 0),
        allow_freeform: true,
        on_confirm: Action::RebaseOnto,
    };
    let mut p = popups(PopupState::RefPicker(picker));
    p.handle_popup_key(key(KeyCode::Down), env());
    match p.handle_popup_key(key(KeyCode::Enter), env()) {
        PopupEffect::RunPick { action: Action::RebaseOnto, value } => assert_eq!(value, "dev"),
        other => panic!("not picked: {other:?}"),
    }
    let picker = RefPicker {
        title: t("R"),
        core: fresh_core(vec![list_item("main")], 0),
        allow_freeform: true,
        on_confirm: Action::ResetTo,
    };
    let mut p = popups(PopupState::RefPicker(picker));
    p.handle_paste("HEAD~2\n", 100, 72);
    match p.handle_popup_key(key(KeyCode::Enter), env()) {
        PopupEffect::RunPick { value, .. } => assert_eq!(value, "HEAD~2"),
        other => panic!("not picked: {other:?}"),
    }
}

#[test]
fn themes_go_round_and_come_back_on_esc() {
    let mut p = popups(PopupState::Closed);
    p.current_theme = 1;
    show_theme_picker(&mut p, &vec![(t("a"), t("A")), (t("b"), t("B"))]);
    match &p.popup {
        PopupState::ThemePicker(q) => {
            assert_eq!(q.core.selected, 1);
            assert_eq!(q.core.items[0].label, "A");
        }
        other => panic!("no themes: {other:?}"),
    }
    p.handle_popup_key(key(KeyCode::Down), env());
    assert_eq!(p.current_theme, 0);
    p.handle_popup_key(key(KeyCode::Esc), env());
    assert_eq!(p.current_theme, 1);
    let mut q = ThemePicker::open(vec![list_item("a"), list_item("b")], 0);
    let mut theme = 0;
    q.paste("B", &mut theme);
    assert_eq!(theme, 1);
}

#[test]
fn a_free_list_tells_when_it_has_to_follow() {
    let list = ListPicker::open(
        t("L"),
        vec![list_item("one"), list_item("two")],
        t("Free"),
        Action::Callback(9),
    );
    let mut p = popups(PopupState::ListPicker(list));
    assert!(matches!(
        p.handle_popup_key(key(KeyCode::Char('t')), env()),
        PopupEffect::SyncListPicker
    ));
    let mut e = env();
    e.picked = Some(t("two"));
    match p.handle_popup_key(key(KeyCode::Enter), e) {
        PopupEffect::RunPick { action: Action::Callback(9), value } => assert_eq!(value, "two"),
        other => panic!("not picked: {other:?}"),
    }
}

fn repository() -> Model {
    let branch = |name: &str, head: bool| Branch {
        name: t(name),
        hash: t(""),
        recency: t(""),
        pushables: t(""),
        pullables: t(""),
        upstream: None,
        head,
    };
    let commit = |hash: &str, name: &str| Commit { hash: t(hash), name: t(name), author_name: t("") };
    Model {
        repo_name: t(""),
        head_hash: t(""),
        head_branch_name: t("main"),
        files: Vec::new(),
        worktrees: Vec::new(),
        submodules: Vec::new(),
        branches: vec![branch("main", true), branch("dev", false)],
        remotes: vec![Remote { name: t("origin"), branches: vec![RemoteBranch { name: t("dev") }] }],
        sub_remote_branches: Vec::new(),
        tags: vec![Tag { name: t("v1") }],
        commits: vec![commit("aaaaaaaaa", "tip"), commit("bbbbbbbbb", "below")],
        reflog_commits: Vec::new(),
        sub_commits: Vec::new(),
        stash_entries: Vec::new(),
        commit_files: Vec::new(),
        is_rebasing: false,
        is_merging: false,
        is_cherry_picking: false,
        is_bisecting: false,
        rebase_onto_hash: t(""),
        total_additions: 0,
        total_deletions: 0,
        repo_url: t(""),
        contributors: Vec::new(),
    }
}

#[test]
fn rebase_leaves_the_current_branch_out_and_reset_does_not() {
    let labels = |p: &Popups| match &p.popup {
        PopupState::RefPicker(q) => {
            (q.title.clone(), q.core.items.iter().map(|i| i.label.clone()).collect::<Vec<_>>())
        }
        other => panic!("no list: {other:?}"),
    };
    let mut p = popups(PopupState::Closed);
    show_interactive_rebase_picker(&mut p, &repository());
    let (title, shown) = labels(&p);
    assert_eq!(title, "Interactive rebase current branch onto");
    assert_eq!(shown, ["dev", "origin/dev", "v1", "bbbbbbb below"]);
    show_reset_picker(&mut p, &repository());
    let (title, shown) = labels(&p);
    assert_eq!(title, "Reset to:");
    assert_eq!(shown, ["main", "dev", "origin/dev", "v1", "bbbbbbb below"]);
}

// ---------------------------------------------------------------------------
// The palette
// ---------------------------------------------------------------------------

#[test]
fn the_palette_lists_the_commands_of_a_list_first() {
    let mut p = popups(PopupState::Closed);
    show_command_palette(&mut p, ContextId::Commits, &keybinding(), true);
    match &p.popup {
        PopupState::CommandPalette(q) => {
            assert_eq!(q.sections[0].title, "Commits");
            assert_eq!(q.sections[0].entries[0].key, "V");
            assert_eq!(q.sections[0].entries[0].description, "Paste (cherry-pick)");
            assert_eq!(q.sections[0].entries.len(), 24);
            assert_eq!(q.sections[1].title, "Universal");
            assert_eq!(q.sections[1].entries.len(), 37);
            let last = q.sections[1].entries.last().unwrap();
            assert_eq!(last.description, "Color theme...");
            assert_eq!(last.action, CommandAction::OpenThemePicker);
        }
        other => panic!("no palette: {other:?}"),
    }
    show_command_palette(&mut p, ContextId::Commits, &keybinding(), false);
    assert!(matches!(
        &p.popup,
        PopupState::CommandPalette(q) if q.sections[0].entries.len() == 23
    ));
    for (context, title, count) in [
        (ContextId::Files, "Files", 20),
        (ContextId::Worktrees, "Worktrees", 3),
        (ContextId::Submodules, "Submodules", 6),
        (ContextId::Branches, "Branches", 13),
        (ContextId::BranchCommits, "Branch Commits", 5),
        (ContextId::CommitFiles, "Commit Files", 9),
        (ContextId::Reflog, "Reflog", 7),
        (ContextId::Stash, "Stash", 6),
        (ContextId::StashFiles, "Stash Files", 6),
        (ContextId::Remotes, "Remotes", 8),
        (ContextId::RemoteBranches, "Remote Branches", 6),
        (ContextId::Tags, "Tags", 5),
        (ContextId::Status, "Status", 3),
    ] {
        show_command_palette(&mut p, context, &keybinding(), false);
        match &p.popup {
            PopupState::CommandPalette(q) => {
                assert_eq!(q.sections[0].title, title);
                assert_eq!(q.sections[0].entries.len(), count, "{title}");
            }
            other => panic!("no palette: {other:?}"),
        }
    }
}

#[test]
fn the_palette_of_the_diff_counts_the_reverts() {
    let mut p = popups(PopupState::Closed);
    show_diff_command_palette(&mut p, &keybinding(), 0, 0);
    let undo = |p: &Popups| match &p.popup {
        PopupState::CommandPalette(q) => {
            q.sections[0].entries.iter().find(|e| e.key == "u").unwrap().description.clone()
        }
        other => panic!("no palette: {other:?}"),
    };
    assert_eq!(undo(&p), "Undo last revert (nothing to undo)");
    show_diff_command_palette(&mut p, &keybinding(), 2, 12);
    assert_eq!(undo(&p), "Undo last revert (2/12)");
}

#[test]
fn a_list_without_rows_goes_down_above_its_view_only() {
    let flat = || PopupEnv { screen_height: 9, ..env() };
    let mut p = popups(PopupState::Closed);
    show_command_palette(&mut p, ContextId::Status, &keybinding(), false);
    assert_eq!(palette_visible_height(9), 0);
    assert!(p.try_popup_key(key(KeyCode::Down), flat()).is_none());
    let state = |p: &mut Popups, scroll: usize| match &mut p.popup {
        PopupState::CommandPalette(q) => {
            q.scroll_offset = scroll;
            q.selected
        }
        PopupState::RefPicker(q) => {
            q.core.scroll_offset = scroll;
            q.core.selected
        }
        other => panic!("no list: {other:?}"),
    };
    assert_eq!(state(&mut p, 5), 0);
    assert!(matches!(p.try_popup_key(key(KeyCode::Down), flat()), Some(PopupEffect::Nothing)));
    assert_eq!(state(&mut p, 0), 1);
    assert!(matches!(p.try_popup_key(key(KeyCode::Down), env()), Some(PopupEffect::Nothing)));
    assert_eq!(state(&mut p, 0), 2);
    let mut p = popups(PopupState::RefPicker(RefPicker {
        title: t("R"),
        core: fresh_core(vec![list_item("a"), list_item("b"), list_item("c")], 0),
        allow_freeform: false,
        on_confirm: Action::DoNothing,
    }));
    assert!(p.try_popup_key(key(KeyCode::Down), flat()).is_none());
    assert_eq!(state(&mut p, 2), 0);
    assert!(p.try_popup_key(key(KeyCode::Down), flat()).is_some());
    assert_eq!(state(&mut p, 2), 1);
    assert!(p.try_popup_key(key(KeyCode::Down), flat()).is_none());
    assert!(p.try_popup_key(key(KeyCode::Up), flat()).is_some());
    let mut p = popups(PopupState::ThemePicker(ThemePicker::open(vec![], 0)));
    assert!(p.try_popup_key(key(KeyCode::Up), env()).is_none());
    assert!(matches!(p.popup, PopupState::ThemePicker(_)));
}

#[test]
fn a_command_is_searched_for_and_run() {
    let mut p = popups(PopupState::Closed);
    show_command_palette(&mut p, ContextId::Status, &keybinding(), false);
    if let PopupState::CommandPalette(q) = &mut p.popup {
        for section in q.sections.iter_mut() {
            let keys: Vec<Option<KeyEvent>> = section
                .entries
                .iter()
                .map(|e| {
                    let mut cs = e.key.chars();
                    match (cs.next(), cs.next()) {
                        (Some(c), None) => Some(key(KeyCode::Char(c))),
                        _ => None,
                    }
                })
                .collect();
            bind_commands(section, &keys);
        }
    }
    p.handle_paste("REFRESH", 100, 72);
    match p.handle_popup_key(key(KeyCode::Enter), env()) {
        PopupEffect::Dispatch(k) => assert_eq!(k, key(KeyCode::Char('R'))),
        other => panic!("not run: {other:?}"),
    }
    show_command_palette(&mut p, ContextId::Status, &keybinding(), false);
    p.handle_paste("color theme", 100, 72);
    assert!(matches!(
        p.handle_popup_key(key(KeyCode::Enter), env()),
        PopupEffect::OpenThemePicker
    ));
    assert!(palette_visible_height(40) > 0);
}

#[test]
fn a_hard_wrap_moves_white_space_only() {
    let lines = vec![t("  one  two three"), t(""), t("fourfivesix seven")];
    let (text, _, _) = hard_wrap_plan(&lines, 0, 0, 6).unwrap();
    let ink = |s: &str| -> String { s.chars().filter(|c| !c.is_whitespace()).collect() };
    assert_eq!(ink(&text), "onetwothreefourfivesixseven");
    assert!(text.lines().all(|l| l.len() <= 6));
}
