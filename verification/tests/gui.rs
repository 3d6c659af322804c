//! Keys, references, undo, and the diff pane.

use lazygitrs::app::App;
use lazygitrs::git::merge_conflict::{ResolveChoice, TextConflictBlock};
use lazygitrs::gui::context::{exit_sub_contexts, ContextId, ScreenMode};
use lazygitrs::gui::controller::input_normalization::replace_spaces_with_dashes;
use lazygitrs::gui::controller::worktrees::{
    after_worktree_branch, after_worktree_path, check_existing_branch,
    default_branch_name_from_path, existing_local_branch_items, is_allowed_existing_local_branch,
    prompt_worktree_path, remove_worktree, sanitize_branch_name_suggestion, switch_worktree,
    worktree_base_ref_items,
};
use lazygitrs::gui::diff_cache::{
    diff_key_is_immutable, DiffPreviewCache, DIFF_PREVIEW_CACHE_ENTRIES,
};
use lazygitrs::gui::diff_jobs::{
    current_diff_key, maybe_prefetch_diffs, maybe_request_diff, pathspec_for_tree_path, plan_diff_load, prefetch_plan,
    synthesize_binary_file_diff, synthesize_new_file_diff, DiffLoad, DiffRequest, DiffScheduler,
    Selection,
};
use lazygitrs::gui::diff_keys::{edit_selection, DiffCommand};
use lazygitrs::gui::diff_pane::{DiffPane, DiffPayload, DiffResult};
use lazygitrs::gui::input::{
    diff_block_mode_actionable, is_diff_block_mode_toggle, plain_char_key, KeyCode, KeyEvent,
    KeyModifiers,
};
use lazygitrs::gui::interactive::{
    editor_exit, open_with_default_program, run_edit_request, EditPlan, EditRequest, EditorCmd,
    EditorExit,
};
use lazygitrs::gui::keys::KeyCommand;
use lazygitrs::gui::main_loop::Leaving;
use lazygitrs::gui::modes::conflict_mode::{ConflictBlockState, ConflictModeState};
use lazygitrs::gui::picker::{
    list_picker_display_idx, list_picker_visible_height, ref_picker_confirm_value,
    update_ref_picker_search, ListPickerCore, ListPickerItem,
};
use lazygitrs::gui::popup::conflict_blocks::{ConflictBlocks, ConflictBlocksStep};
use lazygitrs::gui::popup::history::{
    draft_of, join_commit_message, split_commit_message, split_first_line,
};
use lazygitrs::gui::popup::keys::PopupState;
use lazygitrs::gui::popup::Action;
use lazygitrs::gui::presentation::conflict_mode::{
    choice_badge, choice_label, render, result_panel_lines, result_preview, Tone,
};
use lazygitrs::gui::startup::{
    clipboard_command, keyboard_enhancement_flags, mouse_capture_without_hover, read_clipboard,
    starting_preferences, starting_theme, ClipboardSystem, Gui, GuiConfig, SavedState,
};
use lazygitrs::gui::textarea::TextField;
use lazygitrs::gui::undo::{redo, reflog_args, reflog_undo_action, undo, ReflogUndoAction};
use lazygitrs::model::{Branch, Commit, File, FileStatus, Model, StashEntry, Worktree};
use lazygitrs::pager::{
    estimate_diff_view_bytes, ChangeType, DiffLine, DiffViewLayout, DiffViewState,
};

fn held(shift: bool, control: bool, command: bool) -> KeyModifiers {
    KeyModifiers { shift, control, alt: false, command, hyper: false, meta: false }
}

fn key(code: KeyCode) -> KeyEvent {
    KeyEvent::new(code, KeyModifiers::none())
}

fn picker_core() -> ListPickerCore {
    ListPickerCore {
        items: vec![ListPickerItem {
            value: "feature".to_string(),
            label: "feature".to_string(),
            category: "Local Branches".to_string(),
        }],
        selected: 0,
        search_textarea: TextField::new(),
        scroll_offset: 0,
    }
}

fn view(name: &str) -> DiffViewState {
    let mut view = DiffViewState::new();
    view.filename = name.to_string();
    view.lines.push(DiffLine {
        old_line: Some((1, "old".to_string())),
        new_line: Some((1, "new".to_string())),
        change_type: ChangeType::Modified,
        old_segments: None,
        new_segments: None,
        file_header: None,
        section_index: 0,
    });
    view
}

fn empty_cache() -> DiffPreviewCache {
    DiffPreviewCache::default()
}

fn branch(name: &str, head: bool) -> Branch {
    Branch {
        name: name.to_string(),
        hash: String::new(),
        recency: String::new(),
        pushables: String::new(),
        pullables: String::new(),
        upstream: None,
        head,
    }
}

fn worktree(branch: &str) -> Worktree {
    Worktree {
        path: String::new(),
        branch: branch.to_string(),
        hash: String::new(),
        is_current: false,
        is_main: false,
    }
}

fn commit(hash: &str, name: &str) -> Commit {
    Commit { hash: hash.to_string(), name: name.to_string(), author_name: "a".to_string() }
}

fn file(name: &str) -> File {
    File {
        name: name.to_string(),
        display_name: name.to_string(),
        status: FileStatus::Modified,
        has_staged_changes: false,
        has_unstaged_changes: true,
        is_tracked: true,
        added: false,
        deleted: false,
        has_merge_conflicts: false,
        short_status: " M".to_string(),
        hunk_count: 1,
        additions: 1,
        deletions: 1,
    }
}

fn model() -> Model {
    Model {
        repo_name: String::new(),
        head_hash: String::new(),
        head_branch_name: String::new(),
        files: Vec::new(),
        worktrees: Vec::new(),
        submodules: Vec::new(),
        branches: Vec::new(),
        remotes: Vec::new(),
        sub_remote_branches: Vec::new(),
        tags: Vec::new(),
        commits: Vec::new(),
        reflog_commits: Vec::new(),
        sub_commits: Vec::new(),
        stash_entries: Vec::new(),
        commit_files: Vec::new(),
        is_rebasing: false,
        is_merging: false,
        is_cherry_picking: false,
        is_bisecting: false,
        rebase_onto_hash: String::new(),
        total_additions: 0,
        total_deletions: 0,
        repo_url: String::new(),
        contributors: Vec::new(),
    }
}

fn selection(active: ContextId, selected: usize) -> Selection {
    Selection {
        active,
        selected,
        show_file_tree: false,
        file_tree_nodes: Vec::new(),
        show_commit_file_tree: false,
        commit_file_tree_nodes: Vec::new(),
        commit_files_hash: String::new(),
    }
}

fn block(index: usize) -> TextConflictBlock {
    TextConflictBlock {
        index,
        context_before: String::new(),
        base: Some(format!("base-{index}\n")),
        ours: format!("ours-{index}\n"),
        theirs: format!("theirs-{index}\n"),
        context_after: String::new(),
    }
}

fn chosen_both() -> ConflictBlockState {
    ConflictBlockState {
        block: TextConflictBlock {
            index: 0,
            context_before: "before\n".to_string(),
            base: Some("base\n".to_string()),
            ours: "ours\n".to_string(),
            theirs: "theirs\n".to_string(),
            context_after: "after\n".to_string(),
        },
        choice: Some(ResolveChoice::Both),
    }
}

// ---------------------------------------------------------------------------
// References
// ---------------------------------------------------------------------------

#[test]
fn freeform_ref_picker_search_injects_raw_ref_item() {
    let mut core = picker_core();

    update_ref_picker_search(&mut core, "deadbeef", true, 10);

    assert_eq!(core.items[0].category, "[ref]");
    assert_eq!(core.items[0].value, "deadbeef");
    assert_eq!(core.selected, 0);
    assert_eq!(
        ref_picker_confirm_value(&core, "deadbeef", true),
        Some("deadbeef".to_string())
    );
}

#[test]
fn selection_only_ref_picker_search_does_not_inject_raw_ref_item() {
    let mut core = picker_core();

    update_ref_picker_search(&mut core, "deadbeef", false, 10);

    assert_eq!(core.items.len(), 1);
    assert_eq!(core.items[0].category, "Local Branches");
    assert_eq!(core.items[0].value, "feature");
    assert_eq!(core.selected, core.items.len());
}

#[test]
fn selection_only_ref_picker_does_not_confirm_unmatched_search_text() {
    let mut core = picker_core();

    update_ref_picker_search(&mut core, "deadbeef", false, 10);

    assert_eq!(ref_picker_confirm_value(&core, "deadbeef", false), None);
}

#[test]
fn a_search_ignores_letter_case() {
    let mut core = picker_core();
    core.items.push(ListPickerItem {
        value: "Release".to_string(),
        label: "Release".to_string(),
        category: "Tags".to_string(),
    });
    update_ref_picker_search(&mut core, "RELEASE", false, 10);
    assert_eq!(core.selected, 1);
    assert_eq!(list_picker_display_idx(&core.items, 0), 1);
    assert_eq!(list_picker_display_idx(&core.items, 1), 3);
    assert_eq!(list_picker_visible_height(40), 19);
    assert_eq!(list_picker_visible_height(10), 1);
}

#[test]
fn existing_local_branch_items_exclude_occupied_and_detached_worktree_markers() {
    let branches = vec![
        branch("main", true),
        branch("feature", false),
        branch("occupied", false),
        branch("detached-name", false),
        branch("", false),
    ];
    let worktrees = vec![
        worktree("main"),
        worktree("occupied"),
        worktree(""),
        worktree("(detached)"),
    ];

    let items = existing_local_branch_items(&branches, &worktrees);

    assert_eq!(items.len(), 2);
    assert_eq!(items[0].value, "feature");
    assert_eq!(items[0].label, "feature");
    assert_eq!(items[0].category, "Local Branches");
    assert_eq!(items[1].value, "detached-name");
}

#[test]
fn existing_local_branch_validation_rejects_raw_non_listed_refs() {
    let items = vec![ListPickerItem {
        value: "feature".to_string(),
        label: "feature".to_string(),
        category: "Local Branches".to_string(),
    }];

    assert!(is_allowed_existing_local_branch("feature", &items));
    assert!(is_allowed_existing_local_branch(" feature ", &items));
    assert!(!is_allowed_existing_local_branch("origin/feature", &items));
    assert!(!is_allowed_existing_local_branch("deadbeef", &items));
    assert!(!is_allowed_existing_local_branch("", &items));
}

#[test]
fn default_branch_name_from_path_sanitizes_space_containing_paths() {
    assert_eq!(
        default_branch_name_from_path("/tmp/feature branch"),
        Some("feature-branch".to_string())
    );
    assert_eq!(
        default_branch_name_from_path("/tmp/  spaced   branch  "),
        Some("spaced-branch".to_string())
    );
    assert_eq!(default_branch_name_from_path("/tmp/###"), None);
}

#[test]
fn trims_and_replaces_spaces_with_dashes() {
    assert_eq!(replace_spaces_with_dashes("feature branch"), "feature-branch");
    assert_eq!(replace_spaces_with_dashes("  spaced branch  "), "spaced-branch");
    assert_eq!(replace_spaces_with_dashes("feature  branch"), "feature--branch");
    assert_eq!(replace_spaces_with_dashes("feature/child branch"), "feature/child-branch");
}

#[test]
fn a_worktree_is_asked_for_step_by_step() {
    let mut m = model();
    m.branches.push(branch("main", true));
    m.branches.push(branch("free", false));
    m.commits.push(commit("0123456789", "first"));
    m.head_branch_name = "main".to_string();
    assert!(matches!(after_worktree_path(&m, "  "), PopupState::Input(_)));
    assert!(!matches!(after_worktree_path(&m, "/tmp/w"), PopupState::Closed));
    match after_worktree_branch(&m, "/tmp/w".to_string(), "my branch") {
        PopupState::RefPicker(p) => {
            assert_eq!(p.core.items[0].label, "main (current, default)");
            assert!(matches!(
                p.on_confirm,
                Action::WorktreeBase { ref branch, .. } if branch == "my-branch"
            ));
        }
        other => panic!("no list: {other:?}"),
    }
    let items = worktree_base_ref_items(&m);
    assert_eq!(items.last().unwrap().label, "0123456 first");
    assert_eq!(items.last().unwrap().value, "0123456789");
    assert!(check_existing_branch(&m, "free").is_ok());
    assert!(check_existing_branch(&m, "other").is_err());
    let mut w = worktree("free");
    w.path = "/tmp/w".to_string();
    let mut current = worktree("main");
    current.is_current = true;
    let all = vec![current, w];
    assert!(remove_worktree(&all, 0).is_none());
    let asked = remove_worktree(&all, 1).unwrap();
    assert_eq!(asked.title, "Remove worktree");
    assert_eq!(
        asked.message,
        "Remove worktree 'free' (/tmp/w)?\nThis won't delete the branch."
    );
    assert!(switch_worktree(&all, 0).is_none());
    assert!(switch_worktree(&all, 1).is_some());
    assert!(switch_worktree(&all, 2).is_none());
}

// ---------------------------------------------------------------------------
// Editing
// ---------------------------------------------------------------------------

fn req() -> EditRequest {
    EditRequest::at("/tmp/lazygitrs-test-file".to_string(), None)
}

#[test]
fn edit_request_at_defaults_the_column_to_one() {
    let r = EditRequest::at("/tmp/a.rs".to_string(), Some(3));
    assert_eq!(r.column, 1);
    assert_eq!(r.line, Some(3));
    assert_eq!(r.path, "/tmp/a.rs");
}

#[test]
fn run_editor_blocking_succeeds_on_a_zero_exit() {
    let cmd = EditorCmd { template: "true {{filename}}".to_string(), suspend: true };
    match run_edit_request(Some(&cmd), "", &req()) {
        EditPlan::RunSuspended(command) => {
            assert_eq!(command, "true '/tmp/lazygitrs-test-file'");
            assert!(editor_exit(EditorExit::Success, &command).is_ok());
        }
        other => panic!("not run: {other:?}"),
    }
}

#[test]
fn run_editor_blocking_reports_a_non_zero_exit() {
    let err = editor_exit(EditorExit::Code(3), "exit 3").unwrap_err();
    assert!(err.contains('3'), "exit code missing from: {err}");
}

#[test]
fn run_editor_blocking_reports_a_missing_editor_as_127() {
    let err = editor_exit(EditorExit::Code(127), "lazygitrs-no-such-editor-xyz").unwrap_err();
    assert!(err.contains("127"), "expected status 127 in: {err}");
}

#[test]
fn run_editor_blocking_quotes_a_path_containing_a_space() {
    let cmd = EditorCmd { template: "test -n {{filename}}".to_string(), suspend: true };
    let request = EditRequest::at("/my repo/a b.rs".to_string(), None);
    match run_edit_request(Some(&cmd), "", &request) {
        EditPlan::RunSuspended(command) => assert_eq!(command, "test -n '/my repo/a b.rs'"),
        other => panic!("not run: {other:?}"),
    }
}

#[test]
fn open_with_default_program_errors_when_nothing_is_configured() {
    let err = open_with_default_program("").unwrap_err();
    assert!(err.contains("os.edit"), "unhelpful error: {err}");
    assert!(err.contains("os.editPreset"), "unhelpful error: {err}");
}

// ---------------------------------------------------------------------------
// Messages, keys and the terminal
// ---------------------------------------------------------------------------

#[test]
fn split_commit_message_keeps_summary_and_body_separate() {
    assert_eq!(
        split_commit_message("feat: add editor\n\nExplain the change.\nKeep this line."),
        (
            "feat: add editor".to_string(),
            "Explain the change.\nKeep this line.".to_string()
        )
    );
}

#[test]
fn split_commit_message_handles_subject_only() {
    assert_eq!(
        split_commit_message("fix: subject only"),
        ("fix: subject only".to_string(), String::new())
    );
}

#[test]
fn the_body_follows_the_first_blank_line() {
    let split = |s: &str| split_commit_message(s);
    let parts = |a: &str, b: &str| (a.to_string(), b.to_string());
    assert_eq!(split("subject\nline2\n\nbody"), parts("subject", "body"));
    assert_eq!(split("subject\nline2"), parts("subject", ""));
    assert_eq!(split("subject\n\n\nbody"), parts("subject", "\nbody"));
    assert_eq!(split("\n\nbody"), parts("", "body"));
    assert_eq!(split("subject\nline2\n \t\nbody"), parts("subject", "body"));
    assert_eq!(split("subject\r\n\r\nbody\r\n"), parts("subject\r", "body\r\n"));
    assert_eq!(split("subject\n\n"), parts("subject", ""));
    assert_eq!(split("subject\n  "), parts("subject", ""));
    assert_eq!(split(""), parts("", ""));
    assert_eq!(split(&draft_of("fix: x", "\nwhy\n")), parts("fix: x", "\nwhy\n"));
    assert_eq!(split_first_line("a\nb\n\nc"), parts("a", "b\n\nc"));
    assert_eq!(split_first_line("a\n\n\nc"), parts("a", "c"));
    assert_eq!(split_first_line("a"), parts("a", ""));
}

#[test]
fn splitting_undoes_joining_a_message() {
    let joined = join_commit_message("fix: x", "why\nhow");
    assert_eq!(joined, "fix: x\n\nwhy\nhow");
    assert_eq!(split_commit_message(&joined), ("fix: x".to_string(), "why\nhow".to_string()));
}

#[test]
fn keyboard_enhancement_preserves_terminal_text_input() {
    let flags = keyboard_enhancement_flags();

    assert!(flags.disambiguate_escape_codes);
    assert!(!flags.report_all_keys_as_escape_codes);
    assert!(!flags.report_event_types);
    assert!(!flags.report_alternate_keys);
}

#[test]
fn plain_character_shortcuts_reject_extra_modifiers() {
    assert!(plain_char_key(KeyEvent::new(KeyCode::Char('I'), held(true, false, false)), 'I'));
    assert!(!plain_char_key(KeyEvent::new(KeyCode::Char('I'), held(true, false, true)), 'I'));
    assert!(plain_char_key(KeyEvent::new(KeyCode::Char('G'), held(true, false, false)), 'G'));
    assert!(!plain_char_key(KeyEvent::new(KeyCode::Char('G'), held(true, true, false)), 'G'));
    assert!(!plain_char_key(key(KeyCode::Char('g')), 'G'));
}

#[test]
fn diff_block_mode_requires_unstaged_changes_and_hunks() {
    assert!(diff_block_mode_actionable(true, 1));
    assert!(!diff_block_mode_actionable(false, 1));
    assert!(!diff_block_mode_actionable(true, 0));
    assert!(!diff_block_mode_actionable(false, 0));
}

#[test]
fn diff_block_mode_toggle_accepts_shift_b_terminal_forms() {
    assert!(is_diff_block_mode_toggle(key(KeyCode::Char('B'))));
    assert!(is_diff_block_mode_toggle(KeyEvent::new(
        KeyCode::Char('b'),
        held(true, false, false)
    )));
    assert!(!is_diff_block_mode_toggle(key(KeyCode::Char('b'))));
}

#[test]
fn mouse_capture_does_not_request_passive_motion_events() {
    let ansi = mouse_capture_without_hover();

    assert!(ansi.contains("\x1b[?1000h"));
    assert!(ansi.contains("\x1b[?1002h"));
    assert!(ansi.contains("\x1b[?1006h"));
    assert!(!ansi.contains("\x1b[?1003h"));
}

#[test]
fn the_clipboard_is_read_without_the_space_around_it() {
    assert_eq!(clipboard_command(ClipboardSystem::Other), "xclip -selection clipboard -o");
    assert_eq!(clipboard_command(ClipboardSystem::MacOs), "pbpaste");
    assert_eq!(read_clipboard(true, " a b \n"), Some("a b".to_string()));
    assert_eq!(read_clipboard(false, "x"), None);
}

// ---------------------------------------------------------------------------
// Undo
// ---------------------------------------------------------------------------

#[test]
fn reflog_undo_reverses_a_checkout_with_a_checkout_not_a_reset() {
    assert_eq!(
        reflog_undo_action("2e41a2d3a", "checkout: moving from SEOAI-771 to main"),
        ReflogUndoAction::Checkout("2e41a2d3a".to_string()),
    );
    assert_eq!(
        reflog_undo_action("abc123", "switch: moving from a to b"),
        ReflogUndoAction::Checkout("abc123".to_string()),
    );
}

#[test]
fn reflog_undo_reverses_content_moving_ops_with_a_reset() {
    for subject in [
        "commit: add feature",
        "commit (amend): reword",
        "reset: moving to abc123",
        "pull: Fast-forward",
        "merge topic: Merge made by the 'ort' strategy.",
        "rebase (finish): returning to refs/heads/main",
        "cherry-pick: pick a change",
    ] {
        assert_eq!(
            reflog_undo_action("def456", subject),
            ReflogUndoAction::Reset("def456".to_string()),
            "operation {subject:?} moves the current branch tip, so undo must reset",
        );
    }
}

#[test]
fn undo_asks_before_it_moves_anything() {
    assert!(reflog_args().contains(&"reflog".to_string()));
    assert!(undo("", 0).is_none());
    assert!(redo("", 0).is_none());
}

// ---------------------------------------------------------------------------
// Conflicts
// ---------------------------------------------------------------------------

#[test]
fn unresolved_conflict_block_enter_preserves_choices_and_focuses_first_unresolved() {
    let plain = |index: usize| TextConflictBlock {
        index,
        context_before: String::new(),
        base: None,
        ours: format!("ours-{}\n", index + 1),
        theirs: format!("theirs-{}\n", index + 1),
        context_after: String::new(),
    };
    let mut popup = ConflictBlocks {
        path: "file.txt".to_string(),
        blocks: vec![plain(0), plain(1)],
        choices: vec![Some(ResolveChoice::Ours), None],
        selected: 0,
        scroll_offset: 0,
    };

    assert!(popup.focus_first_unresolved());

    assert_eq!(popup.choices, vec![Some(ResolveChoice::Ours), None]);
    assert_eq!(popup.selected, 1);
    assert_eq!(popup.scroll_offset, 0);

    assert!(matches!(popup.key(key(KeyCode::Enter)), ConflictBlocksStep::Stay));
    popup.key(key(KeyCode::Char('t')));
    match popup.key(key(KeyCode::Enter)) {
        ConflictBlocksStep::Resolve(choices) => {
            assert_eq!(choices, vec![ResolveChoice::Ours, ResolveChoice::Theirs]);
        }
        other => panic!("not resolved: {other:?}"),
    }
}

#[test]
fn enter_starts_with_all_blocks_unresolved() {
    let mut state = ConflictModeState::new();

    state.enter("file.txt".to_string(), vec![block(0), block(1)]);

    assert!(state.active);
    assert_eq!(state.path, "file.txt");
    assert_eq!(state.selected, 0);
    assert_eq!(state.scroll, 0);
    assert_eq!(state.blocks.len(), 2);
    assert!(state.blocks.iter().all(|block| block.choice.is_none()));
    assert_eq!(state.unresolved_count(), 2);
}

#[test]
fn collect_choices_rejects_unresolved_blocks() {
    let mut state = ConflictModeState::new();
    state.enter("file.txt".to_string(), vec![block(0), block(1)]);
    state.set_choice_current(ResolveChoice::Ours);

    let err = state.collect_choices().unwrap_err();

    assert!(err.message().contains("Choose ours/theirs/both"));
    assert_eq!(state.unresolved_count(), 1);
}

#[test]
fn collect_choices_returns_ordered_choices_after_all_blocks_resolved() {
    let mut state = ConflictModeState::new();
    state.enter("file.txt".to_string(), vec![block(0), block(1)]);
    state.set_choice_current(ResolveChoice::Theirs);
    state.move_down();
    state.set_choice_current(ResolveChoice::Both);

    assert_eq!(
        state.collect_choices().unwrap(),
        vec![ResolveChoice::Theirs, ResolveChoice::Both]
    );
    assert_eq!(state.unresolved_count(), 0);
}

#[test]
fn navigation_is_bounded_and_keeps_selection_visible() {
    let mut state = ConflictModeState::new();
    state.enter("file.txt".to_string(), vec![block(0), block(1), block(2), block(3)]);
    state.visible_height = 2;

    state.move_up();
    assert_eq!(state.selected, 0);

    state.move_down();
    state.move_down();
    state.move_down();
    state.move_down();

    assert_eq!(state.selected, 3);
    assert_eq!(state.scroll, 2);
}

#[test]
fn result_panel_lines_dim_context_and_color_actual_changes() {
    let lines = result_panel_lines(&chosen_both());

    assert_eq!(lines.len(), 4);
    assert_eq!(lines[0].text, "  before");
    assert_eq!(lines[1].text, "→ ours");
    assert_eq!(lines[2].text, "← theirs");
    assert_eq!(lines[3].text, "  after");
    assert_eq!(lines[0].tone, Tone::Context);
    assert_eq!(lines[1].tone, Tone::Ours);
    assert_eq!(lines[2].tone, Tone::Theirs);
}

#[test]
fn result_preview_includes_context_around_selected_change() {
    assert_eq!(result_preview(&chosen_both()), "before\nours\ntheirs\nafter\n");
}

#[test]
fn conflict_mode_render_does_not_panic_on_compact_terminal() {
    let mut state = ConflictModeState::new();
    state.enter(
        "file.txt".to_string(),
        vec![TextConflictBlock {
            index: 0,
            context_before: "before\n".to_string(),
            base: Some("base\n".to_string()),
            ours: "ours\n".to_string(),
            theirs: "theirs\n".to_string(),
            context_after: "after\n".to_string(),
        }],
    );
    let scene = render(&mut state, 80, 16);
    assert_eq!(scene.outline.status.y, 15);
    let inside = scene.inside.expect("room enough");
    assert_eq!(state.visible_height, 12);
    assert_eq!(inside.areas.list.width, 19);
    assert_eq!((inside.areas.ours.x, inside.areas.ours.y), (20, 2));
    assert_eq!(inside.areas.theirs.x + inside.areas.theirs.width, 79);
    assert_eq!(inside.areas.both.y + inside.areas.both.height, 14);
    let row: String = inside.rows[0].iter().map(|p| p.text.as_str()).collect();
    assert_eq!(row, "\u{25b6} ? Block 1");
    let detail = inside.detail.expect("a block is selected");
    let header: String = detail.header.iter().map(|p| p.text.as_str()).collect();
    assert!(header.starts_with(" Block 1 / 1 Result: unresolved  Ours "));
    assert_eq!(detail.panels.len(), 5);
    assert_eq!(detail.panels[3].title, " Base ");
    assert_eq!(detail.panels[3].lines[1].text, "\u{2022} base");
    assert!(detail.panels.iter().all(|p| !p.highlighted));
    let status: String = scene.status.iter().map(|p| p.text.as_str()).collect();
    assert!(status.ends_with("esc/q: cancel  unresolved: 1"));
}

#[test]
fn a_small_screen_shows_only_the_frame() {
    let mut state = ConflictModeState::new();
    for (width, height) in [(0, 0), (1, 1), (21, 9), (80, 6), (65535, 2)] {
        assert!(render(&mut state, width, height).inside.is_none());
    }
    let inside = render(&mut state, 22, 7).inside.expect("room enough");
    assert!(inside.rows.is_empty() && inside.detail.is_none());
    state.blocks = vec![chosen_both()];
    let inside = render(&mut state, 40, 7).inside.expect("room enough");
    let panels = inside.detail.unwrap().panels;
    assert!(panels[1].highlighted && panels[4].highlighted && !panels[0].highlighted);
}

#[test]
fn each_choice_has_its_badge() {
    assert_ne!(choice_badge(None), choice_badge(Some(ResolveChoice::Ours)));
    assert_ne!(choice_label(Some(ResolveChoice::Both)), choice_label(Some(ResolveChoice::Theirs)));
}

// ---------------------------------------------------------------------------
// The diff pane
// ---------------------------------------------------------------------------

#[test]
fn diff_preview_cache_moves_recent_views_and_enforces_entry_limit() {
    let mut cache = empty_cache();
    for index in 0..=DIFF_PREVIEW_CACHE_ENTRIES {
        cache.insert(format!("key-{index}"), view(&format!("file-{index}")));
    }

    assert_eq!(cache.entries.len(), DIFF_PREVIEW_CACHE_ENTRIES);
    assert!(cache.take("key-0").is_none());
    let restored = cache.take(&format!("key-{DIFF_PREVIEW_CACHE_ENTRIES}"));
    assert_eq!(
        restored.map(|view| view.filename),
        Some(format!("file-{DIFF_PREVIEW_CACHE_ENTRIES}"))
    );
}

#[test]
fn immutable_diff_keys_are_hash_scoped_only() {
    assert!(diff_key_is_immutable("Commits:abc123"));
    assert!(diff_key_is_immutable("Reflog:abc123"));
    assert!(diff_key_is_immutable("BranchCommits:abc123"));
    assert!(diff_key_is_immutable("Stash:abc123"));
    assert!(!diff_key_is_immutable("Files:file:src/main.rs"));
    assert!(!diff_key_is_immutable("DiffMode:main..dev:file:src/main.rs"));
    assert!(!diff_key_is_immutable("CommitFiles:abc:file:src/main.rs"));
    assert!(!diff_key_is_immutable("StashFiles:abc:file:src/main.rs"));
    assert!(!diff_key_is_immutable("BranchCommitFiles:abc:file:src/main.rs"));
}

#[test]
fn retain_immutable_keeps_commit_diffs_and_recomputes_bytes() {
    let mut cache = empty_cache();
    for key in ["Commits:abc", "Files:file:a.rs", "Stash:def"] {
        cache.insert(key.to_string(), view(key));
    }

    cache.retain_immutable();

    assert!(cache.contains("Commits:abc"));
    assert!(cache.contains("Stash:def"));
    assert!(!cache.contains("Files:file:a.rs"));
    let expected: usize = cache.entries.iter().map(|e| e.estimated_bytes).sum();
    assert_eq!(cache.estimated_bytes, expected);
    assert!(estimate_diff_view_bytes(&view("x")) >= 6);
    cache.remove("Stash:def");
    assert!(!cache.contains("Stash:def"));
    cache.clear();
    assert_eq!(cache.estimated_bytes, 0);
}

#[test]
fn diff_scheduler_starts_immediately_and_keeps_latest_overflow_job() {
    let mut scheduler: DiffScheduler<String> = DiffScheduler::new();
    assert_eq!(scheduler.on_job(1, "commit:1".to_string(), 1).as_deref(), Some("commit:1"));
    assert_eq!(scheduler.on_job(1, "commit:2".to_string(), 1).as_deref(), Some("commit:2"));
    assert!(scheduler.on_job(1, "commit:3".to_string(), 1).is_none());
    assert!(scheduler.on_job(1, "commit:4".to_string(), 1).is_none());
    assert_eq!(scheduler.on_complete(1).as_deref(), Some("commit:4"));
    assert!(scheduler.on_job(1, "commit:5".to_string(), 1).is_none());
    assert!(scheduler.on_complete(2).is_none());
}

#[test]
fn a_diff_is_asked_for_shown_and_kept() {
    let mut m = model();
    m.commits.push(commit("aaaaaaaaaa", "one"));
    m.commits.push(commit("bbbbbbbbbb", "two"));
    let mut pane = DiffPane::new(false, DiffViewLayout::SideBySide);
    let s = selection(ContextId::Commits, 0);
    assert_eq!(current_diff_key(&s, &m, &None), "Commits:aaaaaaaaaa");
    let generation = match maybe_request_diff(&mut pane, false, &s, &m, &None, 5) {
        Some(DiffRequest::Load { generation, diff_key, load }) => {
            assert_eq!(diff_key, "Commits:aaaaaaaaaa");
            assert!(matches!(load, DiffLoad::Commit { ref hash, .. } if hash == "aaaaaaaaaa"));
            generation
        }
        other => panic!("not asked for: {other:?}"),
    };
    assert!(pane.loading);
    pane.receive_diff_result(DiffResult {
        generation,
        diff_key: "Commits:aaaaaaaaaa".to_string(),
        payload: DiffPayload::Loaded(view("one")),
        is_prefetch: false,
    });
    assert!(!pane.loading);
    assert_eq!(pane.view.filename, "one");
    pane.receive_diff_result(DiffResult {
        generation: generation - 1,
        diff_key: "Commits:old".to_string(),
        payload: DiffPayload::Loaded(view("stale")),
        is_prefetch: false,
    });
    assert_eq!(pane.view.filename, "one");
    assert!(pane.maybe_prefetch_one("Commits:bbbbbbbbbb"));
    pane.receive_diff_result(DiffResult {
        generation: 0,
        diff_key: "Commits:bbbbbbbbbb".to_string(),
        payload: DiffPayload::Loaded(view("two")),
        is_prefetch: true,
    });
    assert_eq!(pane.view.filename, "one");
    assert!(pane.cache.contains("Commits:bbbbbbbbbb"));
    let below = selection(ContextId::Commits, 1);
    pane.needs_refresh = true;
    assert!(maybe_request_diff(&mut pane, false, &below, &m, &None, 6).is_none());
    assert_eq!(pane.view.filename, "two");
    assert!(pane.cache.contains("Commits:aaaaaaaaaa"));
}

#[test]
fn what_is_loaded_follows_the_selection() {
    let mut m = model();
    m.files.push(file("src/a.rs"));
    m.stash_entries.push(StashEntry { hash: "cc".to_string(), name: "s".to_string(), index: 0 });
    match plan_diff_load(&selection(ContextId::Files, 0), &m) {
        Some(DiffLoad::File { name, has_unstaged, .. }) => {
            assert_eq!(name, "src/a.rs");
            assert!(has_unstaged);
        }
        other => panic!("no file: {other:?}"),
    }
    assert!(matches!(
        plan_diff_load(&selection(ContextId::Stash, 0), &m),
        Some(DiffLoad::Stash { index: 0 })
    ));
    assert!(plan_diff_load(&selection(ContextId::Branches, 0), &m).is_none());
    assert_eq!(prefetch_plan(ContextId::Commits, 5, 100).len(), 4);
    assert_eq!(pathspec_for_tree_path("src"), Some("src/".to_string()));
    assert!(synthesize_new_file_diff("n.txt", "one\n").contains("+one"));
    assert!(synthesize_binary_file_diff("b.bin").contains("b.bin"));
}

// ---------------------------------------------------------------------------
// Starting
// ---------------------------------------------------------------------------

fn nothing_saved() -> SavedState {
    SavedState {
        show_file_tree: None,
        show_command_log: None,
        diff_line_wrap: None,
        diff_view: None,
        show_commit_details: None,
        color_theme: None,
    }
}

#[test]
fn a_choice_outlives_the_run() {
    let c = GuiConfig { show_file_tree: true, show_command_log: false };
    let mut s = nothing_saved();
    let p = starting_preferences(&s, c);
    assert!(p.show_file_tree && !p.show_command_log && !p.diff_line_wrap);
    assert!(p.show_commit_details);
    assert_eq!(p.diff_view, DiffViewLayout::SideBySide);
    let mut gui = Gui::new(&s, c, &vec!["system".to_string()], None);
    gui.preferences.show_file_tree = false;
    gui.preferences.show_commit_details = false;
    gui.preferences.show_command_log = true;
    gui.pane.view.wrap = true;
    gui.pane.view.view_layout = DiffViewLayout::Unified;
    gui.persist_file_tree_visibility(&mut s);
    gui.persist_diff_line_wrap(&mut s);
    gui.persist_diff_view_layout(&mut s);
    gui.persist_commit_details_visibility(&mut s);
    gui.persist_command_log_visibility(&mut s);
    let q = starting_preferences(&s, c);
    assert!(!q.show_file_tree && q.show_command_log && q.diff_line_wrap);
    assert!(!q.show_commit_details);
    assert_eq!(q.diff_view, DiffViewLayout::Unified);
}

#[test]
fn the_program_starts_with_nothing_open() {
    let ids = vec!["system".to_string(), "default".to_string()];
    assert_eq!(starting_theme(&ids, &Some("default".to_string())), 1);
    assert_eq!(starting_theme(&ids, &Some("gone".to_string())), 0);
    assert_eq!(starting_theme(&ids, &None), 0);
    let c = GuiConfig { show_file_tree: true, show_command_log: false };
    let gui = Gui::new(&nothing_saved(), c, &ids, Some("one\0\0two\0"));
    assert!(matches!(gui.popups.popup, PopupState::Closed));
    assert_eq!(gui.popups.history.messages, ["one", "two"]);
    assert!(gui.popups.history.idx.is_none() && gui.popups.history.draft.is_empty());
    assert!(gui.pane.needs_refresh && gui.pane.view.is_empty());
    assert!(!gui.pane.loading && gui.pane.loading_since.is_none());
    assert!(gui.pane.last_key.is_empty() && gui.pane.displayed_key.is_empty());
    assert_eq!((gui.pane.generation, gui.pane.inflight.len()), (0, 0));
    assert_eq!((gui.pane.cache.entries.len(), gui.pane.cache.estimated_bytes), (0, 0));
    assert!(gui.show_commit_file_tree);
    assert_eq!(gui.screen_mode, ScreenMode::Normal);
    let mut gui = gui;
    assert_eq!(gui.active_theme(&ids), Some(&ids[0]));
    gui.popups.current_theme = 2;
    assert_eq!(gui.active_theme(&ids), None);
    assert_eq!(gui.take_pending_repo_open(), None);
    gui.request_repo_open("/other".to_string());
    assert!(gui.leaving.should_quit);
    assert_eq!(gui.take_pending_repo_open(), Some("/other".to_string()));
    assert_eq!(gui.take_pending_repo_open(), None);
}

#[test]
fn commands_switch_and_switch_back() {
    let c = GuiConfig { show_file_tree: true, show_command_log: false };
    let mut gui = Gui::new(&nothing_saved(), c, &vec![], None);
    gui.carry_out(KeyCommand::ToggleCommandLog);
    assert!(gui.preferences.show_command_log);
    gui.carry_out(KeyCommand::ToggleCommandLog);
    assert!(!gui.preferences.show_command_log);
    gui.carry_out(KeyCommand::ToggleDetails);
    assert!(!gui.preferences.show_commit_details);
    gui.carry_out(KeyCommand::NextScreenMode);
    assert_eq!(gui.screen_mode, ScreenMode::Half);
    gui.carry_out(KeyCommand::PrevScreenMode);
    assert_eq!(gui.screen_mode, ScreenMode::Normal);
    gui.carry_out(KeyCommand::Refresh);
    assert!(gui.needs_refresh && !gui.leaving.should_quit);
    gui.carry_out_in_diff(DiffCommand::ToggleWrap);
    assert!(gui.pane.view.wrap);
    gui.diff_focused = true;
    gui.carry_out_in_diff(DiffCommand::Stay);
    assert!(gui.diff_focused);
    gui.carry_out_in_diff(DiffCommand::Unfocus);
    assert!(!gui.diff_focused);
    gui.carry_out(KeyCommand::Quit);
    assert!(gui.leaving.should_quit);
}

#[test]
fn selected_text_is_edited_where_its_file_is() {
    let open = edit_selection("a.rs", "/r/a.rs".to_string(), true, None, Some(7), 3).unwrap();
    assert_eq!((open.path.as_str(), open.line, open.column), ("/r/a.rs", Some(7), 3));
    let open = edit_selection("a.rs", "/r/a.rs".to_string(), true, Some(2), Some(7), 3).unwrap();
    assert_eq!(open.line, Some(2));
    assert_eq!(
        edit_selection("a.rs", "/r/a.rs".to_string(), false, None, None, 1).unwrap_err(),
        "file does not exist: a.rs"
    );
    assert_eq!(
        edit_selection("", "/r".to_string(), true, None, None, 1).unwrap_err(),
        "file does not exist: "
    );
}

#[test]
fn another_repository_is_opened_with_the_same_flags() {
    let err = App::new("/nowhere".to_string(), false, false).unwrap_err();
    assert_eq!(err, "'/nowhere' is not a git repository");
    let app = App::new("/repo".to_string(), true, true).unwrap();
    let mut leaving = Leaving::new();
    leaving.request_repo_open("/other repo".to_string());
    assert!(leaving.should_quit);
    assert_eq!(app.run(&mut leaving).unwrap(), ["--path", "/other repo", "--debug"]);
    let app = App::new("/repo".to_string(), false, true).unwrap();
    assert!(app.run(&mut leaving).is_none());
    assert!(leaving.pending_repo_open.is_none());
}

#[test]
fn screens_go_round_and_contexts_lead_back() {
    let m = ScreenMode::Normal;
    assert_eq!(m.next_screen_mode().prev_screen_mode(), m);
    assert_eq!(m.next_screen_mode().next_screen_mode().next_screen_mode(), m);
    assert_eq!(exit_sub_contexts(ContextId::CommitFiles), ContextId::Commits);
    assert_eq!(exit_sub_contexts(ContextId::Files), ContextId::Files);
}

#[test]
fn only_neighbours_that_never_change_are_loaded_ahead() {
    let mut m = model();
    for hash in ["aaaaaaaaaa", "bbbbbbbbbb", "cccccccccc", "dddddddddd"] {
        m.commits.push(commit(hash, "subject"));
    }
    let mut pane = DiffPane::new(false, DiffViewLayout::SideBySide);
    assert!(maybe_prefetch_diffs(&mut pane, true, ContextId::Commits, 0, 0, &m).is_empty());
    let jobs = maybe_prefetch_diffs(&mut pane, false, ContextId::Commits, 0, 0, &m);
    let keys: Vec<&str> = jobs.iter().map(|j| j.diff_key.as_str()).collect();
    assert_eq!(keys, ["Commits:bbbbbbbbbb", "Commits:cccccccccc"]);
    assert!(keys.iter().all(|k| diff_key_is_immutable(k)));
    assert!(maybe_prefetch_diffs(&mut pane, false, ContextId::Commits, 0, 0, &m).is_empty());
}

#[test]
fn a_suggested_name_is_suggested_as_it_is() {
    for raw in ["  My feature!! ", "a--b..", "-.x_y.-", "ünïcode name", "v1.2.3"] {
        let s = sanitize_branch_name_suggestion(raw).unwrap();
        assert_eq!(sanitize_branch_name_suggestion(&s), Some(s));
    }
    for raw in ["", " -. ", "...", "é!?"] {
        assert_eq!(sanitize_branch_name_suggestion(raw), None);
    }
    assert_eq!(prompt_worktree_path().textarea.lines(), [""]);
}

#[test]
fn the_blocks_beside_the_list_come_first_on_a_narrow_screen() {
    for (width, list) in [(32, 10), (35, 13), (39, 17), (40, 18), (60, 18), (100, 24)] {
        let mut s = ConflictModeState::new();
        let scene = render(&mut s, width, 20);
        let inside = scene.inside.unwrap();
        assert_eq!((inside.areas.list.x, inside.areas.list.width), (1, list));
        assert_eq!((inside.areas.detail.x, inside.areas.detail.width), (1 + list, width - 2 - list));
    }
    for (height, main, status) in [(0, 0, 0), (1, 1, 0), (2, 1, 1), (3, 2, 1)] {
        let mut s = ConflictModeState::new();
        let o = render(&mut s, 80, height).outline;
        assert_eq!((o.main.height, o.status.y, o.status.height), (main, main, status));
    }
}
