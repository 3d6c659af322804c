//! What keys mean, what is loaded in the background, and what a frame does.

use lazygitrs::gui::ai_job::{AiCommit, AiCommitOutcome, AiCommitSource, CancelStep};
use lazygitrs::gui::background::{
    is_checkout_ref_not_found, lowered_names_missing_ref, AutoFetch, CommitPages, FilesOutcome,
    FilesRefresh, FilesReply, MenuAsyncResult, RemoteOp, StageCourse,
};
use lazygitrs::gui::context::{ContextId, ScreenMode};
use lazygitrs::gui::controller::commit_files::{
    copy_menu, missing_file, toggle_dir, CommitFilesStep, CommitFilesView,
};
use lazygitrs::gui::controller::conflict_mode;
use lazygitrs::gui::diff_jobs::Selection;
use lazygitrs::gui::diff_keys::{
    active_hunk, handle_diff_focused_key, open_diff_file_in_editor, selection_edit_column,
    toggle_side, DiffCommand, DiffKeyState, DiffSideView, EditFilePlan,
};
use lazygitrs::gui::diff_load::{
    commit_diff_payload, conflict_preview, directory_payload, file_diff_source, file_diff_step,
    parse_file_diff_payload, stash_diff_payload, stash_name, untracked_payload, DiffRender,
    FileDiffSource, FileDiffStep, UntrackedFile,
};
use lazygitrs::git::merge_conflict::{ConflictStageContent, ResolveChoice, TextConflictBlock};
use lazygitrs::gui::input::{KeyCode, KeyEvent, KeyModifiers};
use lazygitrs::gui::keys::{
    context_has_commit_details, handle_context_key, handle_key, portrait_layout, Bindings,
    Controller, KeyCommand, KeyState, SideWindow,
};
use lazygitrs::gui::main_loop::{
    auto_refresh_due, event_course, frame_refresh, frame_timeout, overlay, screen, search_status,
    shows_loading, shows_success, CommitFilters, EventCourse, FrameRefresh, ModelLoad, Overlay,
    PartNews, Screen, TerminalEvent,
};
use lazygitrs::gui::modes::conflict_mode::ConflictModeState;
use lazygitrs::gui::popup::commit_input::{CommitInput, CommitInputFocus, CommitInputKind};
use lazygitrs::gui::popup::history::CommitHistory;
use lazygitrs::gui::popup::keys::{PopupState, Popups};
use lazygitrs::gui::popup::menu::{Menu, MenuItem};
use lazygitrs::gui::popup::Action;
use lazygitrs::gui::refresh::{
    after_model_refresh, details_panel_applies, follow_rebase, reload_remote_branches,
    selected_conflicted_file_name, selected_file_index, Drilled, EntryStatus, RebaseCourse,
    RebaseEntry, RebasePhase, RebaseView,
};
use lazygitrs::gui::search::{Search, SearchStep};
use lazygitrs::gui::startup::Preferences;
use lazygitrs::gui::textarea::TextField;
use lazygitrs::pager::DiffViewLayout;
use lazygitrs::model::{
    Commit, CommitFile, File, FileChangeStatus, FileStatus, Model, ModelPart, Remote, RemoteBranch,
    TreeNode,
};

fn t(s: &str) -> String {
    s.to_string()
}

fn key(code: KeyCode) -> KeyEvent {
    KeyEvent::new(code, KeyModifiers::none())
}

fn unbound() -> Bindings {
    Bindings {
        shrink_side_panel: false,
        expand_side_panel: false,
        side_panel_full: false,
        main_panel_full: false,
        reset_side_panel: false,
        toggle_diff_view_layout: false,
        quit: false,
        quit_alt1: false,
        toggle_panel: false,
        toggle_panel_reverse: false,
        prev_block: false,
        prev_block_alt: false,
        next_block: false,
        next_block_alt: false,
        prev_item: false,
        prev_item_alt: false,
        next_item: false,
        next_item_alt: false,
        goto_top: false,
        goto_bottom: false,
        scroll_down_main_alt1: false,
        scroll_up_main_alt1: false,
        scroll_left: false,
        scroll_right: false,
        refresh: false,
        create_rebase_options_menu: false,
        push_files: false,
        pull_files: false,
        next_screen_mode: false,
        prev_screen_mode: false,
        undo: false,
        redo: false,
        create_patch_options_menu: false,
        start_search: false,
        next_match: false,
        prev_match: false,
        edit: false,
        open_file: false,
        revert_block: false,
        undo_revert_block: false,
    }
}

fn key_state() -> KeyState {
    KeyState {
        popup_open: false,
        search_active: false,
        conflict_mode: false,
        rebase_mode: false,
        diff_mode: false,
        diff_focused: false,
        patch_building: false,
        active: ContextId::Files,
        screen_mode: ScreenMode::Normal,
        screen_width: 120,
        screen_height: 40,
        window: None,
        is_rebasing: false,
        is_merging: false,
        is_cherry_picking: false,
        conflict_selected: false,
        has_search_query: false,
    }
}

fn popups(popup: PopupState) -> Popups {
    Popups {
        popup,
        pending_commit: None,
        saved_commit: None,
        pending_menu: None,
        history: CommitHistory::new(Vec::new()),
        current_theme: 0,
    }
}

fn commit(hash: &str, name: &str) -> Commit {
    Commit { hash: t(hash), name: t(name), author_name: t("a") }
}

fn file(name: &str, conflicts: bool) -> File {
    File {
        name: t(name),
        display_name: t(name),
        status: FileStatus::Modified,
        has_staged_changes: false,
        has_unstaged_changes: true,
        is_tracked: true,
        added: false,
        deleted: false,
        has_merge_conflicts: conflicts,
        short_status: t(" M"),
        hunk_count: 0,
        additions: 0,
        deletions: 0,
    }
}

fn model() -> Model {
    Model {
        repo_name: t(""),
        head_hash: t(""),
        head_branch_name: t(""),
        files: Vec::new(),
        worktrees: Vec::new(),
        submodules: Vec::new(),
        branches: Vec::new(),
        remotes: Vec::new(),
        sub_remote_branches: Vec::new(),
        tags: Vec::new(),
        commits: Vec::new(),
        reflog_commits: Vec::new(),
        sub_commits: Vec::new(),
        stash_entries: Vec::new(),
        commit_files: Vec::new(),
        is_rebasing: false,
        is_merging: false,
        is_cherry_picking: false,
        is_bisecting: false,
        rebase_onto_hash: t(""),
        total_additions: 0,
        total_deletions: 0,
        repo_url: t(""),
        contributors: Vec::new(),
    }
}

fn selection(active: ContextId, selected: usize) -> Selection {
    Selection {
        active,
        selected,
        show_file_tree: false,
        file_tree_nodes: Vec::new(),
        show_commit_file_tree: false,
        commit_file_tree_nodes: Vec::new(),
        commit_files_hash: t(""),
    }
}

fn no_filters() -> CommitFilters {
    CommitFilters { branches: Vec::new(), path: None, authors: Vec::new() }
}

fn rebase_view(entries: &[(&str, EntryStatus)]) -> RebaseView {
    RebaseView {
        active: true,
        phase: RebasePhase::InProgress,
        in_progress_dismissed: false,
        entries: entries.iter().map(|(h, s)| RebaseEntry { hash: t(h), status: *s }).collect(),
        selected: 0,
        scroll: 0,
        visible_height: 2,
        branch_name: t("topic"),
        total_count: 3,
    }
}

// ---------------------------------------------------------------------------
// Keys
// ---------------------------------------------------------------------------

#[test]
fn a_key_goes_to_what_has_the_keys() {
    let b = unbound();
    let k = key(KeyCode::Char('x'));
    let mut s = key_state();
    s.diff_focused = true;
    assert_eq!(handle_key(k, &b, &s), KeyCommand::ToDiffPanel);
    s.diff_mode = true;
    assert_eq!(handle_key(k, &b, &s), KeyCommand::ToDiffMode);
    s.rebase_mode = true;
    assert_eq!(handle_key(k, &b, &s), KeyCommand::ToRebaseMode);
    s.conflict_mode = true;
    assert_eq!(handle_key(k, &b, &s), KeyCommand::ToConflictMode);
    s.popup_open = true;
    assert_eq!(handle_key(k, &b, &s), KeyCommand::ToPopup);
}

#[test]
fn quitting_needs_the_panels_and_the_key() {
    let mut b = unbound();
    b.quit = true;
    let mut s = key_state();
    assert_eq!(handle_key(key(KeyCode::Char('q')), &b, &s), KeyCommand::Quit);
    s.search_active = true;
    assert_eq!(handle_key(key(KeyCode::Char('q')), &b, &s), KeyCommand::ToSearch);
    assert!(portrait_layout(ScreenMode::Normal, 60, 50));
    assert!(!portrait_layout(ScreenMode::Normal, 200, 50));
    assert!(context_has_commit_details(ContextId::Reflog));
    assert!(!context_has_commit_details(ContextId::Tags));
    assert_eq!(handle_context_key(ContextId::Worktrees), Controller::Worktrees);
}

fn diff_state() -> DiffKeyState {
    DiffKeyState {
        search_active: false,
        has_search_query: false,
        selection: None,
        file_exists: true,
        block_mode: false,
        blocks_actionable: true,
        selected_hunk: None,
        hovered_hunk: None,
        can_undo_revert: false,
        active: ContextId::Files,
        window: None,
    }
}

#[test]
fn a_diff_has_its_own_keys() {
    let b = unbound();
    let mut s = diff_state();
    s.selection = Some(true);
    assert!(handle_diff_focused_key(key(KeyCode::Char('j')), &b, &s).drop_selection);
    s.selection = None;
    assert_eq!(
        handle_diff_focused_key(key(KeyCode::Esc), &b, &s).command,
        DiffCommand::Unfocus
    );
    s.selected_hunk = Some(3);
    s.block_mode = true;
    assert_eq!(
        handle_diff_focused_key(key(KeyCode::Enter), &b, &s).command,
        DiffCommand::ShowHunkMenu(3)
    );
    s.block_mode = false;
    let mut bound = unbound();
    bound.revert_block = true;
    assert_eq!(
        handle_diff_focused_key(key(KeyCode::Enter), &bound, &s).command,
        DiffCommand::ShowHunkMenu(3)
    );
    s.window = Some(SideWindow::Commits);
    s.selected_hunk = None;
    assert_eq!(
        handle_diff_focused_key(key(KeyCode::Char('4')), &b, &s).command,
        DiffCommand::FocusWindow(SideWindow::Commits)
    );
    assert_eq!(toggle_side(DiffSideView::Both, true), DiffSideView::NewOnly);
    assert_eq!(toggle_side(DiffSideView::NewOnly, true), DiffSideView::Both);
    assert_eq!(selection_edit_column(25, 20, 4), 10);
    assert_eq!(active_hunk(&vec![2, 10, 20], 12), Some(10));
    assert_eq!(active_hunk(&vec![5, 10], 1), Some(5));
    assert_eq!(active_hunk(&vec![], 0), None);
    assert!(matches!(open_diff_file_in_editor("", true), EditFilePlan::Nothing));
    assert!(matches!(open_diff_file_in_editor("a", false), EditFilePlan::Missing(_)));
    assert!(matches!(open_diff_file_in_editor("a", true), EditFilePlan::Open));
}

#[test]
fn a_conflict_is_saved_once_every_block_is_chosen() {
    let block = |index| TextConflictBlock {
        index,
        context_before: t(""),
        base: None,
        ours: t("o\n"),
        theirs: t("t\n"),
        context_after: t(""),
    };
    let mut s = ConflictModeState::new();
    s.enter(t("f"), vec![block(0), block(1)]);
    s.visible_height = 5;
    conflict_mode::handle_key(&mut s, key(KeyCode::Char('o')));
    assert_eq!(s.blocks[0].choice, Some(ResolveChoice::Ours));
    assert!(conflict_mode::save(&s).is_err());
    s.selected = 1;
    conflict_mode::handle_key(&mut s, key(KeyCode::Char('b')));
    let (path, choices) = conflict_mode::save(&s).unwrap();
    assert_eq!(path, "f");
    assert_eq!(choices, [ResolveChoice::Ours, ResolveChoice::Both]);
    assert!(conflict_mode::after_save(&mut s, Some("no")).is_err());
    assert!(s.active);
    let refresh = conflict_mode::after_save(&mut s, None).unwrap();
    assert!(refresh.all || refresh.files);
    assert!(!s.active);
}

#[test]
fn files_of_a_commit_are_walked_and_copied() {
    let mut dirs = Vec::new();
    toggle_dir(&mut dirs, "src");
    assert_eq!(dirs, ["src"]);
    toggle_dir(&mut dirs, "src");
    assert!(dirs.is_empty());
    let f = CommitFile { name: t("src/a.rs"), status: FileChangeStatus::Modified };
    let menu = copy_menu(&f, "abcdef0123");
    assert!(menu.items.iter().any(|i| matches!(
        i.action,
        Some(Action::CopyText { ref text }) if text == "src/a.rs"
    )));
    assert!(missing_file("gone.rs").contains("gone.rs"));
    let mut v = CommitFilesView {
        show_tree: true,
        nodes: vec![TreeNode {
            path: t("src"),
            name: t("src"),
            is_dir: true,
            file_index: None,
            child_file_indices: vec![0],
        }],
        collapsed: Vec::new(),
        hash: t("abcdef0123"),
        parent: None,
    };
    let step = v.handle_key(
        key(KeyCode::Enter),
        false,
        false,
        false,
        ContextId::CommitFiles,
        0,
        &vec![f],
        true,
    );
    assert!(matches!(step, CommitFilesStep::RebuildTree));
    assert_eq!(v.collapsed, ["src"]);
    let step = v.handle_key(
        key(KeyCode::Esc),
        false,
        false,
        false,
        ContextId::CommitFiles,
        0,
        &vec![],
        true,
    );
    assert!(matches!(step, CommitFilesStep::Leave(ContextId::Commits)));
}

// ---------------------------------------------------------------------------
// In the background
// ---------------------------------------------------------------------------

#[test]
fn the_tree_is_switched_in_both_lists() {
    let v = CommitFilesView {
        show_tree: true,
        nodes: Vec::new(),
        collapsed: Vec::new(),
        hash: t("abc"),
        parent: None,
    };
    let mut p = Preferences {
        show_file_tree: false,
        show_command_log: true,
        diff_line_wrap: false,
        diff_view: DiffViewLayout::SideBySide,
        show_commit_details: true,
    };
    let mut s = selection(ContextId::CommitFiles, 4);
    v.after_tree_switched(&mut p, &mut s);
    assert!(p.show_file_tree && s.show_file_tree && s.show_commit_file_tree);
    assert_eq!(s.selected, 0);
}

#[test]
fn less_than_a_page_of_commits_is_all_there_is() {
    let mut pages = CommitPages::new();
    pages.after_model_refresh(99, 100);
    assert!(pages.complete);
    pages.after_model_refresh(100, 100);
    assert!(!pages.complete);
}

#[test]
fn unresolved_blocks_are_found_from_any_selection() {
    let block = |index: usize| TextConflictBlock {
        index,
        context_before: String::new(),
        base: None,
        ours: t("o"),
        theirs: t("t"),
        context_after: String::new(),
    };
    let mut s = ConflictModeState::new();
    s.enter(t("f"), vec![block(0), block(1), block(2)]);
    s.selected = 7;
    conflict_mode::handle_key(&mut s, key(KeyCode::Char('n')));
    assert_eq!(s.selected, 2);
    s.selected = 7;
    conflict_mode::handle_key(&mut s, key(KeyCode::Char('p')));
    assert_eq!(s.selected, 0);
}

#[test]
fn pages_of_commits_join_without_doubles() {
    let mut pages = CommitPages::new();
    assert!(pages.maybe_request_more_commits(ContextId::Commits, 100, 100, 99, 80, 20));
    assert!(!pages.maybe_request_more_commits(ContextId::Commits, 100, 100, 99, 80, 20));
    let mut commits = vec![commit("a", "1"), commit("b", "2")];
    assert!(!pages.receive_page(7, vec![commit("x", "x")], 2, &mut commits));
    assert!(pages.receive_page(0, vec![commit("b", "2"), commit("c", "3")], 2, &mut commits));
    let hashes: Vec<&str> = commits.iter().map(|c| c.hash.as_str()).collect();
    assert_eq!(hashes, ["a", "b", "c"]);
    assert!(!pages.complete);
    let mut p = popups(PopupState::Closed);
    pages.receive_page_failure(0, "offline", &mut p);
    assert!(pages.complete);
    assert!(matches!(
        p.popup,
        PopupState::Message(ref n) if n.message == "Could not load more commits: offline"
    ));
    pages.reset();
    assert!(!pages.complete && pages.generation == 1);
}

#[test]
fn fetching_waits_for_its_time() {
    let mut f = AutoFetch { in_flight: false, last_at: None };
    assert!(!f.maybe_start_auto_fetch(false, 60, false, 1000));
    assert!(f.maybe_start_auto_fetch(true, 60, false, 1000));
    assert!(!f.maybe_start_auto_fetch(true, 60, false, 2000));
    assert!(f.receive_auto_fetch_result(Some(true)));
    assert!(!f.in_flight);
}

#[test]
fn a_missing_branch_is_offered_to_be_made() {
    assert!(is_checkout_ref_not_found(
        "error: Pathspec 'nope' did not match any file(s) known to git"
    ));
    assert!(!is_checkout_ref_not_found("error: local changes would be overwritten"));
    assert!(lowered_names_missing_ref("error: pathspec 'x' did not match any file(s) known to git"));
    let mut op = RemoteOp::new();
    assert!(op.start_remote_op("Checkout"));
    assert!(!op.start_remote_op("Push"));
    op.pending_checkout = Some(t("nope"));
    let mut p = popups(PopupState::Closed);
    let error = "error: pathspec 'nope' did not match any file(s) known to git";
    assert!(!op.receive_remote_op_result(Some(error), 5, &mut p));
    assert!(matches!(
        p.popup,
        PopupState::Confirm(ref c) if matches!(c.on_confirm, Action::CreateBranch { ref name } if name == "nope")
    ));
    assert!(op.label.is_none());
    assert!(op.start_remote_op("Push"));
    assert!(op.receive_remote_op_result(None, 9, &mut p));
    assert_eq!(op.success_at, Some(9));
}

#[test]
fn staging_and_loading_files_take_turns() {
    let mut f = FilesRefresh { in_progress: false, needed: true };
    assert_eq!(f.enqueue_stage(false), StageCourse::Nothing);
    assert_eq!(f.enqueue_stage(true), StageCourse::ChangeAndReload);
    assert_eq!(f.enqueue_stage(true), StageCourse::ChangeOnly);
    assert!(f.needed);
    assert!(matches!(f.receive_files_refresh(FilesReply::Pending), FilesOutcome::Nothing));
    assert!(matches!(f.receive_files_refresh(FilesReply::Loaded), FilesOutcome::ApplyAndReload));
    let mut f = FilesRefresh { in_progress: false, needed: false };
    assert!(f.start_files_refresh());
    assert!(!f.start_files_refresh());
    assert!(matches!(
        f.receive_files_refresh(FilesReply::Failed(t("bad"))),
        FilesOutcome::ShowError(ref e) if e == "bad"
    ));
    assert!(!f.in_progress);
}

#[test]
fn a_menu_at_work_comes_back_or_is_gone() {
    let menu = Menu::new(
        t("M"),
        vec![MenuItem {
            label: t("copy"),
            description: t(""),
            key: None,
            action: Some(Action::DoNothing),
        }],
    );
    let mut p = popups(PopupState::Closed);
    p.pending_menu = Some(PopupState::Menu(menu));
    p.start_menu_async(0);
    match p.receive_menu_async(Ok(MenuAsyncResult::CopyToClipboard(t("text")))) {
        Some(MenuAsyncResult::CopyToClipboard(s)) => assert_eq!(s, "text"),
        other => panic!("no result: {other:?}"),
    }
    assert!(matches!(p.popup, PopupState::Closed));
    assert!(p.receive_menu_async(Err(t("bad"))).is_none());
}

#[test]
fn a_generated_message_fills_the_editor() {
    let editor = PopupState::CommitInput(CommitInput {
        kind: CommitInputKind::Commit,
        focus: CommitInputFocus::Summary,
        summary_textarea: TextField::with_text("old"),
        on_confirm: Action::CreateCommit,
    });
    let mut p = popups(editor);
    let mut ai = AiCommit::new();
    let n = ai.trigger_ai_commit_generation_from_editor(&mut p, "gen", &vec![], 0).unwrap();
    assert!(matches!(ai.source, AiCommitSource::Staged));
    assert!(matches!(p.popup, PopupState::Closed));
    assert!(p.pending_commit.is_some());
    assert!(ai.receive_ai_commit_result(&mut p, n + 1, AiCommitOutcome::Cancelled).is_none());
    assert!(ai.job.is_some());
    let body = ai.receive_ai_commit_result(&mut p, n, AiCommitOutcome::Message(t("feat: x\n\nwhy")));
    assert_eq!(body.as_deref(), Some("why"));
    match &p.popup {
        PopupState::CommitInput(c) => assert_eq!(c.summary_textarea.joined(), "feat: x"),
        other => panic!("no editor: {other:?}"),
    }
    let mut q = popups(PopupState::Closed);
    assert!(ai.trigger_ai_commit_generation_from_editor(&mut q, " ", &vec![], 0).is_none());
    assert!(matches!(q.popup, PopupState::Message(ref m) if m.title == "AI generation unavailable"));
}

#[test]
fn generating_is_cancelled_by_two_escapes() {
    let mut p = popups(PopupState::Closed);
    let mut ai = AiCommit::new();
    ai.start_ai_commit_generation().unwrap();
    assert_eq!(ai.handle_ai_commit_cancel_key(&mut p, key(KeyCode::Esc), 100), CancelStep::Pass);
    assert_eq!(ai.handle_ai_commit_cancel_key(&mut p, key(KeyCode::Esc), 200), CancelStep::Cancel);
    assert!(ai.job.is_none());
}

// ---------------------------------------------------------------------------
// Loading a diff
// ---------------------------------------------------------------------------

#[test]
fn what_was_read_becomes_what_is_shown() {
    assert!(matches!(commit_diff_payload(None, "abc", false), DiffRender::Empty));
    match commit_diff_payload(Some(t("diff")), "abcdef0123", false) {
        DiffRender::Diff { diff, .. } => assert_eq!(diff, "diff"),
        other => panic!("no diff: {other:?}"),
    }
    assert_eq!(stash_name(2), "stash@{2}");
    assert!(matches!(stash_diff_payload(Some(t("")), 0, true), DiffRender::Empty));
    assert_eq!(file_diff_source(true, true, true), FileDiffSource::Conflict);
    assert_eq!(file_diff_source(false, true, true), FileDiffSource::Unstaged);
    assert_eq!(file_diff_source(false, false, true), FileDiffSource::Staged);
    assert_eq!(file_diff_source(false, false, false), FileDiffSource::Nothing);
    assert!(matches!(
        file_diff_step(&Some(t("")), false, false, false, true),
        FileDiffStep::ShowUntracked
    ));
    assert!(matches!(
        file_diff_step(&Some(t("d")), true, false, false, true),
        FileDiffStep::ShowDiff
    ));
    match untracked_payload("n.txt", false, Some(t("one\n")), true) {
        DiffRender::Content { new_content, old_content, .. } => {
            assert_eq!(new_content, "one\n");
            assert_eq!(old_content, "");
        }
        DiffRender::Diff { diff, .. } => assert!(diff.contains("+one")),
        other => panic!("nothing: {other:?}"),
    }
    assert!(!matches!(
        parse_file_diff_payload("a", "a", t("diff --git"), false, None, None, true),
        DiffRender::Empty
    ));
    assert!(matches!(directory_payload("d", None, &vec![]), DiffRender::Empty));
    let new = UntrackedFile { path: t("d/n"), binary: false, content: Some(t("x\n")) };
    match directory_payload("d", Some(t("")), &vec![new]) {
        DiffRender::Diff { diff, .. } => assert!(diff.contains("+x")),
        other => panic!("nothing: {other:?}"),
    }
    let stages = ConflictStageContent {
        base: None,
        ours: Some(b"o\n".to_vec()),
        theirs: None,
    };
    match conflict_preview("f", Some(stages), true) {
        DiffRender::Conflict { ours, theirs_deleted, ours_deleted, .. } => {
            assert_eq!(ours, "o\n");
            assert!(theirs_deleted && !ours_deleted);
        }
        other => panic!("no preview: {other:?}"),
    }
}

// ---------------------------------------------------------------------------
// Search
// ---------------------------------------------------------------------------

#[test]
fn hits_go_round_in_order() {
    let mut m = model();
    for (i, name) in ["Fix one", "add", "fix two"].iter().enumerate() {
        m.commits.push(commit(&format!("hash{i}0000"), name));
    }
    let s = selection(ContextId::Commits, 0);
    let mut search = Search::new();
    search.start();
    assert!(matches!(search.key(key(KeyCode::Char('F'))), SearchStep::SearchAnew));
    search.query = t("FIX");
    assert_eq!(search.update_search_matches(&s, &m), Some(0));
    assert_eq!(search.matches, [0, 2]);
    assert_eq!(search.goto_next(), Some(2));
    assert_eq!(search.goto_next(), Some(0));
    assert_eq!(search.goto_prev(), Some(2));
    search.clear();
    assert!(search.matches.is_empty());
    assert_eq!(search.goto_next(), None);
}

// ---------------------------------------------------------------------------
// A frame
// ---------------------------------------------------------------------------

#[test]
fn parts_of_the_model_arrive_one_by_one() {
    let mut load = ModelLoad { running: true, received: 0, refresh_in_progress: true };
    let mut m = model();
    let mut pages = CommitPages::new();
    let news = load.take_part(
        &mut m,
        &mut pages,
        &no_filters(),
        ModelPart::Files(vec![file("a", false)]),
        100,
    );
    assert!(news.files);
    assert_eq!(m.files.len(), 1);
    load.take_part(
        &mut m,
        &mut pages,
        &no_filters(),
        ModelPart::Commits(vec![commit("a", "x")]),
        100,
    );
    assert_eq!(m.commits.len(), 1);
    assert_eq!(load.received, 2);
    let kept = CommitFilters { branches: vec![t("dev")], path: None, authors: Vec::new() };
    assert!(kept.is_set());
    load.take_part(&mut m, &mut pages, &kept, ModelPart::Commits(vec![]), 100);
    assert_eq!(m.commits.len(), 1);
    let frame = load.after_parts(PartNews { files: true, rebasing: false }, 0, 3, false, false, true);
    assert!(frame.rebuild_tree && frame.refreshed);
    assert!(!load.running && !load.refresh_in_progress);
    assert!(load.start_background_refresh(&mut pages));
    assert!(!load.start_background_refresh(&mut pages));
}

#[test]
fn a_frame_shows_one_screen_and_one_overlay() {
    assert_eq!(screen(true, true, true), Screen::ConflictMode);
    assert_eq!(screen(false, false, false), Screen::Panels);
    assert_eq!(overlay(Screen::Panels, true, true, true), Overlay::Popup);
    assert_eq!(overlay(Screen::Panels, false, false, false), Overlay::Nothing);
    assert_eq!(search_status(false, "", 0, 0), None);
    assert!(!shows_loading(false, Some(0), 1000));
    assert!(!shows_loading(true, Some(1000), 1000));
    assert!(!shows_success(None, 5));
    assert!(frame_timeout(true, false, false, false, false, false)
        <= frame_timeout(false, false, false, false, false, false));
    assert!(!auto_refresh_due(false, 10, 0, 1_000_000));
    assert!(auto_refresh_due(true, 10, 0, 1_000_000));
    let load = ModelLoad { running: false, received: 0, refresh_in_progress: false };
    assert_eq!(frame_refresh(true, true, &load, false), FrameRefresh::Everything);
    assert_eq!(frame_refresh(false, true, &load, false), FrameRefresh::Files);
    assert_eq!(frame_refresh(false, true, &load, true), FrameRefresh::Nothing);
    let busy = ModelLoad { running: false, received: 0, refresh_in_progress: true };
    assert_eq!(frame_refresh(true, true, &busy, false), FrameRefresh::Nothing);
    assert_eq!(event_course(TerminalEvent::KeyOther, true), EventCourse::Nothing);
    assert_eq!(event_course(TerminalEvent::FocusGained, true), EventCourse::Refresh);
    assert_eq!(event_course(TerminalEvent::FocusGained, false), EventCourse::Nothing);
}

#[test]
fn a_rebase_is_followed_and_its_end_told() {
    let mut p = popups(PopupState::Closed);
    let mut v = rebase_view(&[
        ("a", EntryStatus::Done),
        ("b", EntryStatus::Current),
        ("c", EntryStatus::Pending),
    ]);
    v.selected = 2;
    v.scroll = 1;
    let place = v.place();
    assert_eq!(place.current_hash.as_deref(), Some("b"));
    v.selected = 0;
    v.scroll = 0;
    assert!(v.return_to(&place));
    assert_eq!((v.selected, v.scroll), (2, 1));
    v.entries[1].status = EntryStatus::Done;
    v.entries[2].status = EntryStatus::Current;
    assert!(!v.return_to(&place));
    assert_eq!(follow_rebase(true, &mut v, &mut p), RebaseCourse::Sync);
    assert_eq!(follow_rebase(false, &mut v, &mut p), RebaseCourse::Finished);
    assert!(!v.active);
    assert!(matches!(
        p.popup,
        PopupState::Message(ref n)
            if n.message == "Successfully rebased 'topic' (3 commits)."
    ));
    v.active = false;
    v.in_progress_dismissed = true;
    assert_eq!(follow_rebase(true, &mut v, &mut p), RebaseCourse::Nothing);
    assert_eq!(follow_rebase(false, &mut v, &mut p), RebaseCourse::Nothing);
    assert_eq!(follow_rebase(true, &mut v, &mut p), RebaseCourse::Sync);
}

#[test]
fn what_went_with_the_model_is_loaded_again() {
    let mut m = model();
    m.files.push(file("a", true));
    m.commits.push(commit("abc", "x"));
    let s = selection(ContextId::Files, 0);
    assert_eq!(selected_file_index(&s), Some(0));
    assert_eq!(selected_conflicted_file_name(&s, &m.files).as_deref(), Some("a"));
    assert!(!details_panel_applies(true, &s, &m));
    assert!(details_panel_applies(true, &selection(ContextId::Commits, 0), &m));
    assert!(!details_panel_applies(false, &selection(ContextId::Commits, 0), &m));
    let mut files = selection(ContextId::CommitFiles, 0);
    files.commit_files_hash = t("abc");
    assert!(details_panel_applies(true, &files, &m));
    let drilled = Drilled {
        branch_commits_name: t("dev"),
        remote_branches_name: t("origin"),
        sub_commits_parent: ContextId::RemoteBranches,
    };
    let r = after_model_refresh(&selection(ContextId::BranchCommits, 0), &drilled, &no_filters());
    assert!(r.branch_commits && r.remote_branches && !r.commit_files && !r.filtered_commits);
    let r = after_model_refresh(&files, &drilled, &no_filters());
    assert!(r.commit_files && !r.branch_commits && !r.commit_file_tree);
    m.remotes.push(Remote { name: t("origin"), branches: vec![RemoteBranch { name: t("dev") }] });
    reload_remote_branches(&mut m, "gone");
    assert!(m.sub_remote_branches.is_empty());
    reload_remote_branches(&mut m, "origin");
    assert_eq!(m.sub_remote_branches[0].name, "dev");
}

#[test]
fn parts_of_a_frame_are_taken_in_their_order() {
    let mut load = ModelLoad { running: true, received: 1, refresh_in_progress: false };
    let mut m = model();
    let mut pages = CommitPages::new();
    let news = load.take_parts(
        &mut m,
        &mut pages,
        &no_filters(),
        vec![
            ModelPart::Commits(vec![commit("a", "x"), commit("b", "y")]),
            ModelPart::Commits(vec![commit("c", "z")]),
            ModelPart::Files(vec![file("a", false)]),
        ],
        2,
    );
    assert_eq!(news, PartNews { files: true, rebasing: false });
    assert_eq!(load.received, 4);
    assert_eq!(m.commits.len(), 1);
    assert_eq!(m.commits[0].hash, "c");
    assert!(pages.complete);
    let none = load.take_parts(&mut m, &mut pages, &no_filters(), vec![], 2);
    assert_eq!(none, PartNews { files: false, rebasing: false });
    assert_eq!(load.received, 4);
}
