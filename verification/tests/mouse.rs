//! The mouse: the divider, the panels, the lists and the windows.

use lazygitrs::gui::context::{ContextId, ScreenMode};
use lazygitrs::gui::diff_jobs::Selection;
use lazygitrs::gui::areas::area_above_status;
use lazygitrs::gui::diff_mode::{
    after_pick, diff_mode_areas, handle_diff_mode_mouse, mouse_in_areas, AfterPick, DiffModeAreas,
    DiffModeCommand, DiffModeSelector, DiffModeState,
};
use lazygitrs::gui::hunks::{
    after_block, after_restore, enter_diff_block_mode_or_show_message, plan_block, revert_hunk_at_position,
    show_hunk_context_menu, try_handle_revert_block_click, BlockDeed, BlockPlan, DiffCell,
    RevertUndo, RevertUndoEntry,
};
use lazygitrs::gui::input::{
    rect_contains, KeyModifiers, MouseButton, MouseEvent, MouseEventKind, Rect,
};
use lazygitrs::gui::keys::SideWindow;
use lazygitrs::gui::layout::{
    content_area_rect, index_of_window, list_item_in_row, portrait_sidebar_resize_offset,
    scroll_viewport, sidebar_divider_hit, sidebar_ratio_from_mouse, sidebar_visible_height,
    window_at, FrameLayout,
};
use lazygitrs::gui::mouse::{
    follow_hover, handle_mouse, handle_mouse_click, handle_panel_mouse, ClickCommand,
    MouseCourse, MouseState, PanelCommand, PanelState, ResizeStep, SideResize,
};
use lazygitrs::gui::picker::{can_follow_wheel, ListPickerCore, ListPickerItem};
use lazygitrs::gui::popup::checklist::{Checklist, ChecklistItem};
use lazygitrs::gui::popup::commit_input::{CommitInput, CommitInputFocus, CommitInputKind};
use lazygitrs::gui::popup::history::CommitHistory;
use lazygitrs::gui::popup::keys::{PopupState, Popups};
use lazygitrs::gui::popup::menu::{Menu, MenuItem};
use lazygitrs::gui::popup::mouse::{MouseEnv, PopupMouseEffect};
use lazygitrs::gui::popup::palette::{CommandAction, CommandEntry, CommandPalette, CommandSection};
use lazygitrs::gui::popup::pickers::{RefPicker, ThemePicker};
use lazygitrs::gui::popup::Action;
use lazygitrs::gui::refresh::{EntryStatus, RebaseEntry, RebasePhase, RebaseView};
use lazygitrs::gui::selection::{release, DiffPanel, PanelCells, TextSelection};
use lazygitrs::gui::textarea::TextField;
use lazygitrs::model::{File, FileStatus};

const LEFT: MouseEventKind = MouseEventKind::Down(MouseButton::Left);

fn at(kind: MouseEventKind, column: u16, row: u16) -> MouseEvent {
    MouseEvent { kind, column, row, modifiers: KeyModifiers::none() }
}

fn rect(x: u16, y: u16, width: u16, height: u16) -> Rect {
    Rect { x, y, width, height }
}

fn landscape() -> FrameLayout {
    FrameLayout {
        side_panels: vec![
            rect(0, 0, 30, 3),
            rect(0, 3, 30, 10),
            rect(0, 13, 30, 8),
            rect(0, 21, 30, 8),
            rect(0, 29, 30, 10),
        ],
        main_panel: rect(30, 0, 70, 30),
        commit_details_panel: Some(rect(30, 30, 70, 9)),
        portrait: false,
    }
}

fn portrait() -> FrameLayout {
    FrameLayout {
        side_panels: vec![
            rect(0, 0, 60, 1),
            rect(0, 1, 60, 10),
            rect(0, 11, 60, 1),
            rect(0, 12, 60, 1),
            rect(0, 13, 60, 1),
        ],
        main_panel: rect(0, 14, 60, 20),
        commit_details_panel: None,
        portrait: true,
    }
}

fn mouse_state() -> MouseState {
    MouseState {
        mouse_events: true,
        screen_mode: ScreenMode::Normal,
        rebase_mode: false,
        diff_mode: false,
        on_divider: false,
        divider_offset: 0,
        ai_button: None,
        message_body: None,
    }
}

fn idle() -> SideResize {
    SideResize { resizing: false, row_offset: 0 }
}

fn panel_state() -> PanelState {
    PanelState {
        screen_mode: ScreenMode::Normal,
        diff_focused: false,
        diff_empty: false,
        revert_hunk: None,
        panel: Some(DiffPanel::New),
        active: SideWindow::Files,
    }
}

fn popups(popup: PopupState) -> Popups {
    Popups {
        popup,
        pending_commit: None,
        saved_commit: None,
        pending_menu: None,
        history: CommitHistory::new(Vec::new()),
        current_theme: 0,
    }
}

fn plain_list(n: usize) -> ListPickerCore {
    ListPickerCore {
        items: (0..n)
            .map(|i| ListPickerItem {
                value: format!("v{i}"),
                label: format!("l{i}"),
                category: String::new(),
            })
            .collect(),
        selected: 0,
        search_textarea: TextField::new(),
        scroll_offset: 0,
    }
}

fn env(item_at: Option<usize>) -> MouseEnv {
    MouseEnv { screen_width: 100, screen_height: 40, item_at }
}

fn file(unstaged: bool) -> File {
    File {
        name: "a.rs".to_string(),
        display_name: "a.rs".to_string(),
        status: FileStatus::Modified,
        has_staged_changes: !unstaged,
        has_unstaged_changes: unstaged,
        is_tracked: true,
        added: false,
        deleted: false,
        has_merge_conflicts: false,
        short_status: " M".to_string(),
        hunk_count: 1,
        additions: 1,
        deletions: 0,
    }
}

fn files_selected() -> Selection {
    Selection {
        active: ContextId::Files,
        selected: 0,
        show_file_tree: false,
        file_tree_nodes: Vec::new(),
        show_commit_file_tree: false,
        commit_file_tree_nodes: Vec::new(),
        commit_files_hash: String::new(),
    }
}

// ---------------------------------------------------------------------------
// Areas
// ---------------------------------------------------------------------------

#[test]
fn an_area_has_its_cells_and_no_others() {
    let r = rect(2, 3, 4, 5);
    assert!(rect_contains(r, 2, 3) && rect_contains(r, 5, 7));
    assert!(!rect_contains(r, 6, 3) && !rect_contains(r, 2, 8) && !rect_contains(r, 1, 3));
    assert!(!rect_contains(rect(0, 0, 0, 0), 0, 0));
    assert_eq!(content_area_rect(80, 24), rect(0, 0, 80, 23));
    assert_eq!(content_area_rect(80, 0), rect(0, 0, 80, 0));
    assert_eq!(window_at(index_of_window(SideWindow::Stash)), Some(SideWindow::Stash));
    assert_eq!(window_at(5), None);
}

#[test]
fn the_divider_is_hit_where_it_is_drawn() {
    let f = landscape();
    let hit = |col, row| {
        sidebar_divider_hit(&f, ScreenMode::Normal, 100, 40, SideWindow::Files, col, row)
    };
    assert!(hit(29, 5) && hit(30, 5) && hit(31, 5));
    assert!(!hit(28, 5) && !hit(32, 5));
    assert!(!hit(30, 39));
    assert!(!sidebar_divider_hit(&f, ScreenMode::Full, 100, 40, SideWindow::Files, 30, 5));
    let f = portrait();
    let hit = |row| sidebar_divider_hit(&f, ScreenMode::Normal, 60, 35, SideWindow::Status, 5, row);
    assert!(hit(14) && hit(10));
    assert!(!hit(9) && !hit(11) && !hit(13));
}

#[test]
fn both_grips_of_the_divider_drag_it_alike() {
    let f = portrait();
    let low = portrait_sidebar_resize_offset(&f, SideWindow::Files, 10);
    assert_eq!(low, 4);
    assert_eq!(portrait_sidebar_resize_offset(&f, SideWindow::Files, 14), 0);
    assert_eq!(
        sidebar_ratio_from_mouse(true, 60, 35, low, 0, 10),
        sidebar_ratio_from_mouse(true, 60, 35, 0, 0, 14)
    );
    assert_eq!(sidebar_ratio_from_mouse(true, 60, 35, low, 0, 10), Some((14, 34)));
    assert_eq!(sidebar_ratio_from_mouse(false, 60, 35, 0, 200, 3), Some((60, 60)));
    assert_eq!(sidebar_ratio_from_mouse(false, 60, 1, 0, 3, 0), None);
    assert_eq!(portrait_sidebar_resize_offset(&landscape(), SideWindow::Files, 10), 0);
}

#[test]
fn a_view_moves_within_its_list() {
    assert_eq!(scroll_viewport(0, true, 3, 20, 10), 3);
    assert_eq!(scroll_viewport(9, true, 3, 20, 10), 10);
    assert_eq!(scroll_viewport(2, false, 3, 20, 10), 0);
    assert_eq!(scroll_viewport(5, true, 3, 4, 10), 0);
    assert_eq!(list_item_in_row(5, 2, 10), Some(7));
    assert_eq!(list_item_in_row(5, 5, 10), None);
    let f = landscape();
    assert_eq!(sidebar_visible_height(&f, ScreenMode::Normal, false, SideWindow::Files), 8);
    assert_eq!(sidebar_visible_height(&f, ScreenMode::Full, false, SideWindow::Files), 28);
    assert_eq!(sidebar_visible_height(&f, ScreenMode::Full, true, SideWindow::Files), 8);
}

#[test]
fn the_screen_is_split_by_the_layout() {
    assert_eq!(area_above_status(80, 24), rect(0, 0, 80, 23));
    let a = diff_mode_areas(100, 40);
    assert_eq!(a.selector_a, rect(0, 0, 33, 3));
    assert_eq!(a.selector_b, rect(0, 3, 33, 3));
    assert_eq!(a.files, rect(0, 6, 33, 33));
    assert_eq!(a.diff, rect(33, 0, 67, 39));
}

#[test]
fn a_screen_of_any_size_is_cut_to_the_cell() {
    for height in [2u16, 3, 7, 8, 9, 24, 51, 200] {
        for width in (0u16..=160).chain([999, 5000, 65535]) {
            assert_eq!(area_above_status(width, height), rect(0, 0, width, height - 1));
            if height < 8 {
                continue;
            }
            let left = ((33 * width as u32 + 50) / 100) as u16;
            let a = diff_mode_areas(width, height);
            assert_eq!(a.selector_a, rect(0, 0, left, 3));
            assert_eq!(a.selector_b, rect(0, 3, left, 3));
            assert_eq!(a.files, rect(0, 6, left, height - 7));
            assert_eq!(a.diff, rect(left, 0, width - left, height - 1));
        }
    }
    assert!(area_above_status(80, 1).height <= 1);
    assert_eq!(area_above_status(80, 0).height, 0);
}

// ---------------------------------------------------------------------------
// Who has the mouse
// ---------------------------------------------------------------------------

#[test]
fn a_mouse_that_is_switched_off_does_nothing() {
    let mut s = mouse_state();
    s.mouse_events = false;
    s.on_divider = true;
    let mut resize = idle();
    let course = handle_mouse(at(LEFT, 30, 5), &s, &mut resize, &PopupState::Closed, "");
    assert_eq!(course, MouseCourse::Ignore);
    assert_eq!(resize, idle());
}

#[test]
fn the_divider_is_grabbed_dragged_and_let_go() {
    let mut s = mouse_state();
    s.on_divider = true;
    s.divider_offset = 4;
    let mut resize = idle();
    let closed = PopupState::Closed;
    assert_eq!(
        handle_mouse(at(LEFT, 30, 5), &s, &mut resize, &closed, ""),
        MouseCourse::Resize(ResizeStep::Grab)
    );
    assert_eq!(resize, SideResize { resizing: true, row_offset: 4 });
    let drag = MouseEventKind::Drag(MouseButton::Left);
    assert_eq!(
        handle_mouse(at(drag, 35, 5), &s, &mut resize, &closed, ""),
        MouseCourse::Resize(ResizeStep::Follow)
    );
    let up = MouseEventKind::Up(MouseButton::Left);
    assert_eq!(
        handle_mouse(at(up, 35, 5), &s, &mut resize, &closed, ""),
        MouseCourse::Resize(ResizeStep::LetGo)
    );
    assert_eq!(resize, idle());
    let window = PopupState::Menu(Menu::new("M".to_string(), Vec::new()));
    assert_eq!(
        handle_mouse(at(LEFT, 30, 5), &s, &mut resize, &window, ""),
        MouseCourse::ToPopup
    );
    assert_eq!(resize, idle());
}

#[test]
fn the_editor_has_its_button_and_its_body() {
    let editor = PopupState::CommitInput(CommitInput {
        kind: CommitInputKind::Commit,
        focus: CommitInputFocus::Summary,
        summary_textarea: TextField::new(),
        on_confirm: Action::CreateCommit,
    });
    let mut s = mouse_state();
    s.ai_button = Some(rect(10, 5, 4, 1));
    s.message_body = Some(rect(5, 8, 40, 6));
    let mut resize = idle();
    let mut course =
        |mouse, generate: &str| handle_mouse(mouse, &s, &mut resize, &editor, generate);
    assert_eq!(course(at(LEFT, 11, 5), "gen"), MouseCourse::GenerateMessage);
    assert_eq!(course(at(LEFT, 11, 5), "  "), MouseCourse::ShowHowTo);
    assert_eq!(
        course(at(MouseEventKind::ScrollDown, 6, 9), ""),
        MouseCourse::ScrollMessage { down: true }
    );
    assert_eq!(course(at(LEFT, 6, 9), ""), MouseCourse::ToPanels);
}

#[test]
fn modes_come_before_windows() {
    let mut s = mouse_state();
    let mut resize = idle();
    let palette = PopupState::CommandPalette(CommandPalette {
        sections: Vec::new(),
        selected: 0,
        search_textarea: TextField::new(),
        scroll_offset: 0,
    });
    s.diff_mode = true;
    assert_eq!(
        handle_mouse(at(LEFT, 1, 1), &s, &mut resize, &palette, ""),
        MouseCourse::Ignore
    );
    assert_eq!(
        handle_mouse(at(MouseEventKind::ScrollUp, 1, 1), &s, &mut resize, &palette, ""),
        MouseCourse::ToPopup
    );
    assert_eq!(
        handle_mouse(at(LEFT, 1, 1), &s, &mut resize, &PopupState::Closed, ""),
        MouseCourse::ToDiffMode
    );
    s.rebase_mode = true;
    assert_eq!(
        handle_mouse(at(LEFT, 1, 1), &s, &mut resize, &palette, ""),
        MouseCourse::ToRebase
    );
}

// ---------------------------------------------------------------------------
// Panels
// ---------------------------------------------------------------------------

#[test]
fn clicks_lead_to_what_is_under_them() {
    let f = landscape();
    let s = panel_state();
    assert_eq!(
        handle_mouse_click(&f, &s, 5, 3),
        ClickCommand::Title { window: SideWindow::Files, column: 5 }
    );
    assert_eq!(
        handle_mouse_click(&f, &s, 5, 6),
        ClickCommand::Item { window: SideWindow::Files, switch: false, row: 2 }
    );
    assert_eq!(
        handle_mouse_click(&f, &s, 5, 15),
        ClickCommand::Item { window: SideWindow::Branches, switch: true, row: 1 }
    );
    assert_eq!(handle_mouse_click(&f, &s, 40, 5), ClickCommand::FocusDiff);
    assert_eq!(handle_mouse_click(&f, &s, 40, 32), ClickCommand::Nothing);
    let mut full = s;
    full.screen_mode = ScreenMode::Full;
    assert_eq!(handle_mouse_click(&f, &full, 40, 5), ClickCommand::SelectRow(4));
    let mut empty = s;
    empty.diff_empty = true;
    assert_eq!(handle_mouse_click(&f, &empty, 40, 5), ClickCommand::Nothing);
}

#[test]
fn the_wheel_turns_what_is_under_it() {
    let f = landscape();
    let s = panel_state();
    let down = MouseEventKind::ScrollDown;
    assert_eq!(
        handle_panel_mouse(&f, &s, at(down, 40, 32)),
        PanelCommand::ScrollDetails { down: true }
    );
    assert_eq!(handle_panel_mouse(&f, &s, at(down, 40, 5)), PanelCommand::ScrollDiff { down: true });
    assert_eq!(handle_panel_mouse(&f, &s, at(down, 5, 5)), PanelCommand::ScrollList { down: true });
    let mut shifted = at(MouseEventKind::ScrollUp, 40, 5);
    shifted.modifiers.shift = true;
    assert_eq!(
        handle_panel_mouse(&f, &s, shifted),
        PanelCommand::ScrollDiffSideways { right: false, drop_selection: true }
    );
    assert_eq!(
        handle_panel_mouse(&f, &s, at(MouseEventKind::ScrollRight, 40, 5)),
        PanelCommand::ScrollDiffSideways { right: true, drop_selection: false }
    );
    assert_eq!(
        handle_panel_mouse(&f, &s, at(MouseEventKind::ScrollRight, 5, 5)),
        PanelCommand::Nothing
    );
}

#[test]
fn a_press_in_the_diff_selects_or_reverts() {
    let f = landscape();
    let mut s = panel_state();
    assert_eq!(
        handle_panel_mouse(&f, &s, at(LEFT, 40, 5)),
        PanelCommand::BeginSelection(DiffPanel::New)
    );
    s.panel = None;
    assert_eq!(handle_panel_mouse(&f, &s, at(LEFT, 40, 5)), PanelCommand::DropSelection);
    s.revert_hunk = Some(2);
    assert_eq!(handle_panel_mouse(&f, &s, at(LEFT, 40, 5)), PanelCommand::RevertBlock(2));
    s.screen_mode = ScreenMode::Full;
    assert_eq!(
        handle_panel_mouse(&f, &s, at(LEFT, 40, 5)),
        PanelCommand::Click(ClickCommand::SelectRow(4))
    );
}

#[test]
fn a_selection_follows_the_mouse_until_it_is_let_go() {
    let cells = PanelCells { content_start: 20, content_end: 50, inner_y: 2, inner_end_y: 30 };
    let mut t = TextSelection::begin(DiffPanel::Old, 25, 5);
    t.drag(cells, 3, 200);
    assert_eq!((t.end_col, t.end_row), (15, 29));
    t.drag(cells, 90, 0);
    assert_eq!((t.end_col, t.end_row), (49, 2));
    let mut t = release(Some(t), false).unwrap();
    assert!(!t.dragging && !t.is_click);
    t.drag(cells, 30, 6);
    assert_eq!((t.end_col, t.end_row), (49, 2));
    let click = || Some(TextSelection::begin(DiffPanel::Old, 25, 5));
    assert!(release(click(), true).unwrap().is_click);
    assert!(release(click(), false).is_none());
    assert!(release(None, true).is_none());
}

// ---------------------------------------------------------------------------
// Rebase and diff mode
// ---------------------------------------------------------------------------

fn rebase(n: usize, phase: RebasePhase) -> RebaseView {
    RebaseView {
        active: true,
        phase,
        in_progress_dismissed: false,
        entries: (0..n)
            .map(|i| RebaseEntry { hash: format!("h{i}"), status: EntryStatus::Pending })
            .collect(),
        selected: 0,
        scroll: 0,
        visible_height: 10,
        branch_name: "b".to_string(),
        total_count: n,
    }
}

#[test]
fn a_step_of_a_rebase_is_clicked_below_the_banner() {
    let mut v = rebase(30, RebasePhase::Planning);
    v.mouse(LEFT, 4, 80, 24);
    assert_eq!(v.selected, 2);
    v.mouse(MouseEventKind::ScrollDown, 4, 80, 24);
    assert_eq!(v.scroll, 3);
    v.mouse(LEFT, 4, 80, 24);
    assert_eq!(v.selected, 5);
    let mut v = rebase(30, RebasePhase::InProgress);
    v.mouse(LEFT, 4, 80, 24);
    assert_eq!(v.selected, 0);
    v.mouse(LEFT, 5, 80, 24);
    assert_eq!(v.selected, 1);
    v.mouse_in(LEFT, 5, rect(0, 0, 80, 3));
    assert_eq!(v.selected, 1);
}

fn diff_mode() -> DiffModeState {
    DiffModeState {
        editing: None,
        result_count: 0,
        search_selected: 0,
        dropdown_scroll: 0,
        file_count: 50,
        files_scroll: 4,
        diff_empty: false,
        panel: Some(DiffPanel::Old),
    }
}

fn areas() -> DiffModeAreas {
    DiffModeAreas {
        selector_a: rect(0, 0, 33, 3),
        selector_b: rect(0, 3, 33, 3),
        files: rect(0, 6, 33, 33),
        diff: rect(33, 0, 67, 39),
    }
}

#[test]
fn comparing_follows_the_mouse() {
    let s = diff_mode();
    let a = areas();
    let go = |mouse| mouse_in_areas(&s, &a, 40, mouse);
    assert_eq!(go(at(LEFT, 50, 5)), DiffModeCommand::BeginSelection(DiffPanel::Old));
    assert_eq!(go(at(LEFT, 5, 1)), DiffModeCommand::Edit(DiffModeSelector::A));
    assert_eq!(go(at(LEFT, 5, 4)), DiffModeCommand::Edit(DiffModeSelector::B));
    assert_eq!(go(at(LEFT, 5, 8)), DiffModeCommand::FocusFiles { select: Some(5) });
    assert_eq!(go(at(LEFT, 5, 39)), DiffModeCommand::DropSelection);
    assert_eq!(go(at(MouseEventKind::ScrollDown, 5, 8)), DiffModeCommand::ScrollFiles { to: 7 });
    assert_eq!(
        go(at(MouseEventKind::ScrollUp, 50, 8)),
        DiffModeCommand::ScrollDiff { down: false }
    );
    assert_eq!(
        handle_diff_mode_mouse(&s, 100, 40, at(LEFT, 5, 8)),
        DiffModeCommand::FocusFiles { select: Some(5) }
    );
    assert_eq!(after_pick(true, true), AfterPick::LoadFiles);
    assert_eq!(after_pick(false, true), AfterPick::Edit(DiffModeSelector::A));
    assert_eq!(after_pick(true, false), AfterPick::Edit(DiffModeSelector::B));
}

#[test]
fn results_of_a_search_are_above_everything() {
    let mut s = diff_mode();
    s.editing = Some(DiffModeSelector::A);
    s.result_count = 30;
    s.search_selected = 1;
    let a = areas();
    let go = |mouse| mouse_in_areas(&s, &a, 40, mouse);
    assert_eq!(go(at(LEFT, 5, 5)), DiffModeCommand::PickResult(1));
    assert_eq!(go(at(MouseEventKind::ScrollDown, 5, 5)), DiffModeCommand::SelectResult(4));
    assert_eq!(go(at(MouseEventKind::ScrollUp, 5, 5)), DiffModeCommand::SelectResult(0));
    assert_eq!(go(at(LEFT, 5, 16)), DiffModeCommand::FocusFiles { select: Some(13) });
}

// ---------------------------------------------------------------------------
// Windows
// ---------------------------------------------------------------------------

#[test]
fn a_menu_is_clicked_twice_to_run() {
    let items = vec![
        MenuItem {
            label: "a".to_string(),
            description: String::new(),
            key: None,
            action: Some(Action::DoNothing),
        },
        MenuItem {
            label: "b".to_string(),
            description: String::new(),
            key: None,
            action: Some(Action::DoNothing),
        },
    ];
    let mut p = popups(PopupState::Menu(Menu::new("M".to_string(), items)));
    assert_eq!(p.handle_popup_mouse(at(LEFT, 1, 1), env(Some(1))), PopupMouseEffect::Nothing);
    assert!(matches!(p.popup, PopupState::Menu(ref m) if m.selected == 1));
    assert_eq!(p.handle_popup_mouse(at(LEFT, 1, 1), env(Some(1))), PopupMouseEffect::RunMenu(1));
    assert!(matches!(p.popup, PopupState::Closed));
    assert!(p.pending_menu.is_some());
}

#[test]
fn a_checklist_is_clicked_twice_to_check() {
    let item = |label: &str| ChecklistItem {
        label: label.to_string(),
        checked: false,
        is_free_entry: false,
    };
    let mut p = popups(PopupState::Checklist(Checklist {
        title: "C".to_string(),
        items: vec![item("x"), item("y")],
        selected: 0,
        search_textarea: TextField::new(),
        free_entry_category: None,
        on_confirm: Action::DoNothing,
    }));
    p.handle_popup_mouse(at(LEFT, 1, 1), env(Some(1)));
    p.handle_popup_mouse(at(LEFT, 1, 1), env(Some(1)));
    assert!(matches!(p.popup, PopupState::Checklist(ref c) if c.items[1].checked));
}

#[test]
fn a_theme_is_clicked_and_shown_at_once() {
    let mut p = popups(PopupState::ThemePicker(ThemePicker { core: plain_list(30), original_theme_index: 0 }));
    p.handle_popup_mouse(at(MouseEventKind::ScrollDown, 1, 1), env(None));
    assert_eq!(p.current_theme, 1);
    p.handle_popup_mouse(at(LEFT, 50, 13), env(None));
    assert_eq!(p.current_theme, 2);
    p.handle_popup_mouse(at(LEFT, 0, 13), env(None));
    assert_eq!(p.current_theme, 2);
    p.handle_popup_mouse(at(MouseEventKind::ScrollUp, 1, 1), env(None));
    assert_eq!(p.current_theme, 1);
}

#[test]
fn a_reference_is_clicked_in_its_row() {
    let mut p = popups(PopupState::RefPicker(RefPicker {
        title: "R".to_string(),
        core: plain_list(30),
        allow_freeform: false,
        on_confirm: Action::RebaseOnto,
    }));
    p.handle_popup_mouse(at(LEFT, 50, 14), env(None));
    assert!(matches!(p.popup, PopupState::RefPicker(ref q) if q.core.selected == 3));
}

#[test]
fn a_command_is_clicked_but_no_title() {
    let entry = |d: &str| CommandEntry {
        key: String::new(),
        description: d.to_string(),
        action: CommandAction::Unavailable,
    };
    let mut p = popups(PopupState::CommandPalette(CommandPalette {
        sections: vec![
            CommandSection { title: "A".to_string(), entries: vec![entry("one"), entry("two")] },
            CommandSection { title: "B".to_string(), entries: vec![entry("three")] },
        ],
        selected: 0,
        search_textarea: TextField::new(),
        scroll_offset: 0,
    }));
    let selected = |p: &Popups| match &p.popup {
        PopupState::CommandPalette(q) => q.selected,
        other => panic!("no palette: {other:?}"),
    };
    p.handle_popup_mouse(at(LEFT, 50, 20), env(None));
    assert_eq!(selected(&p), 1);
    p.handle_popup_mouse(at(LEFT, 50, 21), env(None));
    assert_eq!(selected(&p), 1);
    p.handle_popup_mouse(at(LEFT, 50, 22), env(None));
    assert_eq!(selected(&p), 2);
}

// ---------------------------------------------------------------------------
// Blocks
// ---------------------------------------------------------------------------

#[test]
fn a_block_is_reverted_at_its_mark_only() {
    let panel = rect(30, 0, 70, 30);
    let cell = DiffCell {
        diff_empty: false,
        divider_x: Some(65),
        line: Some((7, 0)),
        hunk: Some(1),
    };
    assert_eq!(revert_hunk_at_position(ContextId::Files, panel, &cell, 65, 5), Some(1));
    assert_eq!(revert_hunk_at_position(ContextId::Commits, panel, &cell, 65, 5), None);
    assert_eq!(revert_hunk_at_position(ContextId::Files, panel, &cell, 64, 5), None);
    assert_eq!(try_handle_revert_block_click(true, ContextId::Files, panel, &cell, 65, 5), None);
    let wrapped = DiffCell { line: Some((7, 1)), ..cell };
    assert_eq!(revert_hunk_at_position(ContextId::Files, panel, &wrapped, 65, 5), None);
}

#[test]
fn the_mark_under_the_mouse_is_followed_over_the_panels() {
    let panel = rect(30, 0, 70, 30);
    let cell = DiffCell {
        diff_empty: false,
        divider_x: Some(65),
        line: Some((7, 0)),
        hunk: Some(1),
    };
    let on = at(MouseEventKind::Moved, 65, 5);
    let off = at(MouseEventKind::ScrollDown, 64, 5);
    let files = ContextId::Files;
    let mut hovered = None;
    follow_hover(MouseCourse::ToPanels, on, files, panel, &cell, &mut hovered);
    assert_eq!(hovered, Some(1));
    follow_hover(MouseCourse::ToPopup, off, files, panel, &cell, &mut hovered);
    follow_hover(MouseCourse::ToDiffMode, off, files, panel, &cell, &mut hovered);
    assert_eq!(hovered, Some(1));
    follow_hover(MouseCourse::ToPanels, off, files, panel, &cell, &mut hovered);
    assert_eq!(hovered, None);
    follow_hover(MouseCourse::ToRebase, on, files, panel, &cell, &mut hovered);
    assert_eq!(hovered, None);
}

#[test]
fn a_list_without_rows_follows_the_wheel_above_its_view() {
    let flat = MouseEnv { screen_width: 100, screen_height: 9, item_at: None };
    let mut core = plain_list(5);
    core.selected = 1;
    core.scroll_offset = 3;
    let mut p = popups(PopupState::ThemePicker(ThemePicker { core, original_theme_index: 0 }));
    let down = at(MouseEventKind::ScrollDown, 0, 0);
    assert!(p.popup.can_follow_wheel(down.kind, flat));
    p.handle_popup_mouse(down, flat);
    assert_eq!(p.current_theme, 2);
    assert!(!p.popup.can_follow_wheel(down.kind, flat));
    assert!(p.popup.can_follow_wheel(MouseEventKind::ScrollUp, flat));
    assert!(p.popup.can_follow_wheel(down.kind, env(None)));
    let mut core = plain_list(5);
    assert!(!can_follow_wheel(&core, down.kind, 9));
    core.scroll_offset = 2;
    assert!(can_follow_wheel(&core, down.kind, 9));
}

#[test]
fn blocks_need_changes_that_are_not_staged() {
    let mut p = popups(PopupState::Closed);
    let s = files_selected();
    let lines = Some((Some((1, 2)), None));
    match plan_block(&mut p, BlockDeed::Stage, &s, &vec![file(true)], lines) {
        BlockPlan::ReadDiff { file } => assert_eq!(file, "a.rs"),
        other => panic!("not read: {other:?}"),
    }
    assert!(matches!(
        plan_block(&mut p, BlockDeed::Revert, &s, &vec![file(true)], Some((None, None))),
        BlockPlan::Nothing
    ));
    assert!(matches!(
        plan_block(&mut p, BlockDeed::Revert, &s, &vec![file(false)], lines),
        BlockPlan::Refused
    ));
    assert!(matches!(p.popup, PopupState::Message(ref n) if n.title == "Revert block"));
    assert!(enter_diff_block_mode_or_show_message(&mut p, &s, &vec![file(true)], 2));
    assert!(!enter_diff_block_mode_or_show_message(&mut p, &s, &vec![file(true)], 0));
    show_hunk_context_menu(&mut p, 4);
    assert!(matches!(
        p.popup,
        PopupState::Menu(ref m) if matches!(m.items[2].action, Some(Action::RevertHunk { index: 4 }))
    ));
}

#[test]
fn a_block_that_was_changed_is_loaded_again() {
    let selected = || {
        Some(TextSelection {
            panel: DiffPanel::New,
            start_col: 1,
            start_row: 1,
            end_col: 2,
            end_row: 1,
            dragging: false,
            is_click: false,
            text: "x".to_string(),
            edit_line_number: None,
            edit_column_number: None,
        })
    };
    let entry = || RevertUndoEntry { file_path: "f".to_string(), pre_revert_bytes: vec![1] };
    let mut u = RevertUndo::new();
    let mut s = selected();
    let (mark, r) = after_block(BlockDeed::Stage, 3, Some(entry()), 5, &mut u, &mut s);
    assert_eq!((mark, r.all, r.files, r.diff), (Some(3), false, true, true));
    assert!(s.is_none() && u.stack.is_empty());
    let mut s = selected();
    let (mark, r) = after_block(BlockDeed::Revert, 3, Some(entry()), 5, &mut u, &mut s);
    assert_eq!((mark, r.all, r.files, r.diff), (None, false, true, true));
    assert!(s.is_none());
    assert_eq!((u.stack.len(), u.high_water), (1, 1));
    after_block(BlockDeed::Revert, 3, None, 5, &mut u, &mut s);
    assert_eq!(u.stack.len(), 1);
    u.undo_last();
    assert_eq!(
        after_restore(&mut u, "f", Some("denied")).unwrap_err(),
        "failed to restore f: denied"
    );
    assert_eq!(u.high_water, 1);
    assert!(after_restore(&mut u, "f", None).unwrap().files);
    assert_eq!(u.high_water, 0);
}

#[test]
fn the_last_revert_is_undone_first() {
    let entry = |n: u8| RevertUndoEntry { file_path: format!("f{n}"), pre_revert_bytes: vec![n] };
    let mut u = RevertUndo::new();
    for n in 1..=4 {
        u.remember(entry(n), 3);
    }
    assert_eq!(u.stack.len(), 3);
    assert_eq!(u.high_water, 3);
    assert_eq!(u.undo_last().unwrap().pre_revert_bytes, [4]);
    u.restored();
    assert_eq!(u.high_water, 3);
    u.undo_last();
    assert_eq!(u.undo_last().unwrap().file_path, "f2");
    u.restored();
    assert_eq!(u.high_water, 0);
    assert!(u.undo_last().is_none());
}

#[test]
fn areas_share_a_small_screen() {
    assert_eq!(area_above_status(10, 0), Rect { x: 0, y: 0, width: 10, height: 0 });
    assert_eq!(area_above_status(10, 1), Rect { x: 0, y: 0, width: 10, height: 1 });
    assert_eq!(area_above_status(10, 2), Rect { x: 0, y: 0, width: 10, height: 1 });
    let expected = [
        (0, 0, 0),
        (0, 0, 1),
        (0, 0, 1),
        (1, 0, 1),
        (1, 1, 1),
        (2, 1, 1),
        (2, 2, 1),
        (3, 2, 1),
        (3, 3, 1),
        (3, 3, 2),
    ];
    for (height, e) in (0..10).zip(expected) {
        let a = diff_mode_areas(100, height);
        assert_eq!((a.selector_a.height, a.selector_b.height, a.files.height), e);
        assert_eq!((a.selector_a.y, a.selector_b.y, a.files.y), (0, e.0, e.0 + e.1));
        assert_eq!((a.files.x, a.files.width, a.diff.x, a.diff.width), (0, 33, 33, 67));
    }
}
