use kunger_lib::tui::filter_panel::FilterPanel;
use kunger_lib::tui::input::{Action, AppCommand, InputEvent, InputHandler, InputState, KeyCode};
use kunger_lib::tui::status_bar::StatusBar;
use kunger_lib::tui::table::TableWidget;
use kunger_lib::tui::ui::{Area, FramePlan, UI};
use kunger_lib::domain::SoftwareItem;

fn browsing() -> InputState {
    InputState { search_focused: false, detail_view_visible: false, cursor_position: 0, search_query_len: 0 }
}

fn key(state: &mut InputState, k: KeyCode) -> (Action, AppCommand) {
    InputHandler::handle_event(state, InputEvent::Key(k))
}

#[test]
fn q_and_esc_quit_while_browsing() {
    let mut s = browsing();
    assert_eq!(key(&mut s, KeyCode::Char('q')), (Action::Quit, AppCommand::Nothing));
    assert_eq!(key(&mut s, KeyCode::Esc), (Action::Quit, AppCommand::Nothing));
    assert_eq!(s, browsing());
}

#[test]
fn navigation_keys_ask_for_app_commands() {
    let mut s = browsing();
    assert_eq!(key(&mut s, KeyCode::Up), (Action::Continue, AppCommand::SelectPrevious));
    assert_eq!(key(&mut s, KeyCode::Down), (Action::Continue, AppCommand::SelectNext));
    assert_eq!(key(&mut s, KeyCode::PageUp), (Action::Continue, AppCommand::PageUp));
    assert_eq!(key(&mut s, KeyCode::PageDown), (Action::Continue, AppCommand::PageDown));
    assert_eq!(key(&mut s, KeyCode::Enter), (Action::Continue, AppCommand::ToggleDetailView));
    assert_eq!(key(&mut s, KeyCode::Char('c')), (Action::Continue, AppCommand::ClearAllFilters));
    assert_eq!(key(&mut s, KeyCode::Char('s')), (Action::Continue, AppCommand::ToggleSortOrder));
    assert_eq!(key(&mut s, KeyCode::F(5)), (Action::Continue, AppCommand::StartScan));
    assert_eq!(key(&mut s, KeyCode::F(4)), (Action::Continue, AppCommand::Nothing));
    assert_eq!(key(&mut s, KeyCode::Char('x')), (Action::Continue, AppCommand::Nothing));
    assert_eq!(
        InputHandler::handle_event(&mut s, InputEvent::Other),
        (Action::Continue, AppCommand::Nothing)
    );
    assert_eq!(s, browsing());
}

#[test]
fn detail_view_only_closes_on_esc() {
    let mut s = InputState { detail_view_visible: true, ..browsing() };
    assert_eq!(key(&mut s, KeyCode::Char('q')), (Action::Continue, AppCommand::Nothing));
    assert_eq!(key(&mut s, KeyCode::Down), (Action::Continue, AppCommand::Nothing));
    assert_eq!(key(&mut s, KeyCode::Esc), (Action::Continue, AppCommand::CloseDetailView));
}

#[test]
fn tab_focuses_search_and_keys_edit_the_query() {
    let mut s = InputState { search_query_len: 3, cursor_position: 3, ..browsing() };
    assert_eq!(key(&mut s, KeyCode::Tab), (Action::Continue, AppCommand::Nothing));
    assert!(s.search_focused);
    assert_eq!(key(&mut s, KeyCode::Char('q')), (Action::Continue, AppCommand::AddSearchChar('q')));
    assert_eq!(key(&mut s, KeyCode::Backspace), (Action::Continue, AppCommand::BackspaceSearch));
    key(&mut s, KeyCode::Right);
    assert_eq!(s.cursor_position, 3);
    key(&mut s, KeyCode::Left);
    assert_eq!(s.cursor_position, 2);
    key(&mut s, KeyCode::Home);
    assert_eq!(s.cursor_position, 0);
    key(&mut s, KeyCode::Left);
    assert_eq!(s.cursor_position, 0);
    key(&mut s, KeyCode::End);
    assert_eq!(s.cursor_position, 3);
    assert_eq!(key(&mut s, KeyCode::Esc), (Action::Continue, AppCommand::Nothing));
    assert!(!s.search_focused);
    key(&mut s, KeyCode::Tab);
    key(&mut s, KeyCode::Enter);
    assert!(!s.search_focused);
}

#[test]
fn filter_panel_lists_active_groups() {
    let none: Vec<String> = vec![];
    let t = FilterPanel::filter_text(&none, &none, &none, &none);
    assert_eq!(t.text, "No filters active (press F to open filter menu)");
    assert!(!t.active);

    let cats = vec!["Application".to_string(), "Font".to_string()];
    let mgrs = vec!["Apt".to_string()];
    let reasons = vec!["Manual".to_string()];
    let t = FilterPanel::filter_text(&cats, &mgrs, &none, &reasons);
    assert_eq!(t.text, "Categories: Application, Font | Managers: Apt | Reasons: Manual");
    assert!(t.active);
}

#[test]
fn status_bar_counts_from_one_and_pads() {
    let s = StatusBar::status_text(3, 0, 120, 4);
    let info = "Page 1/3 | 120 items | Selection: 5/120";
    assert_eq!(s, format!("{:<60} {}", info, " ↑/↓: Navigate | PgUp/PgDn: Page | q: Quit"));
    let empty = StatusBar::status_text(0, 0, 0, 0);
    assert_eq!(empty, format!("{:<60} {}", "No items to display", " ↑/↓: Navigate | PgUp/PgDn: Page | q: Quit"));
}

#[test]
fn table_rows_show_version_or_dash_and_mark_the_selection() {
    let mut item = SoftwareItem {
        id: "apt:git".to_string(),
        package_name: "git".to_string(),
        display_name: "Git".to_string(),
        category: "DevelopmentTool".to_string(),
        package_manager: "Apt".to_string(),
        scope: "System".to_string(),
        version: None,
        installed_size_bytes: None,
        update_available: false,
        classification_confidence: "High".to_string(),
    };
    assert_eq!(TableWidget::row_cells(&item), vec!["Git", "DevelopmentTool", "Apt", "—"]);
    item.version = Some("2.43".to_string());
    assert_eq!(TableWidget::row_cells(&item), vec!["Git", "DevelopmentTool", "Apt", "2.43"]);
    assert_eq!(TableWidget::header_cells(), vec!["Name", "Category", "Manager", "Version"]);
    assert!(TableWidget::is_selected_row(2, 20, 3, 43));
    assert!(!TableWidget::is_selected_row(2, 20, 3, 3));
}

#[test]
fn scan_progress_box_sits_inside_the_table_area() {
    let a = UI::scan_progress_area(Area { x: 0, y: 6, width: 80, height: 20 });
    assert_eq!(a, Area { x: 2, y: 16, width: 76, height: 3 });
    let narrow = UI::scan_progress_area(Area { x: 1, y: 1, width: 3, height: 5 });
    assert_eq!(narrow, Area { x: 3, y: 3, width: 0, height: 3 });
}

#[test]
fn frame_plan_shows_detail_pane_and_scan_box_when_asked() {
    let table = Area { x: 0, y: 6, width: 80, height: 20 };
    assert_eq!(UI::frame_plan(false, false, table), FramePlan { detail_pane: false, scan_box: None });
    assert_eq!(
        UI::frame_plan(true, true, table),
        FramePlan { detail_pane: true, scan_box: Some(Area { x: 2, y: 16, width: 76, height: 3 }) }
    );
}
