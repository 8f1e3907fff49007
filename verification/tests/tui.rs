use slmtop::board::Board;
use slmtop::book::{cache_records, load_cache, CacheRecord, DiskUsageCacheEntry, ScanAnswer, ScanBook};
use slmtop::cells::{cells_of_disk, cells_of_usage, cells_of_user_job, show_usage_bar};
use slmtop::clock::{Span, Timestamp};
use slmtop::columns::{
    actual_column, decorate_headers, job_column_from_index, job_column_to_index, next_job_column,
    select_visible, UserJobColumn, UserJobSection,
};
use slmtop::commands::JobAction;
use slmtop::cursor::{
    clamp_selection, move_table_selection, reset_table_to_top, select_visible_table_row, TableCursor,
};
use slmtop::dashboard::{is_showable, AppState};
use slmtop::events::{
    report_action, report_refresh, Effect, InputMode, KeyCode, KeyPress, Moment, MouseKind,
    MousePress, Now, RowClick, UiMessage, DOUBLE_CLICK_NANOS,
};
use slmtop::frame::MainContent;
use slmtop::grid::{
    assign_row, centered_rect, compute_panel_areas, contains, equal_widths, header_spans,
    spans_from, split_plain, table_body_row_at, Area, Axis, Constraint, PerPanel,
};
use slmtop::keyed::{DiskUsageKey, UsageMap};
use slmtop::listing::{disk_size_bytes, SummaryRowKind};
use slmtop::model::{DiskInfo, DiskLabel, DiskUserUsage};
use slmtop::panel::PanelId;
use slmtop::panels::PanelUiState;
use slmtop::popup::{
    disk_usage_status, draw_confirmation, draw_gpu_details, draw_help, draw_input, draw_job_details,
    draw_node_details, inner_area, DiskBody,
};
use slmtop::settings::{TuiError, TuiOptions};
use slmtop::slurm::{
    assemble_snapshot, CommandTelemetry, DiskUsageProgress, DiskUsageProgressStage, SlurmError,
    SnapshotEnvelope,
};
use slmtop::sorting::JobColumn;
use slmtop::stamp::{format_at_offset, format_timestamp, format_utc_offset, is_displayable};
use slmtop::tables::{parse_sinfo, parse_squeue};
use slmtop::theme::{
    disk_color, selected_row_style, themed_node_style, themed_state_style, Color, Style, Theme,
    ThemeName,
};
use slmtop::units::SortDirection;
use slmtop::wording::{
    disk_usage_progress_detail, filter_label, friendly_disk_usage_error, slurm_time_display, spinner,
    truncate_text,
};

fn at(secs: u64) -> Timestamp {
    Timestamp { before_epoch: false, secs, nanos: 0 }
}

fn now() -> Now {
    Now { moment: Moment { nanos: 1_000_000_000 }, time: at(1_700_000_000) }
}

fn press(code: KeyCode) -> KeyPress {
    KeyPress { code, released: false, control: false }
}

fn key(app: &mut AppState, code: KeyCode) -> Effect {
    app.handle_key(press(code), now())
}

fn telemetry(command: &str) -> CommandTelemetry {
    CommandTelemetry { command: command.to_string(), elapsed: Span { secs: 0, nanos: 0 }, warnings: Vec::new() }
}

fn disk(mount: &str, size: &str, percent: u8) -> DiskInfo {
    DiskInfo {
        mount: mount.to_string(),
        fstype: "ext4".to_string(),
        size: size.to_string(),
        used: "1G".to_string(),
        avail: "1G".to_string(),
        use_percent: percent,
        label: DiskLabel::Ssd,
    }
}

fn envelope() -> SnapshotEnvelope {
    let jobs = parse_squeue(
        "1|me|RUNNING|gpu|train|1|8|32G|gpu:a100:2|1:00:00|n1||2:00:00\n\
         2|you|PENDING|cpu|build|1|4|1G||0:00|\n\
         3|me|PENDING|cpu|wait|1|1|1G||0:00|||1:00\n",
    )
    .rows;
    let nodes = parse_sinfo("n2|idle|4|0/4/0/4|10|10|gpu:a100:4\nn1|down|4|0/4/0/4|10|10|gpu:a100:2||gpu:a100:2\n").rows;
    assemble_snapshot(
        Ok((jobs, telemetry("squeue"))),
        Ok((nodes, telemetry("sinfo"))),
        Ok((Vec::new(), telemetry("sacct"))),
        vec![disk("/a", "1G", 10), disk("/b", "2T", 50)],
        "me",
        Span { secs: 1, nanos: 234_567_890 },
    )
    .unwrap()
}

fn empty_app() -> AppState {
    AppState::new(
        "me".to_string(),
        "3".to_string(),
        Some(Span { secs: 180, nanos: 0 }),
        ThemeName::Classic,
        UsageMap::new(),
    )
}

fn app() -> AppState {
    let mut app = empty_app();
    let e = envelope();
    assert!(is_showable(&e.snapshot));
    assert!(!app.apply_message(UiMessage::Snapshot(e), at(1_700_000_000)));
    app
}

fn usage(bytes: u64, entries: u64) -> DiskUserUsage {
    DiskUserUsage { user: "me".to_string(), bytes, entries }
}

#[test]
fn selected_row_style_uses_truecolor_dark_text_on_teal() {
    let style = selected_row_style();
    assert_eq!(style.fg, Some(Color::Rgb(8, 20, 24)));
    assert_eq!(style.bg, Some(Color::Rgb(0, 188, 188)));
    assert!(!style.bold);
}

#[test]
fn table_body_row_at_excludes_borders_and_header() {
    let area = Area { x: 10, y: 5, width: 20, height: 8 };

    assert_eq!(table_body_row_at(area, 11, 5), None);
    assert_eq!(table_body_row_at(area, 11, 6), None);
    assert_eq!(table_body_row_at(area, 10, 7), None);
    assert_eq!(table_body_row_at(area, 29, 7), None);
    assert_eq!(table_body_row_at(area, 11, 12), None);
    assert_eq!(table_body_row_at(area, 11, 7), Some(0));
    assert_eq!(table_body_row_at(area, 11, 11), Some(4));
}

#[test]
fn visible_table_row_selection_preserves_scroll_offset() {
    let mut state = TableCursor { offset: 10, selected: Some(12) };

    let selected = select_visible_table_row(&mut state, 50, 3);

    assert_eq!(selected, Some(13));
    assert_eq!(state.offset, 10);
    assert_eq!(state.selected, Some(13));
}

#[test]
fn visible_table_row_selection_ignores_clicks_past_rows() {
    let mut state = TableCursor { offset: 10, selected: Some(11) };

    let selected = select_visible_table_row(&mut state, 12, 3);

    assert_eq!(selected, None);
    assert_eq!(state.selected, Some(11));
}

#[test]
fn row_click_matches_same_row_within_double_click_interval() {
    let at = Moment { nanos: 5_000_000_000 };
    let later = |millis: u64| Moment { nanos: at.nanos + millis * 1_000_000 };
    let click = RowClick { panel: PanelId::Jobs, row: 7, at };

    assert!(click.matches(PanelId::Jobs, 7, later(449)));
    assert!(!click.matches(PanelId::Nodes, 7, later(1)));
    assert!(!click.matches(PanelId::Jobs, 8, later(1)));
    assert!(!click.matches(
        PanelId::Jobs,
        7,
        Moment { nanos: at.nanos + DOUBLE_CLICK_NANOS + 1_000_000 }
    ));
}

#[test]
fn reset_table_to_top_clears_scroll_offset_and_selection() {
    let mut state = TableCursor { offset: 42, selected: Some(47) };

    reset_table_to_top(&mut state);

    assert_eq!(state.offset, 0);
    assert_eq!(state.selected, Some(0));
}

#[test]
fn cursors_stay_on_rows() {
    let mut state = TableCursor { offset: 3, selected: Some(9) };
    clamp_selection(&mut state, 5);
    assert_eq!((state.offset, state.selected), (3, Some(4)));
    move_table_selection(&mut state, 5, 10);
    assert_eq!(state.selected, Some(4));
    move_table_selection(&mut state, 5, -10);
    assert_eq!(state.selected, Some(0));
    move_table_selection(&mut state, 5, 2);
    assert_eq!(state.selected, Some(2));
    clamp_selection(&mut state, 0);
    assert_eq!((state.offset, state.selected), (0, None));
    move_table_selection(&mut state, 3, 1);
    assert_eq!(state.selected, Some(1));
    move_table_selection(&mut state, 3, isize::MAX);
    assert_eq!(state.selected, Some(2));
    move_table_selection(&mut state, 3, isize::MIN);
    assert_eq!(state.selected, Some(0));
}

#[test]
fn without_a_user_popup_its_selection_stays() {
    let mut app = app();
    let cursor = app.cursors.running;
    assert_eq!(cursor.selected, Some(0));
    app.move_user_details_selection(1);
    assert_eq!(app.cursors.running, cursor);
    for code in [KeyCode::Down, KeyCode::PageUp, KeyCode::Home, KeyCode::End] {
        app.handle_user_details_key(code);
        assert_eq!(app.cursors.running, cursor);
    }
    app.handle_user_details_mouse(MousePress { kind: MouseKind::ScrollDown, column: 0, row: 0 });
    assert_eq!(app.cursors.running, cursor);
}

#[test]
fn themes_have_names_and_colours() {
    assert_eq!(ThemeName::parse("Monokai"), ThemeName::Monokai);
    assert_eq!(ThemeName::parse("onedarkpro"), ThemeName::OneDarkPro);
    assert_eq!(ThemeName::parse("night_owl"), ThemeName::NightOwl);
    assert_eq!(ThemeName::parse("tokyo_night"), ThemeName::TokyoNight);
    assert_eq!(ThemeName::parse("dracula"), ThemeName::Dracula);
    assert_eq!(ThemeName::parse("CLASSIC"), ThemeName::Classic);
    assert_eq!(ThemeName::parse("unknown"), ThemeName::Catppuccin);
    let mut name = ThemeName::Catppuccin;
    for _ in 0..7 {
        name = name.cycle();
    }
    assert_eq!(name, ThemeName::Catppuccin);
    assert_eq!(ThemeName::Catppuccin.label(), "Catppuccin Mocha");
    let theme = Theme::from_name(ThemeName::NightOwl);
    assert_eq!(theme.state_pending, Style::of_fg(Color::Rgb(255, 203, 107)));
    assert_eq!(theme.warning_border.fg, Some(Color::Rgb(239, 143, 82)));
    assert!(theme.warning_border.bold);
    let classic = Theme::from_name(ThemeName::Classic);
    assert_eq!(classic.header_style.bg, Some(Color::Cyan));
    assert_eq!(themed_state_style(&classic, "running"), classic.state_running);
    assert_eq!(themed_state_style(&classic, "CANCELLED"), classic.state_failed);
    assert_eq!(themed_state_style(&classic, "CG"), Style::plain());
    assert_eq!(themed_node_style(&classic, "IDLE+DRAIN"), classic.node_idle);
    assert_eq!(themed_node_style(&classic, "drained"), classic.node_down);
    assert_eq!(themed_node_style(&classic, "mixed"), classic.node_mixed);
    assert_eq!(disk_color(DiskLabel::Nfs), Color::LightBlue);
}

#[test]
fn columns_have_places_and_an_order() {
    for i in 0..12 {
        assert_eq!(job_column_to_index(job_column_from_index(i)), i);
    }
    assert_eq!(job_column_from_index(99), JobColumn::State);
    let mut column = JobColumn::State;
    for _ in 0..12 {
        column = next_job_column(column);
    }
    assert_eq!(column, JobColumn::State);
}

#[test]
fn hidden_columns_are_skipped() {
    let visible = vec![true, false, true];
    let texts = vec!["a".to_string(), "b".to_string(), "c".to_string(), "d".to_string()];
    assert_eq!(select_visible(texts.clone(), &visible), vec!["a", "c", "d"]);
    assert_eq!(
        decorate_headers(&texts, 2, SortDirection::Asc, &visible),
        vec!["a", "c ▲", "d"]
    );
    assert_eq!(decorate_headers(&texts, 1, SortDirection::Desc, &visible), vec!["a", "c", "d"]);
    assert_eq!(actual_column(&visible, 0), 0);
    assert_eq!(actual_column(&visible, 1), 2);
    assert_eq!(actual_column(&visible, 2), 3);
    assert_eq!(actual_column(&visible, 60), 0);
}

#[test]
fn columns_toggle() {
    let mut panel = PanelUiState::new(4);
    panel.toggle_next_optional_column();
    assert_eq!(panel.columns, vec![true, true, true, false]);
    panel.toggle_next_optional_column();
    assert_eq!(panel.columns, vec![true; 4]);
    let mut small = PanelUiState::new(2);
    small.toggle_next_optional_column();
    assert_eq!(small.columns, vec![true, true]);
}

#[test]
fn areas_split_and_hold_points() {
    let root = Area { x: 0, y: 0, width: 100, height: 40 };
    let parts = split_plain(root, Axis::Vertical, &[Constraint::Min(6), Constraint::Length(2)]);
    assert_eq!(parts[0], Area { x: 0, y: 0, width: 100, height: 38 });
    assert_eq!(parts[1], Area { x: 0, y: 38, width: 100, height: 2 });
    assert_eq!(centered_rect(50, 50, root), Area { x: 25, y: 10, width: 50, height: 20 });
    assert!(contains(parts[1], 99, 38));
    assert!(!contains(parts[1], 100, 38));
    assert_eq!(equal_widths(0), vec![Constraint::Ratio(1, 1)]);
    assert_eq!(equal_widths(3).len(), 3);
    assert_eq!(inner_area(root), Area { x: 1, y: 1, width: 98, height: 38 });
    assert_eq!(
        inner_area(Area { x: 3, y: 4, width: 0, height: 1 }),
        Area { x: 3, y: 5, width: 0, height: 0 }
    );
    let spans = header_spans(root, &[Constraint::Length(10), Constraint::Length(20)]);
    assert_eq!((spans[0].x_start, spans[0].x_end, spans[0].y), (1, 12, 1));
    assert_eq!(spans[1].x_start, 12);
    assert!(header_spans(Area { x: 0, y: 0, width: 2, height: 9 }, &[Constraint::Min(1)]).is_empty());
    let spans = spans_from(&vec![Area { x: 5, y: 9, width: 3, height: 1 }], 2);
    assert!(spans[0].contains(8, 2));
    assert!(!spans[0].contains(9, 2));
}

#[test]
fn panels_share_the_screen() {
    let area = Area { x: 0, y: 0, width: 100, height: 100 };
    let shown = |jobs, nodes, gpus, disks, summary| PerPanel { jobs, nodes, gpus, disks, summary };
    let all = compute_panel_areas(area, &shown(true, true, true, true, true), 60, 68);
    assert_eq!(all.jobs, Some(Area { x: 0, y: 0, width: 60, height: 68 }));
    assert_eq!(all.nodes, Some(Area { x: 60, y: 0, width: 40, height: 68 }));
    assert_eq!(all.gpus.unwrap().y, 68);
    assert_eq!(all.summary.unwrap().height, 32);
    let one = compute_panel_areas(area, &shown(false, false, false, true, false), 60, 68);
    assert_eq!(one.disks, Some(area));
    assert_eq!(one.jobs, None);
    let bottom = compute_panel_areas(area, &shown(false, false, true, true, false), 60, 68);
    assert_eq!(bottom.gpus, Some(Area { x: 0, y: 0, width: 60, height: 100 }));
    let none = compute_panel_areas(area, &shown(false, false, false, false, false), 60, 68);
    assert!(none.jobs.is_none() && none.summary.is_none());
    let mut areas = none;
    let half = Area { x: 1, y: 1, width: 1, height: 1 };
    assign_row(&mut areas, area, &vec![PanelId::Nodes, PanelId::Gpus], &vec![half, area], &Vec::new());
    assert_eq!((areas.nodes, areas.gpus), (Some(half), Some(area)));
}

#[test]
fn the_board_keeps_a_focus() {
    let mut board = Board::new();
    board.focus_next();
    assert_eq!(board.focus, PanelId::Nodes);
    board.focus_previous();
    board.focus_previous();
    assert_eq!(board.focus, PanelId::Summary);
    for _ in 0..4 {
        assert!(board.hide_focused_panel());
    }
    assert!(!board.hide_focused_panel());
    assert!(board.panels.get(board.focus).visible);
    board.focus_visible(PanelId::Summary);
    assert_ne!(board.focus, PanelId::Summary);
    assert!(board.show_next_hidden_panel());
    for _ in 0..20 {
        board.resize_width(true);
        board.resize_height(false);
    }
    assert_eq!((board.left_percent, board.top_percent), (85, 15));
    while board.show_next_hidden_panel() {}
    assert!(board.shown().jobs && board.shown().summary);
}

#[test]
fn snapshots_are_announced() {
    let app = app();
    assert_eq!(app.notes.status, "Refreshed 3 jobs, 2 nodes in 1234ms; interval 3s");
    assert_eq!(app.notes.last_error, None);
}

#[test]
fn errors_and_results_are_announced() {
    let mut app = app();
    app.apply_message(UiMessage::Error("no".to_string()), at(1));
    assert_eq!(app.notes.status, "Refresh failed: no");
    assert!(app.snapshot.is_some());
    app.apply_message(UiMessage::ActionResult("done".to_string()), at(1));
    assert_eq!(app.notes.status, "done");
    let mut e = envelope();
    e.snapshot.warnings = vec!["a".to_string(), "b".to_string()];
    app.apply_message(UiMessage::Snapshot(e), at(1));
    assert_eq!(app.notes.last_error.as_deref(), Some("a | b"));
    match report_action(JobAction::Hold, "7", Ok("ok".to_string())) {
        UiMessage::ActionResult(text) => assert_eq!(text, "hold 7: ok"),
        _ => panic!("a result was due"),
    }
    match report_action(JobAction::Cancel, "7", Err(SlurmError::Other("no".to_string()))) {
        UiMessage::Error(text) => assert_eq!(text, "cancel 7 failed: no"),
        _ => panic!("an error was due"),
    }
    match report_refresh(Err(SlurmError::Other("no".to_string()))) {
        UiMessage::Error(text) => assert_eq!(text, "no"),
        _ => panic!("an error was due"),
    }
}

#[test]
fn job_actions_wait_for_a_confirmation() {
    let mut app = app();
    assert!(matches!(key(&mut app, KeyCode::Enter), Effect::Nothing));
    assert_eq!(app.popups.job.as_deref(), Some("3"));
    assert!(matches!(key(&mut app, KeyCode::Char('c')), Effect::Nothing));
    assert!(app.popups.action.is_some());
    assert!(matches!(key(&mut app, KeyCode::Char('c')), Effect::Nothing));
    key(&mut app, KeyCode::Esc);
    assert!(app.popups.action.is_none());
    key(&mut app, KeyCode::Char('r'));
    match key(&mut app, KeyCode::Char('y')) {
        Effect::RunAction(pending) => {
            assert_eq!(pending.action, JobAction::Requeue);
            assert_eq!(pending.job_id, "3");
        }
        _ => panic!("an action was due"),
    }
    assert_eq!(app.notes.status, "Running requeue for 3");
    assert!(app.popups.job.is_none() && app.popups.action.is_none());
    assert!(matches!(key(&mut app, KeyCode::Char('y')), Effect::Nothing));
}

#[test]
fn keys_over_the_panels() {
    let mut app = app();
    assert!(matches!(key(&mut app, KeyCode::Char('q')), Effect::Quit));
    assert!(matches!(key(&mut app, KeyCode::Char('r')), Effect::Refresh));
    let released = KeyPress { code: KeyCode::Char('q'), released: true, control: false };
    assert!(matches!(app.handle_key(released, now()), Effect::Nothing));
    key(&mut app, KeyCode::Char('?'));
    assert!(app.popups.help);
    assert!(matches!(key(&mut app, KeyCode::Char('q')), Effect::Nothing));
    key(&mut app, KeyCode::Esc);
    assert!(!app.popups.help);
    key(&mut app, KeyCode::Char('4'));
    assert_eq!(app.board.focus, PanelId::Summary);
    key(&mut app, KeyCode::Char('5'));
    assert_eq!(app.board.focus, PanelId::Disks);
    key(&mut app, KeyCode::Char('1'));
    key(&mut app, KeyCode::Char('s'));
    assert_eq!(app.sorting.columns.jobs, JobColumn::User);
    key(&mut app, KeyCode::Char('d'));
    assert_eq!(app.sorting.directions.jobs, SortDirection::Asc);
    key(&mut app, KeyCode::Down);
    key(&mut app, KeyCode::Char('j'));
    key(&mut app, KeyCode::Char('j'));
    assert_eq!(app.cursors.panels.jobs.selected, Some(2));
    key(&mut app, KeyCode::Up);
    assert_eq!(app.cursors.panels.jobs.selected, Some(1));
    key(&mut app, KeyCode::Char('t'));
    assert_eq!(app.notes.status, "Theme: Catppuccin Mocha");
    key(&mut app, KeyCode::Char('c'));
    assert_eq!(app.board.panels.jobs.columns[11], false);
    key(&mut app, KeyCode::Char(']'));
    key(&mut app, KeyCode::Char('{'));
    assert_eq!((app.board.left_percent, app.board.top_percent), (65, 63));
    key(&mut app, KeyCode::Char('v'));
    assert_eq!(app.notes.status, "All panels are already visible");
    key(&mut app, KeyCode::Char('x'));
    assert!(!app.board.panels.jobs.visible);
    key(&mut app, KeyCode::Char('v'));
    assert_eq!(app.board.focus, PanelId::Jobs);
}

#[test]
fn typing_sets_filters() {
    let mut app = app();
    key(&mut app, KeyCode::Char('f'));
    for c in "owner=me Trainx".chars() {
        key(&mut app, KeyCode::Char(c));
    }
    key(&mut app, KeyCode::Backspace);
    let control = KeyPress { code: KeyCode::Char('z'), released: false, control: true };
    app.handle_key(control, now());
    assert_eq!(app.typing.input, "owner=me Train");
    key(&mut app, KeyCode::Enter);
    assert_eq!(app.typing.mode, InputMode::Normal);
    assert_eq!(filter_label(&app.board.panels.jobs.filter), "q=train,owner=me");
    assert_eq!(app.visible_jobs().len(), 1);
    key(&mut app, KeyCode::Char('/'));
    assert_eq!(app.typing.input, "train");
    for _ in 0..9 {
        key(&mut app, KeyCode::Backspace);
    }
    key(&mut app, KeyCode::Char('W'));
    key(&mut app, KeyCode::Enter);
    assert_eq!(filter_label(&app.board.panels.jobs.filter), "q=w,owner=me");
    key(&mut app, KeyCode::Char('f'));
    key(&mut app, KeyCode::Char('a'));
    key(&mut app, KeyCode::Esc);
    assert_eq!(app.typing.input, "");
    assert_eq!(filter_label(&app.board.panels.jobs.filter), "q=w,owner=me");
}

#[test]
fn user_popup_keys() {
    let mut app = app();
    key(&mut app, KeyCode::Char('4'));
    key(&mut app, KeyCode::Enter);
    assert_eq!(app.popups.user, None);
    key(&mut app, KeyCode::Down);
    key(&mut app, KeyCode::Enter);
    assert_eq!(app.popups.user.as_deref(), Some("me"));
    assert_eq!(app.cursors.section, UserJobSection::Running);
    key(&mut app, KeyCode::Tab);
    assert_eq!(app.cursors.section, UserJobSection::Pending);
    key(&mut app, KeyCode::Char('s'));
    assert_eq!(app.sorting.columns.user_jobs, UserJobColumn::Name);
    key(&mut app, KeyCode::End);
    assert_eq!(app.cursors.pending.selected, Some(0));
    key(&mut app, KeyCode::PageDown);
    key(&mut app, KeyCode::Char('q'));
    assert_eq!(app.popups.user, None);
    key(&mut app, KeyCode::Down);
    key(&mut app, KeyCode::Enter);
    assert_eq!(app.popups.user.as_deref(), Some("you"));
    assert_eq!(app.cursors.section, UserJobSection::Pending);
}

#[test]
fn disk_scans_start_and_finish() {
    let mut app = app();
    key(&mut app, KeyCode::Char('5'));
    let (id, disk_key) = match key(&mut app, KeyCode::Enter) {
        Effect::StartScan { key, scan_id, timeout, replaces } => {
            assert_eq!((key.mount.as_str(), key.user.as_str()), ("/b", "me"));
            assert_eq!(timeout, Some(Span { secs: 180, nanos: 0 }));
            assert_eq!(replaces, None);
            (scan_id, key)
        }
        _ => panic!("a scan was due"),
    };
    assert_eq!(id, 1);
    assert_eq!(app.notes.status, "Scanning disk usage for me on /b (180s)");
    assert!(matches!(key(&mut app, KeyCode::Char('u')), Effect::Nothing));
    assert_eq!(app.notes.status, "Disk usage scan already running for me on /b (180s)");
    match key(&mut app, KeyCode::Char('n')) {
        Effect::StartScan { scan_id, timeout, replaces, .. } => {
            assert_eq!((scan_id, timeout, replaces), (2, None, Some(1)));
        }
        _ => panic!("a scan was due"),
    }
    let progress = DiskUsageProgress {
        stage: DiskUsageProgressStage::Traversal,
        scanned_entries: 5,
        matched_entries: 2,
        bytes: 1024,
    };
    app.apply_message(
        UiMessage::DiskUsageProgress { key: disk_key.clone(), scan_id: 1, progress },
        at(1),
    );
    assert_eq!(app.active_disk_usage_view().progress, None);
    app.apply_message(
        UiMessage::DiskUsageProgress { key: disk_key.clone(), scan_id: 2, progress },
        at(1),
    );
    assert_eq!(app.active_disk_usage_view().progress, Some(progress));
    let stale = UiMessage::DiskUsage { key: disk_key.clone(), scan_id: 1, result: Ok(vec![usage(9, 9)]) };
    assert!(!app.apply_message(stale, at(1)));
    assert_eq!(app.active_disk_usage_len(), 0);
    let done = UiMessage::DiskUsage { key: disk_key.clone(), scan_id: 2, result: Ok(vec![usage(9, 9)]) };
    assert!(app.apply_message(done, at(1_700_000_000)));
    assert_eq!(app.active_disk_usage_len(), 1);
    assert_eq!(app.notes.status, "Disk usage scan finished for me on /b");
    key(&mut app, KeyCode::Esc);
    assert!(matches!(key(&mut app, KeyCode::Enter), Effect::Nothing));
    assert!(app.notes.status.starts_with("Loaded cached disk usage for me on /b from 2023-11-1"));
    match key(&mut app, KeyCode::Char('r')) {
        Effect::StartScan { scan_id, .. } => assert_eq!(scan_id, 3),
        _ => panic!("a scan was due"),
    }
    let failed = UiMessage::DiskUsage {
        key: disk_key,
        scan_id: 3,
        result: Err("no".to_string()),
    };
    assert!(!app.apply_message(failed, at(1_700_000_000)));
    assert_eq!(app.notes.status, "Disk usage scan failed for me on /b: no");
    assert_eq!(app.active_disk_usage_len(), 1);
}

#[test]
fn unknown_users_cannot_scan() {
    let mut app = AppState::new(
        " ".to_string(),
        "3".to_string(),
        None,
        ThemeName::Classic,
        UsageMap::new(),
    );
    app.apply_message(UiMessage::Snapshot(envelope()), at(1));
    key(&mut app, KeyCode::Char('5'));
    assert!(matches!(key(&mut app, KeyCode::Enter), Effect::Nothing));
    assert_eq!(
        app.active_disk_usage_view().error.unwrap().message,
        "Current user is unknown; pass --user or set USER."
    );
}

#[test]
fn inconclusive_results_are_not_kept() {
    let mut book = ScanBook::new(UsageMap::new());
    let k = DiskUsageKey::new("/a", "me");
    let moment = Moment { nanos: 0 };
    assert_eq!(book.ask(&k, None, false, moment), ScanAnswer::Start { id: 1, replaces: None });
    assert_eq!(book.ask(&k, None, true, moment), ScanAnswer::Running(None));
    assert_eq!(book.finish(k.clone(), vec![usage(0, 0)], at(1)), 0);
    assert!(!book.is_running(&k, 1));
    let record = |bytes| CacheRecord {
        key: DiskUsageKey::new("/a", "me"),
        value: DiskUsageCacheEntry { rows: vec![usage(bytes, 0)], captured_at: at(1) },
    };
    let (cache, dropped) = load_cache(1, vec![record(1), record(0), record(2)]);
    assert!(dropped);
    assert_eq!(cache.get(&k).unwrap().rows[0].bytes, 2);
    assert_eq!(cache.len(), 1);
    assert_eq!(cache.entry(0).0.mount, "/a");
    let (cache, dropped) = load_cache(2, vec![record(0)]);
    assert!(!dropped);
    assert_eq!(cache.len(), 0);
}

#[test]
fn caches_read_back_what_was_written() {
    let mut cache: UsageMap<DiskUsageCacheEntry> = UsageMap::new();
    let entry = |bytes, secs| DiskUsageCacheEntry { rows: vec![usage(bytes, 1)], captured_at: at(secs) };
    cache.insert(DiskUsageKey::new("/a", "me"), entry(1, 10));
    cache.insert(DiskUsageKey::new("/b", "me"), entry(2, 20));
    cache.insert(
        DiskUsageKey::new("/c", "me"),
        DiskUsageCacheEntry { rows: Vec::new(), captured_at: at(30) },
    );
    let records = cache_records(&cache);
    assert_eq!(records.len(), 3);
    let (read, dropped) = load_cache(1, records);
    assert!(!dropped);
    assert_eq!(read.len(), 3);
    let b = read.get(&DiskUsageKey::new("/b", "me")).unwrap();
    assert_eq!((b.rows[0].bytes, b.captured_at), (2, at(20)));
    assert!(read.get(&DiskUsageKey::new("/c", "me")).unwrap().rows.is_empty());
}

#[test]
fn drawing_keeps_what_the_dashboard_knows() {
    let mut app = app();
    let status = app.notes.status.clone();
    let root = Area { x: 0, y: 0, width: 80, height: 30 };
    app.cursors.panels.jobs.selected = Some(40);
    app.draw(root, Moment { nanos: 0 });
    assert_eq!(app.notes.status, status);
    assert_eq!(app.cursors.panels.jobs.selected, Some(2));
    assert_eq!(app.board.focus, PanelId::Jobs);
    assert_eq!(app.snapshot.as_ref().unwrap().snapshot.jobs.len(), 3);
    let hits = app.hits.headers.len();
    app.draw(root, Moment { nanos: 0 });
    assert_eq!(app.hits.headers.len(), hits);
}

#[test]
fn keyed_maps_give_back_and_forget() {
    let mut map: UsageMap<u8> = UsageMap::new();
    map.insert(DiskUsageKey::new("a", "b"), 1);
    map.insert(DiskUsageKey::new("ab", ""), 2);
    map.insert(DiskUsageKey::new("a", "b"), 3);
    assert_eq!(map.get(&DiskUsageKey::new("a", "b")), Some(&3));
    assert_eq!(map.remove(&DiskUsageKey::new("a", "b")), Some(3));
    assert_eq!(map.get(&DiskUsageKey::new("a", "b")), None);
    assert_eq!(map.get(&DiskUsageKey::new("ab", "")), Some(&2));
    assert_eq!(map.remove(&DiskUsageKey::new("x", "y")), None);
}

fn click(x: u16, y: u16) -> MousePress {
    MousePress { kind: MouseKind::LeftDown, column: x, row: y }
}

#[test]
fn clicks_select_sort_and_open() {
    let mut app = app();
    let root = Area { x: 0, y: 0, width: 120, height: 60 };
    app.begin_frame(root);
    let table = app.draw_jobs().unwrap();
    assert_eq!(table.rows.len(), 3);
    let y = table.area.y + 3;
    assert!(matches!(app.handle_mouse(click(table.area.x + 2, y), now()), Effect::Nothing));
    assert_eq!(app.cursors.panels.jobs.selected, Some(1));
    assert!(app.popups.job.is_none());
    app.handle_mouse(click(table.area.x + 2, y), now());
    assert_eq!(app.popups.job.as_deref(), Some("2"));
    app.handle_mouse(click(table.area.x + 2, y + 1), now());
    assert_eq!(app.cursors.panels.jobs.selected, Some(1));
    key(&mut app, KeyCode::Esc);
    let hit = app.hits.headers[1];
    app.handle_mouse(click(hit.span.x_start, hit.span.y), now());
    assert_eq!(app.sorting.columns.jobs, JobColumn::User);
    assert_eq!(app.sorting.directions.jobs, SortDirection::Asc);
    app.handle_mouse(click(119, 59), now());
    assert!(app.hits.last_click.is_none());
}

#[test]
fn popups_take_the_mouse() {
    let mut app = app();
    let root = Area { x: 0, y: 0, width: 120, height: 60 };
    key(&mut app, KeyCode::Char('4'));
    key(&mut app, KeyCode::Down);
    key(&mut app, KeyCode::Enter);
    app.begin_frame(root);
    let popup = app.draw_user_details("me", root);
    assert_eq!(popup.title, "User: me | R:1 P:1 | Tab table | s/d sort | Esc close");
    assert_eq!(popup.running.title, "Running (1)");
    let pending = popup.pending.area;
    app.handle_mouse(click(pending.x + 2, pending.y + 2), now());
    assert_eq!(app.cursors.section, UserJobSection::Pending);
    let hit = app.hits.modal_headers[1];
    app.handle_mouse(click(hit.span.x_start, hit.span.y), now());
    assert_eq!(app.cursors.section, UserJobSection::Running);
    assert_eq!(app.sorting.columns.user_jobs, UserJobColumn::Name);
    assert_eq!(app.sorting.user_direction, SortDirection::Asc);
    app.handle_mouse(
        MousePress { kind: MouseKind::ScrollDown, column: pending.x + 2, row: pending.y + 2 },
        now(),
    );
    assert_eq!(app.cursors.section, UserJobSection::Pending);
    assert_eq!(app.cursors.pending.selected, Some(0));
}

#[test]
fn panels_are_drawn() {
    let mut app = app();
    let (main, status) = app.begin_frame(Area { x: 0, y: 0, width: 120, height: 60 });
    assert_eq!((main.height, status.height), (58, 2));
    let jobs = app.draw_jobs().unwrap();
    assert_eq!(jobs.title, "* Jobs | rows=3 filter=none");
    assert_eq!(jobs.headers[0], "JOBID ▼");
    assert_eq!(jobs.rows[2].cells[10].text, "32.0G");
    assert_eq!(jobs.rows[2].style, app.skin.theme.state_running);
    assert_eq!(jobs.widths.len(), 12);
    let nodes = app.draw_nodes().unwrap();
    assert_eq!(nodes.title, "  Nodes | rows=2 filter=none");
    assert_eq!(nodes.rows[0].cells[7].text, "0");
    let gpus = app.draw_gpus().unwrap();
    assert_eq!(gpus.title, "  GPUs / Resources | rows=2");
    assert_eq!(gpus.rows[0].cells[1].text, "6");
    assert_eq!(gpus.widths[0], Constraint::Ratio(1, 5));
    let disks = app.draw_disks().unwrap();
    assert_eq!(disks.rows[0].cells[1].text, "/b");
    assert_eq!(disks.rows[0].cells[0].style, Style::of_fg(Color::LightGreen));
    assert_eq!(disks.rows[0].cells[3].text, "1G/2T");
    let summary = app.draw_summary().unwrap();
    assert_eq!(summary.rows.len(), 3);
    assert_eq!(summary.rows[0].cells[0].text, "All");
    assert_eq!(summary.rows[0].cells[5].text, "2");
    let line = app.draw_status();
    assert_eq!(line[0].text, " slmtop ");
    assert!(line[1].text.starts_with(" NORMAL focus=Jobs theme=Classic | Tab / s d f c x v [] t ? q | Refreshed"));
    key(&mut app, KeyCode::Char('x'));
    app.begin_frame(Area { x: 0, y: 0, width: 120, height: 60 });
    assert!(app.draw_jobs().is_none());
}

#[test]
fn frames_show_panels_and_what_lies_over_them() {
    let root = Area { x: 0, y: 0, width: 100, height: 50 };
    let mut app = empty_app();
    let content = app.draw(root, Moment { nanos: 0 });
    assert!(matches!(content.main, MainContent::Waiting));
    assert_eq!((content.main_area.height, content.status_area.height), (48, 2));
    assert!(content.overlays.help.is_none() && content.overlays.input.is_none());

    app.apply_message(UiMessage::Snapshot(envelope()), at(1));
    key(&mut app, KeyCode::Enter);
    key(&mut app, KeyCode::Char('c'));
    let content = app.draw(root, Moment { nanos: 0 });
    match content.main {
        MainContent::Panels(panels) => {
            assert_eq!(panels.jobs.unwrap().rows.len(), 3);
            assert_eq!(panels.summary.unwrap().rows.len(), 3);
        }
        MainContent::Waiting => panic!("panels were due"),
    }
    let job = content.overlays.job.unwrap();
    assert_eq!(job.title, "Job Details");
    assert_eq!(job.lines[0], "Job ID    : 3");
    assert_eq!(job.area, centered_rect(78, 62, root));
    assert_eq!(content.overlays.action.unwrap().area, centered_rect(62, 28, root));
    key(&mut app, KeyCode::Esc);
    key(&mut app, KeyCode::Esc);

    key(&mut app, KeyCode::Char('2'));
    key(&mut app, KeyCode::Enter);
    let content = app.draw(root, Moment { nanos: 0 });
    assert!(content.overlays.job.is_none());
    assert_eq!(content.overlays.node.unwrap().title, "Node Details: n1");
    key(&mut app, KeyCode::Esc);
    key(&mut app, KeyCode::Char('?'));
    let content = app.draw(root, Moment { nanos: 0 });
    assert_eq!(content.overlays.help.unwrap().title, "Help");
    key(&mut app, KeyCode::Char('?'));
    key(&mut app, KeyCode::Char('/'));
    let content = app.draw(root, Moment { nanos: 0 });
    assert_eq!(content.overlays.input.unwrap().title, "Search");
}

#[test]
fn summaries_fold_the_rest_into_others() {
    let mut text = String::new();
    for i in 0..12 {
        for k in 0..(i + 1) {
            text.push_str(&format!("{i}{k}|user{i:02}|R|p|n|1|1|1||0:00|n\n"));
        }
    }
    let jobs = parse_squeue(&text).rows;
    let e = assemble_snapshot(
        Ok((jobs, telemetry("squeue"))),
        Ok((Vec::new(), telemetry("sinfo"))),
        Ok((Vec::new(), telemetry("sacct"))),
        Vec::new(),
        "me",
        Span { secs: 0, nanos: 0 },
    )
    .unwrap();
    let mut app = empty_app();
    app.apply_message(UiMessage::Snapshot(e), at(1));
    let rows = app.summary_rows();
    assert_eq!(rows.len(), 13);
    assert_eq!(rows[2].label, "user11");
    assert_eq!(rows[2].summary.running.jobs, 12);
    assert_eq!(rows[12].kind, SummaryRowKind::Others);
    assert_eq!(rows[12].summary.running.jobs, 3);
    let sum: u64 = rows[1..].iter().map(|r| r.summary.running.jobs).sum();
    assert_eq!(rows[0].summary.running.jobs, sum);
    assert_eq!(app.panel_row_count(PanelId::Summary), 13);
}

#[test]
fn details_in_lines() {
    let app = app();
    let e = app.snapshot.as_ref().unwrap();
    let lines = draw_job_details(&e.snapshot.jobs[0]);
    assert_eq!(lines[0], "Job ID    : 1");
    assert_eq!(lines[9], "Node List : n1");
    assert_eq!(lines[11], "GPUs      : a100:2");
    assert_eq!(lines[14], "Time Limit : 2:00:00");
    let lines = draw_job_details(&e.snapshot.jobs[1]);
    assert_eq!(lines.len(), 16);
    assert_eq!(lines[10], "GPUs      : 0");
    assert_eq!(lines[13], "Time Limit : —");
    let lines = draw_node_details(&e.snapshot.nodes[0]);
    assert_eq!(lines[4], "  Total     : 4");
    assert_eq!(lines[lines.len() - 1], "Esc: close");
    let lines = draw_gpu_details(&e.snapshot.nodes, "a100");
    assert_eq!(lines[0], "GPU Type  : a100");
    assert_eq!(lines[4], "-".repeat(31));
    assert_eq!(lines[5], "n1              | 2     | 0    ");
    assert_eq!(lines[6], "n2              | 4     | 4    ");
    assert_eq!(draw_help().len(), 9);
    let (title, lines) = draw_input(InputMode::Search, "abc");
    assert_eq!((title, lines[0].as_str()), ("Search", "Search: abc"));
    let theme = Theme::from_name(ThemeName::Classic);
    let pending = slmtop::events::PendingAction { action: JobAction::Cancel, job_id: "9".to_string() };
    let lines = draw_confirmation(&pending, &theme);
    assert_eq!(lines[2].text, "Confirm cancel for job 9?");
    assert_eq!(lines[3].style, theme.state_failed);
    let pending = slmtop::events::PendingAction { action: JobAction::Hold, job_id: "9".to_string() };
    assert_eq!(draw_confirmation(&pending, &theme).len(), 5);
}

#[test]
fn disk_popups_are_drawn() {
    let mut app = app();
    let root = Area { x: 0, y: 0, width: 100, height: 40 };
    key(&mut app, KeyCode::Char('5'));
    key(&mut app, KeyCode::Enter);
    app.begin_frame(root);
    let popup = app.draw_disk_details(root, Moment { nanos: 3_500_000_000 });
    assert_eq!(
        popup.title,
        "Disk Usage: /b | user=me | | scanning 2s/180s | u refresh | n no-timeout | Esc close"
    );
    match popup.body {
        DiskBody::Message(lines) => assert_eq!(
            lines,
            vec!["Preparing disk usage scan.".to_string(), "Timeout mode: 180s".to_string()]
        ),
        _ => panic!("a message was due"),
    }
    let done = UiMessage::DiskUsage {
        key: DiskUsageKey::new("/b", "me"),
        scan_id: 1,
        result: Ok(vec![usage(2048, 0)]),
    };
    app.apply_message(done, at(1_700_000_000));
    let popup = app.draw_disk_details(root, Moment { nanos: 0 });
    match popup.body {
        DiskBody::Rows { progress, table } => {
            assert!(progress.is_none());
            assert_eq!(table.rows[0].cells[1].text, "2.0K");
            assert_eq!(table.rows[0].cells[2].text, "-");
            assert_eq!(table.headers[1], "USED ▼");
        }
        _ => panic!("rows were due"),
    }
    assert_eq!(app.hits.modal_tables.len(), 1);
    key(&mut app, KeyCode::Char('n'));
    let popup = app.draw_disk_details(root, Moment { nanos: 0 });
    match popup.body {
        DiskBody::Rows { progress, .. } => {
            let (_, lines) = progress.unwrap();
            assert_eq!(lines[0], "Refreshing in background; timeout no timeout.");
        }
        _ => panic!("rows were due"),
    }
    let view = app.active_disk_usage_view();
    let status = disk_usage_status(&view, Moment { nanos: 1_000_000_000 });
    assert!(status.starts_with("| scanning 0s/no timeout; showing cached 2023-11-1"));
}

#[test]
fn cells_in_words() {
    assert_eq!(show_usage_bar(50), "[██████      ]  50%");
    assert_eq!(show_usage_bar(100), "[████████████] 100%");
    assert_eq!(show_usage_bar(0), "[            ]   0%");
    assert_eq!(cells_of_disk(&disk("/m", "2T", 1))[2].text, "SSD");
    assert_eq!(cells_of_usage(&usage(1, 7))[2], "7");
    let job = &parse_squeue("1|u|R|p|a-very-long-job-name|3|1|1G|gpu:x:1,gpu:y:2|0:01||r|9:00\n").rows[0];
    let cells = cells_of_user_job(job);
    assert_eq!(cells[1], "a-very-long-job-n…");
    assert_eq!(cells[2], "3");
    assert_eq!(cells[4], "x:1,y:2");
    assert_eq!(truncate_text("abc", 0), "…");
    assert_eq!(truncate_text("abc", 3), "abc");
}

#[test]
fn words_of_the_dashboard() {
    assert_eq!(slurm_time_display(" N/A "), "—");
    assert_eq!(slurm_time_display(" 1:00 "), "1:00");
    assert_eq!(spinner(0), "|");
    assert_eq!(spinner(200), "/");
    assert_eq!(spinner(999), "|");
    assert_eq!(spinner(650), "\\");
    assert!(friendly_disk_usage_error("Timeout!").starts_with("Usage scan timed out."));
    assert!(friendly_disk_usage_error("find / failed").starts_with("Usage scan failed"));
    assert_eq!(friendly_disk_usage_error("plain"), "plain");
    let p = |stage, scanned_entries| {
        Some(DiskUsageProgress { stage, scanned_entries, matched_entries: 2, bytes: 1536 })
    };
    assert_eq!(
        disk_usage_progress_detail(p(DiskUsageProgressStage::Traversal, 9)),
        "Scanned 9 items; matched 2 owned entries (1.5K) so far."
    );
    assert_eq!(
        disk_usage_progress_detail(p(DiskUsageProgressStage::Traversal, 0)),
        "Scanning filesystem tree for files owned by the current user."
    );
    assert_eq!(
        disk_usage_progress_detail(p(DiskUsageProgressStage::Quota, 0)),
        "Checking filesystem quota for the current user."
    );
    assert_eq!(disk_usage_progress_detail(None), "Preparing disk usage scan.");
}

#[test]
fn sizes_of_disks() {
    assert_eq!(disk_size_bytes("1.5K"), 1536);
    assert_eq!(disk_size_bytes("2E"), 2 << 60);
    assert_eq!(disk_size_bytes("x"), 0);
    assert_eq!(disk_size_bytes("10"), 10);
    assert_eq!(disk_size_bytes("340282366920938463463374607431768211455K"), u128::MAX);
}

#[test]
fn times_as_dates() {
    assert_eq!(format_at_offset(at(0), 0), "1970-01-01 00:00 UTC");
    assert_eq!(format_at_offset(at(1_709_210_096), 0), "2024-02-29 12:34 UTC");
    assert_eq!(format_at_offset(at(1_709_210_096), -19_800), "2024-02-29 07:04 UTC-05:30");
    let before = Timestamp { before_epoch: true, secs: 0, nanos: 1 };
    assert_eq!(format_at_offset(before, 3_600), "1970-01-01 00:59 UTC+01:00");
    assert_eq!(format_utc_offset(0), "UTC");
    assert_eq!(format_utc_offset(-3_660), "UTC-01:01");
    assert!(is_displayable(at(0)));
    assert!(!is_displayable(at(u64::MAX)));
    assert!(format_timestamp(at(1_700_000_000)).starts_with("2023-11-1"));
}

#[test]
fn options_and_errors() {
    let options = TuiOptions::default();
    assert_eq!(options.tick_rate, Span { secs: 0, nanos: 80_000_000 });
    assert_eq!(options.theme, ThemeName::Catppuccin);
    assert_eq!(TuiError::Io("x".to_string()).message(), "terminal IO error: x");
    let slurm = TuiError::Slurm(SlurmError::Other("y".to_string()));
    assert_eq!(slurm.message(), "slurm backend error: y");
}
