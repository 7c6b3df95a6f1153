use swaptop::app::{Action, App};
use swaptop::samples::RawSample;
use swaptop::telemetry::{Acquisition, InfoSwap, SwapDataError, SwapUpdate};
use swaptop::theme::ThemeType;
use swaptop::units::SizeUnits;

fn raw(pid: u64, name: &str, swap_kb: u64) -> RawSample {
    RawSample { pid, name: name.to_string(), swap_kb }
}

fn acquisition(samples: Vec<RawSample>, total: u64, used: u64) -> Acquisition {
    Acquisition {
        samples,
        update: SwapUpdate { swap_devices: Vec::new(), total_swap: total, used_swap: used },
    }
}

fn row_texts(app: &App) -> Vec<(String, String, String)> {
    app.rows
        .iter()
        .map(|r| (r.id_cell.clone(), r.name.clone(), r.value.clone()))
        .collect()
}

#[test]
fn aggregated_refresh_groups_sums_and_sorts() {
    let mut app = App::new();
    app.on_action(Action::ToggleAggregation);
    let samples = vec![raw(1, "a", 100), raw(2, "a", 50), raw(3, "b", 30)];
    app.apply_refresh(Ok(acquisition(samples, 1000, 180)), 0);

    let rows = row_texts(&app);
    assert_eq!(rows.len(), 3);
    assert_eq!(rows[0], ("COUNT".to_string(), "PROCESS".to_string(), "USED".to_string()));
    assert_eq!(rows[1], ("2".to_string(), "a".to_string(), "150".to_string()));
    assert_eq!(rows[2], ("1".to_string(), "b".to_string(), "30".to_string()));
}

#[test]
fn individual_refresh_sorts_descending_with_pid_column() {
    let mut app = App::new();
    let samples = vec![raw(7, "low", 10), raw(9, "high", 999), raw(8, "mid", 40)];
    app.apply_refresh(Ok(acquisition(samples, 2000, 1049)), 0);

    let rows = row_texts(&app);
    assert_eq!(rows[0].0, "PID");
    assert_eq!(rows[1], ("9".to_string(), "high".to_string(), "999".to_string()));
    assert_eq!(rows[2], ("8".to_string(), "mid".to_string(), "40".to_string()));
    assert_eq!(rows[3], ("7".to_string(), "low".to_string(), "10".to_string()));
}

#[test]
fn empty_refresh_leaves_header_only_and_scroll_at_zero() {
    let mut app = App::new();
    app.set_viewport(10);
    app.on_action(Action::JumpBottom);
    app.apply_refresh(Ok(acquisition(Vec::new(), 100, 0)), 0);
    assert_eq!(app.rows.len(), 1);
    assert_eq!(app.content_height(), 2);
    assert_eq!(app.scroll_offset, 0);
    app.on_action(Action::JumpBottom);
    assert_eq!(app.scroll_offset, 0);
    app.on_action(Action::ScrollDown);
    assert_eq!(app.scroll_offset, 0);
}

#[test]
fn interval_clamps_at_one_and_at_ten_seconds() {
    let mut app = App::new();
    assert_eq!(app.interval_ms, 1000);
    for _ in 0..20 {
        app.on_action(Action::ShortenInterval);
    }
    assert_eq!(app.interval_ms, 1);
    for _ in 0..20 {
        app.on_action(Action::ShortenInterval);
    }
    assert_eq!(app.interval_ms, 1);
    for _ in 0..200 {
        app.on_action(Action::LengthenInterval);
    }
    assert_eq!(app.interval_ms, 10000);
    app.on_action(Action::LengthenInterval);
    assert_eq!(app.interval_ms, 10000);
}

#[test]
fn a_failed_tick_changes_nothing_displayed() {
    let mut app = App::new();
    let samples = vec![raw(1, "a", 100), raw(2, "b", 50)];
    let devices = vec![InfoSwap {
        name: "sda2".to_string(),
        kind: "partition".to_string(),
        size_kb: 4096,
        used_kb: 150,
        priority: -2,
    }];
    let update = SwapUpdate { swap_devices: devices, total_swap: 4096, used_swap: 150 };
    app.apply_refresh(Ok(Acquisition { samples, update }), 1000);

    let rows_before = row_texts(&app);
    let devices_before = app.device_lines.clone();
    let points_before: Vec<(u64, u64)> =
        app.history.points().iter().map(|p| (p.time, p.used_kb)).collect();
    let totals_before = (app.chart_info.total_swap, app.chart_info.used_swap);

    app.apply_refresh(Err(SwapDataError::Procfs("boom".to_string())), 2000);

    assert_eq!(row_texts(&app), rows_before);
    assert_eq!(app.device_lines, devices_before);
    let points_after: Vec<(u64, u64)> =
        app.history.points().iter().map(|p| (p.time, p.used_kb)).collect();
    assert_eq!(points_after, points_before);
    assert_eq!((app.chart_info.total_swap, app.chart_info.used_swap), totals_before);
    // The failed tick still counts as a tick.
    assert_eq!(app.last_refresh_ms, Some(2000));
}

#[test]
fn device_lines_format_under_the_selected_unit() {
    let mut app = App::new();
    let devices = vec![InfoSwap {
        name: "sda2".to_string(),
        kind: "partition".to_string(),
        size_kb: 8192,
        used_kb: 1024,
        priority: -2,
    }];
    let update = SwapUpdate { swap_devices: devices, total_swap: 8192, used_swap: 1024 };
    app.apply_refresh(Ok(Acquisition { samples: Vec::new(), update }), 0);
    assert_eq!(app.device_lines, vec!["sda2 | partition | 1024 | -2".to_string()]);
    app.on_action(Action::SelectUnit { unit: SizeUnits::MB });
    assert_eq!(app.device_lines, vec!["sda2 | partition | 1.00 | -2".to_string()]);
}

#[test]
fn selecting_a_unit_reformats_the_rows_without_reordering() {
    let mut app = App::new();
    let samples = vec![raw(1, "a", 1536), raw(2, "b", 512)];
    app.apply_refresh(Ok(acquisition(samples, 4096, 2048)), 0);
    app.on_action(Action::SelectUnit { unit: SizeUnits::MB });
    let rows = row_texts(&app);
    assert_eq!(rows[1], ("1".to_string(), "a".to_string(), "1.50".to_string()));
    assert_eq!(rows[2], ("2".to_string(), "b".to_string(), "0.50".to_string()));
    app.on_action(Action::SelectUnit { unit: SizeUnits::KB });
    let rows = row_texts(&app);
    assert_eq!(rows[1].2, "1536");
}

#[test]
fn toggling_aggregation_back_restores_the_individual_rows() {
    let mut app = App::new();
    let samples = vec![raw(1, "a", 100), raw(2, "a", 50), raw(3, "b", 30)];
    app.apply_refresh(Ok(acquisition(samples, 1000, 180)), 0);
    let individual_rows = row_texts(&app);
    app.on_action(Action::ToggleAggregation);
    assert_eq!(app.rows.len(), 3);
    assert_eq!(row_texts(&app)[0].0, "COUNT");
    app.on_action(Action::ToggleAggregation);
    assert_eq!(row_texts(&app), individual_rows);
}

#[test]
fn scroll_actions_move_within_the_content() {
    let mut app = App::new();
    let samples: Vec<RawSample> =
        (0..20).map(|i| raw(i, &format!("p{}", i), 100 - i)).collect();
    app.apply_refresh(Ok(acquisition(samples, 4096, 500)), 0);
    app.set_viewport(10);
    // Content is 20 rows + header + chrome allowance = 22; limit is 12.
    assert_eq!(app.content_height(), 22);
    app.on_action(Action::JumpBottom);
    assert_eq!(app.scroll_offset, 12);
    app.on_action(Action::ScrollDown);
    assert_eq!(app.scroll_offset, 12);
    app.on_action(Action::ScrollUp);
    assert_eq!(app.scroll_offset, 11);
    app.on_action(Action::PageUp);
    assert_eq!(app.scroll_offset, 5);
    app.on_action(Action::PageUp);
    assert_eq!(app.scroll_offset, 0);
    app.on_action(Action::ScrollUp);
    assert_eq!(app.scroll_offset, 0);
    app.on_action(Action::PageDown);
    assert_eq!(app.scroll_offset, 6);
    app.on_action(Action::JumpTop);
    assert_eq!(app.scroll_offset, 0);
}

#[test]
fn shrinking_content_reclamps_the_scroll() {
    let mut app = App::new();
    let many: Vec<RawSample> = (0..30).map(|i| raw(i, &format!("p{}", i), 10)).collect();
    app.apply_refresh(Ok(acquisition(many, 4096, 300)), 0);
    app.set_viewport(8);
    app.on_action(Action::JumpBottom);
    assert_eq!(app.scroll_offset, 24);
    let few = vec![raw(0, "only", 10)];
    app.apply_refresh(Ok(acquisition(few, 4096, 10)), 5000);
    // Content is now 3; the offset clamped against it.
    assert_eq!(app.scroll_offset, 0);
}

#[test]
fn refresh_due_follows_the_interval() {
    let mut app = App::new();
    assert!(app.refresh_due(0));
    app.apply_refresh(Ok(acquisition(Vec::new(), 10, 0)), 100);
    assert!(!app.refresh_due(100));
    assert!(!app.refresh_due(1099));
    assert!(app.refresh_due(1100));
    assert!(app.refresh_due(5000));
}

#[test]
fn quit_and_start_flip_the_running_flag() {
    let mut app = App::new();
    assert!(!app.running);
    app.start();
    assert!(app.running);
    app.on_action(Action::Quit);
    assert!(!app.running);
}

#[test]
fn themes_cycle_in_a_fixed_order() {
    let mut app = App::new();
    assert_eq!(app.theme, ThemeType::Dracula);
    app.on_action(Action::CycleTheme);
    assert_eq!(app.theme, ThemeType::Nord);
    app.on_action(Action::CycleTheme);
    assert_eq!(app.theme, ThemeType::Plain);
    for _ in 0..3 {
        app.on_action(Action::CycleTheme);
    }
    assert_eq!(app.theme, ThemeType::Dracula);
}

#[test]
fn history_follows_the_used_total_across_ticks() {
    let mut app = App::new();
    app.apply_refresh(Ok(acquisition(Vec::new(), 1000, 11)), 0);
    app.apply_refresh(Ok(acquisition(Vec::new(), 1000, 22)), 2000);
    app.apply_refresh(Err(SwapDataError::Io("gone".to_string())), 4000);
    app.apply_refresh(Ok(acquisition(Vec::new(), 1000, 33)), 6000);
    let used: Vec<u64> = app.history.points().iter().map(|p| p.used_kb).collect();
    assert_eq!(used, vec![11, 22, 33]);
}
