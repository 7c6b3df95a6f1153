//! The orchestrator: all dashboard state, the keyboard actions, and the
//! refresh step.
//!
//! The surrounding program maps key presses to [`Action`], reads the
//! clock, performs the acquisition and renders the widgets; every decision
//! about the state lives here. A failed acquisition leaves the displayed
//! state exactly as it was — stale data stays visible until the next
//! successful tick.

use vstd::prelude::*;
use crate::history::{window_step, HistoryPoint, HistoryWindow};
use crate::samples::{
    aggregate_processes, aggregated_of, all_individual, checked_total_kb, clone_records,
    display_seq, kb_sum, lemma_aggregated_len, lemma_display_seq_sum,
    lemma_perm_preserves_records, lemma_sums_permutation, raw_kb_sum, sort_desc, sorted_desc,
    to_display, ProcessSwapInfo,
};
use crate::sched::{
    due, longer_interval, shorter_interval, spec_due, spec_longer_interval, spec_shorter_interval,
    MAX_INTERVAL_MS, MIN_INTERVAL_MS,
};
use crate::telemetry::{Acquisition, SwapDataError, SwapUpdate};
use crate::theme::ThemeType;
use crate::units::SizeUnits;
use crate::view::{
    build_device_lines, build_rows, device_lines_match, lemma_reconcile_idempotent,
    reconcile_scroll, rows_match, spec_reconcile_scroll, Row,
};

verus! {

/// One user action, as mapped from a key press by the surrounding
/// program.
#[derive(Debug, Clone, Copy, PartialEq, Eq, Structural)]
pub enum Action {
    /// Leave the main loop.
    Quit,
    /// Scroll the table one line down.
    ScrollDown,
    /// Scroll the table one line up.
    ScrollUp,
    /// Scroll one page down.
    PageDown,
    /// Scroll one page up.
    PageUp,
    /// Scroll to the top.
    JumpTop,
    /// Scroll to the bottom.
    JumpBottom,
    /// Select the display unit.
    SelectUnit { unit: SizeUnits },
    /// Switch between individual and grouped records.
    ToggleAggregation,
    /// Step to the next color theme.
    CycleTheme,
    /// Shorten the refresh interval by one step.
    ShortenInterval,
    /// Lengthen the refresh interval by one step.
    LengthenInterval,
}

/// An acquisition the dashboard can take in whole: its list leaves room
/// for the chrome rows, and its kilobytes sum within the machine word.
pub open spec fn acceptable_acquisition(a: Acquisition) -> bool {
    &&& a.samples@.len() + 2 <= usize::MAX
    &&& raw_kb_sum(a.samples@) <= u64::MAX
}

/// Rows a page scroll moves by: the viewport less the chrome rows it
/// reserves for header and borders.
pub open spec fn spec_page_size(viewport_height: int) -> int {
    if viewport_height >= 4 {
        viewport_height - 4
    } else {
        0
    }
}

/// All dashboard state.
#[derive(Debug)]
pub struct App {
    /// Whether the main loop should continue.
    pub running: bool,
    /// First visible row of the process table.
    pub scroll_offset: usize,
    /// Selected display unit.
    pub unit: SizeUnits,
    /// Whether the table shows grouped records.
    pub aggregated: bool,
    /// Selected color theme.
    pub theme: ThemeType,
    /// Refresh interval in milliseconds.
    pub interval_ms: u64,
    /// Rows the rendered table area holds.
    pub viewport_height: usize,
    /// When the last refresh was applied, on the caller's millisecond
    /// clock; `None` before the first one.
    pub last_refresh_ms: Option<u64>,
    /// The last good sample set: individual records, sorted by descending
    /// value.
    pub individual: Vec<ProcessSwapInfo>,
    /// The displayed list: `individual` itself, or its aggregation.
    pub list: Vec<ProcessSwapInfo>,
    /// The renderable table rows: a header plus one row per list record.
    pub rows: Vec<Row>,
    /// The renderable swap-device lines.
    pub device_lines: Vec<String>,
    /// The usage history behind the chart.
    pub history: HistoryWindow,
    /// The last good system-wide counters and device list.
    pub chart_info: SwapUpdate,
}

/// The telemetry-derived data of `b` is exactly that of `a`: sample set,
/// displayed list and rows, device lines, history, counters and refresh
/// stamp. The scroll offset is not constrained.
pub open spec fn same_display_data(a: App, b: App) -> bool {
    &&& b.individual@ == a.individual@
    &&& b.list@ == a.list@
    &&& b.rows@ == a.rows@
    &&& b.device_lines@ == a.device_lines@
    &&& b.history == a.history
    &&& b.chart_info.total_swap == a.chart_info.total_swap
    &&& b.chart_info.used_swap == a.chart_info.used_swap
    &&& b.chart_info.swap_devices@ == a.chart_info.swap_devices@
    &&& b.last_refresh_ms == a.last_refresh_ms
}

/// The displayed state of `b` is exactly that of `a`, scroll included:
/// what the fail-soft policy promises of a failed tick. The refresh stamp
/// is not constrained — a failed tick is still a tick.
pub open spec fn stale_view(a: App, b: App) -> bool {
    &&& b.individual@ == a.individual@
    &&& b.list@ == a.list@
    &&& b.rows@ == a.rows@
    &&& b.device_lines@ == a.device_lines@
    &&& b.history == a.history
    &&& b.chart_info.total_swap == a.chart_info.total_swap
    &&& b.chart_info.used_swap == a.chart_info.used_swap
    &&& b.chart_info.swap_devices@ == a.chart_info.swap_devices@
    &&& b.scroll_offset == a.scroll_offset
}

/// The user-facing settings of `b` are those of `a`.
pub open spec fn same_settings(a: App, b: App) -> bool {
    &&& b.running == a.running
    &&& b.unit == a.unit
    &&& b.aggregated == a.aggregated
    &&& b.theme == a.theme
    &&& b.interval_ms == a.interval_ms
    &&& b.viewport_height == a.viewport_height
}

impl App {
    /// Rows of the process table plus the two-row chrome allowance: what
    /// the scroll limit is computed against.
    pub open spec fn spec_content_height(self) -> int {
        self.list@.len() as int + 2
    }

    /// Well-formed dashboard state: the history window is well-formed, the
    /// interval is within its bounds, the retained sample set is
    /// individual, sorted and sums within the machine word, the displayed
    /// list is no longer than it, the rows are a header plus one per list
    /// record, and the scroll offset is already reconciled.
    pub open spec fn wf(self) -> bool {
        &&& self.history.wf()
        &&& MIN_INTERVAL_MS <= self.interval_ms <= MAX_INTERVAL_MS
        &&& all_individual(self.individual@)
        &&& sorted_desc(self.individual@)
        &&& kb_sum(self.individual@) <= u64::MAX
        &&& self.individual@.len() + 2 <= usize::MAX
        &&& self.list@.len() <= self.individual@.len()
        &&& self.rows@.len() == self.list@.len() + 1
        &&& self.scroll_offset == spec_reconcile_scroll(
            self.scroll_offset as int,
            self.spec_content_height(),
            self.viewport_height as int,
        )
    }

    /// A fresh dashboard: stopped, empty telemetry, kilobyte unit,
    /// individual records, one-second refresh interval.
    pub fn new() -> (app: App)
        ensures
            app.wf(),
            !app.running,
            app.scroll_offset == 0,
            app.unit == SizeUnits::KB,
            !app.aggregated,
            app.theme == ThemeType::Dracula,
            app.interval_ms == 1000,
            app.viewport_height == 0,
            app.last_refresh_ms is None,
            app.individual@ == Seq::<ProcessSwapInfo>::empty(),
            app.list@ == Seq::<ProcessSwapInfo>::empty(),
            rows_match(app.rows@, app.list@, false, SizeUnits::KB),
            app.device_lines@ == Seq::<String>::empty(),
            app.history.points_seq() == Seq::<HistoryPoint>::empty(),
            app.history.left_edge() == 0,
            app.chart_info.total_swap == 0,
            app.chart_info.used_swap == 0,
            app.chart_info.swap_devices@ == Seq::<crate::telemetry::InfoSwap>::empty(),
    {
        let list: Vec<ProcessSwapInfo> = Vec::new();
        let rows = build_rows(&list, false, SizeUnits::KB);
        let app = App {
            running: false,
            scroll_offset: 0,
            unit: SizeUnits::KB,
            aggregated: false,
            theme: ThemeType::Dracula,
            interval_ms: 1000,
            viewport_height: 0,
            last_refresh_ms: None,
            individual: Vec::new(),
            list,
            rows,
            device_lines: Vec::new(),
            history: HistoryWindow::new(),
            chart_info: SwapUpdate::new(),
        };
        proof {
            assert(app.individual@ =~= Seq::<ProcessSwapInfo>::empty());
            assert(app.list@ =~= Seq::<ProcessSwapInfo>::empty());
            assert(app.device_lines@ =~= Seq::<String>::empty());
        }
        app
    }

    /// The content height the scroll limit is computed against.
    pub fn content_height(&self) -> (h: usize)
        requires
            self.list@.len() + 2 <= usize::MAX,
        ensures
            h == self.spec_content_height(),
    {
        self.list.len() + 2
    }

    /// Enter the main loop.
    pub fn start(&mut self)
        ensures
            final(self).running,
            same_display_data(*old(self), *final(self)),
            final(self).scroll_offset == old(self).scroll_offset,
            final(self).unit == old(self).unit,
            final(self).aggregated == old(self).aggregated,
            final(self).theme == old(self).theme,
            final(self).interval_ms == old(self).interval_ms,
            final(self).viewport_height == old(self).viewport_height,
    {
        self.running = true;
    }

    /// Whether a refresh is due at `now_ms`. Before the first refresh one
    /// is always due.
    pub fn refresh_due(&self, now_ms: u64) -> (r: bool)
        ensures
            r == match self.last_refresh_ms {
                Option::None => true,
                Option::Some(l) => spec_due(l, self.interval_ms, now_ms),
            },
    {
        match self.last_refresh_ms {
            Option::None => true,
            Option::Some(l) => due(l, self.interval_ms, now_ms),
        }
    }

    /// Record the rendered table height and re-clamp the scroll offset
    /// against it, as every render pass must.
    pub fn set_viewport(&mut self, height: usize)
        requires
            old(self).wf(),
        ensures
            final(self).wf(),
            final(self).viewport_height == height,
            final(self).scroll_offset == spec_reconcile_scroll(
                old(self).scroll_offset as int,
                old(self).spec_content_height(),
                height as int,
            ),
            same_display_data(*old(self), *final(self)),
            final(self).running == old(self).running,
            final(self).unit == old(self).unit,
            final(self).aggregated == old(self).aggregated,
            final(self).theme == old(self).theme,
            final(self).interval_ms == old(self).interval_ms,
    {
        self.viewport_height = height;
        let h = self.content_height();
        self.scroll_offset = reconcile_scroll(self.scroll_offset, h, height);
        proof {
            lemma_reconcile_idempotent(
                old(self).scroll_offset as int,
                self.spec_content_height(),
                height as int,
            );
        }
    }

    /// Rebuild the displayed list and its rows from the retained sample
    /// set under the current mode and unit.
    fn rebuild_list_rows(&mut self)
        requires
            all_individual(old(self).individual@),
            sorted_desc(old(self).individual@),
            kb_sum(old(self).individual@) <= u64::MAX,
            old(self).individual@.len() + 2 <= usize::MAX,
        ensures
            final(self).individual@ == old(self).individual@,
            if final(self).aggregated {
                aggregated_of(final(self).list@, final(self).individual@)
            } else {
                final(self).list@ == final(self).individual@
            },
            rows_match(
                final(self).rows@,
                final(self).list@,
                final(self).aggregated,
                final(self).unit,
            ),
            final(self).list@.len() <= final(self).individual@.len(),
            final(self).device_lines@ == old(self).device_lines@,
            final(self).history == old(self).history,
            final(self).chart_info.total_swap == old(self).chart_info.total_swap,
            final(self).chart_info.used_swap == old(self).chart_info.used_swap,
            final(self).chart_info.swap_devices@ == old(self).chart_info.swap_devices@,
            final(self).last_refresh_ms == old(self).last_refresh_ms,
            final(self).scroll_offset == old(self).scroll_offset,
            same_settings(*old(self), *final(self)),
    {
        let copy = clone_records(&self.individual);
        if self.aggregated {
            let grouped = aggregate_processes(copy);
            proof {
                lemma_aggregated_len(grouped@, self.individual@);
            }
            self.list = grouped;
        } else {
            self.list = copy;
        }
        self.rows = build_rows(&self.list, self.aggregated, self.unit);
    }

    /// Apply one refresh tick.
    ///
    /// On success the telemetry is replaced: the samples are converted and
    /// sorted by descending value, regrouped if aggregation is on, the
    /// rows and device lines are rebuilt, the used total is pushed into
    /// the history, and the scroll offset is re-clamped. On failure — or
    /// on an acquisition too large to take in whole — the displayed state
    /// stays exactly as it was. Either way the tick is stamped, so the
    /// next attempt waits a full interval: a failed tick is still a tick.
    pub fn apply_refresh(&mut self, fetched: Result<Acquisition, SwapDataError>, now_ms: u64)
        requires
            old(self).wf(),
        ensures
            final(self).wf(),
            final(self).last_refresh_ms == Some(now_ms),
            final(self).running == old(self).running,
            final(self).unit == old(self).unit,
            final(self).aggregated == old(self).aggregated,
            final(self).theme == old(self).theme,
            final(self).interval_ms == old(self).interval_ms,
            final(self).viewport_height == old(self).viewport_height,
            match fetched {
                Result::Ok(a) => {
                    if acceptable_acquisition(a) {
                        &&& final(self).individual@.to_multiset() == display_seq(
                            a.samples@,
                        ).to_multiset()
                        &&& sorted_desc(final(self).individual@)
                        &&& final(self).individual@.len() == a.samples@.len()
                        &&& if final(self).aggregated {
                            aggregated_of(final(self).list@, final(self).individual@)
                        } else {
                            final(self).list@ == final(self).individual@
                        }
                        &&& rows_match(
                            final(self).rows@,
                            final(self).list@,
                            final(self).aggregated,
                            final(self).unit,
                        )
                        &&& final(self).chart_info.total_swap == a.update.total_swap
                        &&& final(self).chart_info.used_swap == a.update.used_swap
                        &&& final(self).chart_info.swap_devices@ == a.update.swap_devices@
                        &&& device_lines_match(
                            final(self).device_lines@,
                            a.update.swap_devices@,
                            final(self).unit,
                        )
                        &&& if old(self).history.right_edge() < u64::MAX {
                            final(self).history.points_seq() == window_step(
                                old(self).history.points_seq(),
                                HistoryPoint {
                                    time: old(self).history.right_edge(),
                                    used_kb: a.update.used_swap,
                                },
                            ) && final(self).history.left_edge() == old(self).history.left_edge()
                                + 1 && final(self).history.right_edge() == old(
                                self,
                            ).history.right_edge() + 1
                        } else {
                            final(self).history == old(self).history
                        }
                        &&& final(self).scroll_offset == spec_reconcile_scroll(
                            old(self).scroll_offset as int,
                            final(self).spec_content_height(),
                            old(self).viewport_height as int,
                        )
                    } else {
                        stale_view(*old(self), *final(self))
                    }
                },
                Result::Err(_) => stale_view(*old(self), *final(self)),
            },
    {
        match fetched {
            Result::Ok(a) => {
                if a.samples.len() > usize::MAX - 2 {
                    self.last_refresh_ms = Some(now_ms);
                    return;
                }
                let mut disp = to_display(&a.samples);
                let total = checked_total_kb(&disp);
                proof {
                    lemma_display_seq_sum(a.samples@);
                }
                if total.is_none() {
                    self.last_refresh_ms = Some(now_ms);
                    return;
                }
                let ghost unsorted = disp@;
                sort_desc(&mut disp);
                proof {
                    lemma_sums_permutation(unsorted, disp@);
                    lemma_perm_preserves_records(unsorted, disp@);
                }
                self.individual = disp;
                self.rebuild_list_rows();
                self.chart_info = a.update;
                self.device_lines = build_device_lines(&self.chart_info.swap_devices, self.unit);
                if self.history.time_right() < u64::MAX {
                    self.history.push(self.chart_info.used_swap);
                }
                let h = self.content_height();
                self.scroll_offset = reconcile_scroll(self.scroll_offset, h, self.viewport_height);
                self.last_refresh_ms = Some(now_ms);
                proof {
                    lemma_reconcile_idempotent(
                        old(self).scroll_offset as int,
                        self.spec_content_height(),
                        self.viewport_height as int,
                    );
                }
            },
            Result::Err(_) => {
                self.last_refresh_ms = Some(now_ms);
            },
        }
    }

    /// Apply one user action.
    pub fn on_action(&mut self, action: Action)
        requires
            old(self).wf(),
        ensures
            final(self).wf(),
            match action {
                Action::Quit => {
                    &&& !final(self).running
                    &&& same_display_data(*old(self), *final(self))
                    &&& final(self).scroll_offset == old(self).scroll_offset
                    &&& final(self).unit == old(self).unit
                    &&& final(self).aggregated == old(self).aggregated
                    &&& final(self).theme == old(self).theme
                    &&& final(self).interval_ms == old(self).interval_ms
                    &&& final(self).viewport_height == old(self).viewport_height
                },
                Action::ScrollDown => {
                    &&& same_display_data(*old(self), *final(self))
                    &&& same_settings(*old(self), *final(self))
                    &&& final(self).scroll_offset == spec_reconcile_scroll(
                        old(self).scroll_offset + 1,
                        old(self).spec_content_height(),
                        old(self).viewport_height as int,
                    )
                },
                Action::ScrollUp => {
                    &&& same_display_data(*old(self), *final(self))
                    &&& same_settings(*old(self), *final(self))
                    &&& final(self).scroll_offset == spec_reconcile_scroll(
                        if old(self).scroll_offset > 0 {
                            old(self).scroll_offset - 1
                        } else {
                            0
                        },
                        old(self).spec_content_height(),
                        old(self).viewport_height as int,
                    )
                },
                Action::PageDown => {
                    &&& same_display_data(*old(self), *final(self))
                    &&& same_settings(*old(self), *final(self))
                    &&& final(self).scroll_offset == spec_reconcile_scroll(
                        old(self).scroll_offset + spec_page_size(old(self).viewport_height as int),
                        old(self).spec_content_height(),
                        old(self).viewport_height as int,
                    )
                },
                Action::PageUp => {
                    &&& same_display_data(*old(self), *final(self))
                    &&& same_settings(*old(self), *final(self))
                    &&& final(self).scroll_offset == spec_reconcile_scroll(
                        if old(self).scroll_offset >= spec_page_size(
                            old(self).viewport_height as int,
                        ) {
                            old(self).scroll_offset - spec_page_size(
                                old(self).viewport_height as int,
                            )
                        } else {
                            0
                        },
                        old(self).spec_content_height(),
                        old(self).viewport_height as int,
                    )
                },
                Action::JumpTop => {
                    &&& same_display_data(*old(self), *final(self))
                    &&& same_settings(*old(self), *final(self))
                    &&& final(self).scroll_offset == 0
                },
                Action::JumpBottom => {
                    &&& same_display_data(*old(self), *final(self))
                    &&& same_settings(*old(self), *final(self))
                    &&& final(self).scroll_offset == spec_reconcile_scroll(
                        old(self).spec_content_height(),
                        old(self).spec_content_height(),
                        old(self).viewport_height as int,
                    )
                },
                Action::SelectUnit { unit } => {
                    &&& final(self).unit == unit
                    &&& final(self).individual@ == old(self).individual@
                    &&& final(self).list@ == old(self).list@
                    &&& rows_match(
                        final(self).rows@,
                        final(self).list@,
                        final(self).aggregated,
                        unit,
                    )
                    &&& device_lines_match(
                        final(self).device_lines@,
                        final(self).chart_info.swap_devices@,
                        unit,
                    )
                    &&& final(self).chart_info.total_swap == old(self).chart_info.total_swap
                    &&& final(self).chart_info.used_swap == old(self).chart_info.used_swap
                    &&& final(self).chart_info.swap_devices@ == old(self).chart_info.swap_devices@
                    &&& final(self).history == old(self).history
                    &&& final(self).last_refresh_ms == old(self).last_refresh_ms
                    &&& final(self).scroll_offset == old(self).scroll_offset
                    &&& final(self).running == old(self).running
                    &&& final(self).aggregated == old(self).aggregated
                    &&& final(self).theme == old(self).theme
                    &&& final(self).interval_ms == old(self).interval_ms
                    &&& final(self).viewport_height == old(self).viewport_height
                },
                Action::ToggleAggregation => {
                    &&& final(self).aggregated == !old(self).aggregated
                    &&& final(self).individual@ == old(self).individual@
                    &&& if final(self).aggregated {
                        aggregated_of(final(self).list@, final(self).individual@)
                    } else {
                        final(self).list@ == final(self).individual@
                    }
                    &&& rows_match(
                        final(self).rows@,
                        final(self).list@,
                        final(self).aggregated,
                        final(self).unit,
                    )
                    &&& final(self).device_lines@ == old(self).device_lines@
                    &&& final(self).history == old(self).history
                    &&& final(self).chart_info.total_swap == old(self).chart_info.total_swap
                    &&& final(self).chart_info.used_swap == old(self).chart_info.used_swap
                    &&& final(self).chart_info.swap_devices@ == old(self).chart_info.swap_devices@
                    &&& final(self).last_refresh_ms == old(self).last_refresh_ms
                    &&& final(self).scroll_offset == spec_reconcile_scroll(
                        old(self).scroll_offset as int,
                        final(self).spec_content_height(),
                        old(self).viewport_height as int,
                    )
                    &&& final(self).running == old(self).running
                    &&& final(self).unit == old(self).unit
                    &&& final(self).theme == old(self).theme
                    &&& final(self).interval_ms == old(self).interval_ms
                    &&& final(self).viewport_height == old(self).viewport_height
                },
                Action::CycleTheme => {
                    &&& final(self).theme == old(self).theme.spec_next()
                    &&& same_display_data(*old(self), *final(self))
                    &&& final(self).scroll_offset == old(self).scroll_offset
                    &&& final(self).running == old(self).running
                    &&& final(self).unit == old(self).unit
                    &&& final(self).aggregated == old(self).aggregated
                    &&& final(self).interval_ms == old(self).interval_ms
                    &&& final(self).viewport_height == old(self).viewport_height
                },
                Action::ShortenInterval => {
                    &&& final(self).interval_ms == spec_shorter_interval(old(self).interval_ms)
                    &&& same_display_data(*old(self), *final(self))
                    &&& final(self).scroll_offset == old(self).scroll_offset
                    &&& final(self).running == old(self).running
                    &&& final(self).unit == old(self).unit
                    &&& final(self).aggregated == old(self).aggregated
                    &&& final(self).theme == old(self).theme
                    &&& final(self).viewport_height == old(self).viewport_height
                },
                Action::LengthenInterval => {
                    &&& final(self).interval_ms == spec_longer_interval(old(self).interval_ms)
                    &&& same_display_data(*old(self), *final(self))
                    &&& final(self).scroll_offset == old(self).scroll_offset
                    &&& final(self).running == old(self).running
                    &&& final(self).unit == old(self).unit
                    &&& final(self).aggregated == old(self).aggregated
                    &&& final(self).theme == old(self).theme
                    &&& final(self).viewport_height == old(self).viewport_height
                },
            },
    {
        match action {
            Action::Quit => {
                self.running = false;
            },
            Action::ScrollDown => {
                let bumped = if self.scroll_offset < usize::MAX {
                    self.scroll_offset + 1
                } else {
                    self.scroll_offset
                };
                let h = self.content_height();
                self.scroll_offset = reconcile_scroll(bumped, h, self.viewport_height);
            },
            Action::ScrollUp => {
                let lowered = if self.scroll_offset > 0 {
                    self.scroll_offset - 1
                } else {
                    0
                };
                let h = self.content_height();
                self.scroll_offset = reconcile_scroll(lowered, h, self.viewport_height);
            },
            Action::PageDown => {
                let page = if self.viewport_height >= 4 {
                    self.viewport_height - 4
                } else {
                    0
                };
                let bumped = if self.scroll_offset <= usize::MAX - page {
                    self.scroll_offset + page
                } else {
                    usize::MAX
                };
                let h = self.content_height();
                self.scroll_offset = reconcile_scroll(bumped, h, self.viewport_height);
            },
            Action::PageUp => {
                let page = if self.viewport_height >= 4 {
                    self.viewport_height - 4
                } else {
                    0
                };
                let lowered = if self.scroll_offset >= page {
                    self.scroll_offset - page
                } else {
                    0
                };
                let h = self.content_height();
                self.scroll_offset = reconcile_scroll(lowered, h, self.viewport_height);
            },
            Action::JumpTop => {
                self.scroll_offset = 0;
            },
            Action::JumpBottom => {
                let h = self.content_height();
                self.scroll_offset = reconcile_scroll(h, h, self.viewport_height);
                proof {
                    lemma_reconcile_idempotent(
                        old(self).spec_content_height(),
                        old(self).spec_content_height(),
                        old(self).viewport_height as int,
                    );
                }
            },
            Action::SelectUnit { unit } => {
                self.unit = unit;
                self.rows = build_rows(&self.list, self.aggregated, self.unit);
                self.device_lines = build_device_lines(&self.chart_info.swap_devices, self.unit);
            },
            Action::ToggleAggregation => {
                self.aggregated = !self.aggregated;
                self.rebuild_list_rows();
                let h = self.content_height();
                self.scroll_offset = reconcile_scroll(self.scroll_offset, h, self.viewport_height);
                proof {
                    lemma_reconcile_idempotent(
                        old(self).scroll_offset as int,
                        self.spec_content_height(),
                        self.viewport_height as int,
                    );
                }
            },
            Action::CycleTheme => {
                self.theme = self.theme.next();
            },
            Action::ShortenInterval => {
                self.interval_ms = shorter_interval(self.interval_ms);
            },
            Action::LengthenInterval => {
                self.interval_ms = longer_interval(self.interval_ms);
            },
        }
    }
}

} // verus!
