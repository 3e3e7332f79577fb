//! Viewport-aware geometry of the performance diagnostics panel and its
//! bounded detail scrolling.
use crate::geometry::{fits_i32, lemma_scale_dip_monotone, max_int, min_int, scale_dip, spec_scale_dip, Rect};
use vstd::prelude::*;

verus! {

pub const PANEL_WIDTH_DIP: i32 = 480;
pub const PANEL_HEIGHT_DIP: i32 = 520;
pub const METRIC_ROW_COUNT: usize = 9;
pub const GRAPH_MIN_HEIGHT_DIP: i32 = 330;

/// Regions of the diagnostics panel in client coordinates.
#[derive(Clone, Copy, Debug, PartialEq, Eq, Structural)]
pub struct PanelLayout {
    pub heading: Rect,
    pub metrics: Rect,
    pub visible_metric_rows: usize,
    pub details: Rect,
    pub graph: Option<Rect>,
    pub copy_button: Rect,
    pub close_button: Rect,
    pub row_height: i32,
    pub scrollbar: Rect,
}

/// The client rectangles and DPIs on which laying out the panel computes every
/// `i32` difference without overflow: the inner right edge, the footer and
/// button edges above the bottom, and the client height.
pub open spec fn layout_domain(client: Rect, dpi: u32) -> bool {
    &&& fits_i32(client.right - max_int(sd(16, dpi), 1))
    &&& fits_i32(client.bottom - sd(48, dpi))
    &&& fits_i32(client.bottom - sd(42, dpi))
    &&& fits_i32(client.bottom - sd(10, dpi))
    &&& fits_i32(client.bottom - client.top)
}

/// Rust's `i32` division, rounding toward zero, for a positive divisor.
pub open spec fn trunc_div(a: int, b: int) -> int {
    if a >= 0 {
        a / b
    } else {
        -((-a) / b)
    }
}

pub open spec fn clamp_int(v: int, lo: int, hi: int) -> int {
    if v < lo {
        lo
    } else if v > hi {
        hi
    } else {
        v
    }
}

pub open spec fn sd(v: int, dpi: u32) -> int {
    spec_scale_dip(v, dpi as int)
}

/// The panel layout for a client area at `dpi`.
pub open spec fn spec_panel_layout(client: Rect, dpi: u32) -> PanelLayout {
    let padding = max_int(sd(16, dpi), 1);
    let row_height = max_int(sd(18, dpi), 1);
    let inner_right = max_int(client.right - padding, padding);
    let footer_top = max_int(client.bottom - sd(48, dpi), 0);
    let close_width = max_int(sd(70, dpi), 1);
    let button_gap = max_int(sd(8, dpi), 1);
    let button_top = clamp_int(client.bottom - sd(42, dpi), 0, max_int(client.bottom as int, 0));
    let button_bottom = clamp_int(
        client.bottom - sd(10, dpi),
        button_top,
        max_int(client.bottom as int, 0),
    );
    let close_left = max_int(inner_right - close_width, padding);
    let close_button = Rect {
        left: close_left as i32,
        top: button_top as i32,
        right: inner_right as i32,
        bottom: button_bottom as i32,
    };
    let copy_button = Rect {
        left: padding as i32,
        top: button_top as i32,
        right: max_int(close_left - button_gap, padding) as i32,
        bottom: button_bottom as i32,
    };
    let heading = Rect {
        left: padding as i32,
        top: min_int(sd(8, dpi), footer_top) as i32,
        right: inner_right as i32,
        bottom: min_int(sd(38, dpi), footer_top) as i32,
    };
    let metrics_top = min_int(sd(40, dpi), footer_top);
    let graph_bottom = max_int(footer_top - sd(10, dpi), metrics_top);
    let graph_top = max_int(graph_bottom - sd(32, dpi), metrics_top);
    let graph = if client.spec_height() >= sd(GRAPH_MIN_HEIGHT_DIP as int, dpi) && graph_top
        < graph_bottom {
        Some(
            Rect {
                left: padding as i32,
                top: graph_top as i32,
                right: inner_right as i32,
                bottom: graph_bottom as i32,
            },
        )
    } else {
        None
    };
    let details_bottom = max_int(
        match graph {
            Some(g) => g.top - sd(8, dpi),
            None => footer_top - sd(8, dpi),
        },
        metrics_top,
    );
    let details_gap = max_int(sd(8, dpi), 1);
    let metric_space = details_bottom - metrics_top - details_gap - row_height;
    let visible_metric_rows = clamp_int(
        trunc_div(metric_space, row_height),
        0,
        METRIC_ROW_COUNT as int,
    );
    let metrics = Rect {
        left: padding as i32,
        top: metrics_top as i32,
        right: inner_right as i32,
        bottom: (metrics_top + visible_metric_rows * row_height) as i32,
    };
    let details_top = min_int(metrics.bottom + details_gap, details_bottom);
    let scrollbar_width = max_int(sd(4, dpi), 2);
    let details = Rect {
        left: padding as i32,
        top: details_top as i32,
        right: inner_right as i32,
        bottom: details_bottom as i32,
    };
    let scrollbar = Rect {
        left: max_int(details.right - scrollbar_width, details.left as int) as i32,
        top: details.top,
        right: details.right,
        bottom: details.bottom,
    };
    PanelLayout {
        heading,
        metrics,
        visible_metric_rows: visible_metric_rows as usize,
        details,
        graph,
        copy_button,
        close_button,
        row_height: row_height as i32,
        scrollbar,
    }
}

fn imax(a: i32, b: i32) -> (r: i32)
    ensures
        r == max_int(a as int, b as int),
{
    if a >= b { a } else { b }
}

fn imin(a: i32, b: i32) -> (r: i32)
    ensures
        r == min_int(a as int, b as int),
{
    if a <= b { a } else { b }
}

fn iclamp(v: i32, lo: i32, hi: i32) -> (r: i32)
    requires
        lo <= hi,
    ensures
        r == clamp_int(v as int, lo as int, hi as int),
{
    if v < lo {
        lo
    } else if v > hi {
        hi
    } else {
        v
    }
}

fn lmax(a: i64, b: i64) -> (r: i64)
    ensures
        r == max_int(a as int, b as int),
{
    if a >= b { a } else { b }
}

fn lmin(a: i64, b: i64) -> (r: i64)
    ensures
        r == min_int(a as int, b as int),
{
    if a <= b { a } else { b }
}

fn lclamp(v: i64, lo: i64, hi: i64) -> (r: i64)
    requires
        lo <= hi,
    ensures
        r == clamp_int(v as int, lo as int, hi as int),
{
    if v < lo {
        lo
    } else if v > hi {
        hi
    } else {
        v
    }
}

/// Device-pixel lengths of the panel, as wide integers.
fn ls(value: i32, dpi: u32) -> (r: i64)
    requires
        value >= 0,
    ensures
        r == sd(value as int, dpi),
        0 <= r <= i32::MAX,
{
    proof {
        lemma_scale_dip_monotone(0, value as int, dpi as int);
    }
    scale_dip(value, dpi) as i64
}

proof fn lemma_scales_ordered(dpi: u32)
    ensures
        0 <= sd(4, dpi) <= sd(8, dpi) <= sd(10, dpi) <= sd(16, dpi) <= sd(18, dpi) <= sd(32, dpi)
            <= sd(38, dpi) <= sd(40, dpi) <= sd(42, dpi) <= sd(48, dpi) <= sd(70, dpi) <= sd(
            330,
            dpi,
        ) <= i32::MAX,
        0 <= sd(6, dpi) <= i32::MAX,
{
    lemma_scale_dip_monotone(0, 4, dpi as int);
    lemma_scale_dip_monotone(4, 8, dpi as int);
    lemma_scale_dip_monotone(8, 10, dpi as int);
    lemma_scale_dip_monotone(10, 16, dpi as int);
    lemma_scale_dip_monotone(16, 18, dpi as int);
    lemma_scale_dip_monotone(18, 32, dpi as int);
    lemma_scale_dip_monotone(32, 38, dpi as int);
    lemma_scale_dip_monotone(38, 40, dpi as int);
    lemma_scale_dip_monotone(40, 42, dpi as int);
    lemma_scale_dip_monotone(42, 48, dpi as int);
    lemma_scale_dip_monotone(48, 70, dpi as int);
    lemma_scale_dip_monotone(70, 330, dpi as int);
    lemma_scale_dip_monotone(0, 6, dpi as int);
    assert(0 * (dpi as int) == 0);
}

impl PanelLayout {
    /// Lays out the panel inside `client` at `dpi`.
    #[verifier::rlimit(60)]
    pub fn new(client: &Rect, dpi: u32) -> (layout: Self)
        requires
            layout_domain(*client, dpi),
        ensures
            layout == spec_panel_layout(*client, dpi),
    {
        proof {
            lemma_scales_ordered(dpi);
        }
        let right = client.right as i64;
        let bottom = client.bottom as i64;
        let padding = lmax(ls(16, dpi), 1);
        let row_height = lmax(ls(18, dpi), 1);
        let inner_right = lmax(right - padding, padding);
        let footer_top = lmax(bottom - ls(48, dpi), 0);
        let close_width = lmax(ls(70, dpi), 1);
        let button_gap = lmax(ls(8, dpi), 1);
        let bottom_limit = lmax(bottom, 0);
        let button_top = lclamp(bottom - ls(42, dpi), 0, bottom_limit);
        let button_bottom = lclamp(bottom - ls(10, dpi), button_top, bottom_limit);
        let close_left = lmax(inner_right - close_width, padding);
        let copy_right = lmax(close_left - button_gap, padding);
        let heading_top = lmin(ls(8, dpi), footer_top);
        let heading_bottom = lmin(ls(38, dpi), footer_top);
        let metrics_top = lmin(ls(40, dpi), footer_top);
        let tall = client.height() as i64 >= ls(GRAPH_MIN_HEIGHT_DIP, dpi);
        let graph_bottom = lmax(footer_top - ls(10, dpi), metrics_top);
        let graph_top = lmax(graph_bottom - ls(32, dpi), metrics_top);
        let has_graph = tall && graph_top < graph_bottom;
        let details_bottom = lmax(
            if has_graph {
                graph_top - ls(8, dpi)
            } else {
                footer_top - ls(8, dpi)
            },
            metrics_top,
        );
        let details_gap = lmax(ls(8, dpi), 1);
        let metric_space = details_bottom - metrics_top - details_gap - row_height;
        let rows: i64 = if metric_space <= 0 {
            0
        } else {
            let q = metric_space / row_height;
            if q > METRIC_ROW_COUNT as i64 {
                METRIC_ROW_COUNT as i64
            } else {
                q
            }
        };
        assert(rows == clamp_int(
            trunc_div(metric_space as int, row_height as int),
            0,
            METRIC_ROW_COUNT as int,
        )) by {
            if metric_space < 0 {
                let m: int = -(metric_space as int);
                let rh: int = row_height as int;
                assert(m / rh >= 0) by (nonlinear_arith)
                    requires
                        m > 0,
                        rh > 0,
                ;
            }
        }
        proof {
            lemma_rows_fit(metric_space as int, row_height as int);
        }
        assert(0 <= rows * row_height <= 9 * 0x7fff_ffff) by (nonlinear_arith)
            requires
                0 <= rows <= 9,
                0 < row_height <= 0x7fff_ffff,
        ;
        let metrics_bottom = metrics_top + rows * row_height;
        let details_top = lmin(metrics_bottom + details_gap, details_bottom);
        let scrollbar_width = lmax(ls(4, dpi), 2);
        let scrollbar_left = lmax(inner_right - scrollbar_width, padding);
        let graph = if has_graph {
            Some(
                Rect {
                    left: padding as i32,
                    top: graph_top as i32,
                    right: inner_right as i32,
                    bottom: graph_bottom as i32,
                },
            )
        } else {
            None
        };
        let details = Rect {
            left: padding as i32,
            top: details_top as i32,
            right: inner_right as i32,
            bottom: details_bottom as i32,
        };
        PanelLayout {
            heading: Rect {
                left: padding as i32,
                top: heading_top as i32,
                right: inner_right as i32,
                bottom: heading_bottom as i32,
            },
            metrics: Rect {
                left: padding as i32,
                top: metrics_top as i32,
                right: inner_right as i32,
                bottom: metrics_bottom as i32,
            },
            visible_metric_rows: rows as usize,
            details,
            graph,
            copy_button: Rect {
                left: padding as i32,
                top: button_top as i32,
                right: copy_right as i32,
                bottom: button_bottom as i32,
            },
            close_button: Rect {
                left: close_left as i32,
                top: button_top as i32,
                right: inner_right as i32,
                bottom: button_bottom as i32,
            },
            row_height: row_height as i32,
            scrollbar: Rect {
                left: scrollbar_left as i32,
                top: details.top,
                right: details.right,
                bottom: details.bottom,
            },
        }
    }

    /// Whole detail rows that fit in the details region.
    pub fn visible_detail_rows(&self) -> (rows: usize)
        requires
            fits_i32(self.details.bottom - self.details.top),
        ensures
            rows == self.details.spec_height() / max_int(self.row_height as int, 1),
    {
        let h = self.details.height();
        let r = imax(self.row_height, 1);
        (h / r) as usize
    }

    /// Text area of the details region, leaving room for the scrollbar when it is shown.
    pub fn detail_text_bounds(&self, scrollable: bool, dpi: u32) -> (r: Rect)
        requires
            fits_i32(self.scrollbar.left - sd(6, dpi)),
        ensures
            r == (Rect {
                right: if scrollable {
                    max_int(self.scrollbar.left - sd(6, dpi), self.details.left as int) as i32
                } else {
                    self.details.right
                },
                ..self.details
            }),
    {
        Rect {
            right: if scrollable {
                imax(self.scrollbar.left - scale_dip(6, dpi), self.details.left)
            } else {
                self.details.right
            },
            ..self.details
        }
    }

    /// The scrollbar thumb for `total` detail lines scrolled by `offset`, when they overflow.
    pub fn scrollbar_thumb(&self, total: usize, offset: usize) -> (r: Option<Rect>)
        requires
            fits_i32(self.details.bottom - self.details.top),
            self.scrollbar.extents_fit(),
            total <= u32::MAX,
            fits_i32(self.scrollbar.top + self.scrollbar.spec_height()),
        ensures
            ({
                let visible = self.details.spec_height() / max_int(self.row_height as int, 1);
                let track = self.scrollbar.spec_height();
                if visible == 0 || total <= visible || track <= 0 {
                    r is None
                } else {
                    let thumb = clamp_int(
                        track * visible / (total as int),
                        min_int(self.row_height as int, track),
                        track,
                    );
                    let maximum_offset = total - visible;
                    let travel = track - thumb;
                    let top = self.scrollbar.top + travel * min_int(offset as int, maximum_offset)
                        / maximum_offset;
                    r == Some(
                        Rect {
                            left: self.scrollbar.left,
                            top: top as i32,
                            right: self.scrollbar.right,
                            bottom: (top + thumb) as i32,
                        },
                    )
                }
            }),
    {
        let visible = self.visible_detail_rows();
        let track_height = self.scrollbar.height();
        if visible == 0 || total <= visible || track_height <= 0 {
            return None;
        }
        proof {
            let t = track_height as int;
            let v = visible as int;
            let n = total as int;
            let h = self.details.spec_height();
            let rh = max_int(self.row_height as int, 1);
            assert(v <= h) by (nonlinear_arith)
                requires
                    v == h / rh,
                    rh >= 1,
                    h >= 0,
            ;
            assert(0 <= t * v <= 0x7fff_ffff * 0x7fff_ffff) by (nonlinear_arith)
                requires
                    0 < t <= 0x7fff_ffff,
                    0 < v <= 0x7fff_ffff,
            ;
            assert(t * v / n < t) by (nonlinear_arith)
                requires
                    0 < v < n,
                    t > 0,
            ;
            assert(t * v / n >= 0) by (nonlinear_arith)
                requires
                    0 <= t * v,
                    n > 0,
            ;
        }
        let scaled = (track_height as i64 * visible as i64 / total as i64) as i32;
        let thumb_height = iclamp(scaled, imin(self.row_height, track_height), track_height);
        let maximum_offset = total - visible;
        let travel = track_height - thumb_height;
        let shown = if offset <= maximum_offset { offset } else { maximum_offset };
        proof {
            let tr = travel as int;
            let sh = shown as int;
            let mo = maximum_offset as int;
            assert(0 <= tr * sh <= 0x7fff_ffff * 0xffff_ffff) by (nonlinear_arith)
                requires
                    0 <= tr <= 0x7fff_ffff,
                    0 <= sh <= 0xffff_ffff,
            ;
            assert(tr * sh / mo <= tr) by (nonlinear_arith)
                requires
                    0 <= sh <= mo,
                    0 <= tr,
                    mo > 0,
            ;
            assert(tr * sh / mo >= 0) by (nonlinear_arith)
                requires
                    0 <= tr * sh,
                    mo > 0,
            ;
        }
        let step = (travel as i64 * shown as i64 / maximum_offset as i64) as i32;
        let thumb_top = self.scrollbar.top + step;
        Some(
            Rect {
                left: self.scrollbar.left,
                top: thumb_top,
                right: self.scrollbar.right,
                bottom: thumb_top + thumb_height,
            },
        )
    }
}

/// `current` limited to the last page of `total` rows.
pub open spec fn spec_clamp_scroll_row(current: int, total: int, visible: int) -> int {
    min_int(current, if total >= visible { total - visible } else { 0 })
}

/// Keeps the first shown row inside the scrollable range.
pub fn clamp_scroll_row(current: usize, total: usize, visible: usize) -> (r: usize)
    ensures
        r == spec_clamp_scroll_row(current as int, total as int, visible as int),
{
    let maximum = total.saturating_sub(visible);
    if current <= maximum { current } else { maximum }
}

/// First shown row after a wheel step: three rows per notch, within the scrollable range.
pub open spec fn spec_scroll_detail_rows(current: int, wheel_delta: int, total: int, visible: int) -> int {
    let maximum = if total >= visible { total - visible } else { 0 };
    let current = min_int(current, maximum);
    if wheel_delta < 0 {
        min_int(current + 3, maximum)
    } else if wheel_delta > 0 {
        if current >= 3 { current - 3 } else { 0 }
    } else {
        current
    }
}

/// Scrolls the detail list by one wheel notch (down for a negative delta).
pub fn scroll_detail_rows(current: usize, wheel_delta: i32, total: usize, visible: usize) -> (r: usize)
    ensures
        r == spec_scroll_detail_rows(current as int, wheel_delta as int, total as int, visible as int),
        visible <= total && current <= total - visible && wheel_delta > 0 ==> r == (if current >= 3 {
            current - 3
        } else {
            0
        }),
        visible <= total && current + 3 <= total - visible && wheel_delta < 0 ==> r == current + 3,
        visible <= total && current <= total - visible && wheel_delta == 0 ==> r == current,
{
    let maximum = total.saturating_sub(visible);
    let current = if current <= maximum { current } else { maximum };
    if wheel_delta < 0 {
        let next = current.saturating_add(3);
        if next <= maximum { next } else { maximum }
    } else if wheel_delta > 0 {
        current.saturating_sub(3)
    } else {
        current
    }
}

/// Scrolling never leaves the range `0..=total - visible`.
pub proof fn lemma_scroll_stays_in_range(current: int, wheel_delta: int, total: int, visible: int)
    requires
        0 <= current,
        0 <= total,
        0 <= visible,
    ensures
        0 <= spec_scroll_detail_rows(current, wheel_delta, total, visible) <= (if total >= visible {
            total - visible
        } else {
            0
        }),
{
}

/// One wheel notch moves the detail list by exactly three rows, stopping at the
/// first and last page: a notch up (positive delta) from a row inside the
/// scrollable range shows the row three above it, or the first row; a notch
/// down shows the row three below it, or the last page; no delta keeps the row.
pub proof fn lemma_wheel_notch_moves_three_rows(current: int, wheel_delta: int, total: int, visible: int)
    requires
        0 <= visible <= total,
        0 <= current <= total - visible,
    ensures
        wheel_delta > 0 && current >= 3 ==> spec_scroll_detail_rows(current, wheel_delta, total, visible)
            == current - 3,
        wheel_delta > 0 && current < 3 ==> spec_scroll_detail_rows(current, wheel_delta, total, visible) == 0,
        wheel_delta < 0 && current + 3 <= total - visible ==> spec_scroll_detail_rows(
            current,
            wheel_delta,
            total,
            visible,
        ) == current + 3,
        wheel_delta < 0 && current + 3 > total - visible ==> spec_scroll_detail_rows(
            current,
            wheel_delta,
            total,
            visible,
        ) == total - visible,
        wheel_delta == 0 ==> spec_scroll_detail_rows(current, wheel_delta, total, visible) == current,
{
}

/// A notch up undoes a notch down, and a notch down undoes a notch up, away
/// from the ends of the list.
pub proof fn lemma_wheel_notches_undo_each_other(current: int, total: int, visible: int)
    requires
        0 <= visible <= total,
        0 <= current <= total - visible,
    ensures
        current + 3 <= total - visible ==> spec_scroll_detail_rows(
            spec_scroll_detail_rows(current, -120, total, visible),
            120,
            total,
            visible,
        ) == current,
        current >= 3 ==> spec_scroll_detail_rows(
            spec_scroll_detail_rows(current, 120, total, visible),
            -120,
            total,
            visible,
        ) == current,
{
    lemma_wheel_notch_moves_three_rows(current, -120, total, visible);
    lemma_wheel_notch_moves_three_rows(current, 120, total, visible);
    if current + 3 <= total - visible {
        lemma_wheel_notch_moves_three_rows(current + 3, 120, total, visible);
    }
    if current >= 3 {
        lemma_wheel_notch_moves_three_rows(current - 3, -120, total, visible);
    }
}

/// The client edge, status bar, toolbar height and DPI on which placing the
/// panel window computes every `i32` sum and difference without overflow.
pub open spec fn placement_domain(client_right: i32, status: Rect, toolbar_height: i32, dpi: u32) -> bool {
    let width = spec_scale_dip(PANEL_WIDTH_DIP as int, dpi as int);
    let margin = spec_scale_dip(12, dpi as int);
    let top = toolbar_height + margin;
    &&& fits_i32(top)
    &&& fits_i32(status.top - top)
    &&& fits_i32(status.top - top - margin)
    &&& fits_i32(client_right - width)
    &&& fits_i32(client_right - width - margin)
    &&& fits_i32(2 * margin)
    &&& fits_i32(client_right - 2 * margin)
}

/// The panel window's position and size `(x, y, width, height)`: right-aligned
/// a margin below the toolbar, never wider or taller than the space left by
/// the margins and the status bar.
pub open spec fn spec_panel_window(client_right: int, status_top: int, toolbar_height: int, dpi: int) -> (int, int, int, int) {
    let width = spec_scale_dip(PANEL_WIDTH_DIP as int, dpi);
    let height = spec_scale_dip(PANEL_HEIGHT_DIP as int, dpi);
    let margin = spec_scale_dip(12, dpi);
    let top = toolbar_height + margin;
    let available_height = max_int(status_top - top - margin, 1);
    (
        max_int(client_right - width - margin, margin),
        top,
        min_int(width, max_int(client_right - 2 * margin, 1)),
        min_int(height, available_height),
    )
}

pub fn panel_window(client_right: i32, status: Rect, toolbar_height: i32, dpi: u32) -> (r: (i32, i32, i32, i32))
    requires
        placement_domain(client_right, status, toolbar_height, dpi),
    ensures
        (r.0 as int, r.1 as int, r.2 as int, r.3 as int) == spec_panel_window(client_right as int, status.top as int, toolbar_height as int, dpi as int),
{
    let width = ls(PANEL_WIDTH_DIP, dpi);
    let height = ls(PANEL_HEIGHT_DIP, dpi);
    let margin = ls(12, dpi);
    let right = client_right as i64;
    let top = toolbar_height as i64 + margin;
    let available_height = lmax(status.top as i64 - top - margin, 1);
    let x = lmax(right - width - margin, margin);
    let room = lmax(right - 2 * margin, 1);
    (x as i32, top as i32, lmin(width, room) as i32, lmin(height, available_height) as i32)
}

/// The status-bar corner that shows the frame counter and toggles the panel.
pub open spec fn spec_counter_rect(status: Rect, dpi: int) -> Rect {
    Rect {
        left: max_int(status.right - spec_scale_dip(96, dpi), status.left as int) as i32,
        top: status.top,
        right: status.right,
        bottom: status.bottom,
    }
}

pub fn counter_rect(status: Rect, dpi: u32) -> (r: Rect)
    requires
        fits_i32(status.right - spec_scale_dip(96, dpi as int)),
    ensures
        r == spec_counter_rect(status, dpi as int),
{
    let left = status.right as i64 - ls(96, dpi);
    Rect {
        left: lmax(left, status.left as i64) as i32,
        top: status.top,
        right: status.right,
        bottom: status.bottom,
    }
}

proof fn lemma_rows_fit(space: int, row: int)
    requires
        row >= 1,
    ensures
        clamp_int(trunc_div(space, row), 0, METRIC_ROW_COUNT as int) * row <= (if space >= 0 { space } else { 0 }),
        clamp_int(trunc_div(space, row), 0, METRIC_ROW_COUNT as int) >= 0,
{
    let q = trunc_div(space, row);
    if space >= 0 {
        assert(q * row <= space) by (nonlinear_arith)
            requires
                q == space / row,
                space >= 0,
                row >= 1,
        ;
        assert(q >= 0) by (nonlinear_arith)
            requires
                q == space / row,
                space >= 0,
                row >= 1,
        ;
        let c = clamp_int(q, 0, METRIC_ROW_COUNT as int);
        assert(c * row <= q * row) by (nonlinear_arith)
            requires
                0 <= c <= q,
                row >= 1,
        ;
    } else {
        assert(q <= 0) by (nonlinear_arith)
            requires
                q == -((-space) / row),
                space < 0,
                row >= 1,
        ;
        assert(clamp_int(q, 0, METRIC_ROW_COUNT as int) == 0);
        assert(0 * row == 0);
    }
}

/// When the panel has room for its padding, buttons and footer, every region
/// lies inside the client area, the regions stack from top to bottom without
/// overlapping (heading, metrics, details, graph, buttons), and the copy
/// button ends left of the close button.
#[verifier::rlimit(40)]
pub proof fn lemma_panel_regions_contained(client: Rect, dpi: u32)
    requires
        layout_domain(client, dpi),
        client.left == 0,
        client.top == 0,
        client.right > 2 * max_int(sd(16, dpi), 1) + max_int(sd(70, dpi), 1) + max_int(sd(8, dpi), 1),
        client.bottom >= sd(40, dpi) + sd(48, dpi),
    ensures
        ({
            let l = spec_panel_layout(client, dpi);
            &&& client.contains_rect(l.heading)
            &&& client.contains_rect(l.metrics)
            &&& client.contains_rect(l.details)
            &&& client.contains_rect(l.copy_button)
            &&& client.contains_rect(l.close_button)
            &&& l.heading.bottom <= l.metrics.top
            &&& l.metrics.bottom <= l.details.top
            &&& l.details.bottom <= l.copy_button.top
            &&& l.copy_button.right < l.close_button.left
            &&& l.copy_button.top == l.close_button.top
            &&& (l.graph matches Some(g) ==> client.contains_rect(g) && l.details.bottom <= g.top
                && g.bottom <= l.copy_button.top)
        }),
{
    lemma_scales_ordered(dpi);
    let padding = max_int(sd(16, dpi), 1);
    let row_height = max_int(sd(18, dpi), 1);
    let footer_top = max_int(client.bottom - sd(48, dpi), 0);
    let metrics_top = min_int(sd(40, dpi), footer_top);
    let graph_bottom = max_int(footer_top - sd(10, dpi), metrics_top);
    let graph_top = max_int(graph_bottom - sd(32, dpi), metrics_top);
    let graph = spec_panel_layout(client, dpi).graph;
    let details_bottom = max_int(
        match graph {
            Some(g) => g.top - sd(8, dpi),
            None => footer_top - sd(8, dpi),
        },
        metrics_top,
    );
    let details_gap = max_int(sd(8, dpi), 1);
    let metric_space = details_bottom - metrics_top - details_gap - row_height;
    lemma_rows_fit(metric_space, row_height);
}

/// For every client area in the layout domain: rows are at least one pixel
/// high, at most all metric rows show, the metrics box is exactly its shown
/// rows high, the details box starts below it, the scrollbar runs along the
/// details box's right edge, and the graph, when shown, lies below the details.
pub proof fn lemma_panel_stacking(client: Rect, dpi: u32)
    requires
        layout_domain(client, dpi),
    ensures
        ({
            let l = spec_panel_layout(client, dpi);
            let m = l.metrics;
            let d = l.details;
            let sb = l.scrollbar;
            &&& l.row_height >= 1
            &&& l.visible_metric_rows <= METRIC_ROW_COUNT
            &&& m.spec_height() == l.visible_metric_rows * l.row_height
            &&& m.bottom <= d.top <= d.bottom
            &&& d.left <= sb.left <= sb.right
            &&& sb.right == d.right
            &&& sb.top == d.top
            &&& sb.bottom == d.bottom
            &&& (l.graph matches Some(g) ==> d.bottom <= g.top)
        }),
{
    lemma_scales_ordered(dpi);
    let row_height = max_int(sd(18, dpi), 1);
    let footer_top = max_int(client.bottom - sd(48, dpi), 0);
    let metrics_top = min_int(sd(40, dpi), footer_top);
    let graph = spec_panel_layout(client, dpi).graph;
    let details_bottom = max_int(
        match graph {
            Some(g) => g.top - sd(8, dpi),
            None => footer_top - sd(8, dpi),
        },
        metrics_top,
    );
    let details_gap = max_int(sd(8, dpi), 1);
    let metric_space = details_bottom - metrics_top - details_gap - row_height;
    lemma_rows_fit(metric_space, row_height);
    let rows = clamp_int(trunc_div(metric_space, row_height), 0, METRIC_ROW_COUNT as int);
    assert(rows * row_height <= 9 * 0x7fff_ffff) by (nonlinear_arith)
        requires
            0 <= rows <= 9,
            0 < row_height <= 0x7fff_ffff,
    ;
}

/// The details box holds a whole number of rows: the rows counted fit in it,
/// and one more would not.
pub proof fn lemma_detail_rows_whole(client: Rect, dpi: u32)
    requires
        layout_domain(client, dpi),
    ensures
        ({
            let l = spec_panel_layout(client, dpi);
            let h = l.details.spec_height();
            let r = h / max_int(l.row_height as int, 1);
            &&& r * l.row_height <= h
            &&& h < (r + 1) * l.row_height
        }),
{
    lemma_panel_stacking(client, dpi);
    let l = spec_panel_layout(client, dpi);
    let h = l.details.spec_height();
    let rh = l.row_height as int;
    assert(max_int(rh, 1) == rh);
    let r = h / rh;
    assert(r * rh <= h < (r + 1) * rh) by (nonlinear_arith)
        requires
            h >= 0,
            rh >= 1,
            r == h / rh,
    ;
}

/// The scrollbar thumb never leaves its track: it starts at the track's top
/// when nothing is scrolled and ends at the track's bottom when scrolled to the
/// last row (the values `scrollbar_thumb` computes from).
pub proof fn lemma_thumb_within_track(top: int, track: int, visible: int, total: int, offset: int, row_height: int)
    requires
        track > 0,
        0 < visible < total,
        offset >= 0,
    ensures
        ({
            let thumb = clamp_int(track * visible / total, min_int(row_height, track), track);
            let maximum_offset = total - visible;
            let thumb_top = top + (track - thumb) * min_int(offset, maximum_offset) / maximum_offset;
            &&& thumb <= track
            &&& top <= thumb_top
            &&& thumb_top + thumb <= top + track
            &&& (offset == 0 ==> thumb_top == top)
            &&& (offset >= maximum_offset ==> thumb_top + thumb == top + track)
        }),
{
    let thumb = clamp_int(track * visible / total, min_int(row_height, track), track);
    let maximum_offset = total - visible;
    let travel = track - thumb;
    let k = min_int(offset, maximum_offset);
    assert(0 <= travel * k / maximum_offset <= travel) by (nonlinear_arith)
        requires
            travel >= 0,
            0 <= k <= maximum_offset,
            maximum_offset > 0,
    ;
    if offset >= maximum_offset {
        assert(travel * maximum_offset / maximum_offset == travel) by (nonlinear_arith)
            requires
                maximum_offset > 0,
        ;
    }
    if offset == 0 {
        assert(travel * 0 == 0);
    }
}

} // verus!
