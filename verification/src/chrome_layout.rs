//! Where the toolbar's native controls, the address frame and the status bar
//! go for a client area and a DPI: navigation buttons from the left, the task
//! manager, reader and go buttons from the right, the address field between.
use crate::geometry::{max_int, scale_dip, spec_scale_dip, Rect};
use vstd::prelude::*;

verus! {

pub const TAB_STRIP_HEIGHT_DIP: i32 = 40;
pub const TOOLBAR_HEIGHT_DIP: i32 = 104;
pub const STATUS_HEIGHT_DIP: i32 = 30;
/// Largest DPI the layout is computed for (far above any monitor's).
pub const MAX_LAYOUT_DPI: u32 = 65536;

/// A native control's position and size in client pixels.
#[derive(Clone, Copy, Debug, PartialEq, Eq, Structural)]
pub struct ControlPlacement {
    pub x: i32,
    pub y: i32,
    pub width: i32,
    pub height: i32,
}

/// The toolbar's arrangement.
#[derive(Clone, Copy, Debug, PartialEq, Eq, Structural)]
pub struct ChromeLayout {
    pub back: ControlPlacement,
    pub forward: ControlPlacement,
    pub reload: ControlPlacement,
    pub go: ControlPlacement,
    pub reader: ControlPlacement,
    pub task_manager: ControlPlacement,
    /// The edit control inside the address frame.
    pub address: ControlPlacement,
    pub address_frame: Rect,
    pub status: Rect,
}

/// `v` DIPs at `dpi`, in device pixels.
#[verifier::opaque]
pub open spec fn dip(v: int, dpi: int) -> int {
    spec_scale_dip(v, dpi)
}

pub open spec fn placement(x: int, y: int, width: int, height: int) -> ControlPlacement {
    ControlPlacement { x: x as i32, y: y as i32, width: width as i32, height: height as i32 }
}

pub open spec fn rect_of(left: int, top: int, right: int, bottom: int) -> Rect {
    Rect { left: left as i32, top: top as i32, right: right as i32, bottom: bottom as i32 }
}

/// The DPI-scaled lengths of the toolbar for a client `width`: narrower
/// windows get tighter margins and icon-only buttons.
#[derive(Clone, Copy, Debug, PartialEq, Eq, Structural)]
pub struct ToolbarMetrics {
    pub compact: bool,
    pub very_compact: bool,
    pub margin: i32,
    pub gap: i32,
    pub group_gap: i32,
    pub control_height: i32,
    pub nav_width: i32,
    /// Top edge of every toolbar control: centred below the tab strip.
    pub top: i32,
    pub toolbar_height: i32,
}

pub open spec fn spec_toolbar_metrics(width: int, dpi: int) -> ToolbarMetrics {
    let compact = width < dip(760, dpi);
    let very_compact = width < dip(520, dpi);
    let control_height = dip(40, dpi);
    let navigation_top = dip(TAB_STRIP_HEIGHT_DIP as int, dpi);
    let toolbar = dip(TOOLBAR_HEIGHT_DIP as int, dpi);
    let spare = toolbar - navigation_top - control_height;
    ToolbarMetrics {
        compact,
        very_compact,
        margin: dip(if very_compact { 7 } else { 12 }, dpi) as i32,
        gap: dip(if very_compact { 2 } else { 4 }, dpi) as i32,
        group_gap: dip(if very_compact { 5 } else { 9 }, dpi) as i32,
        control_height: control_height as i32,
        nav_width: dip(if very_compact { 34 } else { 40 }, dpi) as i32,
        top: (navigation_top + if spare > 0 { spare / 2 } else { 0 }) as i32,
        toolbar_height: toolbar as i32,
    }
}

impl ToolbarMetrics {
    /// All lengths are small and non-negative.
    pub open spec fn bounded(self) -> bool {
        &&& 0 <= self.margin <= 700_000
        &&& 0 <= self.gap <= 700_000
        &&& 0 <= self.group_gap <= 700_000
        &&& 0 <= self.control_height <= 700_000
        &&& 0 <= self.nav_width <= 700_000
        &&& 0 <= self.top <= 1_400_000
        &&& 0 <= self.toolbar_height <= 700_000
    }
}

/// The task manager, reader and go buttons, packed from the right edge but
/// never left of the navigation buttons.
#[derive(Clone, Copy, Debug, PartialEq, Eq, Structural)]
pub struct RightGroup {
    pub task_left: i32,
    pub task_width: i32,
    pub reader_left: i32,
    pub reader_width: i32,
    pub go_left: i32,
    pub go_width: i32,
}

pub open spec fn spec_right_group(width: int, m: ToolbarMetrics, dpi: int) -> RightGroup {
    let left = m.margin + 3 * (m.nav_width + m.gap);
    let task_width = dip(if m.compact { 42 } else { 116 }, dpi);
    let reader_width = dip(if m.compact { 42 } else { 78 }, dpi);
    let go_width = dip(if m.very_compact { 40 } else { 48 }, dpi);
    let task_left = max_int(width - m.margin - task_width, left);
    let reader_left = max_int(task_left - m.gap - reader_width, left);
    let go_left = max_int(reader_left - m.gap - go_width, left);
    RightGroup {
        task_left: task_left as i32,
        task_width: task_width as i32,
        reader_left: reader_left as i32,
        reader_width: reader_width as i32,
        go_left: go_left as i32,
        go_width: go_width as i32,
    }
}

/// The layout, with every length in DIPs scaled at `dpi`.
pub open spec fn spec_chrome_layout(client: Rect, dpi: int) -> ChromeLayout {
    let width = max_int(client.right as int, 1);
    let height = max_int(client.bottom as int, 1);
    let m = spec_toolbar_metrics(width, dpi);
    let step = m.nav_width + m.gap;
    let left = m.margin + 3 * step;
    let g = spec_right_group(width, m, dpi);
    let task_width = g.task_width as int;
    let reader_width = g.reader_width as int;
    let go_width = g.go_width as int;
    let task_left = g.task_left as int;
    let reader_left = g.reader_left as int;
    let go_left = g.go_left as int;
    let address_left = left + m.group_gap - m.gap;
    let address_right = max_int(go_left - m.group_gap, address_left + 1);
    let horizontal_inset = dip(13, dpi);
    let vertical_inset = dip(8, dpi);
    ChromeLayout {
        back: placement(m.margin as int, m.top as int, m.nav_width as int, m.control_height as int),
        forward: placement(m.margin + step, m.top as int, m.nav_width as int, m.control_height as int),
        reload: placement(m.margin + 2 * step, m.top as int, m.nav_width as int, m.control_height as int),
        go: placement(go_left, m.top as int, go_width, m.control_height as int),
        reader: placement(reader_left, m.top as int, reader_width, m.control_height as int),
        task_manager: placement(task_left, m.top as int, task_width, m.control_height as int),
        address: placement(
            address_left + horizontal_inset,
            m.top + vertical_inset,
            max_int(address_right - address_left - 2 * horizontal_inset, 1),
            max_int(m.control_height - 2 * vertical_inset, 1),
        ),
        address_frame: rect_of(address_left, m.top as int, address_right, m.top + m.control_height),
        status: rect_of(0, max_int(height - dip(STATUS_HEIGHT_DIP as int, dpi), m.toolbar_height as int), width, height),
    }
}

proof fn lemma_scaled_small(v: int, dpi: int)
    requires
        0 <= v <= 1000,
        0 <= dpi <= MAX_LAYOUT_DPI,
    ensures
        0 <= spec_scale_dip(v, dpi) <= 700_000,
{
    assert(0 <= v * dpi <= 1000 * 65536) by (nonlinear_arith)
        requires
            0 <= v <= 1000,
            0 <= dpi <= 65536,
    ;
}

/// A DIP length that the layout uses, scaled.
fn scaled(v: i32, dpi: u32) -> (r: i32)
    requires
        0 <= v <= 1000,
        dpi <= MAX_LAYOUT_DPI,
    ensures
        r == dip(v as int, dpi as int),
        0 <= r <= 700_000,
{
    proof {
        lemma_scaled_small(v as int, dpi as int);
        reveal(dip);
    }
    scale_dip(v, dpi)
}

fn toolbar_metrics(width: i32, dpi: u32) -> (m: ToolbarMetrics)
    requires
        dpi <= MAX_LAYOUT_DPI,
    ensures
        m == spec_toolbar_metrics(width as int, dpi as int),
        m.bounded(),
{
    let compact = width < scaled(760, dpi);
    let very_compact = width < scaled(520, dpi);
    let control_height = scaled(40, dpi);
    let navigation_top = scaled(TAB_STRIP_HEIGHT_DIP, dpi);
    let toolbar = scaled(TOOLBAR_HEIGHT_DIP, dpi);
    let spare = toolbar - navigation_top - control_height;
    ToolbarMetrics {
        compact,
        very_compact,
        margin: scaled(if very_compact { 7 } else { 12 }, dpi),
        gap: scaled(if very_compact { 2 } else { 4 }, dpi),
        group_gap: scaled(if very_compact { 5 } else { 9 }, dpi),
        control_height,
        nav_width: scaled(if very_compact { 34 } else { 40 }, dpi),
        top: navigation_top + if spare > 0 { spare / 2 } else { 0 },
        toolbar_height: toolbar,
    }
}

fn right_group(width: i32, m: ToolbarMetrics, dpi: u32) -> (g: RightGroup)
    requires
        dpi <= MAX_LAYOUT_DPI,
        width >= 1,
        m.bounded(),
    ensures
        g == spec_right_group(width as int, m, dpi as int),
        m.margin + 3 * (m.nav_width + m.gap) <= g.go_left <= g.reader_left <= g.task_left <= max_int(width as int, m.margin + 3 * (m.nav_width + m.gap)),
        0 <= g.task_width <= 700_000,
        0 <= g.reader_width <= 700_000,
        0 <= g.go_width <= 700_000,
{
    let left = m.margin + 3 * (m.nav_width + m.gap);
    let task_width = scaled(if m.compact { 42 } else { 116 }, dpi);
    let reader_width = scaled(if m.compact { 42 } else { 78 }, dpi);
    let go_width = scaled(if m.very_compact { 40 } else { 48 }, dpi);
    let task_left = if width - m.margin - task_width >= left { width - m.margin - task_width } else { left };
    let reader_left = if task_left - m.gap - reader_width >= left { task_left - m.gap - reader_width } else { left };
    let go_left = if reader_left - m.gap - go_width >= left { reader_left - m.gap - go_width } else { left };
    RightGroup { task_left, task_width, reader_left, reader_width, go_left, go_width }
}

/// Arranges the toolbar for the client rectangle `client` at `dpi`.
pub fn chrome_layout(client: Rect, dpi: u32) -> (r: ChromeLayout)
    requires
        dpi <= MAX_LAYOUT_DPI,
    ensures
        r == spec_chrome_layout(client, dpi as int),
{
    let width = if client.right >= 1 { client.right } else { 1 };
    let height = if client.bottom >= 1 { client.bottom } else { 1 };
    let m = toolbar_metrics(width, dpi);
    let step = m.nav_width + m.gap;
    let left = m.margin + 3 * step;
    let g = right_group(width, m, dpi);
    let task_width = g.task_width;
    let reader_width = g.reader_width;
    let go_width = g.go_width;
    let task_left = g.task_left;
    let reader_left = g.reader_left;
    let go_left = g.go_left;
    let address_left = left + m.group_gap - m.gap;
    let address_right = if go_left - m.group_gap >= address_left + 1 { go_left - m.group_gap } else { address_left + 1 };
    let horizontal_inset = scaled(13, dpi);
    let vertical_inset = scaled(8, dpi);
    let edit_width = address_right - address_left - 2 * horizontal_inset;
    let edit_height = m.control_height - 2 * vertical_inset;
    let status_height = scaled(STATUS_HEIGHT_DIP, dpi);
    let status_top = if height - status_height >= m.toolbar_height { height - status_height } else { m.toolbar_height };
    let top = m.top;
    let control_height = m.control_height;
    ChromeLayout {
        back: ControlPlacement { x: m.margin, y: top, width: m.nav_width, height: control_height },
        forward: ControlPlacement { x: m.margin + step, y: top, width: m.nav_width, height: control_height },
        reload: ControlPlacement { x: m.margin + 2 * step, y: top, width: m.nav_width, height: control_height },
        go: ControlPlacement { x: go_left, y: top, width: go_width, height: control_height },
        reader: ControlPlacement { x: reader_left, y: top, width: reader_width, height: control_height },
        task_manager: ControlPlacement { x: task_left, y: top, width: task_width, height: control_height },
        address: ControlPlacement {
            x: address_left + horizontal_inset,
            y: top + vertical_inset,
            width: if edit_width >= 1 { edit_width } else { 1 },
            height: if edit_height >= 1 { edit_height } else { 1 },
        },
        address_frame: Rect { left: address_left, top, right: address_right, bottom: top + control_height },
        status: Rect { left: 0, top: status_top, right: width, bottom: height },
    }
}

} // verus!
