//! Where a new top-level browser window opens: at startup, when a tab is torn
//! off under the cursor, and when a window is duplicated next to its source.
use crate::geometry::{fits_i32, max_int, scale_dip, spec_scale_dip, Point, Rect};
use vstd::prelude::*;

verus! {

/// The system-chosen position for a new window.
pub const CW_USEDEFAULT: i32 = i32::MIN;

/// Position, outer size and initial visibility of a window about to be created.
#[derive(Clone, Copy, Debug, PartialEq, Eq, Structural)]
pub struct BrowserWindowPlacement {
    pub x: i32,
    pub y: i32,
    pub width: i32,
    pub height: i32,
    pub visible: bool,
}

impl BrowserWindowPlacement {
    /// The startup window: system-placed, `width` by `height` logical pixels.
    pub fn initial(width: i32, height: i32, dpi: u32, visible: bool) -> (p: Self)
        ensures
            p.x == CW_USEDEFAULT,
            p.y == CW_USEDEFAULT,
            p.width == spec_scale_dip(width as int, dpi as int),
            p.height == spec_scale_dip(height as int, dpi as int),
            p.visible == visible,
    {
        BrowserWindowPlacement {
            x: CW_USEDEFAULT,
            y: CW_USEDEFAULT,
            width: scale_dip(width, dpi),
            height: scale_dip(height, dpi),
            visible,
        }
    }

    /// A window for a tab torn off at `cursor`: the grip lands under the cursor
    /// and the window keeps the source size, but is at least 500 by 360.
    pub fn detached(source: Rect, cursor: Point, dpi: u32) -> (p: Self)
        requires
            source.extents_fit(),
            fits_i32(cursor.x - spec_scale_dip(140, dpi as int)),
            fits_i32(cursor.y - spec_scale_dip(18, dpi as int)),
        ensures
            p.x == cursor.x - spec_scale_dip(140, dpi as int),
            p.y == cursor.y - spec_scale_dip(18, dpi as int),
            p.width == max_int(source.spec_width(), spec_scale_dip(500, dpi as int)),
            p.height == max_int(source.spec_height(), spec_scale_dip(360, dpi as int)),
            !p.visible,
    {
        let grip_x = scale_dip(140, dpi);
        let grip_y = scale_dip(18, dpi);
        let min_w = scale_dip(500, dpi);
        let min_h = scale_dip(360, dpi);
        let w = source.width();
        let h = source.height();
        BrowserWindowPlacement {
            x: cursor.x - grip_x,
            y: cursor.y - grip_y,
            width: if w >= min_w { w } else { min_w },
            height: if h >= min_h { h } else { min_h },
            visible: false,
        }
    }

    /// A window opened 32 logical pixels below and right of `source`.
    pub fn offset(source: Rect, dpi: u32) -> (p: Self)
        requires
            source.extents_fit(),
            fits_i32(source.left + spec_scale_dip(32, dpi as int)),
            fits_i32(source.top + spec_scale_dip(32, dpi as int)),
        ensures
            p.x == source.left + spec_scale_dip(32, dpi as int),
            p.y == source.top + spec_scale_dip(32, dpi as int),
            p.width == max_int(source.spec_width(), spec_scale_dip(500, dpi as int)),
            p.height == max_int(source.spec_height(), spec_scale_dip(360, dpi as int)),
            !p.visible,
    {
        let offset = scale_dip(32, dpi);
        let min_w = scale_dip(500, dpi);
        let min_h = scale_dip(360, dpi);
        let w = source.width();
        let h = source.height();
        BrowserWindowPlacement {
            x: source.left + offset,
            y: source.top + offset,
            width: if w >= min_w { w } else { min_w },
            height: if h >= min_h { h } else { min_h },
            visible: false,
        }
    }
}

} // verus!
