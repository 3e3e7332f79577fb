//! How the owner-drawn toolbar buttons and the status bar look: fill and
//! text tones by button state, labels that shrink with the button, and the
//! status bar's hairline, activity dot and text box.
use crate::chrome_layout::MAX_LAYOUT_DPI;
use crate::geometry::{fits_i32, max_int, scale_dip, spec_scale_dip, Rect};
use vstd::prelude::*;

verus! {

pub const ID_BACK: usize = 1001;
pub const ID_FORWARD: usize = 1002;
pub const ID_RELOAD: usize = 1003;
pub const ID_ADDRESS: usize = 1004;
pub const ID_GO: usize = 1005;
pub const ID_TASK_MANAGER: usize = 1006;
pub const ID_READER: usize = 1007;
/// Owner-draw item state bits.
pub const ODS_SELECTED: u32 = 0x0001;
pub const ODS_DISABLED: u32 = 0x0004;
pub const ODS_FOCUS: u32 = 0x0010;

/// A button's background, named after the theme color it takes.
#[derive(Clone, Copy, Debug, PartialEq, Eq, Structural)]
pub enum ButtonFill {
    Toolbar,
    Hover,
    Pressed,
    Accent,
    AccentHover,
    AccentPressed,
    AccentSoft,
}

/// A button's label color, named after the theme color it takes.
#[derive(Clone, Copy, Debug, PartialEq, Eq, Structural)]
pub enum LabelTone {
    Disabled,
    Field,
    Accent,
    Text,
}

/// Everything that decides how one toolbar button is drawn.
#[derive(Clone, Copy, Debug)]
pub struct ButtonLook {
    pub fill: ButtonFill,
    pub tone: LabelTone,
    pub label: &'static str,
    /// Arrow buttons use the larger icon font.
    pub icon_font: bool,
    /// Focused buttons get a focus ring.
    pub focus_ring: bool,
    /// The rounded button inside the item rectangle.
    pub button: Rect,
    /// Where the label is centred: the button, one pixel lower while pressed.
    pub label_rect: Rect,
}

pub open spec fn spec_fill(primary: bool, active: bool, pressed: bool, hovered: bool) -> ButtonFill {
    if primary {
        if pressed {
            ButtonFill::AccentPressed
        } else if hovered {
            ButtonFill::AccentHover
        } else {
            ButtonFill::Accent
        }
    } else if pressed {
        ButtonFill::Pressed
    } else if active {
        ButtonFill::AccentSoft
    } else if hovered {
        ButtonFill::Hover
    } else {
        ButtonFill::Toolbar
    }
}

pub open spec fn spec_tone(primary: bool, active: bool, disabled: bool) -> LabelTone {
    if disabled {
        LabelTone::Disabled
    } else if primary {
        LabelTone::Field
    } else if active {
        LabelTone::Accent
    } else {
        LabelTone::Text
    }
}

/// The label of button `id`; the reader and task manager buttons show a short
/// form when `compact`.
pub open spec fn spec_label(id: usize, compact: bool) -> Seq<char> {
    if id == ID_BACK {
        "←"@
    } else if id == ID_FORWARD {
        "→"@
    } else if id == ID_RELOAD {
        "↻"@
    } else if id == ID_READER {
        if compact { "Aa"@ } else { "Reader"@ }
    } else if id == ID_TASK_MANAGER {
        if compact { "⋯"@ } else { "Task manager"@ }
    } else if id == ID_GO {
        "Go"@
    } else {
        ""@
    }
}

fn button_label(id: usize, compact: bool) -> (s: &'static str)
    ensures
        s@ == spec_label(id, compact),
{
    if id == ID_BACK {
        "←"
    } else if id == ID_FORWARD {
        "→"
    } else if id == ID_RELOAD {
        "↻"
    } else if id == ID_READER {
        if compact { "Aa" } else { "Reader" }
    } else if id == ID_TASK_MANAGER {
        if compact { "⋯" } else { "Task manager" }
    } else if id == ID_GO {
        "Go"
    } else {
        ""
    }
}

proof fn lemma_small_scale(v: int, dpi: int)
    requires
        0 <= v <= 100,
        0 <= dpi <= MAX_LAYOUT_DPI,
    ensures
        0 <= spec_scale_dip(v, dpi) <= 70_000,
{
    assert(0 <= v * dpi <= 100 * 65536) by (nonlinear_arith)
        requires
            0 <= v <= 100,
            0 <= dpi <= 65536,
    ;
}

/// The look of toolbar button `id` drawn into `item` with owner-draw `state`;
/// `hovered` from the button's hover flag, `reader_shown` when the reader
/// surface is up (which marks the reader button active).
pub fn chrome_button_look(id: usize, state: u32, hovered: bool, reader_shown: bool, item: Rect, dpi: u32) -> (look: ButtonLook)
    requires
        dpi <= MAX_LAYOUT_DPI,
        fits_i32(item.left as int + 70_000),
        fits_i32(item.top as int + 140_000),
        fits_i32(item.right as int - 70_000),
        fits_i32(item.bottom as int - 70_000),
        fits_i32(item.right as int - item.left as int),
    ensures
        ({
            let one = spec_scale_dip(1, dpi as int);
            let pressed = state & ODS_SELECTED != 0;
            let primary = id == ID_GO;
            let active = id == ID_READER && reader_shown;
            let button = look.button;
            &&& button.left == item.left + one
            &&& button.top == item.top + one
            &&& button.right == max_int(item.right - one, item.left + one)
            &&& button.bottom == max_int(item.bottom - one, item.top + one)
            &&& look.fill == spec_fill(primary, active, pressed, hovered)
            &&& look.tone == spec_tone(primary, active, state & ODS_DISABLED != 0)
            &&& look.label@ == spec_label(id, button.spec_width() < spec_scale_dip(70, dpi as int))
            &&& look.icon_font == (id == ID_BACK || id == ID_FORWARD || id == ID_RELOAD)
            &&& look.focus_ring == (state & ODS_FOCUS != 0)
            &&& look.label_rect == if pressed {
                Rect { top: (button.top + one) as i32, bottom: (button.bottom + one) as i32, ..button }
            } else {
                button
            }
        }),
{
    proof {
        lemma_small_scale(1, dpi as int);
        lemma_small_scale(70, dpi as int);
    }
    let one = scale_dip(1, dpi);
    let pressed = state & ODS_SELECTED != 0;
    let disabled = state & ODS_DISABLED != 0;
    let focused = state & ODS_FOCUS != 0;
    let active = id == ID_READER && reader_shown;
    let primary = id == ID_GO;
    let fill = if primary {
        if pressed {
            ButtonFill::AccentPressed
        } else if hovered {
            ButtonFill::AccentHover
        } else {
            ButtonFill::Accent
        }
    } else if pressed {
        ButtonFill::Pressed
    } else if active {
        ButtonFill::AccentSoft
    } else if hovered {
        ButtonFill::Hover
    } else {
        ButtonFill::Toolbar
    };
    let tone = if disabled {
        LabelTone::Disabled
    } else if primary {
        LabelTone::Field
    } else if active {
        LabelTone::Accent
    } else {
        LabelTone::Text
    };
    let button = item.inset(one, one);
    let compact = button.width() < scale_dip(70, dpi);
    let label_rect = if pressed {
        Rect { top: button.top + one, bottom: button.bottom + one, ..button }
    } else {
        button
    };
    ButtonLook {
        fill,
        tone,
        label: button_label(id, compact),
        icon_font: id == ID_BACK || id == ID_FORWARD || id == ID_RELOAD,
        focus_ring: focused,
        button,
        label_rect,
    }
}

/// The parts of the status bar.
#[derive(Clone, Copy, Debug, PartialEq, Eq, Structural)]
pub struct StatusBarLayout {
    /// The border line along the top edge.
    pub hairline: Rect,
    /// The round activity indicator.
    pub dot: Rect,
    /// Where the status text is drawn.
    pub text: Rect,
}

/// Lays out the status bar `status` at `dpi`.
pub fn status_bar_layout(status: Rect, dpi: u32) -> (r: StatusBarLayout)
    requires
        dpi <= MAX_LAYOUT_DPI,
        0 <= status.top <= status.bottom <= i32::MAX - 70_000,
        -70_000 <= status.right <= i32::MAX - 70_000,
        fits_i32(status.bottom as int - status.top as int),
    ensures
        ({
            let hairline = max_int(spec_scale_dip(1, dpi as int), 1);
            let dot_size = spec_scale_dip(7, dpi as int);
            let dot_left = spec_scale_dip(14, dpi as int);
            let dot_top = status.top + max_int((status.spec_height() - dot_size) / 2, 0);
            &&& r.hairline == (Rect { left: status.left, top: status.top, right: status.right, bottom: (status.top + hairline) as i32 })
            &&& r.dot == (Rect { left: dot_left as i32, top: dot_top as i32, right: (dot_left + dot_size) as i32, bottom: (dot_top + dot_size) as i32 })
            &&& r.text == (Rect {
                left: (dot_left + dot_size + spec_scale_dip(9, dpi as int)) as i32,
                top: status.top,
                right: max_int(status.right - spec_scale_dip(12, dpi as int), 1) as i32,
                bottom: status.bottom,
            })
        }),
{
    proof {
        lemma_small_scale(1, dpi as int);
        lemma_small_scale(7, dpi as int);
        lemma_small_scale(9, dpi as int);
        lemma_small_scale(12, dpi as int);
        lemma_small_scale(14, dpi as int);
    }
    let one = scale_dip(1, dpi);
    let hairline = if one >= 1 { one } else { 1 };
    let dot_size = scale_dip(7, dpi);
    let dot_left = scale_dip(14, dpi);
    let spare = status.height() - dot_size;
    let dot_top = status.top + if spare > 0 { spare / 2 } else { 0 };
    let right = status.right - scale_dip(12, dpi);
    StatusBarLayout {
        hairline: Rect { left: status.left, top: status.top, right: status.right, bottom: status.top + hairline },
        dot: Rect { left: dot_left, top: dot_top, right: dot_left + dot_size, bottom: dot_top + dot_size },
        text: Rect {
            left: dot_left + dot_size + scale_dip(9, dpi),
            top: status.top,
            right: if right >= 1 { right } else { 1 },
            bottom: status.bottom,
        },
    }
}

} // verus!
