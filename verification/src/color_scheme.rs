//! The colour preference the page sees through CSS media queries.
use crate::text::{encode_utf16, utf16_of};
use vstd::prelude::*;

verus! {

/// Registry value type code for a 32-bit number.
pub const REG_DWORD_BYTES: u32 = 4;

/// A NUL-terminated UTF-16 copy of `value`, as Windows APIs take strings.
pub fn wide(value: &str) -> (w: Vec<u16>)
    ensures
        w@ == utf16_of(value@).push(0),
{
    let mut w = encode_utf16(value);
    w.push(0);
    w
}

/// Dark mode is preferred when the `AppsUseLightTheme` value was read
/// successfully (`status` zero), is a whole 32-bit value, and is zero.
pub fn prefers_dark_from_registry(status: u32, bytes: u32, value: u32) -> (dark: bool)
    ensures
        dark == (status == 0 && bytes == REG_DWORD_BYTES && value == 0),
{
    status == 0 && bytes == REG_DWORD_BYTES && value == 0
}

} // verus!
