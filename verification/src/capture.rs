//! Offscreen captures of the browser window: the size of the pixel buffer,
//! the scroll offsets sampled when timing scroll paints, and the conversion
//! of GDI's BGRA pixels to opaque RGBA.
use crate::text::{push_str, string_of};
use vstd::prelude::*;

verus! {

/// Bytes of a 32-bit capture of a `width` by `height` client area (each at
/// least one pixel), or an error when that does not fit in `usize`.
pub fn capture_byte_len(client_right: i32, client_bottom: i32) -> (r: Result<usize, String>)
    ensures
        ({
            let w = if client_right >= 1 { client_right as int } else { 1 };
            let h = if client_bottom >= 1 { client_bottom as int } else { 1 };
            &&& w * h * 4 <= usize::MAX ==> r == Ok::<usize, String>((w * h * 4) as usize)
            &&& w * h * 4 > usize::MAX ==> (r matches Err(e) && e@ == "benchmark capture is too large"@)
        }),
{
    let width: usize = if client_right >= 1 { client_right as usize } else { 1 };
    let height: usize = if client_bottom >= 1 { client_bottom as usize } else { 1 };
    let pixels = width.checked_mul(height);
    let bytes = match pixels {
        Some(p) => p.checked_mul(4),
        None => None,
    };
    match bytes {
        Some(b) => Ok(b),
        None => {
            proof {
                if pixels is Some {
                    assert(width * height * 4 > usize::MAX);
                } else {
                    assert(width * height > usize::MAX);
                    assert(width * height * 4 > usize::MAX) by (nonlinear_arith)
                        requires
                            width * height > usize::MAX,
                    ;
                }
            }
            let mut v: Vec<char> = Vec::new();
            push_str(&mut v, "benchmark capture is too large");
            assert(v@ =~= "benchmark capture is too large"@);
            Err(string_of(v.as_slice()))
        },
    }
}

/// The scroll offset of sample `sample` (from one) of `count` samples spread
/// evenly over `0..maximum_scroll` without touching either end.
pub fn scroll_sample_offset(maximum_scroll: i32, sample: usize, count: usize) -> (y: i32)
    requires
        maximum_scroll >= 0,
        1 <= sample <= count,
        count < 0x1_0000_0000,
    ensures
        y == maximum_scroll * sample / (count + 1),
        0 <= y <= maximum_scroll,
{
    let max = maximum_scroll as u64;
    let s = sample as u64;
    let n = count as u64;
    assert(max * s <= 0x8000_0000 * 0x1_0000_0000) by (nonlinear_arith)
        requires
            max <= 0x7fff_ffff,
            s <= 0x1_0000_0000,
    ;
    let product = max * s;
    let d = n + 1;
    let y = product / d;
    assert(y <= max) by (nonlinear_arith)
        requires
            y == product / d,
            d == n + 1,
            product == max * s,
            s <= n,
            n >= 1,
    ;
    y as i32
}

/// GDI's top-down BGRA pixels as opaque RGBA; bytes after the last whole pixel
/// are dropped.
pub open spec fn spec_bgra_to_rgba(bgra: Seq<u8>) -> Seq<u8> {
    Seq::new((bgra.len() / 4 * 4) as nat, |i: int| {
        let base = i - i % 4;
        if i % 4 == 0 {
            bgra[base + 2]
        } else if i % 4 == 1 {
            bgra[base + 1]
        } else if i % 4 == 2 {
            bgra[base]
        } else {
            255u8
        }
    })
}

pub fn bgra_to_rgba(bgra: &[u8]) -> (rgba: Vec<u8>)
    ensures
        rgba@ == spec_bgra_to_rgba(bgra@),
{
    let pixels = bgra.len() / 4;
    let mut out: Vec<u8> = Vec::new();
    let mut p: usize = 0;
    while p < pixels
        invariant
            p <= pixels,
            pixels == bgra.len() / 4,
            out@.len() == 4 * p,
            forall|i: int| 0 <= i < 4 * p ==> out@[i] == spec_bgra_to_rgba(bgra@)[i],
        decreases pixels - p,
    {
        let base = 4 * p;
        out.push(bgra[base + 2]);
        out.push(bgra[base + 1]);
        out.push(bgra[base]);
        out.push(255);
        proof {
            assert forall|i: int| 4 * p <= i < 4 * p + 4 implies out@[i] == spec_bgra_to_rgba(bgra@)[i] by {
                assert(i - i % 4 == 4 * p);
            }
        }
        p = p + 1;
    }
    assert(out@ =~= spec_bgra_to_rgba(bgra@));
    out
}

} // verus!
