//! Screen captures for locating CapCut's buttons: the size checks, the pixel
//! order conversion, and the coordinates around a template.
//!
//! The capture itself (GDI) is done by the application through the closure these
//! functions are given; matching the template is done by the application.

use vstd::prelude::*;

verus! {

/// The side of a button template, in pixels.
pub const TEMPLATE_SIZE: u32 = 48;

/// The pixel bytes with every complete BGRA quadruple turned into RGBA with full
/// opacity: blue and red swap and alpha becomes 255; trailing bytes stay.
pub open spec fn rgba_of(b: Seq<u8>) -> Seq<u8> {
    Seq::new(
        b.len(),
        |i: int|
            if i < b.len() - b.len() % 4 {
                if i % 4 == 0 {
                    b[i + 2]
                } else if i % 4 == 2 {
                    b[i - 2]
                } else if i % 4 == 3 {
                    255u8
                } else {
                    b[i]
                }
            } else {
                b[i]
            },
    )
}

/// Turns captured BGRA pixels into RGBA in place.
pub fn bgra_to_rgba(buf: &mut Vec<u8>)
    ensures
        final(buf)@ == rgba_of(old(buf)@),
{
    let ghost orig = buf@;
    let n = buf.len();
    let whole = n - n % 4;
    let mut k: usize = 0;
    while k < whole
        invariant
            n == orig.len(),
            buf@.len() == n,
            whole == n - n % 4,
            k % 4 == 0,
            k <= whole,
            forall|i: int| 0 <= i < k ==> buf@[i] == #[trigger] rgba_of(orig)[i],
            forall|i: int| k <= i < n ==> buf@[i] == orig[i],
        decreases whole - k,
    {
        let b0 = buf[k];
        let b2 = buf[k + 2];
        buf.set(k, b2);
        buf.set(k + 2, b0);
        buf.set(k + 3, 255);
        proof {
            assert forall|i: int| 0 <= i < k + 4 implies buf@[i] == #[trigger] rgba_of(orig)[i] by {
                if i >= k {
                    assert(i % 4 == (i - k) % 4);
                }
            }
        }
        k = k + 4;
    }
    assert(buf@ =~= rgba_of(orig));
}

/// The byte length of a `width` by `height` capture at 4 bytes per pixel.
pub open spec fn capture_len(width: i32, height: i32) -> int {
    width * height * 4
}

/// A capture of `n` pixels: 4 bytes each, every alpha byte 255.
pub open spec fn opaque_pixels(px: Seq<u8>, n: int) -> bool {
    &&& px.len() == 4 * n
    &&& forall|i: int| 0 <= i < n ==> #[trigger] px[4 * i + 3] == 255u8
}

proof fn lemma_rgba_opaque(raw: Seq<u8>, n: int)
    requires
        raw.len() == 4 * n,
        n >= 0,
    ensures
        opaque_pixels(rgba_of(raw), n),
{
    assert forall|i: int| 0 <= i < n implies #[trigger] rgba_of(raw)[4 * i + 3] == 255u8 by {
        assert((4 * i + 3) % 4 == 3);
        assert(raw.len() % 4 == 0);
    }
}

/// Captures a screen region through `grab`, which is handed the region and the
/// byte length to fill and gives the BGRA pixels (or `None` where the capture
/// failed). Nothing is captured for an empty region, nor kept when `grab` gives
/// another number of bytes than asked; a capture is returned as RGBA with its width
/// and height, 4 bytes per pixel, fully opaque.
pub fn capture_screen_region<F: FnOnce(i32, i32, i32, i32, usize) -> Option<Vec<u8>>>(x: i32, y: i32, width: i32, height: i32, grab: F) -> (r: Option<(Vec<u8>, u32, u32)>)
    requires
        width > 0 && height > 0 ==> width * height <= i32::MAX && capture_len(width, height) <= usize::MAX,
        width > 0 && height > 0 ==> call_requires(grab, (x, y, width, height, capture_len(width, height) as usize)),
    ensures
        width <= 0 || height <= 0 ==> r is None,
        width > 0 && height > 0 ==> match r {
            None => call_ensures(grab, (x, y, width, height, capture_len(width, height) as usize), None) || exists|
                raw: Vec<u8>|
                call_ensures(grab, (x, y, width, height, capture_len(width, height) as usize), Some(raw))
                    && raw@.len() != capture_len(width, height),
            Some((px, w, h)) => w == width && h == height && opaque_pixels(px@, width * height) && exists|raw: Vec<u8>|
                call_ensures(grab, (x, y, width, height, capture_len(width, height) as usize), Some(raw))
                    && raw@.len() == capture_len(width, height) && px@ == rgba_of(raw@),
        },
{
    if width <= 0 || height <= 0 {
        return None;
    }
    let len = (width * height) as usize * 4;
    match grab(x, y, width, height, len) {
        Some(mut px) => {
            if px.len() != len {
                return None;
            }
            let ghost raw = px@;
            bgra_to_rgba(&mut px);
            proof {
                lemma_rgba_opaque(raw, width * height);
            }
            Some((px, width as u32, height as u32))
        },
        None => None,
    }
}

/// The size of a window rectangle (left, top, right, bottom), where it has one.
pub open spec fn window_size(rect: (i32, i32, i32, i32)) -> (int, int) {
    (rect.2 - rect.0, rect.3 - rect.1)
}

/// Captures a whole window, given its rectangle (`None` where it could not be read),
/// through `grab`, which is handed the width, the height and the byte length and
/// gives the BGRA pixels. A window without area is not captured, nor a capture kept
/// when `grab` gives another number of bytes than asked; a capture is returned as
/// RGBA, 4 bytes per pixel, fully opaque.
pub fn capture_window<F: FnOnce(i32, i32, usize) -> Option<Vec<u8>>>(rect: Option<(i32, i32, i32, i32)>, grab: F) -> (r: Option<(Vec<u8>, u32, u32)>)
    requires
        rect matches Some(q) ==> (i32::MIN <= q.2 - q.0 <= i32::MAX && i32::MIN <= q.3 - q.1 <= i32::MAX),
        rect matches Some(q) ==> ({
            let (w, h) = window_size(q);
            w > 0 && h > 0 ==> w * h <= i32::MAX && w * h * 4 <= usize::MAX && call_requires(grab, (w as i32, h as i32, (w * h * 4) as usize))
        }),
    ensures
        match rect {
            None => r is None,
            Some(q) => {
                let (w, h) = window_size(q);
                if w <= 0 || h <= 0 {
                    r is None
                } else {
                    match r {
                        None => call_ensures(grab, (w as i32, h as i32, (w * h * 4) as usize), None) || exists|raw: Vec<u8>|
                            call_ensures(grab, (w as i32, h as i32, (w * h * 4) as usize), Some(raw)) && raw@.len() != w * h
                                * 4,
                        Some((px, rw, rh)) => rw == w && rh == h && opaque_pixels(px@, w * h) && exists|raw: Vec<u8>|
                            call_ensures(grab, (w as i32, h as i32, (w * h * 4) as usize), Some(raw)) && raw@.len() == w
                                * h * 4 && px@ == rgba_of(raw@),
                    }
                }
            },
        },
{
    let (left, top, right, bottom) = match rect {
        Some(q) => q,
        None => return None,
    };
    let width = right - left;
    let height = bottom - top;
    if width <= 0 || height <= 0 {
        return None;
    }
    let len = (width * height) as usize * 4;
    match grab(width, height, len) {
        Some(mut px) => {
            if px.len() != len {
                return None;
            }
            let ghost raw = px@;
            bgra_to_rgba(&mut px);
            proof {
                lemma_rgba_opaque(raw, width * height);
            }
            Some((px, width as u32, height as u32))
        },
        None => None,
    }
}

/// The top-left corner of the template region around a picked point.
pub fn template_origin(x: i32, y: i32) -> (r: (i32, i32))
    requires
        x - 24 >= i32::MIN,
        y - 24 >= i32::MIN,
    ensures
        r.0 == x - 24,
        r.1 == y - 24,
{
    let half = (TEMPLATE_SIZE / 2) as i32;
    (x - half, y - half)
}

/// The screen position of a match centre found at (`cx`, `cy`) in a window capture.
pub fn match_to_screen(win_left: i32, win_top: i32, cx: u32, cy: u32) -> (r: (i32, i32))
    requires
        i32::MIN <= win_left + (cx as i32) <= i32::MAX,
        i32::MIN <= win_top + (cy as i32) <= i32::MAX,
    ensures
        r.0 == win_left + (cx as i32),
        r.1 == win_top + (cy as i32),
{
    (win_left + cx as i32, win_top + cy as i32)
}

} // verus!
