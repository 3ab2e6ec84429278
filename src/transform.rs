//! The per-page transform: crop rescaling, the bleed-cut modes, the page
//! number stamp's placement, the resize target and the RGB flattening.

use vstd::prelude::*;
use crate::paint::{blend, blend_byte, paint, CropRect, Paint};
use crate::raster::RasterImage;
use crate::types::{color_to_rgb, color_to_rgba, named_color, opacity_alpha, str_eq, ProcessOptions, Rgba};

verus! {

/// `v * actual / reference`, rounded half up.
pub open spec fn scale_edge(v: u32, actual: u32, reference: u32) -> int {
    (2 * v as int * actual as int + reference as int) / (2 * reference as int)
}

pub open spec fn min_int(a: int, b: int) -> int {
    if a < b { a } else { b }
}

pub open spec fn max_int(a: int, b: int) -> int {
    if a > b { a } else { b }
}

/// Edges clamped into a `width` by `height` image, with `right >= left` and
/// `bottom >= top`.
pub open spec fn clamp_rect(l: int, t: int, r: int, b: int, width: u32, height: u32) -> CropRect {
    let left = min_int(l, width as int);
    let top = min_int(t, height as int);
    CropRect {
        left: left as u32,
        top: top as u32,
        right: max_int(min_int(r, width as int), left) as u32,
        bottom: max_int(min_int(b, height as int), top) as u32,
    }
}

/// The crop rectangle in the image's own resolution: the edges are scaled
/// by actual over reference size when both reference sizes are non-zero,
/// then clamped.
pub open spec fn spec_crop_rect(o: &ProcessOptions, width: u32, height: u32) -> CropRect {
    if o.reference_width > 0 && o.reference_height > 0 {
        clamp_rect(
            scale_edge(o.crop_left, width, o.reference_width),
            scale_edge(o.crop_top, height, o.reference_height),
            scale_edge(o.crop_right, width, o.reference_width),
            scale_edge(o.crop_bottom, height, o.reference_height),
            width,
            height,
        )
    } else {
        clamp_rect(o.crop_left as int, o.crop_top as int, o.crop_right as int, o.crop_bottom as int, width, height)
    }
}

pub(crate) fn scale_u32(v: u32, actual: u32, reference: u32) -> (r: u128)
    requires
        reference > 0,
    ensures
        r as int == scale_edge(v, actual, reference),
{
    proof {
        assert(2 * v as int * actual as int <= 2 * 0xFFFF_FFFF * 0xFFFF_FFFF) by (nonlinear_arith)
            requires v <= 0xFFFF_FFFF, actual <= 0xFFFF_FFFF;
        assert(2 * v as int * actual as int >= 0) by (nonlinear_arith);
    }
    (2 * v as u128 * actual as u128 + reference as u128) / (2 * reference as u128)
}

fn clamp_edges(l: u128, t: u128, r: u128, b: u128, width: u32, height: u32) -> (c: CropRect)
    ensures
        c == clamp_rect(l as int, t as int, r as int, b as int, width, height),
{
    let left: u32 = if l < width as u128 { l as u32 } else { width };
    let top: u32 = if t < height as u128 { t as u32 } else { height };
    let rr: u32 = if r < width as u128 { r as u32 } else { width };
    let bb: u32 = if b < height as u128 { b as u32 } else { height };
    CropRect {
        left,
        top,
        right: if rr > left { rr } else { left },
        bottom: if bb > top { bb } else { top },
    }
}

/// The crop rectangle of the options for a `width` by `height` image. It
/// always lies inside the image, with `left <= right` and `top <= bottom`.
pub fn scaled_crop_rect(options: &ProcessOptions, width: u32, height: u32) -> (r: CropRect)
    ensures
        r == spec_crop_rect(options, width, height),
        r.left <= r.right <= width,
        r.top <= r.bottom <= height,
{
    if options.reference_width > 0 && options.reference_height > 0 {
        clamp_edges(
            scale_u32(options.crop_left, width, options.reference_width),
            scale_u32(options.crop_top, height, options.reference_height),
            scale_u32(options.crop_right, width, options.reference_width),
            scale_u32(options.crop_bottom, height, options.reference_height),
            width,
            height,
        )
    } else {
        clamp_edges(
            options.crop_left as u128,
            options.crop_top as u128,
            options.crop_right as u128,
            options.crop_bottom as u128,
            width,
            height,
        )
    }
}

/// Draws a one-pixel border of the stroke colour along the image's edges.
pub fn draw_stroke(img: &mut RasterImage, color: &str)
    requires
        old(img).wf(),
    ensures
        final(img).wf(),
        final(img).width == old(img).width,
        final(img).height == old(img).height,
        forall|q: int, c: int|
            0 <= q < old(img).width as int * old(img).height as int && 0 <= c < 4
                ==> #[trigger] final(img).data@[q * 4 + c] == crate::paint::painted(
                Paint::Frame {
                    rect: CropRect { left: 0, top: 0, right: old(img).width, bottom: old(img).height },
                    color: named_color(color@, 255, false),
                },
                q % old(img).width as int,
                q / old(img).width as int,
                old(img).data@[q * 4 + c],
                c,
            ),
{
    let color = color_to_rgb(color);
    let rect = CropRect { left: 0, top: 0, right: img.width, bottom: img.height };
    paint(img, &Paint::Frame { rect, color });
}

/// Draws a one-pixel frame of the stroke colour along the rectangle's edges.
pub fn draw_stroke_at_crop(img: &mut RasterImage, left: u32, top: u32, right: u32, bottom: u32, color: &str)
    requires
        old(img).wf(),
    ensures
        final(img).wf(),
        final(img).width == old(img).width,
        final(img).height == old(img).height,
        forall|q: int, c: int|
            0 <= q < old(img).width as int * old(img).height as int && 0 <= c < 4
                ==> #[trigger] final(img).data@[q * 4 + c] == crate::paint::painted(
                Paint::Frame {
                    rect: CropRect { left, top, right, bottom },
                    color: named_color(color@, 255, false),
                },
                q % old(img).width as int,
                q / old(img).width as int,
                old(img).data@[q * 4 + c],
                c,
            ),
{
    let color = color_to_rgb(color);
    paint(img, &Paint::Frame { rect: CropRect { left, top, right, bottom }, color });
}

/// Blends the fill colour, at the given opacity in percent, over the four
/// bands outside the rectangle; pixels inside stay as they are.
pub fn fill_outside_crop(
    img: &mut RasterImage,
    left: u32,
    top: u32,
    right: u32,
    bottom: u32,
    color: &str,
    opacity: u8,
)
    requires
        old(img).wf(),
    ensures
        final(img).wf(),
        final(img).width == old(img).width,
        final(img).height == old(img).height,
        forall|q: int, c: int|
            0 <= q < old(img).width as int * old(img).height as int && 0 <= c < 4
                ==> #[trigger] final(img).data@[q * 4 + c] == crate::paint::painted(
                Paint::Outside {
                    rect: CropRect { left, top, right, bottom },
                    color: named_color(color@, opacity_alpha(opacity), true),
                },
                q % old(img).width as int,
                q / old(img).width as int,
                old(img).data@[q * 4 + c],
                c,
            ),
{
    let color = color_to_rgba(color, opacity);
    paint(img, &Paint::Outside { rect: CropRect { left, top, right, bottom }, color });
}

/// `overlay` laid over `base` by the overlay's alpha; the result is opaque.
pub fn blend_pixels(base: Rgba, overlay: Rgba) -> (r: Rgba)
    ensures
        r == (Rgba {
            r: blend(base.r, overlay.r, overlay.a),
            g: blend(base.g, overlay.g, overlay.a),
            b: blend(base.b, overlay.b, overlay.a),
            a: 255,
        }),
{
    Rgba {
        r: blend_byte(base.r, overlay.r, overlay.a),
        g: blend_byte(base.g, overlay.g, overlay.a),
        b: blend_byte(base.b, overlay.b, overlay.a),
        a: 255,
    }
}

/// Bytes of rows `top .. top + k` of a `stride`-pixel-wide image, columns
/// `left .. left + w`, one row after another.
pub open spec fn crop_rows(d: Seq<u8>, stride: int, left: int, top: int, w: int, k: int) -> Seq<u8>
    decreases k,
{
    if k <= 0 {
        Seq::<u8>::empty()
    } else {
        let row = ((top + k - 1) * stride + left) * 4;
        crop_rows(d, stride, left, top, w, k - 1) + d.subrange(row, row + w * 4)
    }
}

/// The part of the image inside the rectangle.
pub fn crop_image(img: &RasterImage, rect: CropRect) -> (r: RasterImage)
    requires
        img.wf(),
        rect.left <= rect.right <= img.width,
        rect.top <= rect.bottom <= img.height,
    ensures
        r.wf(),
        r.width == rect.right - rect.left,
        r.height == rect.bottom - rect.top,
        r.data@ == crop_rows(
            img.data@,
            img.width as int,
            rect.left as int,
            rect.top as int,
            rect.right - rect.left,
            rect.bottom - rect.top,
        ),
{
    let total = img.data.len();
    let stride = img.width as usize;
    let w = (rect.right - rect.left) as usize;
    let h = (rect.bottom - rect.top) as usize;
    let left = rect.left as usize;
    let top = rect.top as usize;
    let mut out: Vec<u8> = Vec::new();
    let mut k: usize = 0;
    while k < h
        invariant
            total == img.data@.len(),
            img.wf(),
            stride == img.width,
            w == rect.right - rect.left,
            h == rect.bottom - rect.top,
            left == rect.left,
            top == rect.top,
            rect.left <= rect.right <= img.width,
            rect.top <= rect.bottom <= img.height,
            k <= h,
            out@ == crop_rows(img.data@, stride as int, left as int, top as int, w as int, k as int),
            out@.len() == k * w * 4,
        decreases h - k,
    {
        proof {
            assert(((top + k) * stride + left + w) * 4 <= img.height as int * img.width as int * 4)
                by (nonlinear_arith)
                requires
                    top + k < img.height,
                    left + w <= stride,
                    stride == img.width,
            ;
            assert(((top + k) * stride + left) * 4 + w * 4 == ((top + k) * stride + left + w) * 4);
        }
        let row = ((top + k) * stride + left) * 4;
        let src = img.data.as_slice();
        out.extend_from_slice(&src[row..row + w * 4]);
        assert((k + 1) * w * 4 == k * w * 4 + w * 4) by (nonlinear_arith);
        k = k + 1;
    }
    assert(h * w * 4 == w * h * 4) by (nonlinear_arith);
    RasterImage { width: rect.right - rect.left, height: rect.bottom - rect.top, data: out }
}

/// Drops the alpha byte of every pixel: three bytes per pixel, row-major.
pub fn to_rgb_bytes(img: &RasterImage) -> (r: Vec<u8>)
    requires
        img.wf(),
    ensures
        r@.len() == img.width as int * img.height as int * 3,
        forall|q: int, c: int|
            0 <= q < img.width as int * img.height as int && 0 <= c < 3 ==> #[trigger] r@[q * 3 + c]
                == img.data@[q * 4 + c],
{
    let total = img.data.len();
    let n: usize = total / 4;
    let mut out: Vec<u8> = Vec::new();
    let mut q: usize = 0;
    while q < n
        invariant
            total == img.data@.len(),
            img.wf(),
            n == img.width as int * img.height as int,
            q <= n,
            out@.len() == q * 3,
            forall|p: int, c: int| 0 <= p < q && 0 <= c < 3 ==> #[trigger] out@[p * 3 + c] == img.data@[p * 4 + c],
        decreases n - q,
    {
        let ghost before = out@;
        out.push(img.data[q * 4]);
        out.push(img.data[q * 4 + 1]);
        out.push(img.data[q * 4 + 2]);
        assert forall|p: int, c: int| 0 <= p < q + 1 && 0 <= c < 3 implies #[trigger] out@[p * 3 + c]
            == img.data@[p * 4 + c] by {
            if p < q {
                assert(out@[p * 3 + c] == before[p * 3 + c]);
            }
        }
        q = q + 1;
    }
    out
}

} // verus!
