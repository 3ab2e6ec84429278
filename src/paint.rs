//! Per-pixel operations on an RGBA raster: frames, outside fills, filled
//! boxes and crops.

use vstd::prelude::*;
use vstd::arithmetic::div_mod::lemma_fundamental_div_mod_converse;
use crate::raster::RasterImage;
use crate::types::Rgba;

verus! {

/// A rectangle by its edges: columns `left..right`, rows `top..bottom`.
#[derive(Clone, Copy, Debug, PartialEq, Eq, Structural)]
pub struct CropRect {
    pub left: u32,
    pub top: u32,
    pub right: u32,
    pub bottom: u32,
}

/// What to do to the pixels of an image.
#[derive(Clone, Copy, Debug)]
pub enum Paint {
    /// Set the one-pixel frame along the rectangle's edges to the colour.
    Frame { rect: CropRect, color: Rgba },
    /// Blend the colour, by its alpha, over every pixel outside the
    /// rectangle, and make those pixels opaque.
    Outside { rect: CropRect, color: Rgba },
    /// Set every pixel inside the rectangle to the colour.
    Block { rect: CropRect, color: Rgba },
}

pub open spec fn inside(r: CropRect, x: int, y: int) -> bool {
    r.left <= x < r.right && r.top <= y < r.bottom
}

pub open spec fn on_frame(r: CropRect, x: int, y: int) -> bool {
    (r.left <= x < r.right && (y == r.top || y == r.bottom - 1)) || (r.top <= y < r.bottom && (x
        == r.left || x == r.right - 1))
}

/// `base` with `fill` laid over it at opacity `a / 255`, rounded down.
pub open spec fn blend(base: u8, fill: u8, a: u8) -> u8 {
    ((base as int * (255 - a as int) + fill as int * a as int) / 255) as u8
}

/// Byte `c` of the pixel at `(x, y)`, whose byte was `b`, after `op`.
pub open spec fn painted(op: Paint, x: int, y: int, b: u8, c: int) -> u8 {
    match op {
        Paint::Frame { rect, color } => if on_frame(rect, x, y) { color.channel(c) } else { b },
        Paint::Outside { rect, color } => if !inside(rect, x, y) {
            if c == 3 { 255 } else { blend(b, color.channel(c), color.a) }
        } else {
            b
        },
        Paint::Block { rect, color } => if inside(rect, x, y) { color.channel(c) } else { b },
    }
}

pub(crate) fn blend_byte(base: u8, fill: u8, a: u8) -> (r: u8)
    ensures
        r == blend(base, fill, a),
{
    proof {
        assert(base as int * (255 - a as int) + fill as int * a as int <= 255 * 255) by (nonlinear_arith)
            requires base <= 255, fill <= 255, a <= 255;
        assert(base as int * (255 - a as int) + fill as int * a as int >= 0) by (nonlinear_arith)
            requires a <= 255;
    }
    ((base as u32 * (255 - a as u32) + fill as u32 * a as u32) / 255) as u8
}

fn paint_byte(op: &Paint, x: u32, y: u32, b: u8, c: usize) -> (r: u8)
    requires
        c < 4,
    ensures
        r == painted(*op, x as int, y as int, b, c as int),
{
    match op {
        Paint::Frame { rect, color } => {
            let hit = (rect.left <= x && x < rect.right && (y == rect.top || (rect.bottom > 0 && y
                == rect.bottom - 1))) || (rect.top <= y && y < rect.bottom && (x == rect.left || (
            rect.right > 0 && x == rect.right - 1)));
            if hit { color.get(c) } else { b }
        },
        Paint::Outside { rect, color } => {
            let ins = rect.left <= x && x < rect.right && rect.top <= y && y < rect.bottom;
            if !ins {
                if c == 3 { 255 } else { blend_byte(b, color.get(c), color.a) }
            } else {
                b
            }
        },
        Paint::Block { rect, color } => {
            let ins = rect.left <= x && x < rect.right && rect.top <= y && y < rect.bottom;
            if ins { color.get(c) } else { b }
        },
    }
}

/// The bytes of a `w`-pixel-wide image after `op`.
pub open spec fn painted_image(op: Paint, d: Seq<u8>, w: int) -> Seq<u8> {
    Seq::new(d.len(), |i: int| painted(op, (i / 4) % w, (i / 4) / w, d[i], i % 4))
}

/// The pixel-by-pixel statement of `paint` gives the whole image.
pub proof fn lemma_painted_image(op: Paint, before: Seq<u8>, after: Seq<u8>, w: int, n: int)
    requires
        before.len() == n * 4,
        after.len() == n * 4,
        forall|q: int, c: int|
            0 <= q < n && 0 <= c < 4 ==> #[trigger] after[q * 4 + c] == painted(op, q % w, q / w, before[q * 4 + c], c),
    ensures
        after == painted_image(op, before, w),
{
    let img = painted_image(op, before, w);
    assert forall|i: int| 0 <= i < after.len() implies after[i] == img[i] by {
        let q = i / 4;
        let c = i % 4;
        assert(i == q * 4 + c);
        assert(after[q * 4 + c] == painted(op, q % w, q / w, before[q * 4 + c], c));
    }
    assert(after =~= img);
}

/// Applies `op` to every pixel of the image.
pub fn paint(img: &mut RasterImage, op: &Paint)
    requires
        old(img).wf(),
    ensures
        final(img).wf(),
        final(img).width == old(img).width,
        final(img).height == old(img).height,
        forall|q: int, c: int|
            0 <= q < old(img).width as int * old(img).height as int && 0 <= c < 4
                ==> #[trigger] final(img).data@[q * 4 + c] == painted(
                *op,
                q % old(img).width as int,
                q / old(img).width as int,
                old(img).data@[q * 4 + c],
                c,
            ),
        final(img).data@ == painted_image(*op, old(img).data@, old(img).width as int),
{
    let ghost orig = img.data@;
    let w: u32 = img.width;
    let h: u32 = img.height;
    let ghost wi = w as int;
    let ghost n = w as int * h as int;
    let total = img.data.len();
    let mut y: u32 = 0;
    let mut p: usize = 0;
    while y < h
        invariant
            img.wf(),
            img.width == w,
            img.height == h,
            n == w as int * h as int,
            orig.len() == n * 4,
            n * 4 <= usize::MAX,
            img.data@.len() == n * 4,
            wi == w,
            y <= h,
            p == y as int * w as int,
            forall|q: int, c: int|
                0 <= q < p && 0 <= c < 4 ==> #[trigger] img.data@[q * 4 + c] == painted(
                    *op,
                    q % wi,
                    q / wi,
                    orig[q * 4 + c],
                    c,
                ),
            forall|q: int, c: int| p <= q < n && 0 <= c < 4 ==> #[trigger] img.data@[q * 4 + c] == orig[q * 4 + c],
        decreases h - y,
    {
        let mut x: u32 = 0;
        proof {
            assert((y as int + 1) * w as int <= n) by (nonlinear_arith)
                requires y < h, n == w as int * h as int;
        }
        while x < w
            invariant
                img.wf(),
                img.width == w,
                img.height == h,
                n == w as int * h as int,
                orig.len() == n * 4,
                n * 4 <= usize::MAX,
                img.data@.len() == n * 4,
                wi == w,
                y < h,
                x <= w,
                (y as int + 1) * w as int <= n,
                p == y as int * w as int + x,
                forall|q: int, c: int|
                    0 <= q < p && 0 <= c < 4 ==> #[trigger] img.data@[q * 4 + c] == painted(
                        *op,
                        q % wi,
                        q / wi,
                        orig[q * 4 + c],
                        c,
                    ),
                forall|q: int, c: int| p <= q < n && 0 <= c < 4 ==> #[trigger] img.data@[q * 4 + c] == orig[q * 4 + c],
            decreases w - x,
        {
            proof {
                assert((y as int + 1) * w as int == y as int * w as int + w as int) by (nonlinear_arith);
                lemma_fundamental_div_mod_converse(p as int, w as int, y as int, x as int);
            }
            let ghost before = img.data@;
            assert forall|k: int| 0 <= k < 4 implies #[trigger] before[p * 4 + k] == orig[p * 4 + k] by {
                assert(img.data@[p * 4 + k] == orig[p * 4 + k]);
            }
            let mut c: usize = 0;
            while c < 4
                invariant
                    img.wf(),
                    img.width == w,
                    img.height == h,
                    orig.len() == n * 4,
                    n * 4 <= usize::MAX,
                    before.len() == n * 4,
                    img.data@.len() == n * 4,
                    p < n,
                    c <= 4,
                    p as int % wi == x,
                    p as int / wi == y,
                    forall|k: int| 0 <= k < c ==> #[trigger] img.data@[p * 4 + k] == painted(
                        *op,
                        x as int,
                        y as int,
                        orig[p * 4 + k],
                        k,
                    ),
                    forall|i: int| 0 <= i < n * 4 && (i < p * 4 || i >= p * 4 + 4) ==> #[trigger] img.data@[i] == before[i],
                    forall|k: int| c <= k < 4 ==> #[trigger] img.data@[p * 4 + k] == before[p * 4 + k],
                    forall|k: int| 0 <= k < 4 ==> #[trigger] before[p * 4 + k] == orig[p * 4 + k],
                    wi == w,
                decreases 4 - c,
            {
                let b = img.data[p * 4 + c];
                let v = paint_byte(op, x, y, b, c);
                img.data.set(p * 4 + c, v);
                c = c + 1;
            }
            assert forall|q: int, k: int| 0 <= q < p + 1 && 0 <= k < 4 implies #[trigger] img.data@[q * 4 + k]
                == painted(*op, q % wi, q / wi, orig[q * 4 + k], k) by {
                if q < p {
                    assert(img.data@[q * 4 + k] == before[q * 4 + k]);
                }
            }
            assert forall|q: int, k: int| p + 1 <= q < n && 0 <= k < 4 implies #[trigger] img.data@[q * 4 + k]
                == orig[q * 4 + k] by {
                assert(img.data@[q * 4 + k] == before[q * 4 + k]);
            }
            p = p + 1;
            x = x + 1;
        }
        assert(p == (y as int + 1) * w as int) by (nonlinear_arith)
            requires p == y as int * w as int + x, x == w;
        y = y + 1;
    }
    assert(p == n) by (nonlinear_arith)
        requires p == y as int * w as int, y == h, n == w as int * h as int;
    proof {
        lemma_painted_image(*op, orig, img.data@, wi, n);
    }
}

} // verus!
