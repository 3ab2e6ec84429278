//! Laying images onto a white canvas: two pages side by side with a gutter,
//! or one page inside a margin.

use vstd::prelude::*;
use vstd::arithmetic::div_mod::lemma_fundamental_div_mod_converse;
use crate::raster::RasterImage;

verus! {

/// Byte `c` of canvas pixel `(x, y)`, whose byte was `b`, once an `iw` by
/// `ih` image with bytes `src` is copied with its corner at `(x0, y0)`.
pub open spec fn blitted(b: u8, iw: int, ih: int, src: Seq<u8>, x0: int, y0: int, x: int, y: int, c: int) -> u8 {
    if x0 <= x < x0 + iw && y0 <= y < y0 + ih {
        src[((y - y0) * iw + (x - x0)) * 4 + c]
    } else {
        b
    }
}

pub open spec fn blit_px(d: Seq<u8>, cw: int, iw: int, ih: int, src: Seq<u8>, x0: int, y0: int, q: int, c: int) -> u8 {
    blitted(d[q * 4 + c], iw, ih, src, x0, y0, q % cw, q / cw, c)
}

/// The canvas bytes `d` (of a `cw`-pixel-wide canvas) after the copy.
pub open spec fn blit_image(d: Seq<u8>, cw: int, iw: int, ih: int, src: Seq<u8>, x0: int, y0: int) -> Seq<u8> {
    Seq::new(d.len(), |i: int| blitted(d[i], iw, ih, src, x0, y0, (i / 4) % cw, (i / 4) / cw, i % 4))
}

/// A white, opaque canvas.
pub open spec fn white(n: nat) -> Seq<u8> {
    Seq::new(n, |i: int| 255u8)
}

fn blank_canvas(w: u32, h: u32) -> (r: RasterImage)
    requires
        w as int * h as int * 4 <= usize::MAX,
    ensures
        r.wf(),
        r.width == w,
        r.height == h,
        r.data@ == white((w as int * h as int * 4) as nat),
{
    let n = w as usize * h as usize * 4;
    let data = vec![255u8; n];
    assert(data@ =~= white((w as int * h as int * 4) as nat));
    RasterImage { width: w, height: h, data }
}

/// Copies `img` onto `canvas` with its top-left corner at `(x0, y0)`.
fn blit(canvas: &mut RasterImage, img: &RasterImage, x0: u32, y0: u32)
    requires
        old(canvas).wf(),
        img.wf(),
        x0 + img.width <= old(canvas).width,
        y0 + img.height <= old(canvas).height,
    ensures
        final(canvas).wf(),
        final(canvas).width == old(canvas).width,
        final(canvas).height == old(canvas).height,
        final(canvas).data@ == blit_image(
            old(canvas).data@,
            old(canvas).width as int,
            img.width as int,
            img.height as int,
            img.data@,
            x0 as int,
            y0 as int,
        ),
{
    let ghost orig = canvas.data@;
    let w: u32 = canvas.width;
    let h: u32 = canvas.height;
    let iw: u32 = img.width;
    let ih: u32 = img.height;
    let ghost n = w as int * h as int;
    let total = canvas.data.len();
    let itotal = img.data.len();
    let mut y: u32 = 0;
    let mut p: usize = 0;
    while y < h
        invariant
            canvas.wf(),
            canvas.width == w,
            canvas.height == h,
            img.wf(),
            img.width == iw,
            img.height == ih,
            itotal == img.data@.len(),
            x0 + iw <= w,
            y0 + ih <= h,
            n == w as int * h as int,
            orig.len() == n * 4,
            n * 4 <= usize::MAX,
            canvas.data@.len() == n * 4,
            y <= h,
            p == y as int * w as int,
            forall|q: int, c: int| 0 <= q < p && 0 <= c < 4 ==> #[trigger] canvas.data@[q * 4 + c] == blit_px(orig, w as int, iw as int, ih as int, img.data@, x0 as int, y0 as int, q, c),
            forall|q: int, c: int| p <= q < n && 0 <= c < 4 ==> #[trigger] canvas.data@[q * 4 + c] == orig[q * 4 + c],
        decreases h - y,
    {
        let mut x: u32 = 0;
        proof {
            assert((y as int + 1) * w as int <= n) by (nonlinear_arith)
                requires y < h, n == w as int * h as int;
        }
        while x < w
            invariant
                canvas.wf(),
                canvas.width == w,
                canvas.height == h,
                img.wf(),
                img.width == iw,
                img.height == ih,
                itotal == img.data@.len(),
                x0 + iw <= w,
                y0 + ih <= h,
                n == w as int * h as int,
                orig.len() == n * 4,
                n * 4 <= usize::MAX,
                canvas.data@.len() == n * 4,
                y < h,
                x <= w,
                (y as int + 1) * w as int <= n,
                p == y as int * w as int + x,
                forall|q: int, c: int| 0 <= q < p && 0 <= c < 4 ==> #[trigger] canvas.data@[q * 4 + c] == blit_px(orig, w as int, iw as int, ih as int, img.data@, x0 as int, y0 as int, q, c),
                forall|q: int, c: int| p <= q < n && 0 <= c < 4 ==> #[trigger] canvas.data@[q * 4 + c] == orig[q * 4 + c],
            decreases w - x,
        {
            proof {
                assert((y as int + 1) * w as int == y as int * w as int + w as int) by (nonlinear_arith);
                lemma_fundamental_div_mod_converse(p as int, w as int, y as int, x as int);
            }
            if x0 <= x && x < x0 + iw && y0 <= y && y < y0 + ih {
                proof {
                    assert(((y - y0) as int * iw as int + (x - x0) as int) * 4 + 4 <= iw as int * ih as int * 4)
                        by (nonlinear_arith)
                        requires y - y0 < ih, x - x0 < iw, 0 <= y - y0, 0 <= x - x0;
                    assert(0 <= (y - y0) as int * iw as int) by (nonlinear_arith)
                        requires 0 <= y - y0, 0 <= iw;
                    assert((y - y0) as int * iw as int <= iw as int * ih as int) by (nonlinear_arith)
                        requires y - y0 < ih, 0 <= iw;
                }
                let s: usize = ((y - y0) as usize * iw as usize + (x - x0) as usize) * 4;
                let ghost before = canvas.data@;
                let mut c: usize = 0;
                while c < 4
                    invariant
                        canvas.wf(),
                        canvas.width == w,
                        canvas.height == h,
                        canvas.data@.len() == n * 4,
                        before.len() == n * 4,
                        n * 4 <= usize::MAX,
                        p < n,
                        c <= 4,
                        s + 4 <= img.data@.len(),
                        itotal == img.data@.len(),
                        forall|k: int| 0 <= k < c ==> #[trigger] canvas.data@[p * 4 + k] == img.data@[s + k],
                        forall|i: int| 0 <= i < n * 4 && (i < p * 4 || i >= p * 4 + 4) ==> #[trigger] canvas.data@[i] == before[i],
                    decreases 4 - c,
                {
                    let v = img.data[s + c];
                    canvas.data.set(p * 4 + c, v);
                    c = c + 1;
                }
                assert forall|q: int, k: int| 0 <= q < p + 1 && 0 <= k < 4 implies #[trigger] canvas.data@[q * 4 + k] == blit_px(orig, w as int, iw as int, ih as int, img.data@, x0 as int, y0 as int, q, k) by {
                    if q < p {
                        assert(canvas.data@[q * 4 + k] == before[q * 4 + k]);
                    } else {
                        assert(canvas.data@[p * 4 + k] == img.data@[s + k]);
                        assert(s + k == ((y - y0) as int * iw as int + (x - x0) as int) * 4 + k);
                    }
                }
                assert forall|q: int, k: int| p + 1 <= q < n && 0 <= k < 4 implies #[trigger] canvas.data@[q * 4 + k]
                    == orig[q * 4 + k] by {
                    assert(canvas.data@[q * 4 + k] == before[q * 4 + k]);
                }
            } else {
                assert forall|k: int| 0 <= k < 4 implies #[trigger] canvas.data@[p * 4 + k]
                    == blit_px(orig, w as int, iw as int, ih as int, img.data@, x0 as int, y0 as int, p as int, k) by {
                    assert(canvas.data@[p * 4 + k] == orig[p * 4 + k]);
                }
            }
            p = p + 1;
            x = x + 1;
        }
        assert(p == (y as int + 1) * w as int) by (nonlinear_arith)
            requires p == y as int * w as int + x, x == w;
        y = y + 1;
    }
    assert(p == n) by (nonlinear_arith)
        requires p == y as int * w as int, y == h, n == w as int * h as int;
    proof {
        let out = blit_image(orig, w as int, iw as int, ih as int, img.data@, x0 as int, y0 as int);
        assert forall|i: int| 0 <= i < canvas.data@.len() implies canvas.data@[i] == out[i] by {
            let q = i / 4;
            let c = i % 4;
            assert(i == q * 4 + c);
            assert(canvas.data@[q * 4 + c] == blit_px(orig, w as int, iw as int, ih as int, img.data@, x0 as int, y0 as int, q, c));
        }
        assert(canvas.data@ =~= out);
    }
}

/// Two pages side by side on white: `left` at the left edge, `right`, when
/// given, after it and the gutter; as wide as both and the gutter, as tall as
/// the taller.
pub fn combine_images_horizontal(left: &RasterImage, right: Option<&RasterImage>, gutter_px: u32) -> (r: RasterImage)
    requires
        left.wf(),
        right matches Some(img) ==> img.wf(),
        ({
            let rw: int = match right { Some(img) => img.width as int, None => 0 };
            let rh: int = match right { Some(img) => img.height as int, None => 0 };
            let w = left.width + rw + gutter_px;
            let h = if left.height >= rh { left.height as int } else { rh };
            w <= u32::MAX && w * h * 4 <= usize::MAX
        }),
    ensures
        r.wf(),
        ({
            let rw: int = match right { Some(img) => img.width as int, None => 0 };
            let rh: int = match right { Some(img) => img.height as int, None => 0 };
            let w = left.width + rw + gutter_px;
            let h = if left.height >= rh { left.height as int } else { rh };
            let with_left = blit_image(white((w * h * 4) as nat), w, left.width as int, left.height as int, left.data@, 0, 0);
            &&& r.width == w
            &&& r.height == h
            &&& r.data@ == match right {
                Some(img) => blit_image(with_left, w, img.width as int, img.height as int, img.data@, left.width + gutter_px, 0),
                None => with_left,
            }
        }),
{
    let (rw, rh): (u32, u32) = match right {
        Some(img) => (img.width, img.height),
        None => (0, 0),
    };
    let w: u32 = left.width + rw + gutter_px;
    let h: u32 = if left.height >= rh { left.height } else { rh };
    let mut canvas = blank_canvas(w, h);
    blit(&mut canvas, left, 0, 0);
    match right {
        Some(img) => {
            blit(&mut canvas, img, left.width + gutter_px, 0);
        },
        None => {},
    }
    canvas
}

/// The page on white with `padding_px` added on every side.
pub fn add_padding_to_image(img: &RasterImage, padding_px: u32) -> (r: RasterImage)
    requires
        img.wf(),
        img.width + 2 * padding_px <= u32::MAX,
        img.height + 2 * padding_px <= u32::MAX,
        (img.width + 2 * padding_px) * (img.height + 2 * padding_px) * 4 <= usize::MAX,
    ensures
        r.wf(),
        r.width == img.width + 2 * padding_px,
        r.height == img.height + 2 * padding_px,
        r.data@ == blit_image(
            white((r.width * r.height * 4) as nat),
            r.width as int,
            img.width as int,
            img.height as int,
            img.data@,
            padding_px as int,
            padding_px as int,
        ),
{
    let w = img.width + 2 * padding_px;
    let h = img.height + 2 * padding_px;
    let mut canvas = blank_canvas(w, h);
    blit(&mut canvas, img, padding_px, padding_px);
    canvas
}

} // verus!
