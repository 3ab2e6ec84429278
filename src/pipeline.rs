//! The transform of one page: the bleed-cut mode, the page-number box and
//! the final resize.

use vstd::prelude::*;
use vstd::arithmetic::div_mod::lemma_fundamental_div_mod_converse;
use crate::paint::{blend, inside, on_frame, paint, painted, painted_image, CropRect, Paint};
use crate::raster::RasterImage;
use crate::transform::{crop_image, crop_rows, scale_edge, scale_u32, scaled_crop_rect, spec_crop_rect};
use crate::types::{
    color_to_rgb, color_to_rgba, get_nombre_font_size, named_color, nombre_px, opacity_alpha,
    str_eq, ProcessOptions, Rgba, TARGET_RESIZE_HEIGHT, TARGET_RESIZE_WIDTH,
};

verus! {

/// How the area outside the crop rectangle is handled.
#[derive(Clone, Copy, Debug, PartialEq, Eq, Structural)]
pub enum TachikiriMode {
    /// Leave the page as it is.
    Passthrough,
    /// Cut the page to the rectangle.
    CropOnly,
    /// Cut, then frame the new edges.
    CropAndStroke,
    /// Frame the rectangle on the uncut page.
    StrokeOnly,
    /// Blend the fill colour over the bands outside the rectangle.
    Fill,
    /// Fill, then frame the rectangle.
    FillAndStroke,
    /// A name not listed above: the crop is still checked, the page kept.
    Unrecognised,
}

pub open spec fn spec_mode(s: Seq<char>) -> TachikiriMode {
    if s == "none"@ {
        TachikiriMode::Passthrough
    } else if s == "crop"@ || s == "crop_only"@ {
        TachikiriMode::CropOnly
    } else if s == "crop_and_stroke"@ {
        TachikiriMode::CropAndStroke
    } else if s == "stroke_only"@ {
        TachikiriMode::StrokeOnly
    } else if s == "fill_white"@ {
        TachikiriMode::Fill
    } else if s == "fill_and_stroke"@ {
        TachikiriMode::FillAndStroke
    } else {
        TachikiriMode::Unrecognised
    }
}

pub fn tachikiri_mode(name: &str) -> (r: TachikiriMode)
    ensures
        r == spec_mode(name@),
{
    if str_eq(name, "none") {
        TachikiriMode::Passthrough
    } else if str_eq(name, "crop") || str_eq(name, "crop_only") {
        TachikiriMode::CropOnly
    } else if str_eq(name, "crop_and_stroke") {
        TachikiriMode::CropAndStroke
    } else if str_eq(name, "stroke_only") {
        TachikiriMode::StrokeOnly
    } else if str_eq(name, "fill_white") {
        TachikiriMode::Fill
    } else if str_eq(name, "fill_and_stroke") {
        TachikiriMode::FillAndStroke
    } else {
        TachikiriMode::Unrecognised
    }
}

/// Where the page-number stamp goes: its background box and the origin of
/// its text, in pixels (they may reach outside the image).
#[derive(Clone, Copy, Debug, PartialEq, Eq, Structural)]
pub struct NombreBox {
    pub x: i64,
    pub y: i64,
    pub width: i64,
    pub height: i64,
    pub text_x: i64,
    pub text_y: i64,
}

/// Half of `a`, rounded toward zero.
pub open spec fn half(a: int) -> int {
    if a >= 0 { a / 2 } else { -((-a) / 2) }
}

/// The stamp's box for a `font`-pixel number `text_w` pixels wide: padded by
/// half the font size across and three tenths of it down. It is centred
/// across; down, it is centred in a bottom margin that is non-zero and under
/// half the page (kept 5 px from the margin's top and the page's bottom),
/// else it sits two fifths of the font size above the bottom.
pub open spec fn spec_nombre_box(img_w: int, img_h: int, font: int, text_w: int, margin: int) -> NombreBox {
    let pad_x = font / 2;
    let pad_y = font * 3 / 10;
    let box_w = text_w + pad_x * 2;
    let box_h = font + pad_y * 2;
    let x = half(img_w - box_w);
    let y = if margin > 0 && margin < img_h / 2 {
        let area_top = img_h - margin;
        let center = area_top + half(margin - box_h);
        let lower = if center > area_top + 5 { center } else { area_top + 5 };
        if lower < img_h - box_h - 5 { lower } else { img_h - box_h - 5 }
    } else {
        img_h - font * 2 / 5 - box_h
    };
    NombreBox {
        x: x as i64,
        y: y as i64,
        width: box_w as i64,
        height: box_h as i64,
        text_x: (x + half(box_w - text_w)) as i64,
        text_y: (y + half(box_h - font)) as i64,
    }
}

fn half_i64(a: i64) -> (r: i64)
    requires
        a > i64::MIN,
    ensures
        r == half(a as int),
{
    if a >= 0 { a / 2 } else { -((-a) / 2) }
}

/// Places the page-number stamp on a `img_w` by `img_h` page.
pub fn nombre_box(img_w: u32, img_h: u32, font: u32, text_w: i32, margin: u32) -> (r: NombreBox)
    requires
        font <= 1000,
    ensures
        r == spec_nombre_box(img_w as int, img_h as int, font as int, text_w as int, margin as int),
{
    let font = font as i64;
    let w = img_w as i64;
    let h = img_h as i64;
    let m = margin as i64;
    let pad_x = font / 2;
    let pad_y = font * 3 / 10;
    let box_w = text_w as i64 + pad_x * 2;
    let box_h = font + pad_y * 2;
    let x = half_i64(w - box_w);
    let y = if m > 0 && m < h / 2 {
        let area_top = h - m;
        let center = area_top + half_i64(m - box_h);
        let lower = if center > area_top + 5 { center } else { area_top + 5 };
        if lower < h - box_h - 5 { lower } else { h - box_h - 5 }
    } else {
        h - font * 2 / 5 - box_h
    };
    NombreBox {
        x,
        y,
        width: box_w,
        height: box_h,
        text_x: x + half_i64(box_w - text_w as i64),
        text_y: y + half_i64(box_h - font),
    }
}

pub open spec fn clip(v: int, hi: int) -> u32 {
    (if v < 0 { 0 } else if v > hi { hi } else { v }) as u32
}

/// The part of the stamp's box that lies on a `w` by `h` page.
pub open spec fn box_rect(b: NombreBox, w: u32, h: u32) -> CropRect {
    CropRect {
        left: clip(b.x as int, w as int),
        top: clip(b.y as int, h as int),
        right: clip(b.x + b.width, w as int),
        bottom: clip(b.y + b.height, h as int),
    }
}

fn clip_i64(v: i64, hi: u32) -> (r: u32)
    ensures
        r == clip(v as int, hi as int),
{
    if v < 0 {
        0
    } else if v > hi as i64 {
        hi
    } else {
        v as u32
    }
}

/// Background of the stamp: white at alpha 210.
pub open spec fn stamp_background() -> Rgba {
    Rgba { r: 255, g: 255, b: 255, a: 210 }
}

/// Height of the band below the content that the stamp may sit in: none
/// when the page was cut, else what lies below the crop rectangle.
pub open spec fn nombre_margin(mode: TachikiriMode, height: u32, rect: CropRect) -> int {
    match mode {
        TachikiriMode::CropOnly | TachikiriMode::CropAndStroke => 0,
        _ => height - rect.bottom,
    }
}

/// Why a page could not be transformed.
#[derive(Clone, Copy, Debug, PartialEq, Eq, Structural)]
pub enum ProcessError {
    /// The crop rectangle has no area once scaled and clamped.
    InvalidCrop,
    /// The resized page would not fit in memory's address range.
    TooLarge,
}

/// A page after its mode and stamp box: the text of the stamp, if any, is
/// still to be drawn at `nombre`'s text origin.
#[derive(Debug)]
pub struct StagedPage {
    pub image: RasterImage,
    pub nombre: Option<NombreBox>,
}

/// The page after the bleed-cut mode: width, height and bytes, with the
/// bottom margin left for the stamp.
pub open spec fn spec_mode_stage(img: &RasterImage, o: &ProcessOptions) -> Result<(u32, u32, Seq<u8>, int), ProcessError> {
    let mode = spec_mode(o.tachikiri_type@);
    let w = img.width;
    let h = img.height;
    let d = img.data@;
    if mode == TachikiriMode::Passthrough {
        let scaled = if o.reference_height > 0 { scale_edge(o.crop_bottom, h, o.reference_height) } else { o.crop_bottom as int };
        let bottom = if scaled < h { scaled } else { h as int };
        Ok((w, h, d, h - bottom))
    } else {
        let r = spec_crop_rect(o, w, h);
        let cw = (r.right - r.left) as u32;
        let ch = (r.bottom - r.top) as u32;
        let margin = nombre_margin(mode, h, r);
        let stroke = named_color(o.stroke_color@, 255, false);
        let fill = Paint::Outside { rect: r, color: named_color(o.fill_color@, opacity_alpha(o.fill_opacity), true) };
        let frame = Paint::Frame { rect: r, color: stroke };
        if cw == 0 || ch == 0 {
            Err(ProcessError::InvalidCrop)
        } else {
            let cut = crop_rows(d, w as int, r.left as int, r.top as int, cw as int, ch as int);
            match mode {
                TachikiriMode::CropOnly => Ok((cw, ch, cut, margin)),
                TachikiriMode::CropAndStroke => Ok((cw, ch, painted_image(
                    Paint::Frame { rect: CropRect { left: 0, top: 0, right: cw, bottom: ch }, color: stroke },
                    cut,
                    cw as int,
                ), margin)),
                TachikiriMode::StrokeOnly => Ok((w, h, painted_image(frame, d, w as int), margin)),
                TachikiriMode::Fill => Ok((w, h, painted_image(fill, d, w as int), margin)),
                TachikiriMode::FillAndStroke => Ok((w, h, painted_image(frame, painted_image(fill, d, w as int), w as int), margin)),
                _ => Ok((w, h, d, margin)),
            }
        }
    }
}

/// Applies the bleed-cut mode of the options to a decoded page, then, when
/// a stamp is asked for and its text could be measured (`text_width`), the
/// stamp's background box.
pub fn process_single_image(img: RasterImage, options: &ProcessOptions, text_width: Option<i32>) -> (r: Result<StagedPage, ProcessError>)
    requires
        img.wf(),
    ensures
        match spec_mode_stage(&img, options) {
            Err(e) => r == Err::<StagedPage, ProcessError>(e),
            Ok((w, h, d, margin)) => r matches Ok(page) && page.image.wf() && page.image.width == w
                && page.image.height == h && if options.add_nombre && text_width is Some {
                let b = spec_nombre_box(w as int, h as int, nombre_px(options.nombre_size@) as int, text_width->Some_0 as int, margin);
                &&& page.nombre == Some(b)
                &&& page.image.data@ == painted_image(Paint::Block { rect: box_rect(b, w, h), color: stamp_background() }, d, w as int)
            } else {
                &&& page.nombre is None
                &&& page.image.data@ == d
            },
        },
{
    let mode = tachikiri_mode(options.tachikiri_type.as_str());
    let w = img.width;
    let h = img.height;
    let (mut page, margin) = if mode == TachikiriMode::Passthrough {
        let scaled: u128 = if options.reference_height > 0 {
            scale_u32(options.crop_bottom, h, options.reference_height)
        } else {
            options.crop_bottom as u128
        };
        let bottom: u32 = if scaled < h as u128 { scaled as u32 } else { h };
        (img, h - bottom)
    } else {
        let rect = scaled_crop_rect(options, w, h);
        let cw = rect.right - rect.left;
        let ch = rect.bottom - rect.top;
        if cw == 0 || ch == 0 {
            return Err(ProcessError::InvalidCrop);
        }
        let margin: u32 = match mode {
            TachikiriMode::CropOnly | TachikiriMode::CropAndStroke => 0,
            _ => h - rect.bottom,
        };
        let stroke = color_to_rgb(options.stroke_color.as_str());
        let out = match mode {
            TachikiriMode::CropOnly => crop_image(&img, rect),
            TachikiriMode::CropAndStroke => {
                let mut cut = crop_image(&img, rect);
                paint(&mut cut, &Paint::Frame { rect: CropRect { left: 0, top: 0, right: cw, bottom: ch }, color: stroke });
                cut
            },
            TachikiriMode::StrokeOnly => {
                let mut page = img;
                paint(&mut page, &Paint::Frame { rect, color: stroke });
                page
            },
            TachikiriMode::Fill | TachikiriMode::FillAndStroke => {
                let fill = color_to_rgba(options.fill_color.as_str(), options.fill_opacity);
                let mut page = img;
                paint(&mut page, &Paint::Outside { rect, color: fill });
                if mode == TachikiriMode::FillAndStroke {
                    paint(&mut page, &Paint::Frame { rect, color: stroke });
                }
                page
            },
            _ => img,
        };
        (out, margin)
    };
    let nombre = if options.add_nombre {
        match text_width {
            Some(tw) => {
                let pw = page.width;
                let ph = page.height;
                let font = get_nombre_font_size(options.nombre_size.as_str());
                let b = nombre_box(pw, ph, font, tw, margin);
                let rect = CropRect {
                    left: clip_i64(b.x, pw),
                    top: clip_i64(b.y, ph),
                    right: clip_i64(b.x + b.width, pw),
                    bottom: clip_i64(b.y + b.height, ph),
                };
                paint(&mut page, &Paint::Block { rect, color: Rgba { r: 255, g: 255, b: 255, a: 210 } });
                Some(b)
            },
            None => None,
        }
    } else {
        None
    };
    Ok(StagedPage { image: page, nombre })
}

/// The size a page is resized to: by a percentage of both sides, or to fit
/// the fixed target box keeping its proportions (the smaller of the two
/// side ratios). Sizes are rounded half up. `None` leaves the page as it is.
pub open spec fn resize_target(mode: Seq<char>, percent: u32, w: u32, h: u32) -> Option<(int, int)> {
    if mode == "percent"@ {
        Some(((2 * w as int * percent as int + 100) / 200, (2 * h as int * percent as int + 100) / 200))
    } else if mode == "fixed"@ && w > 0 && h > 0 {
        if TARGET_RESIZE_WIDTH as int * h as int <= TARGET_RESIZE_HEIGHT as int * w as int {
            Some((TARGET_RESIZE_WIDTH as int, (2 * h as int * TARGET_RESIZE_WIDTH as int + w as int) / (2 * w as int)))
        } else {
            Some(((2 * w as int * TARGET_RESIZE_HEIGHT as int + h as int) / (2 * h as int), TARGET_RESIZE_HEIGHT as int))
        }
    } else {
        None
    }
}

/// Pixels that Catmull-Rom resampling of a `w` by `h` RGBA image to `nw` by
/// `nh` gives.
pub uninterp spec fn catmull_rom_resize(data: Seq<u8>, w: u32, h: u32, nw: u32, nh: u32) -> Seq<u8>;

/// Relies on `image::imageops::resize` with `FilterType::CatmullRom`: it
/// returns an `nw` by `nh` buffer computed from the source pixels and sizes
/// alone. `ImageBuffer::from_raw` accepts the buffer because `wf()` makes it
/// exactly `w * h * 4` bytes long.
#[verifier::external_body]
fn resample(img: &RasterImage, nw: u32, nh: u32) -> (r: RasterImage)
    requires
        img.wf(),
        nw as int * nh as int * 4 <= usize::MAX,
    ensures
        r.width == nw,
        r.height == nh,
        r.wf(),
        r.data@ == catmull_rom_resize(img.data@, img.width, img.height, nw, nh),
{
    let src: image::RgbaImage = image::ImageBuffer::from_raw(img.width, img.height, img.data.clone()).unwrap();
    let out = image::imageops::resize(&src, nw, nh, image::imageops::FilterType::CatmullRom);
    RasterImage { width: nw, height: nh, data: out.into_raw() }
}

fn round_ratio(a: u32, num: u32, den: u32) -> (r: u128)
    requires
        den > 0,
    ensures
        r as int == (2 * a as int * num as int + den as int) / (2 * den as int),
{
    proof {
        assert(0 <= 2 * a as int * num as int <= 2 * 0xFFFF_FFFF * 0xFFFF_FFFF) by (nonlinear_arith)
            requires a <= 0xFFFF_FFFF, num <= 0xFFFF_FFFF;
    }
    (2 * a as u128 * num as u128 + den as u128) / (2 * den as u128)
}

/// Resizes a finished page as the options ask; fails only when the target
/// size does not fit in memory's address range.
pub fn apply_resize(img: RasterImage, options: &ProcessOptions) -> (r: Result<RasterImage, ProcessError>)
    requires
        img.wf(),
    ensures
        match resize_target(options.resize_mode@, options.resize_percent, img.width, img.height) {
            None => r matches Ok(out) && out.width == img.width && out.height == img.height && out.data@ == img.data@,
            Some((nw, nh)) => if nw * nh * 4 <= usize::MAX && nw <= u32::MAX && nh <= u32::MAX {
                r matches Ok(out) && out.wf() && out.width == nw && out.height == nh
                    && out.data@ == catmull_rom_resize(img.data@, img.width, img.height, nw as u32, nh as u32)
            } else {
                r == Err::<RasterImage, ProcessError>(ProcessError::TooLarge)
            },
        },
{
    let w = img.width;
    let h = img.height;
    let target: Option<(u128, u128)> = if str_eq(options.resize_mode.as_str(), "percent") {
        Some((round_ratio(w, options.resize_percent, 100), round_ratio(h, options.resize_percent, 100)))
    } else if str_eq(options.resize_mode.as_str(), "fixed") && w > 0 && h > 0 {
        if TARGET_RESIZE_WIDTH as u64 * h as u64 <= TARGET_RESIZE_HEIGHT as u64 * w as u64 {
            Some((TARGET_RESIZE_WIDTH as u128, round_ratio(h, TARGET_RESIZE_WIDTH, w)))
        } else {
            Some((round_ratio(w, TARGET_RESIZE_HEIGHT, h), TARGET_RESIZE_HEIGHT as u128))
        }
    } else {
        None
    };
    match target {
        None => Ok(img),
        Some((nw, nh)) => {
            if nw > u32::MAX as u128 || nh > u32::MAX as u128 {
                return Err(ProcessError::TooLarge);
            }
            let nw = nw as u32;
            let nh = nh as u32;
            let pixels = match (nw as usize).checked_mul(nh as usize) {
                Some(p) => p,
                None => {
                    assert(nw as int * nh as int * 4 > usize::MAX) by (nonlinear_arith)
                        requires nw as int * nh as int > usize::MAX;
                    return Err(ProcessError::TooLarge);
                },
            };
            if pixels.checked_mul(4).is_none() {
                return Err(ProcessError::TooLarge);
            }
            Ok(resample(&img, nw, nh))
        },
    }
}

/// Filling and then stroking a rectangle of non-zero area on a `w` by `h`
/// page: every pixel outside it is the fill colour blended over it and made
/// opaque; every pixel inside it off the frame keeps its bytes.
pub proof fn lemma_fill_and_stroke(d: Seq<u8>, w: int, h: int, rect: CropRect, fill: Rgba, stroke: Rgba, x: int, y: int, c: int)
    requires
        d.len() == w * h * 4,
        0 <= x < w,
        0 <= y < h,
        0 <= c < 4,
        rect.left < rect.right <= w,
        rect.top < rect.bottom <= h,
    ensures
        ({
            let out = painted_image(
                Paint::Frame { rect, color: stroke },
                painted_image(Paint::Outside { rect, color: fill }, d, w),
                w,
            );
            let at = (y * w + x) * 4 + c;
            &&& !inside(rect, x, y) ==> out[at] == if c == 3 { 255u8 } else { blend(d[at], fill.channel(c), fill.a) }
            &&& inside(rect, x, y) && !on_frame(rect, x, y) ==> out[at] == d[at]
        }),
{
    let i = y * w + x;
    let at = i * 4 + c;
    assert(0 <= i < w * h) by (nonlinear_arith)
        requires i == y * w + x, 0 <= x < w, 0 <= y < h;
    lemma_fundamental_div_mod_converse(at, 4, i, c);
    lemma_fundamental_div_mod_converse(i, w, y, x);
}

} // verus!
