//! Locating the JPEG preview embedded in the image-resources section of a
//! layered image file, for fast previews.

use vstd::prelude::*;
use crate::layered::{be16, be32, has_signature};
use crate::raster::RasterImage;

verus! {

/// Resource ids of the embedded preview.
pub const THUMBNAIL_RESOURCE: u16 = 1036;
pub const THUMBNAIL_RESOURCE_OLD: u16 = 1033;

pub open spec fn is_block_signature(d: Seq<u8>, p: int) -> bool {
    d[p] == 0x38u8 && d[p + 1] == 0x42u8 && d[p + 2] == 0x49u8 && d[p + 3] == 0x4Du8
}

/// Name field length, padded so that with its length byte it is even.
pub open spec fn padded_name(n: u8) -> int {
    if (n as int + 1) % 2 == 0 { n as int } else { n as int + 1 }
}

/// The resource blocks from `pos` up to `end`: each is "8BIM", a two-byte
/// id, a padded name and a four-byte size, then its data padded to even
/// length. The first preview block (id 1036 or 1033) decides: its JPEG
/// bytes, after a 28-byte header whose first field (format) is 1, are given
/// as `(start, length)`; any other preview format gives nothing. A walk that
/// leaves the data, or a block without the signature, gives nothing.
pub open spec fn thumb_scan(d: Seq<u8>, pos: int, end: int) -> Option<(int, int)>
    decreases (if pos < end { end - pos } else { 0 }),
{
    if pos >= end || pos < 0 {
        None
    } else if pos + 7 > d.len() || !is_block_signature(d, pos) {
        None
    } else {
        let id = be16(d, pos + 4);
        let size_at = pos + 7 + padded_name(d[pos + 6]);
        if size_at + 4 > d.len() {
            None
        } else {
            let size = be32(d, size_at);
            let data_at = size_at + 4;
            if id == THUMBNAIL_RESOURCE as int || id == THUMBNAIL_RESOURCE_OLD as int {
                if data_at + 4 > d.len() || be32(d, data_at) != 1 || size < 28 || data_at + size > d.len() {
                    None
                } else {
                    Some((data_at + 28, size - 28))
                }
            } else {
                thumb_scan(d, data_at + size + size % 2, end)
            }
        }
    }
}

/// Where the preview's JPEG bytes lie, and the width and height from the
/// file header.
pub open spec fn spec_thumbnail(d: Seq<u8>) -> Option<(int, int, u32, u32)> {
    if d.len() < 30 || !has_signature(d) {
        None
    } else {
        let res_at = 30 + be32(d, 26);
        if res_at + 4 > d.len() {
            None
        } else {
            match thumb_scan(d, res_at + 4, res_at + 4 + be32(d, res_at)) {
                Some((start, len)) => Some((start, len, be32(d, 18) as u32, be32(d, 14) as u32)),
                None => None,
            }
        }
    }
}

/// The embedded preview's place in the file: JPEG bytes `start .. start +
/// len`, and the full image's width and height.
#[derive(Clone, Copy, Debug, PartialEq, Eq, Structural)]
pub struct ThumbnailRef {
    pub start: usize,
    pub len: usize,
    pub width: u32,
    pub height: u32,
}

fn be16_at(d: &[u8], p: usize) -> (r: u32)
    requires
        p + 2 <= d@.len() <= usize::MAX,
    ensures
        r == be16(d@, p as int),
{
    d[p] as u32 * 256 + d[p + 1] as u32
}

fn be32_at(d: &[u8], p: usize) -> (r: u64)
    requires
        p + 4 <= d@.len() <= usize::MAX,
    ensures
        r == be32(d@, p as int),
{
    be16_at(d, p) as u64 * 65536 + be16_at(d, p + 2) as u64
}

/// Finds the JPEG preview of a layered image file without decoding the
/// image.
pub fn find_psd_thumbnail(d: &[u8]) -> (r: Option<ThumbnailRef>)
    ensures
        match spec_thumbnail(d@) {
            Some((start, len, w, h)) => r matches Some(t) && t.start == start && t.len == len && t.width == w
                && t.height == h && start + len <= d@.len(),
            None => r is None,
        },
{
    let n = d.len();
    if n < 30 || !(d[0] == 0x38u8 && d[1] == 0x42u8 && d[2] == 0x50u8 && d[3] == 0x53u8) {
        return None;
    }
    let height = be32_at(d, 14) as u32;
    let width = be32_at(d, 18) as u32;
    let cml = be32_at(d, 26);
    if cml + 4 > (n - 30) as u64 {
        return None;
    }
    let res_at = 30 + cml as usize;
    let end: u64 = (res_at + 4) as u64 + be32_at(d, res_at);
    let mut pos: usize = res_at + 4;
    let ghost end_i = end as int;
    while (pos as u64) < end
        invariant
            n == d@.len(),
            pos <= n,
            end_i == end,
            spec_thumbnail(d@) == match thumb_scan(d@, pos as int, end_i) {
                Some((start, len)) => Some((start, len, width, height)),
                None => None::<(int, int, u32, u32)>,
            },
        decreases n - pos,
    {
        if n - pos < 7 || !(d[pos] == 0x38u8 && d[pos + 1] == 0x42u8 && d[pos + 2] == 0x49u8 && d[pos + 3] == 0x4Du8) {
            return None;
        }
        let id = be16_at(d, pos + 4);
        let nl = d[pos + 6];
        let padded: usize = if (nl as usize + 1) % 2 == 0 { nl as usize } else { nl as usize + 1 };
        if padded + 4 > n - pos - 7 {
            return None;
        }
        let size_at = pos + 7 + padded;
        let size = be32_at(d, size_at);
        let data_at = size_at + 4;
        if id == THUMBNAIL_RESOURCE as u32 || id == THUMBNAIL_RESOURCE_OLD as u32 {
            if n - data_at < 4 || be32_at(d, data_at) != 1 || size < 28 || size > (n - data_at) as u64 {
                return None;
            }
            return Some(ThumbnailRef { start: data_at + 28, len: (size - 28) as usize, width, height });
        }
        let step: u64 = size + size % 2;
        if step > (n - data_at) as u64 {
            proof {
                assert(thumb_scan(d@, data_at + step, end_i) is None);
            }
            return None;
        }
        pos = data_at + step as usize;
    }
    None
}

/// Pixels of a JPEG stream: width, height and RGBA bytes, or `None` when it
/// does not decode.
pub uninterp spec fn jpeg_pixels(d: Seq<u8>) -> Option<(u32, u32, Seq<u8>)>;

/// Relies on `image::load_from_memory_with_format` with `ImageFormat::Jpeg`
/// and `DynamicImage::to_rgba8`: the pixels depend on the bytes alone, and
/// `into_raw` gives four bytes per pixel, row-major.
#[verifier::external_body]
pub(crate) fn decode_jpeg(d: &[u8]) -> (r: Option<RasterImage>)
    ensures
        match jpeg_pixels(d@) {
            Some((w, h, px)) => r matches Some(img) && img.width == w && img.height == h && img.data@ == px && img.wf(),
            None => r is None,
        },
{
    match image::load_from_memory_with_format(d, image::ImageFormat::Jpeg) {
        Ok(img) => {
            let rgba = img.to_rgba8();
            Some(RasterImage { width: rgba.width(), height: rgba.height(), data: rgba.into_raw() })
        },
        Err(_) => None,
    }
}

/// The embedded preview of a layered image file, decoded, with the full
/// image's width and height.
pub fn extract_psd_thumbnail(d: &[u8]) -> (r: Option<(RasterImage, u32, u32)>)
    ensures
        match spec_thumbnail(d@) {
            None => r is None,
            Some((start, len, w, h)) => match jpeg_pixels(d@.subrange(start, start + len)) {
                Some((tw, th, px)) => r matches Some((img, rw, rh)) && rw == w && rh == h && img.width == tw
                    && img.height == th && img.data@ == px,
                None => r is None,
            },
        },
{
    let _n = d.len();
    match find_psd_thumbnail(d) {
        None => None,
        Some(t) => {
            let jpeg = &d[t.start..t.start + t.len];
            match decode_jpeg(jpeg) {
                Some(img) => Some((img, t.width, t.height)),
                None => None,
            }
        },
    }
}

} // verus!
