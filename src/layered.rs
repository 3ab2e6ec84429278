//! Decoder for the flattened composite of layered image files: a fixed
//! header, three skipped length-prefixed sections, then channel planes stored
//! raw or run-length coded line by line.

use vstd::prelude::*;
use vstd::arithmetic::div_mod::lemma_fundamental_div_mod_converse;
use crate::packbits::{decode_packbits, packbits_line};
use crate::raster::RasterImage;

verus! {

/// Why a file could not be decoded.
#[derive(Clone, Copy, Debug, PartialEq, Eq, Structural)]
pub enum DecodeError {
    /// The data ends before a field or a section it announces.
    Truncated,
    /// The first four bytes are not the file signature.
    BadSignature,
    UnsupportedVersion(u16),
    UnsupportedDepth(u16),
    UnsupportedColorMode(u16),
    UnsupportedCompression(u16),
    /// The pixel buffer would not fit in memory's address range.
    TooLarge,
}

/// Grayscale colour mode.
pub const MODE_GRAYSCALE: u16 = 1;
/// RGB colour mode.
pub const MODE_RGB: u16 = 3;

/// Big-endian unsigned integers at byte `p`.
pub open spec fn be16(d: Seq<u8>, p: int) -> int {
    d[p] as int * 256 + d[p + 1] as int
}

pub open spec fn be32(d: Seq<u8>, p: int) -> int {
    be16(d, p) * 65536 + be16(d, p + 2)
}

pub open spec fn be64(d: Seq<u8>, p: int) -> int {
    be32(d, p) * 4294967296 + be32(d, p + 4)
}

/// The header fields that the decoder reads.
pub struct Header {
    pub version: u16,
    pub channels: u16,
    pub height: u32,
    pub width: u32,
    pub color_mode: u16,
}

/// The file starts with "8BPS".
pub open spec fn has_signature(d: Seq<u8>) -> bool {
    d[0] == 0x38u8 && d[1] == 0x42u8 && d[2] == 0x50u8 && d[3] == 0x53u8
}

/// The header of `d`, or the first problem met reading it.
pub open spec fn spec_header(d: Seq<u8>) -> Result<Header, DecodeError> {
    if d.len() < 4 {
        Err(DecodeError::Truncated)
    } else if !has_signature(d) {
        Err(DecodeError::BadSignature)
    } else if d.len() < 6 {
        Err(DecodeError::Truncated)
    } else if be16(d, 4) != 1 && be16(d, 4) != 2 {
        Err(DecodeError::UnsupportedVersion(be16(d, 4) as u16))
    } else if d.len() < 24 {
        Err(DecodeError::Truncated)
    } else if be16(d, 22) != 8 {
        Err(DecodeError::UnsupportedDepth(be16(d, 22) as u16))
    } else if d.len() < 26 {
        Err(DecodeError::Truncated)
    } else if be16(d, 24) != MODE_GRAYSCALE as int && be16(d, 24) != MODE_RGB as int {
        Err(DecodeError::UnsupportedColorMode(be16(d, 24) as u16))
    } else {
        Ok(
            Header {
                version: be16(d, 4) as u16,
                channels: be16(d, 12) as u16,
                height: be32(d, 14) as u32,
                width: be32(d, 18) as u32,
                color_mode: be16(d, 24) as u16,
            },
        )
    }
}

/// Position of the image-resources length field, after the 26-byte header
/// and the colour-mode data block with its length.
pub open spec fn resources_at(d: Seq<u8>) -> int {
    30 + be32(d, 26)
}

/// Position of the layer-and-mask length field.
pub open spec fn layers_at(d: Seq<u8>) -> int {
    resources_at(d) + 4 + be32(d, resources_at(d))
}

/// Width in bytes of the layer-section length field.
pub open spec fn layer_field(version: u16) -> int {
    if version == 2 { 8 } else { 4 }
}

/// Length of the layer-and-mask section.
pub open spec fn layer_len(d: Seq<u8>, version: u16) -> int {
    if version == 2 { be64(d, layers_at(d)) } else { be32(d, layers_at(d)) }
}

/// Position of the compression code.
pub open spec fn compression_at(d: Seq<u8>, version: u16) -> int {
    layers_at(d) + layer_field(version) + layer_len(d, version)
}

/// Whether all three skipped sections and the compression code lie inside
/// the data.
pub open spec fn sections_fit(d: Seq<u8>, version: u16) -> bool {
    &&& 30 <= d.len()
    &&& resources_at(d) + 4 <= d.len()
    &&& layers_at(d) + layer_field(version) <= d.len()
    &&& compression_at(d, version) + 2 <= d.len()
}

/// Width in bytes of one entry of the line-length table.
pub open spec fn count_field(version: u16) -> int {
    if version == 2 { 4 } else { 2 }
}

/// Compressed length of line `k` (all lines of all channels in order),
/// read from the table at `t`: four-byte entries under the large-document
/// version, two-byte entries otherwise.
pub open spec fn line_len(d: Seq<u8>, version: u16, t: int, k: int) -> int {
    if version == 2 { be32(d, t + 4 * k) } else { be16(d, t + 2 * k) }
}

/// Where compressed line `k` starts, for a table of `n` entries at `t`.
pub open spec fn line_start(d: Seq<u8>, version: u16, t: int, n: int, k: int) -> int
    decreases k,
{
    if k <= 0 {
        t + n * count_field(version)
    } else {
        line_start(d, version, t, n, k - 1) + line_len(d, version, t, k - 1)
    }
}

/// The first `k` lines decoded, each to `width` bytes, one after another.
pub open spec fn rle_planes(d: Seq<u8>, version: u16, t: int, n: int, width: nat, k: int) -> Seq<u8>
    decreases k,
{
    if k <= 0 {
        Seq::<u8>::empty()
    } else {
        rle_planes(d, version, t, n, width, k - 1) + packbits_line(
            d.subrange(line_start(d, version, t, n, k - 1), line_start(d, version, t, n, k)),
            Seq::new(width, |j: int| 0u8),
        )
    }
}

/// Value of channel `c` of pixel `i` in the assembled RGBA image, from
/// `nch` channel planes of `pixels` bytes each laid out one after another
/// in `planes`.
pub open spec fn channel_value(planes: Seq<u8>, nch: int, pixels: int, mode: u16, i: int, c: int) -> u8 {
    if mode == MODE_RGB {
        if c == 0 {
            if nch > 0 { planes[i] } else { 0 }
        } else if c == 1 {
            if nch > 1 { planes[pixels + i] } else { 0 }
        } else if c == 2 {
            if nch > 2 { planes[2 * pixels + i] } else { 0 }
        } else {
            if nch > 3 { planes[3 * pixels + i] } else { 255 }
        }
    } else {
        if c < 3 {
            if nch > 0 { planes[i] } else { 0 }
        } else {
            if nch > 1 { planes[pixels + i] } else { 255 }
        }
    }
}

/// Number of channel planes read: the header's count, at most four.
pub open spec fn planes_read(h: Header) -> int {
    if h.channels > 4 { 4 } else { h.channels as int }
}

pub open spec fn pixel_count(h: Header) -> int {
    h.width as int * h.height as int
}

/// The channel planes of a well-formed file, or the problem with the image
/// data section.
pub open spec fn spec_planes(d: Seq<u8>, h: Header) -> Result<Seq<u8>, DecodeError> {
    let p = compression_at(d, h.version);
    let code = be16(d, p);
    let start = p + 2;
    let nch = planes_read(h);
    let pixels = pixel_count(h);
    if code != 0 && code != 1 {
        Err(DecodeError::UnsupportedCompression(code as u16))
    } else if pixels * 4 > usize::MAX {
        Err(DecodeError::TooLarge)
    } else if code == 0 {
        if start + nch * pixels > d.len() {
            Err(DecodeError::Truncated)
        } else {
            Ok(d.subrange(start, start + nch * pixels))
        }
    } else {
        let n = nch * h.height;
        if start + n * count_field(h.version) > d.len() || line_start(d, h.version, start, n, n) > d.len() {
            Err(DecodeError::Truncated)
        } else {
            Ok(rle_planes(d, h.version, start, n, h.width as nat, n))
        }
    }
}

/// What decoding `d` gives: the width, the height and the RGBA bytes, or
/// the first problem found.
pub open spec fn spec_decode(d: Seq<u8>) -> Result<(u32, u32, Seq<u8>), DecodeError> {
    match spec_header(d) {
        Err(e) => Err(e),
        Ok(h) => if !sections_fit(d, h.version) {
            Err(DecodeError::Truncated)
        } else {
            match spec_planes(d, h) {
                Err(e) => Err(e),
                Ok(planes) => Ok((h.width, h.height, channels_image(planes, h))),
            }
        },
    }
}

/// The interleaved image of the planes, as a sequence.
pub open spec fn channels_image(planes: Seq<u8>, h: Header) -> Seq<u8> {
    Seq::new(
        (pixel_count(h) * 4) as nat,
        |b: int| channel_value(planes, planes_read(h), pixel_count(h), h.color_mode, b / 4, b % 4),
    )
}

fn read_be16(d: &[u8], p: usize) -> (r: u16)
    requires
        p + 2 <= d@.len() <= usize::MAX,
    ensures
        r as int == be16(d@, p as int),
{
    d[p] as u16 * 256 + d[p + 1] as u16
}

fn read_be32(d: &[u8], p: usize) -> (r: u32)
    requires
        p + 4 <= d@.len() <= usize::MAX,
    ensures
        r as int == be32(d@, p as int),
{
    let hi = read_be16(d, p);
    let lo = read_be16(d, p + 2);
    hi as u32 * 65536 + lo as u32
}

fn read_be64(d: &[u8], p: usize) -> (r: u64)
    requires
        p + 8 <= d@.len() <= usize::MAX,
    ensures
        r as int == be64(d@, p as int),
{
    let hi = read_be32(d, p);
    let lo = read_be32(d, p + 4);
    hi as u64 * 4294967296 + lo as u64
}

/// `p + k` when `need` more bytes still fit after it.
fn skip(len: usize, p: usize, k: u64, need: usize) -> (r: Option<usize>)
    requires
        p <= len,
    ensures
        r == (if p + k + need <= len { Some((p + k) as usize) } else { None::<usize> }),
{
    if k > (len - p) as u64 {
        None
    } else {
        let q = p + k as usize;
        if need > len - q {
            None
        } else {
            Some(q)
        }
    }
}

proof fn lemma_line_start_mono(d: Seq<u8>, version: u16, t: int, n: int, k: int, m: int)
    requires
        0 <= k <= m,
    ensures
        line_start(d, version, t, n, k) <= line_start(d, version, t, n, m),
    decreases m - k,
{
    if k < m {
        lemma_line_start_mono(d, version, t, n, k, m - 1);
        assert(line_len(d, version, t, m - 1) >= 0);
    }
}

proof fn lemma_rle_planes_len(d: Seq<u8>, version: u16, t: int, n: int, width: nat, k: int)
    requires
        0 <= k,
    ensures
        rle_planes(d, version, t, n, width, k).len() == k * width,
    decreases k,
{
    if k > 0 {
        lemma_rle_planes_len(d, version, t, n, width, k - 1);
        let line = packbits_line(
            d.subrange(line_start(d, version, t, n, k - 1), line_start(d, version, t, n, k)),
            Seq::new(width, |j: int| 0u8),
        );
        assert(line.len() == width);
        assert(rle_planes(d, version, t, n, width, k) == rle_planes(d, version, t, n, width, k - 1) + line);
        let a = rle_planes(d, version, t, n, width, k).len();
        let b = rle_planes(d, version, t, n, width, k - 1).len();
        assert(a == k * width) by (nonlinear_arith)
            requires a == b + width, b == (k - 1) * width;
    } else {
        assert(k * width == 0) by (nonlinear_arith)
            requires k == 0;
    }
}

/// Interleaves `nch` channel planes of `pixels` bytes each into an RGBA
/// image: RGB maps planes to red, green, blue and alpha (opaque when
/// absent); grayscale copies plane 0 into the three colours and plane 1, if
/// there is one, into alpha.
pub fn channels_to_rgba(planes: &[u8], nch: usize, width: u32, height: u32, mode: u16) -> (r: RasterImage)
    requires
        nch <= 4,
        width as int * height as int * 4 <= usize::MAX,
        planes@.len() >= nch * (width as int * height as int),
    ensures
        r.width == width,
        r.height == height,
        r.wf(),
        forall|i: int, c: int|
            0 <= i < width as int * height as int && 0 <= c < 4 ==> #[trigger] r.data@[i * 4 + c]
                == channel_value(planes@, nch as int, width as int * height as int, mode, i, c),
{
    let pixels: usize = width as usize * height as usize;
    let mut rgba: Vec<u8> = Vec::with_capacity(pixels * 4);
    let mut i: usize = 0;
    while i < pixels
        invariant
            pixels == width as int * height as int,
            pixels * 4 <= usize::MAX,
            planes@.len() >= nch * pixels,
            nch <= 4,
            i <= pixels,
            rgba@.len() == i * 4,
            forall|q: int, c: int|
                0 <= q < i && 0 <= c < 4 ==> #[trigger] rgba@[q * 4 + c] == channel_value(
                    planes@,
                    nch as int,
                    pixels as int,
                    mode,
                    q,
                    c,
                ),
        decreases pixels - i,
    {
        let ghost before = rgba@;
        proof {
            assert(nch >= 1 ==> nch * pixels >= pixels) by (nonlinear_arith)
                requires pixels >= 0;
            assert(nch >= 2 ==> nch * pixels >= 2 * pixels) by (nonlinear_arith)
                requires pixels >= 0;
            assert(nch >= 3 ==> nch * pixels >= 3 * pixels) by (nonlinear_arith)
                requires pixels >= 0;
            assert(nch >= 4 ==> nch * pixels >= 4 * pixels) by (nonlinear_arith)
                requires pixels >= 0;
            if nch >= 1 { assert(i < planes@.len()); }
            if nch >= 2 { assert(pixels + i < 2 * pixels <= planes@.len()); }
            if nch >= 3 { assert(2 * pixels + i < 3 * pixels <= planes@.len()); }
            if nch >= 4 { assert(3 * pixels + i < 4 * pixels <= planes@.len()); }
        }
        if mode == MODE_RGB {
            rgba.push(if nch > 0 { planes[i] } else { 0 });
            rgba.push(if nch > 1 { planes[pixels + i] } else { 0 });
            rgba.push(if nch > 2 { planes[2 * pixels + i] } else { 0 });
            rgba.push(if nch > 3 { planes[3 * pixels + i] } else { 255 });
        } else {
            let gray = if nch > 0 { planes[i] } else { 0 };
            rgba.push(gray);
            rgba.push(gray);
            rgba.push(gray);
            rgba.push(if nch > 1 { planes[pixels + i] } else { 255 });
        }
        assert forall|q: int, c: int| 0 <= q < i + 1 && 0 <= c < 4 implies #[trigger] rgba@[q * 4 + c]
            == channel_value(planes@, nch as int, pixels as int, mode, q, c) by {
            if q < i {
                assert(rgba@[q * 4 + c] == before[q * 4 + c]);
            }
        }
        i = i + 1;
    }
    RasterImage { width, height, data: rgba }
}

proof fn lemma_channels_image(data: Seq<u8>, planes: Seq<u8>, h: Header)
    requires
        data.len() == pixel_count(h) * 4,
        forall|i: int, c: int|
            0 <= i < pixel_count(h) && 0 <= c < 4 ==> #[trigger] data[i * 4 + c] == channel_value(
                planes,
                planes_read(h),
                pixel_count(h),
                h.color_mode,
                i,
                c,
            ),
    ensures
        data == channels_image(planes, h),
{
    let img = channels_image(planes, h);
    assert forall|b: int| 0 <= b < data.len() implies data[b] == img[b] by {
        let i = b / 4;
        let c = b % 4;
        assert(b == i * 4 + c);
        assert(data[i * 4 + c] == channel_value(planes, planes_read(h), pixel_count(h), h.color_mode, i, c));
    }
    assert(data =~= img);
}

/// Reads the table of compressed line lengths at `start`; `None` when the
/// lines it announces run past the end of the data.
fn read_line_lengths(d: &[u8], version: u16, start: usize, n: usize) -> (r: Option<Vec<usize>>)
    requires
        start + n * count_field(version) <= d@.len() <= usize::MAX,
    ensures
        match r {
            Some(lens) => {
                &&& lens@.len() == n
                &&& forall|j: int| 0 <= j < n ==> lens@[j] as int == #[trigger] line_len(d@, version, start as int, j)
                &&& line_start(d@, version, start as int, n as int, n as int) <= d@.len()
            },
            None => line_start(d@, version, start as int, n as int, n as int) > d@.len(),
        },
{
    let ghost t = start as int;
    let len = d.len();
    let cf: usize = if version == 2 { 4 } else { 2 };
    let mut lens: Vec<usize> = Vec::with_capacity(n);
    let mut end: usize = start + n * cf;
    let mut k: usize = 0;
    while k < n
        invariant
            start + n * cf <= len,
            t == start,
            len == d@.len(),
            cf == count_field(version),
            k <= n,
            lens@.len() == k,
            forall|j: int| 0 <= j < k ==> lens@[j] as int == #[trigger] line_len(d@, version, t, j),
            end as int == line_start(d@, version, t, n as int, k as int),
            end <= len,
        decreases n - k,
    {
        proof {
            assert(k * cf + cf <= n * cf) by (nonlinear_arith)
                requires k < n, cf >= 0;
        }
        let l: usize = if version == 2 {
            read_be32(d, start + 4 * k) as usize
        } else {
            read_be16(d, start + 2 * k) as usize
        };
        if l > len - end {
            proof {
                lemma_line_start_mono(d@, version, t, n as int, k + 1, n as int);
            }
            return None;
        }
        lens.push(l);
        end = end + l;
        k = k + 1;
    }
    Some(lens)
}

/// Decodes `n` compressed lines, each to `width` bytes, and lays them one
/// after another.
fn decode_rle_lines(d: &[u8], version: u16, start: usize, n: usize, width: u32, lens: &Vec<usize>) -> (planes: Vec<u8>)
    requires
        d@.len() <= usize::MAX,
        lens@.len() == n,
        forall|j: int| 0 <= j < n ==> lens@[j] as int == #[trigger] line_len(d@, version, start as int, j),
        line_start(d@, version, start as int, n as int, n as int) <= d@.len(),
        start + n * count_field(version) <= d@.len(),
    ensures
        planes@ == rle_planes(d@, version, start as int, n as int, width as nat, n as int),
{
    let ghost t = start as int;
    let cf: usize = if version == 2 { 4 } else { 2 };
    let mut planes: Vec<u8> = Vec::new();
    let mut pos: usize = start + n * cf;
    let mut k: usize = 0;
    while k < n
        invariant
            t == start,
            d@.len() <= usize::MAX,
            k <= n,
            lens@.len() == n,
            forall|j: int| 0 <= j < n ==> lens@[j] as int == #[trigger] line_len(d@, version, t, j),
            pos as int == line_start(d@, version, t, n as int, k as int),
            line_start(d@, version, t, n as int, n as int) <= d@.len(),
            planes@ == rle_planes(d@, version, t, n as int, width as nat, k as int),
        decreases n - k,
    {
        proof {
            lemma_line_start_mono(d@, version, t, n as int, k + 1, n as int);
        }
        let l = lens[k];
        let mut row: Vec<u8> = vec![0u8; width as usize];
        assert(row@ =~= Seq::new(width as nat, |j: int| 0u8));
        decode_packbits(&d[pos..pos + l], &mut row);
        proof {
            assert(d@.subrange(pos as int, pos + l) == d@.subrange(
                line_start(d@, version, t, n as int, k as int),
                line_start(d@, version, t, n as int, k + 1),
            ));
            assert(row@.len() == width);
        }
        planes.append(&mut row);
        pos = pos + l;
        k = k + 1;
    }
    planes
}

/// Decodes the flattened composite stored in a layered image file.
pub fn load_psd_composite(d: &[u8]) -> (r: Result<RasterImage, DecodeError>)
    ensures
        match spec_decode(d@) {
            Ok((w, h, px)) => r matches Ok(img) && img.width == w && img.height == h && img.data@
                == px && img.wf(),
            Err(e) => r == Err::<RasterImage, DecodeError>(e),
        },
{
    let len = d.len();
    if len < 4 {
        return Err(DecodeError::Truncated);
    }
    if !(d[0] == 0x38u8 && d[1] == 0x42u8 && d[2] == 0x50u8 && d[3] == 0x53u8) {
        return Err(DecodeError::BadSignature);
    }
    if len < 6 {
        return Err(DecodeError::Truncated);
    }
    let version = read_be16(d, 4);
    if version != 1 && version != 2 {
        return Err(DecodeError::UnsupportedVersion(version));
    }
    if len < 24 {
        return Err(DecodeError::Truncated);
    }
    let depth = read_be16(d, 22);
    if depth != 8 {
        return Err(DecodeError::UnsupportedDepth(depth));
    }
    if len < 26 {
        return Err(DecodeError::Truncated);
    }
    let mode = read_be16(d, 24);
    if mode != MODE_GRAYSCALE && mode != MODE_RGB {
        return Err(DecodeError::UnsupportedColorMode(mode));
    }
    let channels = read_be16(d, 12);
    let height = read_be32(d, 14);
    let width = read_be32(d, 18);
    let ghost h = Header { version, channels, height, width, color_mode: mode };
    assert(spec_header(d@) == Ok::<Header, DecodeError>(h));
    if len < 30 {
        return Err(DecodeError::Truncated);
    }
    let color_len = read_be32(d, 26);
    let res_at = match skip(len, 30, color_len as u64, 4) {
        Some(q) => q,
        None => {
            return Err(DecodeError::Truncated);
        },
    };
    let res_len = read_be32(d, res_at);
    let lf: usize = if version == 2 { 8 } else { 4 };
    let layers_at = match skip(len, res_at + 4, res_len as u64, lf) {
        Some(q) => q,
        None => {
            return Err(DecodeError::Truncated);
        },
    };
    let layer_len: u64 = if version == 2 { read_be64(d, layers_at) } else { read_be32(d, layers_at) as u64 };
    let comp_at = match skip(len, layers_at + lf, layer_len, 2) {
        Some(q) => q,
        None => {
            return Err(DecodeError::Truncated);
        },
    };
    assert(sections_fit(d@, version));
    let code = read_be16(d, comp_at);
    let start = comp_at + 2;
    if code != 0 && code != 1 {
        return Err(DecodeError::UnsupportedCompression(code));
    }
    let pixels = match (width as usize).checked_mul(height as usize) {
        Some(p) => p,
        None => {
            assert(pixel_count(h) * 4 > usize::MAX) by (nonlinear_arith)
                requires pixel_count(h) > usize::MAX, pixel_count(h) >= 0;
            return Err(DecodeError::TooLarge);
        },
    };
    if pixels.checked_mul(4).is_none() {
        return Err(DecodeError::TooLarge);
    }
    let nch: usize = if channels > 4 { 4 } else { channels as usize };
    assert(nch == planes_read(h));
    let img = if code == 0 {
        assert(nch * pixels <= 4 * pixels) by (nonlinear_arith)
            requires nch <= 4, pixels >= 0;
        let size = nch * pixels;
        if size > len - start {
            return Err(DecodeError::Truncated);
        }
        let planes = &d[start..start + size];
        assert(planes@ == d@.subrange(start as int, start + nch * pixels));
        let img = channels_to_rgba(planes, nch, width, height, mode);
        proof {
            lemma_channels_image(img.data@, planes@, h);
        }
        img
    } else {
        let cf: usize = if version == 2 { 4 } else { 2 };
        let n = match nch.checked_mul(height as usize) {
            Some(n) => n,
            None => {
                assert(nch * height * cf > usize::MAX) by (nonlinear_arith)
                    requires nch * height > usize::MAX, cf >= 2;
                return Err(DecodeError::Truncated);
            },
        };
        let table = match n.checked_mul(cf) {
            Some(t) => t,
            None => {
                return Err(DecodeError::Truncated);
            },
        };
        if table > len - start {
            return Err(DecodeError::Truncated);
        }
        let lens = match read_line_lengths(d, version, start, n) {
            Some(lens) => lens,
            None => {
                return Err(DecodeError::Truncated);
            },
        };
        let planes = decode_rle_lines(d, version, start, n, width, &lens);
        let ghost t = start as int;
        proof {
            lemma_rle_planes_len(d@, version, t, n as int, width as nat, n as int);
            assert(n * width == nch * (width * height)) by (nonlinear_arith)
                requires n == nch * height;
        }
        let img = channels_to_rgba(planes.as_slice(), nch, width, height, mode);
        proof {
            lemma_channels_image(img.data@, planes@, h);
        }
        img
    };
    Ok(img)
}

/// Raw (uncompressed) image data: each decoded channel of pixel `(x, y)` is
/// the byte at `y * width + x` of the channel plane it comes from. In RGB
/// mode plane `c` gives channel `c`; in grayscale mode plane 0 gives red,
/// green and blue, and plane 1, when present, gives alpha.
pub proof fn lemma_raw_pixels(d: Seq<u8>, x: int, y: int, c: int)
    requires
        spec_header(d) is Ok,
        sections_fit(d, spec_header(d)->Ok_0.version),
        be16(d, compression_at(d, spec_header(d)->Ok_0.version)) == 0,
        spec_decode(d) is Ok,
        0 <= x < spec_header(d)->Ok_0.width,
        0 <= y < spec_header(d)->Ok_0.height,
        0 <= c < 4,
    ensures
        ({
            let h = spec_header(d)->Ok_0;
            let w = h.width as int;
            let n = w * h.height as int;
            let start = compression_at(d, h.version) + 2;
            let px = spec_decode(d)->Ok_0.2;
            let at = (y * w + x) * 4 + c;
            &&& h.color_mode == MODE_RGB && c < planes_read(h) ==> px[at] == d[start + c * n + y * w + x]
            &&& h.color_mode == MODE_GRAYSCALE && c < 3 && planes_read(h) >= 1 ==> px[at] == d[start + y * w + x]
            &&& h.color_mode == MODE_GRAYSCALE && c == 3 && planes_read(h) >= 2 ==> px[at] == d[start + n + y * w + x]
        }),
{
    let h = spec_header(d)->Ok_0;
    let w = h.width as int;
    let n = w * h.height as int;
    let start = compression_at(d, h.version) + 2;
    let nch = planes_read(h);
    let i = y * w + x;
    assert(i < n) by (nonlinear_arith)
        requires i == y * w + x, 0 <= x < w, 0 <= y < h.height, n == w * h.height;
    assert(0 <= i) by (nonlinear_arith)
        requires i == y * w + x, 0 <= x, 0 <= y, 0 <= w;
    let planes = d.subrange(start, start + nch * n);
    assert(spec_planes(d, h) == Ok::<Seq<u8>, DecodeError>(planes));
    let at = i * 4 + c;
    lemma_fundamental_div_mod_converse(at, 4, i, c);
    if c < nch {
        assert(c * n + i < nch * n) by (nonlinear_arith)
            requires c < nch, 0 <= i < n;
    }
    assert(at < n * 4);
    assert(spec_decode(d)->Ok_0.2 == channels_image(planes, h));
    assert(spec_decode(d)->Ok_0.2[at] == channel_value(planes, nch, n, h.color_mode, i, c));
    if c == 0 {
        assert(c * n == 0);
    } else if c == 1 {
        assert(c * n == n);
    } else if c == 2 {
        assert(c * n == 2 * n);
    } else {
        assert(c * n == 3 * n);
    }
    if nch >= 2 {
        assert(n + i < nch * n) by (nonlinear_arith)
            requires nch >= 2, 0 <= i < n;
    }
    if nch >= 1 {
        assert(i < nch * n) by (nonlinear_arith)
            requires nch >= 1, 0 <= i < n;
    }
}

} // verus!
