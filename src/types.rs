//! Options and results shared by the pipeline, the batch runner and the PDF
//! layout.

use vstd::prelude::*;

verus! {

/// Options of the per-page transform.
#[derive(Debug)]
pub struct ProcessOptions {
    /// Crop edges, in the reference resolution.
    pub crop_left: u32,
    pub crop_top: u32,
    pub crop_right: u32,
    pub crop_bottom: u32,
    /// One of "none", "crop_only" (or "crop"), "crop_and_stroke",
    /// "stroke_only", "fill_white", "fill_and_stroke".
    pub tachikiri_type: String,
    /// "black", "white" or "cyan".
    pub stroke_color: String,
    /// "white", "black" or "cyan".
    pub fill_color: String,
    /// Fill opacity, 0 to 100.
    pub fill_opacity: u8,
    /// Resolution the crop edges were given in; 0 leaves them as they are.
    pub reference_width: u32,
    pub reference_height: u32,
    pub add_nombre: bool,
    pub nombre_start_number: u32,
    /// "small", "medium", "large" or "xlarge".
    pub nombre_size: String,
    /// "none", "percent" or "fixed".
    pub resize_mode: String,
    pub resize_percent: u32,
}

pub fn default_nombre_start() -> (r: u32)
    ensures
        r == 1,
{
    1
}

pub fn default_nombre_size() -> (r: String)
    ensures
        r@ == "medium"@,
{
    String::from_str("medium")
}

pub fn default_resize_mode() -> (r: String)
    ensures
        r@ == "none"@,
{
    String::from_str("none")
}

pub fn default_resize_percent() -> (r: u32)
    ensures
        r == 50,
{
    50
}

/// Width of the box that a fixed resize fits pages into.
pub const TARGET_RESIZE_WIDTH: u32 = 2250;
/// Height of the box that a fixed resize fits pages into.
pub const TARGET_RESIZE_HEIGHT: u32 = 3000;

/// Summary of a batch run.
#[derive(Debug)]
pub struct ProcessResult {
    pub processed: usize,
    pub total: usize,
    pub errors: Vec<String>,
    pub output_folder: String,
}

/// A preview sent inline, as a data URL.
#[derive(Debug)]
pub struct ImageInfo {
    pub width: u32,
    pub height: u32,
    pub base64: String,
}

/// A preview written to a file.
#[derive(Debug)]
pub struct PreviewFileInfo {
    pub width: u32,
    pub height: u32,
    pub file_path: String,
}

/// Text printed on the blank title page.
#[derive(Debug)]
pub struct WorkInfo {
    pub label: String,
    /// 0: one author line "著 a1"; 1: "作画 a1" and "原作 a2"; other: a1 as given.
    pub author_type: u8,
    pub author1: String,
    pub author2: String,
    pub title: String,
    pub subtitle: String,
    pub version: String,
}

/// Options of PDF generation. Lengths are in pixels at the document's DPI.
#[derive(Debug)]
pub struct PdfOptions {
    pub preset: String,
    pub gutter: u32,
    pub padding: u32,
    pub is_spread: bool,
    pub add_white_page: bool,
    pub print_work_info: bool,
    pub work_info: Option<WorkInfo>,
    pub add_nombre: bool,
    pub nombre_size: String,
}

/// Whether two strings hold the same characters.
pub fn str_eq(a: &str, b: &str) -> (r: bool)
    ensures
        r == (a@ == b@),
{
    let n = a.unicode_len();
    if n != b.unicode_len() {
        return false;
    }
    let mut i: usize = 0;
    while i < n
        invariant
            n == a@.len(),
            n == b@.len(),
            i <= n,
            forall|j: int| 0 <= j < i ==> a@[j] == b@[j],
        decreases n - i,
    {
        if a.get_char(i) != b.get_char(i) {
            return false;
        }
        i = i + 1;
    }
    assert(a@ =~= b@);
    true
}

/// One RGBA pixel value.
#[derive(Clone, Copy, Debug, PartialEq, Eq, Structural)]
pub struct Rgba {
    pub r: u8,
    pub g: u8,
    pub b: u8,
    pub a: u8,
}

impl Rgba {
    /// Byte `c`: 0 red, 1 green, 2 blue, 3 alpha.
    pub open spec fn channel(self, c: int) -> u8 {
        if c == 0 {
            self.r
        } else if c == 1 {
            self.g
        } else if c == 2 {
            self.b
        } else {
            self.a
        }
    }

    pub fn get(&self, c: usize) -> (v: u8)
        ensures
            v == self.channel(c as int),
    {
        if c == 0 {
            self.r
        } else if c == 1 {
            self.g
        } else if c == 2 {
            self.b
        } else {
            self.a
        }
    }
}

/// The colour a name stands for, with alpha `a`; unknown names give white
/// when `default_white`, else black.
pub open spec fn named_color(name: Seq<char>, a: u8, default_white: bool) -> Rgba {
    if name == "white"@ {
        Rgba { r: 255, g: 255, b: 255, a }
    } else if name == "black"@ {
        Rgba { r: 0, g: 0, b: 0, a }
    } else if name == "cyan"@ {
        Rgba { r: 0, g: 255, b: 255, a }
    } else if default_white {
        Rgba { r: 255, g: 255, b: 255, a }
    } else {
        Rgba { r: 0, g: 0, b: 0, a }
    }
}

/// Alpha byte for an opacity in percent: `opacity * 2.55`, rounded down,
/// at most 255.
pub open spec fn opacity_alpha(opacity: u8) -> u8 {
    if opacity as int * 255 / 100 > 255 { 255 } else { (opacity as int * 255 / 100) as u8 }
}

/// Fill colour with the alpha that the opacity gives; unknown names fill
/// white.
pub fn color_to_rgba(color: &str, opacity: u8) -> (r: Rgba)
    ensures
        r == named_color(color@, opacity_alpha(opacity), true),
{
    let a32: u32 = opacity as u32 * 255 / 100;
    let a: u8 = if a32 > 255 { 255 } else { a32 as u8 };
    if str_eq(color, "white") {
        Rgba { r: 255, g: 255, b: 255, a }
    } else if str_eq(color, "black") {
        Rgba { r: 0, g: 0, b: 0, a }
    } else if str_eq(color, "cyan") {
        Rgba { r: 0, g: 255, b: 255, a }
    } else {
        Rgba { r: 255, g: 255, b: 255, a }
    }
}

/// Opaque stroke colour; unknown names draw black.
pub fn color_to_rgb(color: &str) -> (r: Rgba)
    ensures
        r == named_color(color@, 255, false),
{
    if str_eq(color, "white") {
        Rgba { r: 255, g: 255, b: 255, a: 255 }
    } else if str_eq(color, "black") {
        Rgba { r: 0, g: 0, b: 0, a: 255 }
    } else if str_eq(color, "cyan") {
        Rgba { r: 0, g: 255, b: 255, a: 255 }
    } else {
        Rgba { r: 0, g: 0, b: 0, a: 255 }
    }
}

/// Stamp font size in pixels for a size name; unknown names are "medium".
pub open spec fn nombre_px(size: Seq<char>) -> u32 {
    if size == "small"@ {
        80
    } else if size == "large"@ {
        160
    } else if size == "xlarge"@ {
        200
    } else {
        120
    }
}

pub fn get_nombre_font_size(size_key: &str) -> (r: u32)
    ensures
        r == nombre_px(size_key@),
{
    if str_eq(size_key, "small") {
        80
    } else if str_eq(size_key, "large") {
        160
    } else if str_eq(size_key, "xlarge") {
        200
    } else {
        120
    }
}

/// Page-number size in points for the PDF margin; unknown names are "small".
pub open spec fn nombre_pt(size: Seq<char>) -> u32 {
    if size == "large"@ {
        12
    } else if size == "medium"@ {
        9
    } else if size == "xlarge"@ {
        14
    } else {
        7
    }
}

pub fn get_nombre_font_size_pt(nombre_size: &str) -> (r: u32)
    ensures
        r == nombre_pt(nombre_size@),
{
    if str_eq(nombre_size, "large") {
        12
    } else if str_eq(nombre_size, "medium") {
        9
    } else if str_eq(nombre_size, "xlarge") {
        14
    } else {
        7
    }
}

} // verus!
