//! PDF page layout: which images share a spread and with which numbers, the
//! size of each page and where its images go, and the name of the output
//! file. Lengths are in pixels; the document converts them to millimetres.

use vstd::prelude::*;
use crate::batch::decimal;
use crate::jpeg::{extension, last_dot, name_start};
use crate::types::str_eq;

verus! {

/// What fills the right-hand page of a spread.
#[derive(Clone, Copy, Debug, PartialEq, Eq, Structural)]
pub enum PageSource {
    /// The generated blank (title) page.
    Blank,
    /// The image at this index of the file list.
    File(usize),
}

/// One spread, read right to left: its right page, the index of its left
/// image if there is one, and the page numbers each carries.
#[derive(Clone, Copy, Debug, PartialEq, Eq, Structural)]
pub struct SpreadPair {
    pub right: PageSource,
    pub left: Option<usize>,
    /// Number printed under the right page; the blank page has none.
    pub right_number: Option<usize>,
    /// Number printed under the left page, when there is one.
    pub left_number: usize,
}

/// Number of spreads for `total` images, with a leading blank page or not.
pub open spec fn spread_count(total: int, add_white_page: bool) -> int {
    (total + (if add_white_page { 1int } else { 0int }) + 1) / 2
}

/// Spread `k`: it starts at file index `2k`, or `2k - 1` when a blank page
/// leads; the blank stands at index -1. Pages are numbered from 1 by file
/// index.
pub open spec fn spec_pair(k: int, total: int, add_white_page: bool) -> SpreadPair {
    let fi = 2 * k - (if add_white_page { 1int } else { 0int });
    SpreadPair {
        right: if fi < 0 { PageSource::Blank } else { PageSource::File(fi as usize) },
        left: if fi + 1 < total { Some((fi + 1) as usize) } else { None },
        right_number: if fi < 0 { None } else { Some((fi + 1) as usize) },
        left_number: (fi + 2) as usize,
    }
}

/// With a leading title page, the first spread holds the blank page on the
/// right and the first image, numbered 1, on the left; every later spread
/// `k` holds image `2k - 1`, numbered `2k`, on the right and image `2k`,
/// numbered `2k + 1`, on the left when there is such an image.
pub proof fn lemma_title_page_spreads(total: int, k: int)
    requires
        1 <= total < usize::MAX - 2,
        0 <= k < spread_count(total, true),
    ensures
        k == 0 ==> spec_pair(k, total, true) == (SpreadPair {
            right: PageSource::Blank,
            left: Some(0usize),
            right_number: None,
            left_number: 1,
        }),
        k > 0 ==> {
            let p = spec_pair(k, total, true);
            &&& p.right == PageSource::File((2 * k - 1) as usize)
            &&& p.right_number == Some((2 * k) as usize)
            &&& p.left_number == 2 * k + 1
            &&& p.left == if 2 * k < total { Some((2 * k) as usize) } else { None }
        },
{
}

/// The spreads of a document of `total` images, in reading order.
pub fn spread_plan(total: usize, add_white_page: bool) -> (r: Vec<SpreadPair>)
    requires
        total < usize::MAX - 2,
    ensures
        r@.len() == spread_count(total as int, add_white_page),
        forall|k: int| 0 <= k < r@.len() ==> #[trigger] r@[k] == spec_pair(k, total as int, add_white_page),
{
    let lead: usize = if add_white_page { 1 } else { 0 };
    let count: usize = (total + lead + 1) / 2;
    let mut r: Vec<SpreadPair> = Vec::new();
    let mut k: usize = 0;
    while k < count
        invariant
            total < usize::MAX - 2,
            lead == (if add_white_page { 1usize } else { 0usize }),
            count == spread_count(total as int, add_white_page),
            k <= count,
            r@.len() == k,
            forall|j: int| 0 <= j < k ==> #[trigger] r@[j] == spec_pair(j, total as int, add_white_page),
        decreases count - k,
    {
        // file index of the right page, plus one (0 for the blank)
        let fi1: usize = 2 * k + 1 - lead;
        let right = if fi1 == 0 { PageSource::Blank } else { PageSource::File(fi1 - 1) };
        let left = if fi1 < total { Some(fi1) } else { None };
        let right_number = if fi1 == 0 { None } else { Some(fi1) };
        r.push(SpreadPair { right, left, right_number, left_number: fi1 + 1 });
        k = k + 1;
    }
    r
}

/// Size of a spread page and where its images go: the right image to the
/// right of the left one and the gutter, everything inside the padding.
#[derive(Clone, Copy, Debug, PartialEq, Eq, Structural)]
pub struct SpreadGeometry {
    pub page_width: u64,
    pub page_height: u64,
    pub right_x: u64,
    pub left_x: u64,
    pub y: u64,
}

pub open spec fn spec_spread_geometry(rw: u32, rh: u32, left: Option<(u32, u32)>, gutter: u32, padding: u32) -> SpreadGeometry {
    let lw: int = match left { Some((w, h)) => w as int, None => 0 };
    let lh: int = match left { Some((w, h)) => h as int, None => 0 };
    SpreadGeometry {
        page_width: (rw + lw + gutter + 2 * padding) as u64,
        page_height: ((if rh >= lh { rh as int } else { lh }) + 2 * padding) as u64,
        right_x: (padding + lw + gutter) as u64,
        left_x: padding as u64,
        y: padding as u64,
    }
}

/// Geometry of one spread: width is right plus left (0 when absent) plus
/// gutter plus twice the padding; height is the taller image plus twice the
/// padding.
pub fn spread_geometry(rw: u32, rh: u32, left: Option<(u32, u32)>, gutter: u32, padding: u32) -> (r: SpreadGeometry)
    ensures
        r == spec_spread_geometry(rw, rh, left, gutter, padding),
{
    let (lw, lh): (u64, u64) = match left {
        Some((w, h)) => (w as u64, h as u64),
        None => (0, 0),
    };
    let p = padding as u64;
    SpreadGeometry {
        page_width: rw as u64 + lw + gutter as u64 + 2 * p,
        page_height: (if rh as u64 >= lh { rh as u64 } else { lh }) + 2 * p,
        right_x: p + lw + gutter as u64,
        left_x: p,
        y: p,
    }
}

/// A spread as it is laid out once its images are loaded: its geometry and
/// the numbers printed under its right and left pages.
#[derive(Clone, Copy, Debug, PartialEq, Eq, Structural)]
pub struct SpreadPage {
    pub geometry: SpreadGeometry,
    pub right_number: Option<usize>,
    pub left_number: Option<usize>,
}

pub open spec fn spec_spread_page(
    pair: SpreadPair,
    right: Option<(u32, u32)>,
    left: Option<(u32, u32)>,
    gutter: u32,
    padding: u32,
) -> Option<SpreadPage> {
    match right {
        None => None,
        Some((rw, rh)) => {
            let placed = if pair.left is Some { left } else { None };
            Some(SpreadPage {
                geometry: spec_spread_geometry(rw, rh, placed, gutter, padding),
                right_number: pair.right_number,
                left_number: if placed is Some { Some(pair.left_number) } else { None },
            })
        },
    }
}

/// Lays out one spread from the pixel sizes of its loaded images (`None`
/// for an image that could not be loaded). A spread whose right page failed
/// is skipped; a left page that failed is left out, with its number.
pub fn spread_page(pair: &SpreadPair, right: Option<(u32, u32)>, left: Option<(u32, u32)>, gutter: u32, padding: u32) -> (r: Option<SpreadPage>)
    ensures
        r == spec_spread_page(*pair, right, left, gutter, padding),
{
    match right {
        None => None,
        Some((rw, rh)) => {
            let placed = if pair.left.is_some() { left } else { None };
            Some(SpreadPage {
                geometry: spread_geometry(rw, rh, placed, gutter, padding),
                right_number: pair.right_number,
                left_number: if placed.is_some() { Some(pair.left_number) } else { None },
            })
        },
    }
}

/// Size of a single page: the image with the padding on every side.
pub fn single_page_size(w: u32, h: u32, padding: u32) -> (r: (u64, u64))
    ensures
        r.0 == w + 2 * padding,
        r.1 == h + 2 * padding,
{
    (w as u64 + 2 * padding as u64, h as u64 + 2 * padding as u64)
}

/// `path` with `(n)` after the stem of its file name; the extension, empty
/// when there is none, follows a dot.
pub open spec fn numbered_path(s: Seq<char>, n: nat) -> Seq<char> {
    let ns = name_start(s, s.len() as int);
    let stem_end = match extension(s) {
        Some(e) => last_dot(s, ns, s.len() as int),
        None => s.len() as int,
    };
    let ext = match extension(s) {
        Some(e) => e,
        None => Seq::<char>::empty(),
    };
    s.subrange(0, stem_end) + seq!['('] + decimal(n) + seq![')', '.'] + ext
}

/// The path tried for the `counter`-th collision.
pub fn numbered_output_path(path: &str, counter: usize) -> (r: String)
    ensures
        r@ == numbered_path(path@, counter as nat),
{
    let ghost s = path@;
    let n = path.unicode_len();
    let mut k: usize = n;
    while k > 0 && path.get_char(k - 1) != '.' && path.get_char(k - 1) != '/' && path.get_char(k - 1) != '\\'
        invariant
            s == path@,
            n == s.len(),
            k <= n,
            forall|j: int| k <= j < n ==> s[j] != '.' && s[j] != '/' && s[j] != '\\',
        decreases k,
    {
        k = k - 1;
    }
    let has_ext = k > 1 && path.get_char(k - 1) == '.' && path.get_char(k - 2) != '/' && path.get_char(k - 2) != '\\';
    proof {
        crate::jpeg::lemma_dot_search(s, k as int);
        if k > 1 && s[k - 1] == '.' {
            crate::jpeg::lemma_name_start_le(s, k - 1);
            crate::jpeg::lemma_name_start_le(s, k - 2);
        }
    }
    let (stem_end, ext_start) = if has_ext { (k - 1, k) } else { (n, n) };
    let head = path.substring_char(0, stem_end);
    let ext = path.substring_char(ext_start, n);
    let out = String::from_str(head).concat("(").concat(crate::batch::decimal_string(counter).as_str()).concat(
        ").",
    ).concat(ext);
    proof {
        reveal_strlit("(");
        reveal_strlit(").");
        assert("("@ =~= seq!['(']);
        assert(")."@ =~= seq![')', '.']);
        if !has_ext {
            assert(ext@ =~= Seq::<char>::empty());
        }
    }
    out
}

/// Whether `p` is among `taken`.
fn is_taken(p: &String, taken: &Vec<String>) -> (r: bool)
    ensures
        r == exists|i: int| 0 <= i < taken@.len() && #[trigger] taken@[i]@ == p@,
{
    let mut i: usize = 0;
    while i < taken.len()
        invariant
            i <= taken@.len(),
            forall|j: int| 0 <= j < i ==> #[trigger] taken@[j]@ != p@,
        decreases taken.len() - i,
    {
        if str_eq(taken[i].as_str(), p.as_str()) {
            return true;
        }
        i = i + 1;
    }
    false
}

pub open spec fn taken_path(taken: Seq<String>, p: Seq<char>) -> bool {
    exists|i: int| 0 <= i < taken.len() && #[trigger] taken[i]@ == p
}

/// A path for the document that is not among the `taken` ones: `path`
/// itself, else the first of `stem(1).ext`, `stem(2).ext`, ... that is free.
/// `None` only when every numbered path up to `usize::MAX` is taken.
pub fn unique_output_path(path: &str, taken: &Vec<String>) -> (r: Option<String>)
    ensures
        !taken_path(taken@, path@) ==> (r matches Some(p) && p@ == path@),
        taken_path(taken@, path@) ==> match r {
            Some(p) => exists|n: nat| {
                &&& 1 <= n
                &&& p@ == #[trigger] numbered_path(path@, n)
                &&& !taken_path(taken@, p@)
                &&& forall|m: nat| 1 <= m < n ==> taken_path(taken@, #[trigger] numbered_path(path@, m))
            },
            None => forall|m: nat| 1 <= m <= usize::MAX ==> taken_path(taken@, #[trigger] numbered_path(path@, m)),
        },
{
    let first = String::from_str(path);
    if !is_taken(&first, taken) {
        return Some(first);
    }
    let mut counter: usize = 1;
    loop
        invariant
            1 <= counter,
            taken_path(taken@, path@),
            forall|m: nat| 1 <= m < counter ==> taken_path(taken@, #[trigger] numbered_path(path@, m)),
        decreases usize::MAX - counter,
    {
        let candidate = numbered_output_path(path, counter);
        if !is_taken(&candidate, taken) {
            assert(candidate@ == numbered_path(path@, counter as nat));
            return Some(candidate);
        }
        if counter == usize::MAX {
            return None;
        }
        counter = counter + 1;
    }
}

} // verus!
