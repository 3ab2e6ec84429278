//! JPEG helpers that need no decoding: recognising a JPEG file name and
//! reading the pixel size from the frame header.

use vstd::prelude::*;
use crate::layered::be16;

verus! {

/// Markers that open a frame header (SOF0-3, 5-7, 9-11, 13-15).
pub open spec fn is_sof_marker(m: u8) -> bool {
    (0xC0 <= m <= 0xC3) || (0xC5 <= m <= 0xC7) || (0xC9 <= m <= 0xCB) || (0xCD <= m <= 0xCF)
}

/// Markers that stand alone, without a length field.
pub open spec fn is_bare_marker(m: u8) -> bool {
    m == 0xD8 || m == 0xD9 || (0xD0 <= m <= 0xD7)
}

/// The marker walk from position `i`: bytes other than 0xFF are stepped over;
/// a frame header with room for its fields gives `(width, height)`; a bare
/// marker is two bytes; any other segment is skipped by its length field.
pub open spec fn sof_scan(d: Seq<u8>, i: int) -> Option<(u32, u32)>
    decreases (if i <= d.len() { d.len() - i } else { 0 }),
{
    if i < 0 || i + 4 >= d.len() {
        None
    } else if d[i] != 0xFF {
        sof_scan(d, i + 1)
    } else if is_sof_marker(d[i + 1]) && i + 9 < d.len() {
        Some((be16(d, i + 7) as u32, be16(d, i + 5) as u32))
    } else if is_bare_marker(d[i + 1]) {
        sof_scan(d, i + 2)
    } else {
        sof_scan(d, i + 2 + be16(d, i + 2))
    }
}

/// The pixel size a JPEG stream declares, if it starts with the SOI marker
/// and a frame header can be found.
pub open spec fn jpeg_dimensions(d: Seq<u8>) -> Option<(u32, u32)> {
    if d.len() < 2 || d[0] != 0xFF || d[1] != 0xD8 {
        None
    } else {
        sof_scan(d, 2)
    }
}

/// Reads `(width, height)` from the first frame header of a JPEG stream
/// without decoding it.
pub fn get_jpeg_dimensions(data: &[u8]) -> (r: Option<(u32, u32)>)
    ensures
        r == jpeg_dimensions(data@),
{
    let len = data.len();
    if len < 2 || data[0] != 0xFF || data[1] != 0xD8 {
        return None;
    }
    let mut i: usize = 2;
    while i < len && len - i > 4
        invariant
            len == data@.len(),
            2 <= i,
            jpeg_dimensions(data@) == sof_scan(data@, i as int),
        decreases len - i,
    {
        if data[i] != 0xFF {
            i = i + 1;
        } else {
            let marker = data[i + 1];
            if ((0xC0 <= marker && marker <= 0xC3) || (0xC5 <= marker && marker <= 0xC7) || (0xC9
                <= marker && marker <= 0xCB) || (0xCD <= marker && marker <= 0xCF)) && len - i > 9 {
                let height = data[i + 5] as u32 * 256 + data[i + 6] as u32;
                let width = data[i + 7] as u32 * 256 + data[i + 8] as u32;
                proof {
                    assert(is_sof_marker(data@[i + 1]));
                    assert(height as int == be16(data@, i + 5));
                    assert(width as int == be16(data@, i + 7));
                    assert(sof_scan(data@, i as int) == Some((width, height)));
                }
                return Some((width, height));
            }
            if marker == 0xD8 || marker == 0xD9 || (0xD0 <= marker && marker <= 0xD7) {
                i = i + 2;
            } else {
                let seg = data[i + 2] as usize * 256 + data[i + 3] as usize;
                assert(seg == be16(data@, i + 2));
                if seg + 2 > len - i {
                    proof {
                        let j = i + 2 + seg;
                        assert(sof_scan(data@, j) == None::<(u32, u32)>);
                    }
                    return None;
                }
                i = i + 2 + seg;
            }
        }
    }
    None
}

/// Where a path's file name starts: after its last `/` or `\`.
pub open spec fn name_start(s: Seq<char>, k: int) -> int
    decreases k,
{
    if k <= 0 {
        0
    } else if s[k - 1] == '/' || s[k - 1] == '\\' {
        k
    } else {
        name_start(s, k - 1)
    }
}

/// Position of the last `.` in `s[lo..k]`, or `lo - 1` when there is none.
pub open spec fn last_dot(s: Seq<char>, lo: int, k: int) -> int
    decreases k - lo,
{
    if k <= lo {
        lo - 1
    } else if s[k - 1] == '.' {
        k - 1
    } else {
        last_dot(s, lo, k - 1)
    }
}

/// The extension of a path: what follows the last `.` of its file name,
/// unless that dot opens the name.
pub open spec fn extension(s: Seq<char>) -> Option<Seq<char>> {
    let ns = name_start(s, s.len() as int);
    let d = last_dot(s, ns, s.len() as int);
    if d > ns {
        Some(s.subrange(d + 1, s.len() as int))
    } else {
        None
    }
}

pub open spec fn ascii_lower(c: char) -> char {
    if 'A' <= c <= 'Z' { ((c as u8) + 32) as char } else { c }
}

/// `a` equals `b` once ASCII capitals in `a` are made small.
pub open spec fn eq_ignore_case(a: Seq<char>, b: Seq<char>) -> bool {
    a.len() == b.len() && forall|i: int| 0 <= i < a.len() ==> #[trigger] ascii_lower(a[i]) == b[i]
}

/// A path names a JPEG file when its extension is `jpg` or `jpeg`, in any case.
pub open spec fn is_jpeg_name(s: Seq<char>) -> bool {
    match extension(s) {
        Some(e) => eq_ignore_case(e, seq!['j', 'p', 'g']) || eq_ignore_case(e, seq!['j', 'p', 'e', 'g']),
        None => false,
    }
}

fn lower(c: char) -> (r: char)
    ensures
        r == ascii_lower(c),
{
    if 'A' <= c && c <= 'Z' {
        ((c as u8) + 32) as char
    } else {
        c
    }
}

/// Whether `s[from..]` equals `word` ignoring ASCII case.
fn tail_matches(s: &str, from: usize, word: &str) -> (r: bool)
    requires
        from <= s@.len(),
    ensures
        r == eq_ignore_case(s@.subrange(from as int, s@.len() as int), word@),
{
    let n = s.unicode_len();
    let m = word.unicode_len();
    if n - from != m {
        return false;
    }
    let mut i: usize = 0;
    while i < m
        invariant
            n == s@.len(),
            m == word@.len(),
            n - from == m,
            from <= n,
            i <= m,
            forall|j: int| 0 <= j < i ==> ascii_lower(#[trigger] s@[from + j]) == word@[j],
        decreases m - i,
    {
        if lower(s.get_char(from + i)) != word.get_char(i) {
            assert(s@.subrange(from as int, s@.len() as int)[i as int] == s@[from + i]);
            return false;
        }
        i = i + 1;
    }
    assert forall|j: int| 0 <= j < m implies #[trigger] ascii_lower(
        s@.subrange(from as int, s@.len() as int)[j],
    ) == word@[j] by {
        assert(s@.subrange(from as int, s@.len() as int)[j] == s@[from + j]);
    }
    true
}

/// A path's extension is `word`, ignoring ASCII case.
pub open spec fn extension_is(s: Seq<char>, word: Seq<char>) -> bool {
    match extension(s) {
        Some(e) => eq_ignore_case(e, word),
        None => false,
    }
}

/// Whether the path names a JPEG file, judged by its extension.
pub fn is_jpeg_file(path: &str) -> (r: bool)
    ensures
        r == is_jpeg_name(path@),
{
    let jpg = "jpg";
    let jpeg = "jpeg";
    proof {
        reveal_strlit("jpg");
        reveal_strlit("jpeg");
        assert(jpg@ =~= seq!['j', 'p', 'g']);
        assert(jpeg@ =~= seq!['j', 'p', 'e', 'g']);
    }
    has_extension(path, jpg) || has_extension(path, jpeg)
}

/// Whether the path's extension is `word`, ignoring ASCII case.
pub fn has_extension(path: &str, word: &str) -> (r: bool)
    ensures
        r == extension_is(path@, word@),
{
    let n = path.unicode_len();
    let mut k: usize = n;
    // walk back to the last dot of the file name, or to its start
    while k > 0 && path.get_char(k - 1) != '.' && path.get_char(k - 1) != '/' && path.get_char(k - 1) != '\\'
        invariant
            n == path@.len(),
            k <= n,
            forall|j: int| k <= j < n ==> path@[j] != '.' && path@[j] != '/' && path@[j] != '\\',
        decreases k,
    {
        k = k - 1;
    }
    proof {
        assert forall|j: int| k <= j <= n implies name_start(path@, j) == name_start(path@, k as int)
            && last_dot(path@, name_start(path@, k as int), j) == last_dot(
            path@,
            name_start(path@, k as int),
            k as int,
        ) by {
            lemma_walk_back(path@, k as int, j);
        }
    }
    proof {
        lemma_name_start_le(path@, k as int);
        if k > 0 {
            lemma_name_start_le(path@, k - 1);
        }
    }
    if k == 0 || path.get_char(k - 1) != '.' {
        return false;
    }
    let dot = k - 1;
    // the dot must not open the file name
    if dot == 0 || path.get_char(dot - 1) == '/' || path.get_char(dot - 1) == '\\' {
        proof {
            assert(name_start(path@, dot as int) == dot);
        }
        return false;
    }
    proof {
        lemma_name_start_le(path@, dot - 1);
        assert(name_start(path@, dot as int) < dot);
        assert(last_dot(path@, name_start(path@, k as int), k as int) == dot);
    }
    tail_matches(path, k, word)
}

proof fn lemma_walk_back(s: Seq<char>, k: int, j: int)
    requires
        0 <= k <= j <= s.len(),
        forall|q: int| k <= q < s.len() ==> s[q] != '.' && s[q] != '/' && s[q] != '\\',
    ensures
        name_start(s, j) == name_start(s, k),
        last_dot(s, name_start(s, k), j) == last_dot(s, name_start(s, k), k),
    decreases j - k,
{
    if j > k {
        lemma_walk_back(s, k, j - 1);
        lemma_name_start_le(s, k);
    }
}

pub proof fn lemma_name_start_le(s: Seq<char>, k: int)
    requires
        0 <= k <= s.len(),
    ensures
        0 <= name_start(s, k) <= k,
        k > 0 && s[k - 1] != '/' && s[k - 1] != '\\' ==> name_start(s, k) == name_start(s, k - 1),
        forall|q: int| name_start(s, k) <= q < k ==> s[q] != '/' && s[q] != '\\',
    decreases k,
{
    if k > 0 {
        lemma_name_start_le(s, k - 1);
    }
}

/// After walking back from the end over characters that are neither a dot
/// nor a separator, the extension is read off where the walk stopped.
pub proof fn lemma_dot_search(s: Seq<char>, k: int)
    requires
        0 <= k <= s.len(),
        forall|j: int| k <= j < s.len() ==> s[j] != '.' && s[j] != '/' && s[j] != '\\',
        k == 0 || s[k - 1] == '.' || s[k - 1] == '/' || s[k - 1] == '\\',
    ensures
        (k > 1 && s[k - 1] == '.' && s[k - 2] != '/' && s[k - 2] != '\\') ==> extension(s) == Some(s.subrange(k, s.len() as int))
            && last_dot(s, name_start(s, s.len() as int), s.len() as int) == k - 1,
        !(k > 1 && s[k - 1] == '.' && s[k - 2] != '/' && s[k - 2] != '\\') ==> extension(s) is None,
{
    assert forall|j: int| k <= j <= s.len() implies name_start(s, j) == name_start(s, k)
        && last_dot(s, name_start(s, k), j) == last_dot(s, name_start(s, k), k) by {
        lemma_walk_back(s, k, j);
    }
    lemma_name_start_le(s, k);
    if k > 0 {
        lemma_name_start_le(s, k - 1);
    }
    if k > 1 {
        lemma_name_start_le(s, k - 2);
    }
}

} // verus!
