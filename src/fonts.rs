//! Which installed font file to use: the first of a fixed list of
//! candidates that exists.

use vstd::prelude::*;

verus! {

/// The first candidate marked present.
pub open spec fn first_present(cands: Seq<Seq<char>>, present: Seq<bool>, i: int) -> Option<Seq<char>>
    decreases cands.len() - i,
{
    if i < 0 || i >= cands.len() || i >= present.len() {
        None
    } else if present[i] {
        Some(cands[i])
    } else {
        first_present(cands, present, i + 1)
    }
}

pub open spec fn views(v: Seq<String>) -> Seq<Seq<char>> {
    v.map_values(|s: String| s@)
}

fn pick(cands: Vec<String>, present: &Vec<bool>) -> (r: Option<String>)
    ensures
        match first_present(views(cands@), present@, 0) {
            Some(p) => r matches Some(s) && s@ == p,
            None => r is None,
        },
{
    let mut i: usize = 0;
    while i < cands.len() && i < present.len()
        invariant
            first_present(views(cands@), present@, 0) == first_present(views(cands@), present@, i as int),
        decreases cands.len() - i,
    {
        if present[i] {
            return Some(cands[i].clone());
        }
        i = i + 1;
    }
    None
}

/// Candidate fonts for the page numbers, most preferred first.
pub open spec fn system_fonts() -> Seq<Seq<char>> {
    seq![
        "C:\\Windows\\Fonts\\arial.ttf"@,
        "C:\\Windows\\Fonts\\Arial.ttf"@,
        "C:\\Windows\\Fonts\\segoeui.ttf"@,
        "C:\\Windows\\Fonts\\calibri.ttf"@,
    ]
}

pub fn system_font_candidates() -> (r: Vec<String>)
    ensures
        views(r@) == system_fonts(),
{
    let r = vec![
        String::from_str("C:\\Windows\\Fonts\\arial.ttf"),
        String::from_str("C:\\Windows\\Fonts\\Arial.ttf"),
        String::from_str("C:\\Windows\\Fonts\\segoeui.ttf"),
        String::from_str("C:\\Windows\\Fonts\\calibri.ttf"),
    ];
    assert(views(r@) =~= seq![
        "C:\\Windows\\Fonts\\arial.ttf"@,
        "C:\\Windows\\Fonts\\Arial.ttf"@,
        "C:\\Windows\\Fonts\\segoeui.ttf"@,
        "C:\\Windows\\Fonts\\calibri.ttf"@,
    ]);
    r
}

/// Candidate fonts for Japanese text on the title page, most preferred first.
pub open spec fn jp_fonts() -> Seq<Seq<char>> {
    seq![
        "C:\\Windows\\Fonts\\YuGothB.ttc"@,
        "C:\\Windows\\Fonts\\YuGothM.ttc"@,
        "C:\\Windows\\Fonts\\yugothib.ttf"@,
        "C:\\Windows\\Fonts\\meiryob.ttc"@,
        "C:\\Windows\\Fonts\\meiryo.ttc"@,
        "C:\\Windows\\Fonts\\msgothic.ttc"@,
    ]
}

pub fn jp_font_candidates() -> (r: Vec<String>)
    ensures
        views(r@) == jp_fonts(),
{
    let r = vec![
        String::from_str("C:\\Windows\\Fonts\\YuGothB.ttc"),
        String::from_str("C:\\Windows\\Fonts\\YuGothM.ttc"),
        String::from_str("C:\\Windows\\Fonts\\yugothib.ttf"),
        String::from_str("C:\\Windows\\Fonts\\meiryob.ttc"),
        String::from_str("C:\\Windows\\Fonts\\meiryo.ttc"),
        String::from_str("C:\\Windows\\Fonts\\msgothic.ttc"),
    ];
    assert(views(r@) =~= seq![
        "C:\\Windows\\Fonts\\YuGothB.ttc"@,
        "C:\\Windows\\Fonts\\YuGothM.ttc"@,
        "C:\\Windows\\Fonts\\yugothib.ttf"@,
        "C:\\Windows\\Fonts\\meiryob.ttc"@,
        "C:\\Windows\\Fonts\\meiryo.ttc"@,
        "C:\\Windows\\Fonts\\msgothic.ttc"@,
    ]);
    r
}

/// The page-number font: the first candidate whose entry in `present`
/// (one per candidate, in order) is true.
pub fn get_system_font_path(present: &Vec<bool>) -> (r: Option<String>)
    ensures
        match first_present(system_fonts(), present@, 0) {
            Some(p) => r matches Some(s) && s@ == p,
            None => r is None,
        },
{
    pick(system_font_candidates(), present)
}

/// The title-page font: the first candidate whose entry in `present` (one
/// per candidate, in order) is true.
pub fn get_jp_font_path(present: &Vec<bool>) -> (r: Option<String>)
    ensures
        match first_present(jp_fonts(), present@, 0) {
            Some(p) => r matches Some(s) && s@ == p,
            None => r is None,
        },
{
    pick(jp_font_candidates(), present)
}

} // verus!
