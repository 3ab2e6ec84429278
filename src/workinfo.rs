//! The text lines of the title page: the title block and the author line.

use vstd::prelude::*;
use crate::types::WorkInfo;

verus! {

/// What a line of the title page is; the page's typography sizes each kind.
#[derive(Clone, Copy, Debug, PartialEq, Eq, Structural)]
pub enum LineKind {
    Title,
    Subtitle,
    Version,
}

/// One line of the title block.
#[derive(Debug)]
pub struct TextLine {
    pub kind: LineKind,
    pub text: String,
}

pub open spec fn line_if(kind: LineKind, s: Seq<char>) -> Seq<(LineKind, Seq<char>)> {
    if s.len() > 0 { seq![(kind, s)] } else { Seq::empty() }
}

/// Title, subtitle and volume, in that order, each only when not empty.
pub open spec fn spec_title_block(info: &WorkInfo) -> Seq<(LineKind, Seq<char>)> {
    line_if(LineKind::Title, info.title@) + line_if(LineKind::Subtitle, info.subtitle@) + line_if(
        LineKind::Version,
        info.version@,
    )
}

pub open spec fn line_views(v: Seq<TextLine>) -> Seq<(LineKind, Seq<char>)> {
    v.map_values(|l: TextLine| (l.kind, l.text@))
}

fn push_if(lines: &mut Vec<TextLine>, kind: LineKind, s: &String)
    ensures
        line_views(final(lines)@) == line_views(old(lines)@) + line_if(kind, s@),
{
    let ghost before = line_views(lines@);
    if s.unicode_len() > 0 {
        lines.push(TextLine { kind, text: s.clone() });
        assert(line_views(lines@) =~= before + line_if(kind, s@));
    } else {
        assert(line_views(lines@) =~= before + line_if(kind, s@));
    }
}

/// The lines of the title block.
pub fn title_block(info: &WorkInfo) -> (r: Vec<TextLine>)
    ensures
        line_views(r@) == spec_title_block(info),
{
    let mut lines: Vec<TextLine> = Vec::new();
    assert(line_views(lines@) =~= Seq::<(LineKind, Seq<char>)>::empty());
    push_if(&mut lines, LineKind::Title, &info.title);
    push_if(&mut lines, LineKind::Subtitle, &info.subtitle);
    push_if(&mut lines, LineKind::Version, &info.version);
    assert(Seq::<(LineKind, Seq<char>)>::empty() + line_if(LineKind::Title, info.title@) =~= line_if(
        LineKind::Title,
        info.title@,
    ));
    lines
}

/// The author line: "著　" and the author (type 0); "作画　" and the artist
/// and "原作　" and the writer, those present, joined by two wide spaces
/// (type 1); the first author as written (other types). Empty names are left
/// out.
pub open spec fn spec_author_line(kind: u8, a1: Seq<char>, a2: Seq<char>) -> Seq<char> {
    if kind == 0 {
        if a1.len() > 0 { "著　"@ + a1 } else { Seq::empty() }
    } else if kind == 1 {
        let artist = if a1.len() > 0 { "作画　"@ + a1 } else { Seq::<char>::empty() };
        let writer = if a2.len() > 0 { "原作　"@ + a2 } else { Seq::<char>::empty() };
        if artist.len() > 0 && writer.len() > 0 { artist + "　　"@ + writer } else { artist + writer }
    } else {
        a1
    }
}

pub fn author_line(info: &WorkInfo) -> (r: String)
    ensures
        r@ == spec_author_line(info.author_type, info.author1@, info.author2@),
{
    let has1 = info.author1.unicode_len() > 0;
    let has2 = info.author2.unicode_len() > 0;
    if info.author_type == 0 {
        if has1 {
            String::from_str("著　").concat(info.author1.as_str())
        } else {
            String::new()
        }
    } else if info.author_type == 1 {
        let artist = if has1 { String::from_str("作画　").concat(info.author1.as_str()) } else { String::new() };
        let writer = if has2 { String::from_str("原作　").concat(info.author2.as_str()) } else { String::new() };
        proof {
            reveal_strlit("作画　");
            reveal_strlit("原作　");
        }
        if has1 && has2 {
            artist.concat("　　").concat(writer.as_str())
        } else {
            artist.concat(writer.as_str())
        }
    } else {
        info.author1.clone()
    }
}

} // verus!
