//! The export side: the graph description text and the glyph pixels of the
//! raster image.

use vstd::prelude::*;

verus! {

/// A separator that node identifiers cannot hold.
pub open spec fn is_separator(c: char) -> bool {
    c == ' ' || c == '.' || c == '-'
}

/// `s` with every separator replaced by an underscore.
pub open spec fn sanitized(s: Seq<char>) -> Seq<char> {
    s.map_values(|c: char| if is_separator(c) { '_' } else { c })
}

/// Turns a name into a node identifier: spaces, dots and dashes become
/// underscores.
pub fn sanitize_id(s: &str) -> (r: String)
    ensures
        r@ == sanitized(s@),
{
    let n = s.unicode_len();
    let mut out = String::new();
    let mut i: usize = 0;
    while i < n
        invariant
            n == s@.len(),
            i <= n,
            out@ == sanitized(s@.subrange(0, i as int)),
        decreases n - i,
    {
        let c = s.get_char(i);
        let ghost before = out@;
        if c == ' ' || c == '.' || c == '-' {
            out.append("_");
        } else {
            out.append(s.substring_char(i, i + 1));
        }
        proof {
            assert(s@.subrange(i as int, i + 1) =~= seq![c]);
            reveal_strlit("_");
            assert("_"@ =~= seq!['_']);
            let m = if is_separator(c) { '_' } else { c };
            assert(out@ =~= before.push(m));
            assert(s@.subrange(0, i + 1) =~= s@.subrange(0, i as int).push(c));
            assert(sanitized(s@.subrange(0, i + 1)) =~= sanitized(s@.subrange(0, i as int)).push(m));
        }
        i = i + 1;
    }
    assert(s@.subrange(0, n as int) =~= s@);
    out
}

/// The edge statement of one (parent, child) pair.
pub open spec fn edge_line(p: Seq<char>, c: Seq<char>) -> Seq<char> {
    "    "@ + sanitized(p) + "["@ + p + "] --> "@ + sanitized(c) + "["@ + c + "]\n"@
}

/// The edge statements of the first `m` pairs.
pub open spec fn edges_upto(rels: Seq<(String, String)>, m: int) -> Seq<char>
    decreases m,
{
    if m <= 0 {
        Seq::empty()
    } else {
        edges_upto(rels, m - 1) + edge_line(rels[m - 1].0@, rels[m - 1].1@)
    }
}

/// The graph description of an adjacency list: a top-down graph header,
/// then one edge statement per pair, in order, each node keyed by its
/// sanitized name and labelled by its name.
pub fn mermaid_source(relationships: &Vec<(String, String)>) -> (r: String)
    ensures
        r@ == "graph TD\n"@ + edges_upto(relationships@, relationships@.len() as int),
{
    let mut out = String::from_str("graph TD\n");
    let mut i: usize = 0;
    while i < relationships.len()
        invariant
            i <= relationships@.len(),
            out@ == "graph TD\n"@ + edges_upto(relationships@, i as int),
        decreases relationships.len() - i,
    {
        let (parent, child) = (&relationships[i].0, &relationships[i].1);
        out.append("    ");
        let parent_id = sanitize_id(parent.as_str());
        out.append(parent_id.as_str());
        out.append("[");
        out.append(parent.as_str());
        out.append("] --> ");
        let child_id = sanitize_id(child.as_str());
        out.append(child_id.as_str());
        out.append("[");
        out.append(child.as_str());
        out.append("]\n");
        i = i + 1;
        assert(out@ =~= "graph TD\n"@ + edges_upto(relationships@, i as int));
    }
    out
}

/// Whether the dot pattern of `c` has a pixel at column `x`, row `y` of its
/// six-by-eight cell.
pub open spec fn draws_pixel(c: char, x: u32, y: u32) -> bool {
    if c == '.' { x == 2 && y == 6 }
    else if c == '/' { x == y }
    else if c == '\\' { x + y == 7 }
    else if c == '_' { y == 7 }
    else if c == '-' { y == 4 }
    else if c == '|' { x == 2 }
    else { false }
}

/// The dot pattern of a text character.
pub fn should_draw_pixel(c: char, x: u32, y: u32) -> (r: bool)
    requires
        x < 6,
        y < 8,
    ensures
        r == draws_pixel(c, x, y),
{
    match c {
        '.' => x == 2 && y == 6,
        '/' => x == y,
        '\\' => x + y == 7,
        '_' => y == 7,
        '-' => y == 4,
        '|' => x == 2,
        _ => false,
    }
}

/// An ASCII letter, digit or punctuation mark.
pub open spec fn is_ascii_mark(c: char) -> bool {
    ('0' <= c <= '9') || ('a' <= c <= 'z') || ('A' <= c <= 'Z') || ('!' <= c <= '/')
        || (':' <= c <= '@') || ('[' <= c <= '`') || ('{' <= c <= '~')
}

/// The grey level a text character is drawn in: black for ASCII letters,
/// digits and punctuation, mid grey for anything else.
pub open spec fn text_shade(c: char) -> u8 {
    if is_ascii_mark(c) { 0 } else { 128 }
}

/// The pixel of a glyph cell at column `dx`, row `dy`: `Some` grey level
/// where the glyph is drawn. Box-drawing glyphs are lines in black within an
/// eight-by-twelve cell; other characters use their dot pattern.
pub open spec fn glyph_at(c: char, dx: u32, dy: u32) -> Option<u8> {
    let vertical = dx == 3 && dy < 12;
    let arm = 3 <= dx < 8 && dy == 6;
    if c == '│' {
        if vertical { Some(0u8) } else { None }
    } else if c == '─' {
        if dx < 8 && dy == 6 { Some(0u8) } else { None }
    } else if c == '├' {
        if vertical || arm { Some(0u8) } else { None }
    } else if c == '└' {
        if (dx == 3 && dy < 7) || arm { Some(0u8) } else { None }
    } else if dx < 6 && dy < 8 && draws_pixel(c, dx, dy) {
        Some(text_shade(c))
    } else {
        None
    }
}

/// See `glyph_at`.
pub fn glyph_pixel(c: char, dx: u32, dy: u32) -> (r: Option<u8>)
    ensures
        r == glyph_at(c, dx, dy),
{
    let vertical = dx == 3 && dy < 12;
    let arm = 3 <= dx && dx < 8 && dy == 6;
    if c == '│' {
        if vertical { Some(0u8) } else { None }
    } else if c == '─' {
        if dx < 8 && dy == 6 { Some(0u8) } else { None }
    } else if c == '├' {
        if vertical || arm { Some(0u8) } else { None }
    } else if c == '└' {
        if (dx == 3 && dy < 7) || arm { Some(0u8) } else { None }
    } else if dx < 6 && dy < 8 && should_draw_pixel(c, dx, dy) {
        let mark = ('0' <= c && c <= '9') || ('a' <= c && c <= 'z') || ('A' <= c && c <= 'Z')
            || ('!' <= c && c <= '/') || (':' <= c && c <= '@') || ('[' <= c && c <= '`')
            || ('{' <= c && c <= '~');
        Some(if mark { 0u8 } else { 128u8 })
    } else {
        None
    }
}

/// Width of the image, in pixels.
pub const IMAGE_WIDTH: u32 = 800;

/// Height of the image for `lines` lines of text: fifteen pixels a line and
/// a margin of forty; `None` where that exceeds `u32`.
pub fn image_height(lines: u32) -> (r: Option<u32>)
    ensures
        lines * 15 + 40 <= u32::MAX ==> r == Some((lines * 15 + 40) as u32),
        lines * 15 + 40 > u32::MAX ==> r is None,
{
    if lines > (u32::MAX - 40) / 15 {
        None
    } else {
        Some(lines * 15 + 40)
    }
}

/// Top-left corner of the glyph cell of character `col` on line `row`:
/// ten pixels of margin, eight pixels a character and fifteen a line;
/// `None` where that exceeds `u32`.
pub fn glyph_origin(row: u32, col: u32) -> (r: Option<(u32, u32)>)
    ensures
        (col * 8 + 10 <= u32::MAX && row * 15 + 10 <= u32::MAX)
            ==> r == Some(((col * 8 + 10) as u32, (row * 15 + 10) as u32)),
        (col * 8 + 10 > u32::MAX || row * 15 + 10 > u32::MAX) ==> r is None,
{
    if col > (u32::MAX - 10) / 8 || row > (u32::MAX - 10) / 15 {
        None
    } else {
        Some((col * 8 + 10, row * 15 + 10))
    }
}

} // verus!
