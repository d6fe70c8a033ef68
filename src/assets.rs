use crate::animation::{sum_times, Animation, AnimationSM};
use crate::collision::{Mobile, Terrain};
use crate::entity::Entity;
use crate::sprite::{Sprite, Texture};
use crate::types::{Rect, Vec2i};
use std::rc::Rc;
use vstd::prelude::*;

verus! {

/// Side of a square tile, in pixels.
pub const TILE_SZ: usize = 16;

fn str_equals(s: &str, lit: &str) -> (r: bool)
    ensures
        r == (s@ == lit@),
{
    s.to_owned() == lit.to_owned()
}

/// Top-left corner on the tile sheet of each tile kind: 0 to 3 outer corners
/// (top-left, top-right, bottom-right, bottom-left), 4 to 7 edges (top, right,
/// bottom, left), 8 to 11 inner corners, 12 the centre.
pub open spec fn tile_coords(id: int) -> Option<(int, int)> {
    if id == 0 {
        Some((640, 544))
    } else if id == 1 {
        Some((688, 544))
    } else if id == 2 {
        Some((800, 544))
    } else if id == 3 {
        Some((768, 544))
    } else if id == 4 {
        Some((576, 384))
    } else if id == 5 {
        Some((592, 400))
    } else if id == 6 {
        Some((784, 544))
    } else if id == 7 {
        Some((560, 400))
    } else if id == 8 {
        Some((592, 688))
    } else if id == 9 {
        Some((624, 688))
    } else if id == 10 {
        Some((704, 520))
    } else if id == 11 {
        Some((720, 520))
    } else if id == 12 {
        Some((576, 400))
    } else {
        None
    }
}

/// Offset on the tile sheet of each terrain style.
pub open spec fn terrain_offset(name: Seq<char>) -> Option<(int, int)> {
    if name == "snow"@ {
        Some((0, 0))
    } else if name == "grass"@ {
        Some((-544, -360))
    } else {
        None
    }
}

/// The tile of kind `id` in style `name`: error 0 for an unknown style, no
/// tile for id -1, error 1 for an unknown id.
pub open spec fn tile_rect_spec(id: int, name: Seq<char>) -> Result<Option<Rect>, usize> {
    match terrain_offset(name) {
        None => Err(0),
        Some(o) => if id == -1 {
            Ok(None)
        } else {
            match tile_coords(id) {
                None => Err(1),
                Some(c) => Ok(Some(Rect { x: (c.0 + o.0) as i32, y: (c.1 + o.1) as i32, w: 16, h: 16 })),
            }
        },
    }
}

/// The area of the tile sheet holding tile `id` in style `tile_terrain`
/// ("snow" or "grass").
pub fn get_tile_rect(id: i32, tile_terrain: &str) -> (r: Result<Option<Rect>, usize>)
    ensures
        r == tile_rect_spec(id as int, tile_terrain@),
{
    let terrain_offset: Vec2i;
    if str_equals(tile_terrain, "snow") {
        terrain_offset = Vec2i(0, 0);
    } else if str_equals(tile_terrain, "grass") {
        terrain_offset = Vec2i(-544, -360);
    } else {
        return Err(0);
    }
    let tile_coords: Vec2i;
    match id {
        0 => tile_coords = Vec2i(640, 544),
        1 => tile_coords = Vec2i(688, 544),
        2 => tile_coords = Vec2i(800, 544),
        3 => tile_coords = Vec2i(768, 544),
        4 => tile_coords = Vec2i(576, 384),
        5 => tile_coords = Vec2i(592, 400),
        6 => tile_coords = Vec2i(784, 544),
        7 => tile_coords = Vec2i(560, 400),
        8 => tile_coords = Vec2i(592, 688),
        9 => tile_coords = Vec2i(624, 688),
        10 => tile_coords = Vec2i(704, 520),
        11 => tile_coords = Vec2i(720, 520),
        12 => tile_coords = Vec2i(576, 400),
        -1 => return Ok(None),
        _ => return Err(1),
    }
    Ok(Some(Rect { x: tile_coords.0 + terrain_offset.0, y: tile_coords.1 + terrain_offset.1, w: 16, h: 16 }))
}

/// Top-left corners on the sprite sheet of the frames of each character pose:
/// 0 to 3 facing up, right, down, left; 4 to 7 moving that way.
pub open spec fn sprite_cells(id: int) -> Option<Seq<(int, int)>> {
    if id == 0 {
        Some(seq![(47, 29)])
    } else if id == 1 {
        Some(seq![(113, 29)])
    } else if id == 2 {
        Some(seq![(80, 63)])
    } else if id == 3 {
        Some(seq![(13, 62)])
    } else if id == 4 {
        Some(seq![(178, 29), (179, 29)])
    } else if id == 5 {
        Some(seq![(245, 29), (245, 30)])
    } else if id == 6 {
        Some(seq![(212, 63), (213, 63)])
    } else if id == 7 {
        Some(seq![(146, 62), (146, 63)])
    } else {
        None
    }
}

/// Offset on the sprite sheet of each character colour.
pub open spec fn sprite_color_offset(color: Seq<char>) -> Option<(int, int)> {
    if color == "green"@ {
        Some((0, 0))
    } else if color == "orange"@ {
        Some((0, 66))
    } else {
        None
    }
}

/// The frames of pose `id` in `color`: error 0 for an unknown colour, error 1
/// for an unknown pose.
pub open spec fn sprite_rects_spec(id: int, color: Seq<char>) -> Result<Seq<Rect>, usize> {
    match sprite_color_offset(color) {
        None => Err(0),
        Some(o) => match sprite_cells(id) {
            None => Err(1),
            Some(cells) => Ok(
                cells.map_values(
                    |p: (int, int)| Rect { x: (p.0 + o.0) as i32, y: (p.1 + o.1) as i32, w: 24, h: 24 },
                ),
            ),
        },
    }
}

/// The frames of character pose `id` in `color` ("green" or "orange").
pub fn get_sprite_rects(id: usize, color: &str) -> (r: Result<Vec<Rect>, usize>)
    ensures
        match sprite_rects_spec(id as int, color@) {
            Ok(s) => r matches Ok(v) && v@ == s,
            Err(e) => r matches Err(f) && f == e,
        },
{
    let offset: Vec2i;
    if str_equals(color, "green") {
        offset = Vec2i(0, 0);
    } else if str_equals(color, "orange") {
        offset = Vec2i(0, 66);
    } else {
        return Err(0);
    }
    let pos: Vec<Vec2i> = match id {
        0 => vec![Vec2i(47, 29)],
        1 => vec![Vec2i(113, 29)],
        2 => vec![Vec2i(80, 63)],
        3 => vec![Vec2i(13, 62)],
        4 => vec![Vec2i(178, 29), Vec2i(179, 29)],
        5 => vec![Vec2i(245, 29), Vec2i(245, 30)],
        6 => vec![Vec2i(212, 63), Vec2i(213, 63)],
        7 => vec![Vec2i(146, 62), Vec2i(146, 63)],
        _ => return Err(1),
    };
    let ghost cells = sprite_cells(id as int)->Some_0;
    assert(pos@.len() == cells.len());
    assert(forall|k: int| 0 <= k < cells.len() ==> (#[trigger] pos@[k]).0 == cells[k].0 && pos@[k].1 == cells[k].1);
    let mut out: Vec<Rect> = Vec::new();
    let mut i: usize = 0;
    while i < pos.len()
        invariant
            i <= pos@.len(),
            pos@.len() == cells.len(),
            forall|k: int| 0 <= k < cells.len() ==> (#[trigger] pos@[k]).0 == cells[k].0 && pos@[k].1 == cells[k].1,
            0 <= offset.0 <= 66 && 0 <= offset.1 <= 66,
            sprite_color_offset(color@) == Some((offset.0 as int, offset.1 as int)),
            forall|k: int| 0 <= k < cells.len() ==> 0 <= (#[trigger] cells[k]).0 <= 300 && 0 <= cells[k].1 <= 300,
            out@ == cells.take(i as int).map_values(
                |p: (int, int)| Rect { x: (p.0 + offset.0) as i32, y: (p.1 + offset.1) as i32, w: 24, h: 24 },
            ),
        decreases pos@.len() - i,
    {
        let p = pos[i];
        out.push(Rect { x: p.0 + offset.0, y: p.1 + offset.1, w: 24, h: 24 });
        proof {
            assert(cells.take(i + 1) =~= cells.take(i as int).push(cells[i as int]));
        }
        assert(out@ =~= cells.take(i + 1).map_values(
            |p: (int, int)| Rect { x: (p.0 + offset.0) as i32, y: (p.1 + offset.1) as i32, w: 24, h: 24 },
        ));
        i = i + 1;
    }
    assert(cells.take(cells.len() as int) =~= cells);
    Ok(out)
}

/// Whether `c` has the Unicode Lowercase property.
pub uninterp spec fn lowercase_char(c: char) -> bool;

/// Whether `c` has the Unicode Uppercase property.
pub uninterp spec fn uppercase_char(c: char) -> bool;

/// Whether `c` is a Unicode numeric character.
pub uninterp spec fn numeric_char(c: char) -> bool;

/// Relies on `char::is_lowercase`: the Unicode Lowercase property of `c`.
#[verifier::external_body]
fn is_lowercase(c: char) -> (r: bool)
    ensures
        r == lowercase_char(c),
{
    c.is_lowercase()
}

/// Relies on `char::is_uppercase`: the Unicode Uppercase property of `c`.
#[verifier::external_body]
fn is_uppercase(c: char) -> (r: bool)
    ensures
        r == uppercase_char(c),
{
    c.is_uppercase()
}

/// Relies on `char::is_numeric`: whether `c` is in a Unicode numeric category.
#[verifier::external_body]
fn is_numeric(c: char) -> (r: bool)
    ensures
        r == numeric_char(c),
{
    c.is_numeric()
}

/// Glyph of `c` on the font sheet, given its character class: lower case on the
/// first row (from 'a'), upper case on the second (from 'A'), digits on the third
/// (from '0'); nothing for other characters.
pub open spec fn glyph_spec(c: char, lower: bool, upper: bool, numeric: bool) -> Option<Rect> {
    if lower {
        Some(Rect { x: ((c as int - 'a' as int) * 18 + 9) as i32, y: 5, w: 18, h: 18 })
    } else if upper {
        Some(Rect { x: ((c as int - 'A' as int) * 18 + 9) as i32, y: 23, w: 18, h: 18 })
    } else if numeric {
        Some(Rect { x: ((c as int - '0' as int) * 18 + 9) as i32, y: 41, w: 18, h: 18 })
    } else {
        None
    }
}

/// The glyph of `c`, its character class given.
pub fn glyph_rect(c: char, lower: bool, upper: bool, numeric: bool) -> (r: Option<Rect>)
    ensures
        r == glyph_spec(c, lower, upper, numeric),
{
    if lower {
        Some(Rect { x: (c as i32 - 'a' as i32) * 18 + 9, y: 5, w: 18, h: 18 })
    } else if upper {
        Some(Rect { x: (c as i32 - 'A' as i32) * 18 + 9, y: 23, w: 18, h: 18 })
    } else if numeric {
        Some(Rect { x: (c as i32 - '0' as i32) * 18 + 9, y: 41, w: 18, h: 18 })
    } else {
        None
    }
}

pub open spec fn font_letter(c: char) -> Option<Rect> {
    glyph_spec(c, lowercase_char(c), uppercase_char(c), numeric_char(c))
}

/// The glyph of `c` on the font sheet, if the font has one.
pub fn get_font_letter(c: char) -> (r: Option<Rect>)
    ensures
        r == font_letter(c),
{
    let lower = is_lowercase(c);
    let upper = is_uppercase(c);
    let numeric = is_numeric(c);
    glyph_rect(c, lower, upper, numeric)
}

/// Glyphs of the first `n` characters of `cs` with where each goes: character
/// `i` at `pos` moved right by `i` glyph widths, on the row `pos.1` below the
/// scroll offset; characters without a glyph take their place but draw nothing.
pub open spec fn glyphs_upto(cs: Seq<char>, pos: Vec2i, scroll: Vec2i, n: int) -> Seq<(Rect, Vec2i)>
    decreases n,
{
    if n <= 0 {
        Seq::empty()
    } else {
        glyphs_upto(cs, pos, scroll, n - 1) + match font_letter(cs[n - 1]) {
            Some(r) => seq![(r, Vec2i((pos.0 + 18 * (n - 1)) as i32, (scroll.1 + pos.1) as i32))],
            None => Seq::empty(),
        }
    }
}

/// Where to draw each glyph of a line of text.
pub fn glyph_layout(chars: &[char], pos: Vec2i, scroll: Vec2i) -> (r: Vec<(Rect, Vec2i)>)
    requires
        pos.0 + 18 * chars@.len() <= i32::MAX,
        i32::MIN <= scroll.1 + pos.1 <= i32::MAX,
    ensures
        r@ == glyphs_upto(chars@, pos, scroll, chars@.len() as int),
{
    let mut out: Vec<(Rect, Vec2i)> = Vec::new();
    let mut i: usize = 0;
    let row = scroll.1 + pos.1;
    while i < chars.len()
        invariant
            i <= chars@.len(),
            pos.0 + 18 * chars@.len() <= i32::MAX,
            row == scroll.1 + pos.1,
            out@ == glyphs_upto(chars@, pos, scroll, i as int),
        decreases chars@.len() - i,
    {
        match get_font_letter(chars[i]) {
            None => {},
            Some(rect) => {
                out.push((rect, Vec2i((pos.0 as i64 + 18 * i as i64) as i32, row)));
            },
        }
        assert(out@ =~= glyphs_upto(chars@, pos, scroll, i + 1));
        i = i + 1;
    }
    out
}

/// Tile kinds of row `r` (0 to 29) of the level map (-1: no tile).
pub open spec fn level_row_spec(r: int) -> Seq<int> {
    if r == 0 {
        seq![10, 6, 6, 6, 6, 6, 6, 6, 6, 6, 6, 6, 6, 6, 6, 6, 6, 6, 6, 6, 6, 6, 6, 6, 6, 6, 6, 6, 6, 6, 6, 6, 6, 6, 6, 6, 6, 6, 6, 11]
    } else if r == 1 {
        seq![5, -1, -1, -1, -1, -1, -1, -1, -1, -1, -1, -1, -1, -1, -1, -1, -1, -1, -1, -1, -1, -1, -1, -1, -1, -1, -1, -1, -1, -1, -1, -1, -1, -1, -1, -1, -1, -1, -1, 7]
    } else if r == 2 {
        seq![5, -1, -1, -1, -1, -1, -1, -1, -1, -1, -1, -1, -1, -1, -1, -1, -1, -1, -1, -1, -1, -1, -1, -1, -1, -1, -1, -1, -1, -1, -1, -1, -1, -1, -1, -1, -1, -1, -1, 7]
    } else if r == 3 {
        seq![5, -1, -1, -1, 0, 4, 4, 4, 4, 4, 1, -1, -1, -1, -1, -1, -1, -1, -1, -1, -1, -1, -1, -1, -1, -1, -1, -1, -1, -1, -1, -1, -1, -1, -1, -1, -1, -1, -1, 7]
    } else if r == 4 {
        seq![5, -1, -1, -1, 7, 12, 12, 12, 12, 12, 5, -1, -1, -1, -1, -1, -1, -1, -1, -1, -1, -1, -1, -1, -1, -1, -1, -1, -1, -1, -1, -1, -1, -1, -1, -1, -1, -1, -1, 7]
    } else if r == 5 {
        seq![5, -1, -1, -1, 7, 12, 12, 12, 12, 12, 5, -1, -1, -1, -1, -1, -1, -1, -1, -1, 0, 4, 4, 4, 4, 4, 4, 4, 4, 4, 4, 4, 4, 4, 4, 1, -1, -1, -1, 7]
    } else if r == 6 {
        seq![5, -1, -1, -1, 3, 6, 6, 11, 12, 12, 5, -1, -1, -1, -1, -1, -1, -1, -1, -1, 3, 6, 6, 6, 6, 6, 11, 12, 12, 12, 10, 6, 6, 6, 6, 2, -1, -1, -1, 7]
    } else if r == 7 {
        seq![5, -1, -1, -1, -1, -1, -1, 7, 12, 12, 5, -1, -1, -1, -1, -1, -1, -1, -1, -1, -1, -1, -1, -1, -1, -1, 7, 12, 12, 12, 5, -1, -1, -1, -1, -1, -1, -1, -1, 7]
    } else if r == 8 {
        seq![5, -1, -1, -1, -1, -1, -1, 7, 12, 12, 5, -1, -1, -1, -1, -1, -1, -1, -1, -1, -1, -1, -1, -1, -1, -1, 7, 12, 12, 12, 5, -1, -1, -1, -1, -1, -1, -1, -1, 7]
    } else if r == 9 {
        seq![5, -1, -1, -1, -1, -1, -1, 7, 12, 12, 5, -1, -1, -1, -1, -1, -1, -1, -1, -1, -1, -1, -1, -1, -1, -1, 7, 12, 12, 12, 5, -1, -1, -1, -1, -1, -1, -1, -1, 7]
    } else if r == 10 {
        seq![5, -1, -1, -1, -1, -1, -1, 7, 12, 12, 5, -1, -1, -1, -1, 0, 1, -1, -1, -1, -1, -1, -1, -1, -1, -1, 7, 12, 12, 12, 5, -1, -1, -1, -1, -1, -1, -1, -1, 7]
    } else if r == 11 {
        seq![5, -1, -1, -1, -1, -1, -1, 7, 12, 12, 5, -1, -1, -1, -1, 7, 5, -1, -1, -1, -1, -1, -1, -1, -1, -1, 7, 12, 12, 12, 5, -1, -1, -1, -1, -1, -1, -1, -1, 7]
    } else if r == 12 {
        seq![5, -1, -1, -1, -1, -1, -1, 7, 12, 12, 5, -1, -1, -1, -1, 7, 5, -1, -1, -1, -1, -1, -1, -1, -1, -1, 7, 12, 12, 12, 5, -1, -1, -1, -1, -1, -1, -1, -1, 7]
    } else if r == 13 {
        seq![5, -1, -1, -1, -1, -1, -1, 7, 12, 12, 5, -1, -1, -1, -1, 7, 5, -1, -1, -1, -1, -1, -1, -1, -1, -1, 7, 10, 6, 6, 2, -1, -1, -1, -1, -1, -1, -1, -1, 7]
    } else if r == 14 {
        seq![5, -1, -1, -1, -1, -1, -1, 3, 6, 6, 2, -1, -1, -1, -1, 7, 5, -1, -1, -1, -1, -1, -1, -1, -1, -1, 7, 5, -1, -1, -1, -1, -1, -1, -1, -1, -1, -1, -1, 7]
    } else if r == 15 {
        seq![5, -1, -1, -1, -1, -1, -1, -1, -1, -1, -1, -1, -1, -1, -1, 7, 5, -1, -1, -1, -1, -1, -1, -1, -1, -1, 7, 5, -1, -1, -1, -1, -1, -1, -1, -1, -1, -1, -1, 7]
    } else if r == 16 {
        seq![5, -1, -1, -1, -1, -1, -1, -1, -1, -1, -1, -1, -1, -1, -1, 7, 5, -1, -1, -1, -1, -1, -1, -1, -1, -1, 7, 5, -1, -1, -1, -1, -1, -1, -1, -1, -1, -1, -1, 7]
    } else if r == 17 {
        seq![5, -1, -1, -1, -1, -1, -1, -1, -1, -1, -1, -1, -1, -1, -1, 7, 5, -1, -1, -1, -1, -1, -1, -1, -1, -1, 7, 5, -1, -1, -1, -1, -1, -1, -1, -1, -1, -1, -1, 7]
    } else if r == 18 {
        seq![5, -1, -1, -1, -1, -1, -1, -1, -1, -1, -1, -1, -1, -1, -1, 7, 5, -1, -1, -1, -1, -1, -1, -1, -1, -1, 3, 2, -1, -1, -1, -1, -1, -1, -1, -1, -1, -1, -1, 7]
    } else if r == 19 {
        seq![5, -1, -1, -1, -1, -1, -1, -1, -1, -1, -1, -1, -1, -1, -1, 7, 5, -1, -1, -1, -1, -1, -1, -1, -1, -1, -1, -1, -1, -1, -1, -1, -1, -1, -1, -1, -1, -1, -1, 7]
    } else if r == 20 {
        seq![5, -1, -1, -1, -1, -1, 0, 4, 4, 4, 4, 4, 4, 4, 4, 8, 5, -1, -1, -1, -1, -1, -1, -1, -1, -1, -1, -1, -1, -1, -1, -1, -1, -1, -1, -1, -1, -1, -1, 7]
    } else if r == 21 {
        seq![5, -1, -1, -1, -1, -1, 3, 6, 6, 6, 6, 6, 11, 10, 6, 6, 2, -1, -1, -1, -1, -1, -1, -1, -1, -1, -1, -1, -1, -1, -1, -1, -1, -1, -1, -1, -1, -1, -1, 7]
    } else if r == 22 {
        seq![5, -1, -1, -1, -1, -1, -1, -1, -1, -1, -1, -1, 7, 5, -1, -1, -1, -1, -1, -1, -1, -1, -1, -1, -1, -1, -1, -1, -1, -1, -1, -1, -1, -1, -1, -1, -1, -1, -1, 7]
    } else if r == 23 {
        seq![5, -1, -1, -1, -1, -1, -1, -1, -1, -1, -1, -1, 7, 5, -1, -1, -1, -1, -1, -1, -1, -1, -1, -1, -1, -1, -1, -1, -1, -1, -1, -1, -1, -1, -1, -1, -1, -1, -1, 7]
    } else if r == 24 {
        seq![5, -1, -1, -1, -1, -1, -1, -1, -1, -1, -1, -1, 7, 5, -1, -1, -1, -1, -1, -1, -1, -1, -1, 0, 4, 4, 4, 4, 4, 4, 4, 4, 1, -1, -1, -1, -1, -1, -1, 7]
    } else if r == 25 {
        seq![5, -1, -1, -1, -1, -1, -1, -1, -1, -1, -1, -1, 7, 5, -1, -1, -1, -1, -1, -1, -1, -1, -1, 3, 6, 6, 6, 6, 6, 6, 6, 6, 2, -1, -1, -1, -1, -1, -1, 7]
    } else if r == 26 {
        seq![5, -1, -1, -1, -1, -1, -1, -1, -1, -1, -1, -1, 7, 5, -1, -1, -1, -1, -1, -1, -1, -1, -1, -1, -1, -1, -1, -1, -1, -1, -1, -1, -1, -1, -1, -1, -1, -1, -1, 7]
    } else if r == 27 {
        seq![5, -1, -1, -1, -1, -1, -1, -1, -1, -1, -1, -1, 7, 5, -1, -1, -1, -1, -1, -1, -1, -1, -1, -1, -1, -1, -1, -1, -1, -1, -1, -1, -1, -1, -1, -1, -1, -1, -1, 7]
    } else if r == 28 {
        seq![5, -1, -1, -1, -1, -1, -1, -1, -1, -1, -1, -1, 7, 5, -1, -1, -1, -1, -1, -1, -1, -1, -1, -1, -1, -1, -1, -1, -1, -1, -1, -1, -1, -1, -1, -1, -1, -1, -1, 7]
    } else {
        seq![9, 4, 4, 4, 4, 4, 4, 4, 4, 4, 4, 4, 8, 9, 4, 4, 4, 4, 4, 4, 4, 4, 4, 4, 4, 4, 4, 4, 4, 4, 4, 4, 4, 4, 4, 4, 4, 4, 4, 8]
    }
}

/// The first `n` rows of the level map, one after the other.
pub open spec fn level_rows(n: int) -> Seq<int>
    decreases n,
{
    if n <= 0 {
        Seq::empty()
    } else {
        level_rows(n - 1) + level_row_spec(n - 1)
    }
}

/// The level map: 30 rows of 40 tile kinds.
pub open spec fn level_map() -> Seq<i32> {
    level_rows(30).map_values(|t: int| t as i32)
}

pub open spec fn widened(v: Seq<i32>) -> Seq<int> {
    v.map_values(|t: i32| t as int)
}

/// Tile kinds of row `r` of the level map.
fn level_row(r: usize) -> (v: Vec<i32>)
    requires
        r < 30,
    ensures
        widened(v@) == level_row_spec(r as int),
        v@.len() == 40,
        forall|k: int| 0 <= k < v@.len() ==> -1 <= #[trigger] v@[k] <= 12,
{
    let v: Vec<i32> = match r {
        0 => vec![10, 6, 6, 6, 6, 6, 6, 6, 6, 6, 6, 6, 6, 6, 6, 6, 6, 6, 6, 6, 6, 6, 6, 6, 6, 6, 6, 6, 6, 6, 6, 6, 6, 6, 6, 6, 6, 6, 6, 11],
        1 => vec![5, -1, -1, -1, -1, -1, -1, -1, -1, -1, -1, -1, -1, -1, -1, -1, -1, -1, -1, -1, -1, -1, -1, -1, -1, -1, -1, -1, -1, -1, -1, -1, -1, -1, -1, -1, -1, -1, -1, 7],
        2 => vec![5, -1, -1, -1, -1, -1, -1, -1, -1, -1, -1, -1, -1, -1, -1, -1, -1, -1, -1, -1, -1, -1, -1, -1, -1, -1, -1, -1, -1, -1, -1, -1, -1, -1, -1, -1, -1, -1, -1, 7],
        3 => vec![5, -1, -1, -1, 0, 4, 4, 4, 4, 4, 1, -1, -1, -1, -1, -1, -1, -1, -1, -1, -1, -1, -1, -1, -1, -1, -1, -1, -1, -1, -1, -1, -1, -1, -1, -1, -1, -1, -1, 7],
        4 => vec![5, -1, -1, -1, 7, 12, 12, 12, 12, 12, 5, -1, -1, -1, -1, -1, -1, -1, -1, -1, -1, -1, -1, -1, -1, -1, -1, -1, -1, -1, -1, -1, -1, -1, -1, -1, -1, -1, -1, 7],
        5 => vec![5, -1, -1, -1, 7, 12, 12, 12, 12, 12, 5, -1, -1, -1, -1, -1, -1, -1, -1, -1, 0, 4, 4, 4, 4, 4, 4, 4, 4, 4, 4, 4, 4, 4, 4, 1, -1, -1, -1, 7],
        6 => vec![5, -1, -1, -1, 3, 6, 6, 11, 12, 12, 5, -1, -1, -1, -1, -1, -1, -1, -1, -1, 3, 6, 6, 6, 6, 6, 11, 12, 12, 12, 10, 6, 6, 6, 6, 2, -1, -1, -1, 7],
        7 => vec![5, -1, -1, -1, -1, -1, -1, 7, 12, 12, 5, -1, -1, -1, -1, -1, -1, -1, -1, -1, -1, -1, -1, -1, -1, -1, 7, 12, 12, 12, 5, -1, -1, -1, -1, -1, -1, -1, -1, 7],
        8 => vec![5, -1, -1, -1, -1, -1, -1, 7, 12, 12, 5, -1, -1, -1, -1, -1, -1, -1, -1, -1, -1, -1, -1, -1, -1, -1, 7, 12, 12, 12, 5, -1, -1, -1, -1, -1, -1, -1, -1, 7],
        9 => vec![5, -1, -1, -1, -1, -1, -1, 7, 12, 12, 5, -1, -1, -1, -1, -1, -1, -1, -1, -1, -1, -1, -1, -1, -1, -1, 7, 12, 12, 12, 5, -1, -1, -1, -1, -1, -1, -1, -1, 7],
        10 => vec![5, -1, -1, -1, -1, -1, -1, 7, 12, 12, 5, -1, -1, -1, -1, 0, 1, -1, -1, -1, -1, -1, -1, -1, -1, -1, 7, 12, 12, 12, 5, -1, -1, -1, -1, -1, -1, -1, -1, 7],
        11 => vec![5, -1, -1, -1, -1, -1, -1, 7, 12, 12, 5, -1, -1, -1, -1, 7, 5, -1, -1, -1, -1, -1, -1, -1, -1, -1, 7, 12, 12, 12, 5, -1, -1, -1, -1, -1, -1, -1, -1, 7],
        12 => vec![5, -1, -1, -1, -1, -1, -1, 7, 12, 12, 5, -1, -1, -1, -1, 7, 5, -1, -1, -1, -1, -1, -1, -1, -1, -1, 7, 12, 12, 12, 5, -1, -1, -1, -1, -1, -1, -1, -1, 7],
        13 => vec![5, -1, -1, -1, -1, -1, -1, 7, 12, 12, 5, -1, -1, -1, -1, 7, 5, -1, -1, -1, -1, -1, -1, -1, -1, -1, 7, 10, 6, 6, 2, -1, -1, -1, -1, -1, -1, -1, -1, 7],
        14 => vec![5, -1, -1, -1, -1, -1, -1, 3, 6, 6, 2, -1, -1, -1, -1, 7, 5, -1, -1, -1, -1, -1, -1, -1, -1, -1, 7, 5, -1, -1, -1, -1, -1, -1, -1, -1, -1, -1, -1, 7],
        15 => vec![5, -1, -1, -1, -1, -1, -1, -1, -1, -1, -1, -1, -1, -1, -1, 7, 5, -1, -1, -1, -1, -1, -1, -1, -1, -1, 7, 5, -1, -1, -1, -1, -1, -1, -1, -1, -1, -1, -1, 7],
        16 => vec![5, -1, -1, -1, -1, -1, -1, -1, -1, -1, -1, -1, -1, -1, -1, 7, 5, -1, -1, -1, -1, -1, -1, -1, -1, -1, 7, 5, -1, -1, -1, -1, -1, -1, -1, -1, -1, -1, -1, 7],
        17 => vec![5, -1, -1, -1, -1, -1, -1, -1, -1, -1, -1, -1, -1, -1, -1, 7, 5, -1, -1, -1, -1, -1, -1, -1, -1, -1, 7, 5, -1, -1, -1, -1, -1, -1, -1, -1, -1, -1, -1, 7],
        18 => vec![5, -1, -1, -1, -1, -1, -1, -1, -1, -1, -1, -1, -1, -1, -1, 7, 5, -1, -1, -1, -1, -1, -1, -1, -1, -1, 3, 2, -1, -1, -1, -1, -1, -1, -1, -1, -1, -1, -1, 7],
        19 => vec![5, -1, -1, -1, -1, -1, -1, -1, -1, -1, -1, -1, -1, -1, -1, 7, 5, -1, -1, -1, -1, -1, -1, -1, -1, -1, -1, -1, -1, -1, -1, -1, -1, -1, -1, -1, -1, -1, -1, 7],
        20 => vec![5, -1, -1, -1, -1, -1, 0, 4, 4, 4, 4, 4, 4, 4, 4, 8, 5, -1, -1, -1, -1, -1, -1, -1, -1, -1, -1, -1, -1, -1, -1, -1, -1, -1, -1, -1, -1, -1, -1, 7],
        21 => vec![5, -1, -1, -1, -1, -1, 3, 6, 6, 6, 6, 6, 11, 10, 6, 6, 2, -1, -1, -1, -1, -1, -1, -1, -1, -1, -1, -1, -1, -1, -1, -1, -1, -1, -1, -1, -1, -1, -1, 7],
        22 => vec![5, -1, -1, -1, -1, -1, -1, -1, -1, -1, -1, -1, 7, 5, -1, -1, -1, -1, -1, -1, -1, -1, -1, -1, -1, -1, -1, -1, -1, -1, -1, -1, -1, -1, -1, -1, -1, -1, -1, 7],
        23 => vec![5, -1, -1, -1, -1, -1, -1, -1, -1, -1, -1, -1, 7, 5, -1, -1, -1, -1, -1, -1, -1, -1, -1, -1, -1, -1, -1, -1, -1, -1, -1, -1, -1, -1, -1, -1, -1, -1, -1, 7],
        24 => vec![5, -1, -1, -1, -1, -1, -1, -1, -1, -1, -1, -1, 7, 5, -1, -1, -1, -1, -1, -1, -1, -1, -1, 0, 4, 4, 4, 4, 4, 4, 4, 4, 1, -1, -1, -1, -1, -1, -1, 7],
        25 => vec![5, -1, -1, -1, -1, -1, -1, -1, -1, -1, -1, -1, 7, 5, -1, -1, -1, -1, -1, -1, -1, -1, -1, 3, 6, 6, 6, 6, 6, 6, 6, 6, 2, -1, -1, -1, -1, -1, -1, 7],
        26 => vec![5, -1, -1, -1, -1, -1, -1, -1, -1, -1, -1, -1, 7, 5, -1, -1, -1, -1, -1, -1, -1, -1, -1, -1, -1, -1, -1, -1, -1, -1, -1, -1, -1, -1, -1, -1, -1, -1, -1, 7],
        27 => vec![5, -1, -1, -1, -1, -1, -1, -1, -1, -1, -1, -1, 7, 5, -1, -1, -1, -1, -1, -1, -1, -1, -1, -1, -1, -1, -1, -1, -1, -1, -1, -1, -1, -1, -1, -1, -1, -1, -1, 7],
        28 => vec![5, -1, -1, -1, -1, -1, -1, -1, -1, -1, -1, -1, 7, 5, -1, -1, -1, -1, -1, -1, -1, -1, -1, -1, -1, -1, -1, -1, -1, -1, -1, -1, -1, -1, -1, -1, -1, -1, -1, 7],
        _ => vec![9, 4, 4, 4, 4, 4, 4, 4, 4, 4, 4, 4, 8, 9, 4, 4, 4, 4, 4, 4, 4, 4, 4, 4, 4, 4, 4, 4, 4, 4, 4, 4, 4, 4, 4, 4, 4, 4, 4, 8],
    };
    assert(widened(v@) =~= level_row_spec(r as int));
    assert(forall|k: int| 0 <= k < v@.len() ==> -1 <= #[trigger] v@[k] <= 12);
    v
}

/// Tile kinds of the level map, row by row (-1: no tile).
pub fn level_tile_ids() -> (r: Vec<i32>)
    ensures
        r@ == level_map(),
        r@.len() == 1200,
        forall|k: int| 0 <= k < r@.len() ==> -1 <= #[trigger] r@[k] <= 12,
{
    let mut ids: Vec<i32> = Vec::new();
    let mut r: usize = 0;
    while r < 30
        invariant
            r <= 30,
            widened(ids@) == level_rows(r as int),
            ids@.len() == 40 * r,
            forall|k: int| 0 <= k < ids@.len() ==> -1 <= #[trigger] ids@[k] <= 12,
        decreases 30 - r,
    {
        let mut row = level_row(r);
        let ghost before = ids@;
        ids.append(&mut row);
        assert(widened(ids@) =~= widened(before) + level_row_spec(r as int));
        r = r + 1;
    }
    assert(ids@ =~= level_map());
    ids
}

/// Pixel position of tile `i` in a grid `width` pixels wide.
pub open spec fn tile_position(i: int, width: int) -> (int, int) {
    ((16 * i) % width, (16 * i) / width * 16)
}

/// Whether tile `i` lies on the border of a grid of `cols` by `rows` tiles.
pub open spec fn on_border(i: int, cols: int, rows: int) -> bool {
    i < cols || i % cols == 0 || i % cols == cols - 1 || i / cols == rows - 1
}

/// The terrain of tile `i`: a 16-pixel block with one hit point, destructible
/// unless on the border.
pub open spec fn tile_terrain(i: int, width: int, height: int, frame_count: usize) -> Terrain {
    let p = tile_position(i, width);
    Terrain {
        rect: Rect { x: p.0 as i32, y: p.1 as i32, w: 16, h: 16 },
        created_at: frame_count,
        destructible: !on_border(i, width / 16, height / 16),
        hp: 1,
    }
}

/// The terrain of the first `n` tiles of `ids`, skipping empty ones.
pub open spec fn tiles_terrain(ids: Seq<i32>, n: int, width: int, height: int, frame_count: usize) -> Seq<
    Terrain,
>
    decreases n,
{
    if n <= 0 {
        Seq::empty()
    } else {
        tiles_terrain(ids, n - 1, width, height, frame_count) + if ids[n - 1] == -1 {
            Seq::empty()
        } else {
            seq![tile_terrain(n - 1, width, height, frame_count)]
        }
    }
}

/// One terrain entity per non-empty tile of `tile_ids`, laid out row by row in a
/// grid `screen_dims.0` pixels wide, drawn with the snow tiles of `tile_sheet`.
pub fn terrain_from_tiles(
    tile_ids: &[i32],
    tile_sheet: &Rc<Texture>,
    frame_count: usize,
    screen_dims: Vec2i,
) -> (r: Vec<Entity<Terrain>>)
    requires
        screen_dims.0 >= 16,
        screen_dims.1 >= 0,
        16 * tile_ids@.len() <= i32::MAX,
        forall|k: int| 0 <= k < tile_ids@.len() ==> -1 <= #[trigger] tile_ids@[k] <= 12,
    ensures
        r@.len() == tiles_terrain(
            tile_ids@,
            tile_ids@.len() as int,
            screen_dims.0 as int,
            screen_dims.1 as int,
            frame_count,
        ).len(),
        forall|k: int|
            0 <= k < r@.len() ==> {
                &&& (#[trigger] r@[k]).collider == tiles_terrain(
                    tile_ids@,
                    tile_ids@.len() as int,
                    screen_dims.0 as int,
                    screen_dims.1 as int,
                    frame_count,
                )[k]
                &&& r@[k].wf()
                &&& r@[k].sprite.image == *tile_sheet
            },
{
    let ghost w = screen_dims.0 as int;
    let ghost h = screen_dims.1 as int;
    let mut walls: Vec<Entity<Terrain>> = Vec::new();
    let cols: i64 = screen_dims.0 as i64 / 16;
    let rows: i64 = screen_dims.1 as i64 / 16;
    let mut i: usize = 0;
    while i < tile_ids.len()
        invariant
            i <= tile_ids@.len(),
            screen_dims.0 >= 16,
            screen_dims.1 >= 0,
            w == screen_dims.0,
            h == screen_dims.1,
            cols == w / 16,
            rows == h / 16,
            16 * tile_ids@.len() <= i32::MAX,
            forall|k: int| 0 <= k < tile_ids@.len() ==> -1 <= #[trigger] tile_ids@[k] <= 12,
            walls@.len() == tiles_terrain(tile_ids@, i as int, w, h, frame_count).len(),
            forall|k: int|
                0 <= k < walls@.len() ==> {
                    &&& (#[trigger] walls@[k]).collider == tiles_terrain(
                        tile_ids@,
                        i as int,
                        w,
                        h,
                        frame_count,
                    )[k]
                    &&& walls@[k].wf()
                    &&& walls@[k].sprite.image == *tile_sheet
                },
        decreases tile_ids@.len() - i,
    {
        let tid = tile_ids[i];
        let tile_rect = match get_tile_rect(tid, "snow") {
            Ok(Some(rect)) => Some(rect),
            _ => None,
        };
        proof {
            reveal_strlit("snow");
        }
        assert(tid == -1 <==> tile_rect is None);
        match tile_rect {
            None => {},
            Some(tile_rect) => {
                let n = 16 * i as i64;
                let x = n % screen_dims.0 as i64;
                let y = n / screen_dims.0 as i64 * 16;
                assert((n as int) / (screen_dims.0 as int) * 16 <= n as int) by (nonlinear_arith)
                    requires
                        screen_dims.0 >= 16,
                        n >= 0,
                ;
                let tile_pos = Vec2i(x as i32, y as i32);
                let ii = i as i64;
                let destructible = !(ii < cols || ii % cols == 0 || ii % cols == cols - 1 || ii / cols
                    == rows - 1);
                let times: Vec<usize> = vec![60];
                proof {
                    assert(times@.len() == 1 && times@[0] == 60);
                    assert(times@.drop_last() =~= Seq::<usize>::empty());
                    assert(sum_times(Seq::<usize>::empty()) == 0);
                    assert(sum_times(times@) == 60);
                }
                let anim = Animation::new(vec![tile_rect], times, frame_count, true);
                let sm = AnimationSM::new(vec![anim], Vec::new(), 0);
                let terrain = Terrain::new(
                    Rect { x: tile_pos.0, y: tile_pos.1, w: TILE_SZ as u16, h: TILE_SZ as u16 },
                    frame_count,
                    destructible,
                    1,
                );
                let e = Entity::new(Sprite::new(tile_sheet, sm, tile_pos), tile_pos, terrain);
                walls.push(e);
            },
        }
        i = i + 1;
    }
    walls
}

/// The level's terrain: one entity per tile of the level map, the border
/// indestructible.
pub fn level_walls(tile_sheet: &Rc<Texture>, frame_count: usize, screen_dims: Vec2i) -> (r: Vec<
    Entity<Terrain>,
>)
    requires
        screen_dims.0 >= 16,
        screen_dims.1 >= 0,
        screen_dims.0 * screen_dims.1 == 1200 * 16 * 16,
    ensures
        r@.len() == tiles_terrain(
            level_map(),
            1200,
            screen_dims.0 as int,
            screen_dims.1 as int,
            frame_count,
        ).len(),
        forall|k: int|
            0 <= k < r@.len() ==> {
                &&& (#[trigger] r@[k]).collider == tiles_terrain(
                    level_map(),
                    1200,
                    screen_dims.0 as int,
                    screen_dims.1 as int,
                    frame_count,
                )[k]
                &&& r@[k].wf()
                &&& r@[k].sprite.image == *tile_sheet
            },
{
    let tile_ids = level_tile_ids();
    terrain_from_tiles(tile_ids.as_slice(), tile_sheet, frame_count, screen_dims)
}


/// Transitions of a character's eight poses: direction events turn it
/// (0 up, 1 right, 2 down, 3 left), "move" and "stop" switch between standing
/// (0 to 3) and moving (4 to 7) the same way.
fn character_transitions() -> (r: Vec<(usize, usize, String)>)
    ensures
        r@.len() == 20,
        forall|k: int| 0 <= k < r@.len() ==> (#[trigger] r@[k]).0 < 8 && r@[k].1 < 8,
{
    let t: Vec<(usize, usize, String)> = vec![
        (0, 1, "right".to_owned()),
        (0, 2, "down".to_owned()),
        (0, 3, "left".to_owned()),
        (1, 0, "up".to_owned()),
        (1, 2, "down".to_owned()),
        (0, 3, "left".to_owned()),
        (2, 0, "up".to_owned()),
        (2, 1, "right".to_owned()),
        (2, 3, "left".to_owned()),
        (3, 0, "up".to_owned()),
        (3, 1, "right".to_owned()),
        (3, 2, "down".to_owned()),
        (0, 4, "move".to_owned()),
        (1, 5, "move".to_owned()),
        (2, 6, "move".to_owned()),
        (3, 7, "move".to_owned()),
        (4, 0, "stop".to_owned()),
        (5, 1, "stop".to_owned()),
        (6, 2, "stop".to_owned()),
        (7, 3, "stop".to_owned()),
    ];
    t
}

/// A character's state machine: eight looping poses from the sprite sheet in
/// the given colour, standing poses held 60 ticks, moving poses alternating two
/// frames every 2 ticks; it starts facing up.
fn character_sm(orange: bool, frame_count: usize) -> (r: AnimationSM)
    ensures
        r.wf(),
        r.anims().len() == 8,
        r.start() == 0,
        r.current() == 0,
        forall|k: int| 0 <= k < 8 ==> (#[trigger] r.anims()[k]).total() > 0,
{
    proof {
        reveal_strlit("green");
        reveal_strlit("orange");
        assert("orange"@.len() != "green"@.len());
    }
    let color = if orange {
        "orange"
    } else {
        "green"
    };
    let mut anims: Vec<Animation> = Vec::new();
    let mut x: usize = 0;
    while x < 8
        invariant
            x <= 8,
            color@ == "orange"@ || color@ == "green"@,
            "orange"@ != "green"@,
            anims@.len() == x,
            forall|k: int| 0 <= k < x ==> (#[trigger] anims@[k]).wf() && anims@[k].total() > 0,
        decreases 8 - x,
    {
        let rects = match get_sprite_rects(x, color) {
            Ok(v) => v,
            Err(_) => Vec::new(),
        };
        let times: Vec<usize> = if x < 4 {
            vec![60]
        } else {
            vec![2, 2]
        };
        proof {
            assert(rects@.len() == times@.len());
            assert(sum_times(Seq::<usize>::empty()) == 0);
            if x < 4 {
                assert(times@.drop_last() =~= Seq::<usize>::empty());
                assert(sum_times(times@) == 60);
            } else {
                assert(times@.drop_last().drop_last() =~= Seq::<usize>::empty());
                assert(sum_times(times@.drop_last()) == 2);
                assert(sum_times(times@) == 4);
            }
        }
        let a = Animation::new(rects, times, frame_count, true);
        anims.push(a);
        x = x + 1;
    }
    let table = character_transitions();
    AnimationSM::new(anims, table, 0)
}

/// The player: green, at (100, 100), with 10 hit points.
pub fn player_entity(sprite_sheet: &Rc<Texture>, frame_count: usize) -> (r: Entity<Mobile>)
    ensures
        r.wf(),
        r.position == Vec2i(100, 100),
        r.collider == Mobile::player_spec(100, 100, 10),
        r.sprite.image == *sprite_sheet,
        r.sprite.animation_sm.wf(),
        r.sprite.animation_sm.anims().len() == 8,
{
    let pos = Vec2i(100, 100);
    let sprite = Sprite::new(sprite_sheet, character_sm(false, frame_count), pos);
    Entity::new(sprite, pos, Mobile::player(pos.0, pos.1, 10))
}

/// An enemy: orange, at `pos`, with 1 hit point.
pub fn enemy_entity(sprite_sheet: &Rc<Texture>, frame_count: usize, pos: Vec2i) -> (r: Entity<Mobile>)
    ensures
        r.wf(),
        r.position == pos,
        r.collider == Mobile::enemy_spec(pos.0, pos.1, 1),
        r.sprite.image == *sprite_sheet,
        r.sprite.animation_sm.wf(),
        r.sprite.animation_sm.anims().len() == 8,
{
    let sprite = Sprite::new(sprite_sheet, character_sm(true, frame_count), pos);
    Entity::new(sprite, pos, Mobile::enemy(pos.0, pos.1, 1))
}


/// Side of a rock, in pixels.
pub const ROCK_SZ: u16 = 16;

/// Side of a boulder, in pixels.
pub const BOULDER_SZ: u16 = 32;

/// Hit points of a rock.
pub const ROCK_HP: i32 = 16;

/// A one-frame looping animation of `rect`, held 60 ticks.
fn still(rect: Rect, frame_count: usize) -> (r: Animation)
    ensures
        r.wf(),
        r.total() == 60,
        r.rects() == seq![rect],
{
    let times: Vec<usize> = vec![60];
    proof {
        assert(times@.drop_last() =~= Seq::<usize>::empty());
        assert(sum_times(Seq::<usize>::empty()) == 0);
        assert(sum_times(times@) == 60);
    }
    let r = Animation::new(vec![rect], times, frame_count, true);
    assert(r.rects() =~= seq![rect]);
    r
}

/// The terrain of a rock at `pos`: destructible, 16 hit points.
pub open spec fn rock_terrain(pos: Vec2i, frame_count: usize) -> Terrain {
    Terrain {
        rect: Rect { x: pos.0, y: pos.1, w: 16, h: 16 },
        created_at: frame_count,
        destructible: true,
        hp: 16,
    }
}

/// The terrain of a boulder at `pos`: indestructible, 32 pixels.
pub open spec fn boulder_terrain(pos: Vec2i, frame_count: usize) -> Terrain {
    Terrain {
        rect: Rect { x: pos.0, y: pos.1, w: 32, h: 32 },
        created_at: frame_count,
        destructible: false,
        hp: 1,
    }
}

/// A rock at `pos`: it shows more cracks with each "hit" event.
pub fn rock_entity(sprite_sheet: &Rc<Texture>, frame_count: usize, pos: Vec2i) -> (r: Entity<Terrain>)
    ensures
        r.wf(),
        r.position == pos,
        r.collider == rock_terrain(pos, frame_count),
        r.sprite.image == *sprite_sheet,
        r.sprite.animation_sm.wf(),
        r.sprite.animation_sm.anims().len() == 4,
{
    let anims = vec![
        still(Rect { x: 368, y: 128, w: 16, h: 16 }, frame_count),
        still(Rect { x: 368, y: 144, w: 16, h: 16 }, frame_count),
        still(Rect { x: 368, y: 160, w: 16, h: 16 }, frame_count),
        still(Rect { x: 368, y: 176, w: 16, h: 16 }, frame_count),
    ];
    let table: Vec<(usize, usize, String)> = vec![
        (0, 1, "hit".to_owned()),
        (1, 2, "hit".to_owned()),
        (2, 3, "hit".to_owned()),
    ];
    let sm = AnimationSM::new(anims, table, 0);
    Entity::new(
        Sprite::new(sprite_sheet, sm, pos),
        pos,
        Terrain::new(Rect { x: pos.0, y: pos.1, w: ROCK_SZ, h: ROCK_SZ }, frame_count, true, ROCK_HP),
    )
}

/// A boulder at `pos`.
pub fn boulder_entity(sprite_sheet: &Rc<Texture>, frame_count: usize, pos: Vec2i) -> (r: Entity<
    Terrain,
>)
    ensures
        r.wf(),
        r.position == pos,
        r.collider == boulder_terrain(pos, frame_count),
        r.sprite.image == *sprite_sheet,
        r.sprite.animation_sm.wf(),
        r.sprite.animation_sm.anims().len() == 1,
{
    let anims = vec![still(Rect { x: 48, y: 320, w: 32, h: 32 }, frame_count)];
    let sm = AnimationSM::new(anims, Vec::new(), 0);
    Entity::new(
        Sprite::new(sprite_sheet, sm, pos),
        pos,
        Terrain::new(
            Rect { x: pos.0, y: pos.1, w: BOULDER_SZ, h: BOULDER_SZ },
            frame_count,
            false,
            1,
        ),
    )
}

} // verus!
