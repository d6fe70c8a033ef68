use arcade_core::assets::{
    get_font_letter, get_sprite_rects, get_tile_rect, glyph_layout, glyph_rect, level_tile_ids,
    level_walls, terrain_from_tiles,
};
use arcade_core::sprite::Texture;
use arcade_core::types::{Rect, Vec2i};
use std::rc::Rc;

#[test]
fn tile_rects_by_style_and_id() {
    assert_eq!(get_tile_rect(0, "snow"), Ok(Some(Rect { x: 640, y: 544, w: 16, h: 16 })));
    assert_eq!(get_tile_rect(12, "grass"), Ok(Some(Rect { x: 32, y: 40, w: 16, h: 16 })));
    assert_eq!(get_tile_rect(-1, "snow"), Ok(None));
    assert_eq!(get_tile_rect(13, "snow"), Err(1));
    assert_eq!(get_tile_rect(0, "lava"), Err(0));
    assert_eq!(get_tile_rect(99, "lava"), Err(0));
}

#[test]
fn sprite_rects_by_pose_and_colour() {
    assert_eq!(get_sprite_rects(0, "green"), Ok(vec![Rect { x: 47, y: 29, w: 24, h: 24 }]));
    assert_eq!(
        get_sprite_rects(5, "orange"),
        Ok(vec![Rect { x: 245, y: 95, w: 24, h: 24 }, Rect { x: 245, y: 96, w: 24, h: 24 }])
    );
    assert_eq!(get_sprite_rects(8, "green"), Err(1));
    assert_eq!(get_sprite_rects(0, "blue"), Err(0));
}

#[test]
fn font_letters() {
    assert_eq!(get_font_letter('a'), Some(Rect { x: 9, y: 5, w: 18, h: 18 }));
    assert_eq!(get_font_letter('c'), Some(Rect { x: 45, y: 5, w: 18, h: 18 }));
    assert_eq!(get_font_letter('B'), Some(Rect { x: 27, y: 23, w: 18, h: 18 }));
    assert_eq!(get_font_letter('3'), Some(Rect { x: 63, y: 41, w: 18, h: 18 }));
    assert_eq!(get_font_letter(' '), None);
    assert_eq!(get_font_letter('!'), None);
    assert_eq!(glyph_rect('x', false, false, false), None);
    assert_eq!(glyph_rect('b', true, false, false), Some(Rect { x: 27, y: 5, w: 18, h: 18 }));
}

#[test]
fn glyphs_laid_out_left_to_right() {
    let chars: Vec<char> = "Hi 2".chars().collect();
    let out = glyph_layout(&chars, Vec2i(20, 30), Vec2i(0, -100));
    assert_eq!(
        out,
        vec![
            (Rect { x: 7 * 18 + 9, y: 23, w: 18, h: 18 }, Vec2i(20, -70)),
            (Rect { x: 8 * 18 + 9, y: 5, w: 18, h: 18 }, Vec2i(38, -70)),
            (Rect { x: 2 * 18 + 9, y: 41, w: 18, h: 18 }, Vec2i(74, -70)),
        ]
    );
}

#[test]
fn level_map_dimensions() {
    let ids = level_tile_ids();
    assert_eq!(ids.len(), 1200);
    assert_eq!(ids.iter().filter(|&&t| t != -1).count(), 349);
}

#[test]
fn level_walls_lays_out_tiles() {
    let tex = Rc::new(Texture::new(1, 1, vec![0, 0, 0, 0]));
    let walls = level_walls(&tex, 7, Vec2i(640, 480));
    assert_eq!(walls.len(), 349);
    let first = &walls[0];
    assert_eq!(first.collider.rect, Rect { x: 0, y: 0, w: 16, h: 16 });
    assert!(!first.collider.destructible);
    assert_eq!(first.collider.hp, 1);
    assert_eq!(first.collider.created_at, 7);
    assert_eq!(walls.iter().filter(|w| w.collider.destructible).count(), 213);
    for w in walls.iter() {
        assert_eq!(w.position, w.sprite.position);
        assert_eq!((w.collider.rect.x, w.collider.rect.y), (w.position.0, w.position.1));
    }
}

#[test]
fn terrain_from_tiles_skips_empty() {
    let tex = Rc::new(Texture::new(1, 1, vec![0, 0, 0, 0]));
    let ids = [12, -1, 12, -1, -1, 12, 12, 12, 12];
    let t = terrain_from_tiles(&ids, &tex, 0, Vec2i(48, 48));
    assert_eq!(t.len(), 6);
    assert_eq!(t[1].collider.rect, Rect { x: 32, y: 0, w: 16, h: 16 });
    assert_eq!(t[2].collider.rect, Rect { x: 32, y: 16, w: 16, h: 16 });
    let destructible: Vec<bool> = t.iter().map(|e| e.collider.destructible).collect();
    assert_eq!(destructible, vec![false, false, false, false, false, false]);
    let ids = [-1, -1, -1, -1, -1, -1, -1, 12, -1, -1, -1, -1, -1, -1, -1, -1];
    let t = terrain_from_tiles(&ids, &tex, 0, Vec2i(64, 64));
    assert_eq!(t.len(), 1);
    assert_eq!(t[0].collider.rect, Rect { x: 48, y: 16, w: 16, h: 16 });
    assert!(!t[0].collider.destructible);
}
