use arcade_core::animation::{Animation, AnimationSM};
use arcade_core::assets::{boulder_entity, enemy_entity, player_entity, rock_entity};
use arcade_core::collision::{Mobile, Projectile, Terrain};
use arcade_core::entity::Entity;
use arcade_core::framebuffer::{clear, rect};
use arcade_core::game::{
    apply_controls, cleanup_terrain, generate_terrain, integrate, spawn_terrain, update_enemies,
    Controls,
};
use arcade_core::sprite::{Sprite, Texture};
use arcade_core::types::{Rect, Vec2i};
use std::rc::Rc;

fn sprite_at(pos: Vec2i) -> Sprite {
    let tex = Rc::new(Texture::new(1, 1, vec![0, 0, 0, 0]));
    let anim = Animation::new(vec![Rect { x: 0, y: 0, w: 1, h: 1 }], vec![60], 0, true);
    Sprite::new(&tex, AnimationSM::new(vec![anim], vec![], 0), pos)
}

fn mobile(x: i32, y: i32, player: bool) -> Entity<Mobile> {
    let m = if player { Mobile::player(x, y, 10) } else { Mobile::enemy(x, y, 1) };
    Entity::new(sprite_at(Vec2i(x, y)), Vec2i(x, y), m)
}

#[test]
fn enemy_steers_toward_player_with_friction() {
    let mut mobiles = vec![mobile(100, 100, true), mobile(0, 200, false)];
    update_enemies(&mut mobiles, &[]);
    assert_eq!((mobiles[1].collider.vx, mobiles[1].collider.vy), (60, -40));
    assert_eq!((mobiles[0].collider.vx, mobiles[0].collider.vy), (0, 0));
}

#[test]
fn enemy_pushed_away_from_near_terrain() {
    let mut mobiles = vec![mobile(100, 100, true), mobile(0, 200, false)];
    let t = Terrain::new(Rect { x: 10, y: 205, w: 16, h: 16 }, 0, true, 1);
    let terrains = vec![Entity::new(sprite_at(Vec2i(10, 205)), Vec2i(10, 205), t)];
    update_enemies(&mut mobiles, &terrains);
    assert_eq!((mobiles[1].collider.vx, mobiles[1].collider.vy), (-420, -40));
}

#[test]
fn integrate_moves_by_whole_pixels() {
    let mut mobiles = vec![mobile(10, 10, true)];
    mobiles[0].collider.vx = 2500;
    mobiles[0].collider.vy = -1999;
    let shooter = Mobile::player(0, 0, 1);
    let mut projs = vec![Projectile::new(&shooter, Vec2i(600, -800))];
    let (x0, y0) = (projs[0].rrect.x, projs[0].rrect.y);
    integrate(&mut mobiles, &mut projs);
    assert_eq!(mobiles[0].position, Vec2i(12, 9));
    assert_eq!((mobiles[0].collider.rect.x, mobiles[0].collider.rect.y), (12, 9));
    assert_eq!(mobiles[0].sprite.position, Vec2i(12, 9));
    assert_eq!((projs[0].rrect.x, projs[0].rrect.y), (x0 + 1200, y0 - 1600));
}

#[test]
fn controls_set_speed_and_aim() {
    let mut m = Mobile::player(0, 0, 10);
    let mut aim = Vec2i(5, 5);
    let c = Controls { right: true, left: true, down: true, aim_left: true, aim_down: true, ..Controls::default() };
    apply_controls(&mut m, &mut aim, &c);
    assert_eq!((m.vx, m.vy), (3000, 3000));
    assert_eq!(aim, Vec2i(4, 6));
    apply_controls(&mut m, &mut aim, &Controls::default());
    assert_eq!((m.vx, m.vy), (0, 0));
    assert_eq!(aim, Vec2i(4, 6));
    let c = Controls { left: true, up: true, aim_right: true, aim_up: true, aim_down: true, ..Controls::default() };
    apply_controls(&mut m, &mut aim, &c);
    assert_eq!((m.vx, m.vy), (-3000, -3000));
    assert_eq!(aim, Vec2i(5, 5));
}

#[test]
fn characters_are_built_aligned() {
    let tex = Rc::new(Texture::new(1, 1, vec![0, 0, 0, 0]));
    let mut p = player_entity(&tex, 3);
    assert!(Rc::ptr_eq(&p.sprite.image, &tex));
    assert_eq!(Rc::strong_count(&tex), 2);
    assert!(p.collider.is_player);
    assert_eq!(p.collider.hp, 10);
    assert_eq!(p.position, Vec2i(100, 100));
    assert_eq!(p.sprite.animation_sm.current_anim(3).current_frame(3), Rect { x: 47, y: 29, w: 24, h: 24 });
    p.sprite.animation_sm.input("right", 4);
    p.sprite.animation_sm.input("move", 4);
    assert_eq!(p.sprite.animation_sm.current_anim(6).current_frame(6), Rect { x: 245, y: 30, w: 24, h: 24 });
    let mut e = enemy_entity(&tex, 0, Vec2i(7, 9));
    assert!(!e.collider.is_player);
    assert_eq!(e.collider.hp, 1);
    assert_eq!((e.collider.rect.x, e.collider.rect.y), (7, 9));
    assert_eq!(e.sprite.animation_sm.current_anim(0).current_frame(0), Rect { x: 47, y: 95, w: 24, h: 24 });
}

#[test]
fn clear_paints_whole_pixels_only() {
    let mut fb = vec![9u8; 10];
    clear(&mut fb, [1, 2, 3, 4]);
    assert_eq!(fb, vec![1, 2, 3, 4, 1, 2, 3, 4, 9, 9]);
}

#[test]
fn rect_paints_clipped_box() {
    let mut fb = vec![0u8; 512 * 480 * 4];
    rect(&mut fb, Rect { x: 1, y: 2, w: 2, h: 1 }, [7, 8, 9, 10]);
    let at = |x: usize, y: usize, fb: &Vec<u8>| fb[(y * 512 + x) * 4..(y * 512 + x) * 4 + 4].to_vec();
    assert_eq!(at(1, 2, &fb), vec![7, 8, 9, 10]);
    assert_eq!(at(2, 2, &fb), vec![7, 8, 9, 10]);
    assert_eq!(at(0, 2, &fb), vec![0, 0, 0, 0]);
    assert_eq!(at(3, 2, &fb), vec![0, 0, 0, 0]);
    assert_eq!(at(1, 3, &fb), vec![0, 0, 0, 0]);
    assert_eq!(fb.iter().filter(|&&b| b != 0).count(), 8);
    let mut fb = vec![0u8; 512 * 480 * 4];
    rect(&mut fb, Rect { x: 510, y: 479, w: 10, h: 10 }, [1, 1, 1, 1]);
    assert_eq!(fb.iter().filter(|&&b| b != 0).count(), 8);
    assert_eq!(at(511, 479, &fb), vec![1, 1, 1, 1]);
}

#[test]
fn scattered_rocks_where_draws_are_zero() {
    let tex = Rc::new(Texture::new(1, 1, vec![0, 0, 0, 0]));
    let mut terrains = vec![];
    let mut draws = vec![5u8; 24];
    draws[0] = 0;
    draws[7] = 0;
    generate_terrain(&mut terrains, &tex, 9, 100, 64, 0, &draws, 0);
    let rects: Vec<Rect> = terrains.iter().map(|t| t.collider.rect).collect();
    assert_eq!(rects, vec![Rect { x: 0, y: 84, w: 16, h: 16 }, Rect { x: 16, y: 68, w: 16, h: 16 }]);
    assert!(terrains.iter().all(|t| t.collider.destructible && t.collider.hp == 16 && t.collider.created_at == 9));
}

#[test]
fn rock_wall_from_seed() {
    let tex = Rc::new(Texture::new(1, 1, vec![0, 0, 0, 0]));
    let mut terrains = vec![];
    generate_terrain(&mut terrains, &tex, 0, 100, 96, 1, &[], 7);
    let got: Vec<(Rect, bool)> = terrains.iter().map(|t| (t.collider.rect, t.collider.destructible)).collect();
    assert_eq!(
        got,
        vec![
            (Rect { x: 0, y: 68, w: 32, h: 32 }, false),
            (Rect { x: 32, y: 68, w: 32, h: 32 }, false),
            (Rect { x: 64, y: 84, w: 16, h: 16 }, true),
            (Rect { x: 80, y: 84, w: 16, h: 16 }, true),
        ]
    );
    let before = terrains.len();
    generate_terrain(&mut terrains, &tex, 0, 100, 96, 2, &[], 7);
    assert_eq!(terrains.len(), before);
}

#[test]
fn cleanup_keeps_visible_and_recent_terrain() {
    let t = |x: i32, created: usize| {
        let terrain = Terrain::new(Rect { x, y: x, w: 16, h: 16 }, created, true, 1);
        Entity::new(sprite_at(Vec2i(x, x)), Vec2i(x, x), terrain)
    };
    let mut terrains = vec![t(10, 0), t(500, 0), t(600, 950), t(700, 2000)];
    cleanup_terrain(&mut terrains, 1000, Rect { x: 0, y: 0, w: 100, h: 100 });
    let xs: Vec<i32> = terrains.iter().map(|e| e.collider.rect.x).collect();
    assert_eq!(xs, vec![10, 600, 700]);
}

#[test]
fn rock_cracks_on_hits() {
    let tex = Rc::new(Texture::new(1, 1, vec![0, 0, 0, 0]));
    let mut rock = rock_entity(&tex, 0, Vec2i(3, 4));
    assert_eq!(rock.collider.rect, Rect { x: 3, y: 4, w: 16, h: 16 });
    assert_eq!(rock.sprite.animation_sm.current_anim(0).current_frame(0), Rect { x: 368, y: 128, w: 16, h: 16 });
    rock.sprite.animation_sm.input("hit", 1);
    rock.sprite.animation_sm.input("hit", 1);
    assert_eq!(rock.sprite.animation_sm.current_anim(1).current_frame(1), Rect { x: 368, y: 160, w: 16, h: 16 });
    let boulder = boulder_entity(&tex, 0, Vec2i(0, 0));
    assert_eq!(boulder.collider.rect, Rect { x: 0, y: 0, w: 32, h: 32 });
    assert!(!boulder.collider.destructible);
}

#[test]
fn spawned_terrain_follows_the_layouts() {
    let tex = Rc::new(Texture::new(1, 1, vec![0, 0, 0, 0]));
    let mut scatter = vec![];
    spawn_terrain(&mut scatter, &tex, 0, 0, 640, 0);
    // 240 cells, each holding a rock with chance 1/6.
    assert!(!scatter.is_empty() && scatter.len() < 240);
    for t in scatter.iter() {
        let r = t.collider.rect;
        assert!(r.x % 16 == 0 && (0..640).contains(&r.x));
        assert!((-96..=-16).contains(&r.y) && r.y % 16 == 0);
        assert!(t.collider.destructible);
    }
    let mut wall = vec![];
    spawn_terrain(&mut wall, &tex, 0, 0, 640, 1);
    let covered: i32 = wall.iter().map(|t| t.collider.rect.w as i32).sum();
    assert_eq!(covered, 640);
}
