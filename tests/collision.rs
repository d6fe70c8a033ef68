use arcade_core::animation::{Animation, AnimationSM};
use arcade_core::collision::{
    check_rotated_collision, directed_rect_disp, gather_contacts, handle_contact,
    rect_displacement, rects_collide, separating_axis, ColliderID, Contact, Mobile, Projectile,
    Terrain, Wall, PROJ_MAX_BOUNCES,
};
use arcade_core::entity::Entity;
use arcade_core::sprite::{Sprite, Texture};
use arcade_core::types::{Rect, RotatedRect, Vec2i};
use std::rc::Rc;

fn sprite_at(pos: Vec2i) -> Sprite {
    let tex = Rc::new(Texture::new(1, 1, vec![0, 0, 0, 0]));
    let anim = Animation::new(vec![Rect { x: 0, y: 0, w: 1, h: 1 }], vec![60], 0, true);
    Sprite::new(&tex, AnimationSM::new(vec![anim], vec![], 0), pos)
}

fn mobile(x: i32, y: i32, hp: i32, player: bool) -> Entity<Mobile> {
    let m = if player { Mobile::player(x, y, hp) } else { Mobile::enemy(x, y, hp) };
    Entity::new(sprite_at(Vec2i(x, y)), Vec2i(x, y), m)
}

fn terrain(x: i32, y: i32, w: u16, h: u16, destructible: bool, hp: i32) -> Entity<Terrain> {
    Entity::new(
        sprite_at(Vec2i(x, y)),
        Vec2i(x, y),
        Terrain::new(Rect { x, y, w, h }, 0, destructible, hp),
    )
}

fn axis_projectile(cx: i32, cy: i32) -> Projectile {
    let shooter = Mobile::player(0, 0, 1);
    let mut p = Projectile::new(&shooter, Vec2i(1000, 0));
    p.set_pos(cx, cy);
    p
}

fn pm(a: usize, b: usize) -> Contact {
    Contact { a: ColliderID::Projectile(a), b: ColliderID::Mobile(b), mtv: (0, 0) }
}

fn pt(a: usize, b: usize) -> Contact {
    Contact { a: ColliderID::Projectile(a), b: ColliderID::Terrain(b), mtv: (0, 0) }
}

#[test]
fn separating_axis_touching_is_separated() {
    assert!(separating_axis(0, 10, 10, 20));
    assert!(separating_axis(10, 20, 0, 10));
    assert!(!separating_axis(0, 11, 10, 20));
}

#[test]
fn touching_rects_do_not_overlap() {
    let a = Rect { x: 0, y: 0, w: 10, h: 10 };
    let right = Rect { x: 10, y: 0, w: 10, h: 10 };
    let below = Rect { x: 0, y: 10, w: 10, h: 10 };
    let inner = Rect { x: 9, y: 9, w: 10, h: 10 };
    let apart_on_y = Rect { x: 5, y: 30, w: 10, h: 10 };
    assert!(!rects_collide(&a, &right));
    assert!(!rects_collide(&a, &below));
    assert!(rects_collide(&a, &inner));
    assert!(!rects_collide(&a, &apart_on_y));
}

#[test]
fn rect_displacement_picks_smaller_overlap() {
    let a = Rect { x: 0, y: 0, w: 10, h: 10 };
    assert_eq!(rect_displacement(a, Rect { x: 8, y: 5, w: 10, h: 10 }), Some((2, 0)));
    assert_eq!(rect_displacement(a, Rect { x: 2, y: 7, w: 10, h: 10 }), Some((0, 3)));
    assert_eq!(rect_displacement(a, Rect { x: 10, y: 0, w: 10, h: 10 }), None);
}

#[test]
fn directed_disp_pushes_out_the_short_way() {
    // Mobile overlapping the left edge of the terrain by 3: pushed left by 3.
    let m = Rect { x: 0, y: 10, w: 10, h: 10 };
    let t = Rect { x: 7, y: 0, w: 40, h: 40 };
    assert_eq!(directed_rect_disp(m, t), (-3, 0));
    // Overlapping the top by 2: pushed up.
    let m = Rect { x: 10, y: 0, w: 10, h: 10 };
    let t = Rect { x: 0, y: 8, w: 40, h: 40 };
    assert_eq!(directed_rect_disp(m, t), (0, -2));
    // Equal on both axes: both.
    let m = Rect { x: 0, y: 0, w: 10, h: 10 };
    let t = Rect { x: 8, y: 8, w: 40, h: 40 };
    assert_eq!(directed_rect_disp(m, t), (-2, -2));
}

#[test]
fn rotated_collision_is_symmetric() {
    let a = RotatedRect { x: 10_000, y: 10_000, w: 14, h: 7, dir: Vec2i(707, 707) };
    let near = Rect { x: 12, y: 8, w: 16, h: 16 }.to_rotated();
    let far = Rect { x: 40, y: 40, w: 16, h: 16 }.to_rotated();
    assert!(check_rotated_collision(&a, &near));
    assert!(check_rotated_collision(&near, &a));
    assert!(!check_rotated_collision(&a, &far));
    assert!(!check_rotated_collision(&far, &a));
}

#[test]
fn rotated_collision_uses_true_edge_normals() {
    // A thin box along the diagonal, beside a square off that diagonal: the
    // bounding boxes overlap but the shapes do not.
    let diag = RotatedRect { x: 50_000, y: 50_000, w: 60, h: 2, dir: Vec2i(707, 707) };
    let square = Rect { x: 60, y: 30, w: 8, h: 8 }.to_rotated();
    assert!(!check_rotated_collision(&diag, &square));
    assert!(!check_rotated_collision(&square, &diag));
}

#[test]
fn projectile_new_spawns_ahead_of_mobile() {
    let m = Mobile::player(100, 200, 10);
    let p = Projectile::new(&m, Vec2i(0, 1000));
    assert_eq!(p.rrect.x, 112 * 1000);
    assert_eq!(p.rrect.y, 212 * 1000 + 30_000);
    assert_eq!((p.rrect.w, p.rrect.h), (14, 7));
    assert_eq!(p.get_velocity(), (0, 2000));
    assert_eq!(p.hp, PROJ_MAX_BOUNCES);
}

#[test]
fn set_rotation_updates_velocity_and_steps() {
    let mut p = axis_projectile(10, 10);
    p.set_rotation(Vec2i(-1000, 0));
    assert_eq!(p.get_velocity(), (-2000, 0));
    assert_eq!(p.rrect.x, 8000);
    assert_eq!(p.rrect.y, 10000);
}

#[test]
fn entity_keeps_positions_aligned() {
    let m = Mobile::enemy(0, 0, 1);
    let mut e = Entity::new(sprite_at(Vec2i(5, 5)), Vec2i(30, 40), m);
    assert_eq!(e.sprite.position, Vec2i(30, 40));
    assert_eq!((e.collider.rect.x, e.collider.rect.y), (30, 40));
    e.move_pos(-3, 4);
    assert_eq!(e.position, Vec2i(27, 44));
    assert_eq!(e.sprite.position, Vec2i(27, 44));
    assert_eq!((e.collider.rect.x, e.collider.rect.y), (27, 44));
}

#[test]
fn gather_contacts_in_category_order() {
    let mobiles = vec![mobile(0, 0, 10, true), mobile(10, 10, 1, false), mobile(200, 200, 1, false)];
    let terrains = vec![terrain(30, 30, 16, 16, true, 1)];
    let walls = vec![Wall::new(Rect { x: -64, y: -64, w: 64, h: 400 })];
    let projs = vec![axis_projectile(215, 212)];
    let mut contacts = vec![];
    gather_contacts(&terrains, &mobiles, &walls, &projs, &mut contacts);
    let kinds: Vec<(ColliderID, ColliderID)> = contacts.iter().map(|c| (c.a, c.b)).collect();
    assert_eq!(
        kinds,
        vec![
            (ColliderID::Mobile(0), ColliderID::Mobile(1)),
            (ColliderID::Mobile(1), ColliderID::Terrain(0)),
            (ColliderID::Projectile(0), ColliderID::Mobile(2)),
        ]
    );
    // Mobile 1 spans 10..34 on both axes and the terrain 30..46: pushed up and
    // left by 4 (a tie between the axes).
    assert_eq!(contacts[1].mtv, (-4, -4));
}

#[test]
fn projectile_hit_damages_mobile_and_is_spent() {
    let mut terrains: Vec<Entity<Terrain>> = vec![];
    let mut mobiles = vec![mobile(0, 0, 100, true), mobile(50, 50, 10, false)];
    let mut projs = vec![axis_projectile(60, 60)];
    assert_eq!(projs[0].hp, 4);
    let r = handle_contact(&mut terrains, &mut mobiles, &mut projs, &[pm(0, 1)]);
    assert_eq!(r, (true, 0));
    assert_eq!(mobiles[1].collider.hp, 6);
    assert!(projs.is_empty());
}

#[test]
fn projectile_hit_floors_mobile_hp_at_zero() {
    let mut terrains: Vec<Entity<Terrain>> = vec![];
    let mut mobiles = vec![mobile(0, 0, 100, true), mobile(50, 50, 3, false)];
    let mut projs = vec![axis_projectile(60, 60)];
    let r = handle_contact(&mut terrains, &mut mobiles, &mut projs, &[pm(0, 1)]);
    assert_eq!(r, (true, 1));
    assert_eq!(mobiles.len(), 1);
}

#[test]
fn destructible_terrain_breaks_after_three_single_corner_hits() {
    let mut terrains = vec![terrain(100, 100, 16, 16, true, 3)];
    let mut mobiles = vec![mobile(0, 0, 10, true)];
    // Axis-aligned projectile centred at (95, 98): only its lower right corner
    // (102, 101.5) lies in the terrain.
    let mut projs = vec![axis_projectile(95, 98)];
    let corners = projs[0].rrect.corners();
    let inside = corners.iter().filter(|c| terrains[0].collider.rect.contains_fixed(c)).count();
    assert_eq!(inside, 1);
    for hit in 1..=3 {
        projs[0].set_pos(95, 98);
        let r = handle_contact(&mut terrains, &mut mobiles, &mut projs, &[pt(0, 0)]);
        assert_eq!(r, (true, 0));
        assert_eq!(projs.len(), 1);
        assert_eq!(projs[0].hp, 4 - hit);
        if hit < 3 {
            assert_eq!(terrains[0].collider.hp, 3 - hit);
        }
    }
    assert!(terrains.is_empty());
    // Each bounce reversed the projectile along x: three of them.
    assert_eq!(projs[0].get_velocity(), (-2000, 0));
    // One more hit on fresh terrain spends the projectile.
    let mut more = vec![terrain(100, 100, 16, 16, false, 1)];
    projs[0].set_pos(95, 98);
    handle_contact(&mut more, &mut mobiles, &mut projs, &[pt(0, 0)]);
    assert!(projs.is_empty());
    assert_eq!(more.len(), 1);
    assert_eq!(more[0].collider.hp, 1);
}

#[test]
fn player_death_is_reported_and_player_kept() {
    let mut terrains: Vec<Entity<Terrain>> = vec![];
    let mut mobiles = vec![
        mobile(0, 0, 3, true),
        mobile(50, 0, 1, false),
        mobile(100, 0, 5, false),
        mobile(150, 0, 2, false),
    ];
    let mut projs = vec![
        axis_projectile(0, 0),
        axis_projectile(50, 0),
        axis_projectile(100, 0),
        axis_projectile(150, 0),
    ];
    projs[2].hp = 2;
    let contacts = [pm(0, 0), pm(1, 1), pm(2, 2), pm(3, 3)];
    let r = handle_contact(&mut terrains, &mut mobiles, &mut projs, &contacts);
    assert_eq!(r, (false, 2));
    assert_eq!(mobiles.len(), 2);
    assert!(mobiles[0].collider.is_player);
    assert_eq!(mobiles[0].collider.hp, 0);
    assert_eq!(mobiles[1].collider.hp, 3);
    assert!(projs.is_empty());
}

#[test]
fn restitution_inside_terrain_pushes_out_and_stops_one_axis() {
    let mut terrains = vec![terrain(0, 0, 100, 100, false, 1)];
    let mut mobiles = vec![mobile(10, 40, 10, true)];
    mobiles[0].collider.vx = 500;
    mobiles[0].collider.vy = -700;
    let mtv = directed_rect_disp(mobiles[0].collider.rect, terrains[0].collider.rect);
    // Left edge is 10 away, right 90, top 40, bottom 60: out through the left.
    assert_eq!(mtv, (-34, 0));
    let c = Contact { a: ColliderID::Mobile(0), b: ColliderID::Terrain(0), mtv };
    let mut projs: Vec<Projectile> = vec![];
    handle_contact(&mut terrains, &mut mobiles, &mut projs, &[c]);
    assert_eq!(mobiles[0].position, Vec2i(-24, 40));
    assert_eq!(mobiles[0].sprite.position, Vec2i(-24, 40));
    assert_eq!(mobiles[0].collider.rect.x, -24);
    assert_eq!(mobiles[0].collider.vx, 0);
    assert_eq!(mobiles[0].collider.vy, -700);
}

#[test]
fn restitution_applies_larger_corrections_first_and_all_of_them() {
    let mut terrains = vec![terrain(0, 0, 16, 16, false, 1), terrain(40, 0, 16, 16, false, 1)];
    let mut mobiles = vec![mobile(0, 0, 10, true)];
    let contacts = [
        Contact { a: ColliderID::Mobile(0), b: ColliderID::Terrain(0), mtv: (0, 2) },
        Contact { a: ColliderID::Mobile(0), b: ColliderID::Terrain(1), mtv: (5, 0) },
    ];
    let mut projs: Vec<Projectile> = vec![];
    handle_contact(&mut terrains, &mut mobiles, &mut projs, &contacts);
    assert_eq!(mobiles[0].position, Vec2i(5, 2));
    assert_eq!((mobiles[0].collider.vx, mobiles[0].collider.vy), (0, 0));
}

#[test]
fn wall_contacts_cause_no_damage() {
    let mut terrains: Vec<Entity<Terrain>> = vec![];
    let mut mobiles = vec![mobile(0, 0, 10, true)];
    let mut projs: Vec<Projectile> = vec![];
    let c = Contact { a: ColliderID::Mobile(0), b: ColliderID::Wall(0), mtv: (3, 0) };
    let r = handle_contact(&mut terrains, &mut mobiles, &mut projs, &[c]);
    assert_eq!(r, (true, 0));
    assert_eq!(mobiles[0].position, Vec2i(0, 0));
    assert_eq!(mobiles[0].collider.hp, 10);
}

#[test]
fn gather_contacts_wall_and_projectile_terrain() {
    let mobiles = vec![mobile(-10, 100, 10, true)];
    let terrains = vec![terrain(200, 200, 16, 16, true, 1)];
    let walls = vec![Wall::new(Rect { x: -64, y: -64, w: 64, h: 400 })];
    // Lower right corner (202, 201.5) inside the terrain.
    let projs = vec![axis_projectile(195, 198)];
    let mut contacts = vec![];
    gather_contacts(&terrains, &mobiles, &walls, &projs, &mut contacts);
    assert_eq!(
        contacts,
        vec![
            Contact { a: ColliderID::Mobile(0), b: ColliderID::Wall(0), mtv: (10, 0) },
            Contact { a: ColliderID::Projectile(0), b: ColliderID::Terrain(0), mtv: (0, 0) },
        ]
    );
}
