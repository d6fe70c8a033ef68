use crate::assets::{boulder_entity, boulder_terrain, rock_entity, rock_terrain};
use crate::collision::{all_wf, rects_collide, rects_overlap, Mobile, Projectile, Terrain};
use crate::entity::Entity;
use crate::sprite::Texture;
use crate::types::{abs, Rect, Vec2i};
use rand::Rng;
use std::rc::Rc;
use vstd::prelude::*;

verus! {

/// Distance in pixels, on both axes, within which terrain pushes enemies away.
pub const REPEL_RANGE: i64 = 50;

/// Speed, in thousandths of a pixel per tick, that a held direction key gives
/// the player.
pub const PLAYER_SPEED: i32 = 3000;

/// `v` clamped into `[lo, hi]`.
pub open spec fn clamp(v: int, lo: int, hi: int) -> int {
    if v < lo {
        lo
    } else if v > hi {
        hi
    } else {
        v
    }
}

/// `v` clamped into the range of `i32`.
pub open spec fn clamp32(v: int) -> int {
    clamp(v, i32::MIN as int, i32::MAX as int)
}

/// `a / b` rounded toward zero.
pub open spec fn div_trunc(a: int, b: int) -> int {
    if (a >= 0) == (b >= 0) {
        abs(a) / abs(b)
    } else {
        -(abs(a) / abs(b))
    }
}

/// Push of terrain at `t` on an enemy at `e` with velocity `v` (thousandths of a
/// pixel per tick): when the terrain is within range on both axes, the velocity
/// on the axis of the larger distance (y on a tie) loses 5000 divided by that
/// distance. A block at the enemy's own position pushes nothing.
pub open spec fn repel(v: (int, int), e: Vec2i, t: Vec2i) -> (int, int) {
    let dx = t.0 - e.0;
    let dy = t.1 - e.1;
    if abs(dx) < REPEL_RANGE && abs(dy) < REPEL_RANGE && (dx != 0 || dy != 0) {
        if abs(dx) > abs(dy) {
            (clamp32(v.0 - div_trunc(5000, dx)), v.1)
        } else {
            (v.0, clamp32(v.1 - div_trunc(5000, dy)))
        }
    } else {
        v
    }
}

/// Velocity after the pushes of the first `n` terrain blocks.
pub open spec fn repelled(v: (int, int), e: Vec2i, ts: Seq<Entity<Terrain>>, n: int) -> (int, int)
    decreases n,
{
    if n <= 0 {
        v
    } else {
        repel(repelled(v, e, ts, n - 1), e, ts[n - 1].position)
    }
}

/// Enemy velocity after one tick of steering: pushed away from nearby terrain,
/// drawn across toward the player (at most 70 per tick), drawn up or down toward
/// the player's row (30 per tick, up to 5000), then slowed by friction (10 per
/// tick, toward rest across and toward 1000 upward along y).
pub open spec fn steered(v: (int, int), e: Vec2i, player: Vec2i, ts: Seq<Entity<Terrain>>) -> (int, int) {
    let r = repelled(v, e, ts, ts.len() as int);
    let vx1 = clamp32(r.0 + clamp(20 * (player.0 - e.0), -70, 70));
    let dy = player.1 - e.1;
    let vy1 = if dy < 0 {
        clamp(r.1 - 30, -5000, i32::MAX as int)
    } else if dy > 0 {
        clamp(r.1 + 30, i32::MIN as int, 5000)
    } else {
        r.1
    };
    let vx2 = if vx1 > 0 {
        clamp(vx1 - 10, 0, i32::MAX as int)
    } else if vx1 < 0 {
        clamp(vx1 + 10, i32::MIN as int, 0)
    } else {
        vx1
    };
    let vy2 = if vy1 > -1000 {
        clamp(vy1 - 10, -1000, i32::MAX as int)
    } else if vy1 < -1000 {
        clamp(vy1 + 10, i32::MIN as int, -1000)
    } else {
        vy1
    };
    (vx2, vy2)
}

/// Mobile `m` with velocity `v`.
pub open spec fn with_velocity(m: Entity<Mobile>, v: (int, int)) -> Entity<Mobile> {
    m.with_collider(Mobile { vx: v.0 as i32, vy: v.1 as i32, ..m.collider })
}

fn clamp_i64(v: i64, lo: i64, hi: i64) -> (r: i64)
    requires
        lo <= hi,
    ensures
        r == clamp(v as int, lo as int, hi as int),
{
    if v < lo {
        lo
    } else if v > hi {
        hi
    } else {
        v
    }
}

fn abs_i64(v: i64) -> (r: i64)
    requires
        v > i64::MIN,
    ensures
        r == abs(v as int),
{
    if v < 0 {
        -v
    } else {
        v
    }
}

fn repel_exec(v: (i32, i32), e: Vec2i, t: Vec2i) -> (r: (i32, i32))
    ensures
        (r.0 as int, r.1 as int) == repel((v.0 as int, v.1 as int), e, t),
{
    let dx = t.0 as i64 - e.0 as i64;
    let dy = t.1 as i64 - e.1 as i64;
    let adx = abs_i64(dx);
    let ady = abs_i64(dy);
    if adx < REPEL_RANGE && ady < REPEL_RANGE && (dx != 0 || dy != 0) {
        if adx > ady {
            let q = 5000 / adx;
            let nv = if dx > 0 {
                v.0 as i64 - q
            } else {
                v.0 as i64 + q
            };
            (clamp_i64(nv, i32::MIN as i64, i32::MAX as i64) as i32, v.1)
        } else {
            let q = 5000 / ady;
            let nv = if dy > 0 {
                v.1 as i64 - q
            } else {
                v.1 as i64 + q
            };
            (v.0, clamp_i64(nv, i32::MIN as i64, i32::MAX as i64) as i32)
        }
    } else {
        v
    }
}

/// One tick of enemy steering: every mobile but the player (index 0) gets the
/// velocity `steered` gives from its position, the player's and the terrain's.
pub fn update_enemies(mobiles: &mut Vec<Entity<Mobile>>, terrains: &[Entity<Terrain>])
    requires
        old(mobiles)@.len() > 0,
    ensures
        final(mobiles)@.len() == old(mobiles)@.len(),
        final(mobiles)@[0] == old(mobiles)@[0],
        forall|i: int|
            1 <= i < old(mobiles)@.len() ==> #[trigger] final(mobiles)@[i] == with_velocity(
                old(mobiles)@[i],
                steered(
                    (old(mobiles)@[i].collider.vx as int, old(mobiles)@[i].collider.vy as int),
                    old(mobiles)@[i].position,
                    old(mobiles)@[0].position,
                    terrains@,
                ),
            ),
{
    let ghost start = mobiles@;
    let player_pos = mobiles[0].position;
    let mut i: usize = 1;
    while i < mobiles.len()
        invariant
            1 <= i <= mobiles@.len(),
            mobiles@.len() == start.len(),
            player_pos == start[0].position,
            mobiles@[0] == start[0],
            forall|k: int| i <= k < start.len() ==> #[trigger] mobiles@[k] == start[k],
            forall|k: int|
                1 <= k < i ==> #[trigger] mobiles@[k] == with_velocity(
                    start[k],
                    steered(
                        (start[k].collider.vx as int, start[k].collider.vy as int),
                        start[k].position,
                        start[0].position,
                        terrains@,
                    ),
                ),
        decreases start.len() - i,
    {
        let pos = mobiles[i].position;
        let mut v = (mobiles[i].collider.vx, mobiles[i].collider.vy);
        let ghost v0 = (v.0 as int, v.1 as int);
        let mut k: usize = 0;
        while k < terrains.len()
            invariant
                k <= terrains@.len(),
                (v.0 as int, v.1 as int) == repelled(v0, pos, terrains@, k as int),
            decreases terrains@.len() - k,
        {
            v = repel_exec(v, pos, terrains[k].position);
            k = k + 1;
        }
        let ax = clamp_i64(20 * (player_pos.0 as i64 - pos.0 as i64), -70, 70);
        let vx1 = clamp_i64(v.0 as i64 + ax, i32::MIN as i64, i32::MAX as i64);
        let dy = player_pos.1 as i64 - pos.1 as i64;
        let vy1 = if dy < 0 {
            clamp_i64(v.1 as i64 - 30, -5000, i32::MAX as i64)
        } else if dy > 0 {
            clamp_i64(v.1 as i64 + 30, i32::MIN as i64, 5000)
        } else {
            v.1 as i64
        };
        let vx2 = if vx1 > 0 {
            clamp_i64(vx1 - 10, 0, i32::MAX as i64)
        } else if vx1 < 0 {
            clamp_i64(vx1 + 10, i32::MIN as i64, 0)
        } else {
            vx1
        };
        let vy2 = if vy1 > -1000 {
            clamp_i64(vy1 - 10, -1000, i32::MAX as i64)
        } else if vy1 < -1000 {
            clamp_i64(vy1 + 10, i32::MIN as i64, -1000)
        } else {
            vy1
        };
        mobiles[i].collider.vx = vx2 as i32;
        mobiles[i].collider.vy = vy2 as i32;
        i = i + 1;
    }
}

/// Whole pixels covered by a velocity in thousandths of a pixel, rounded toward
/// zero.
pub open spec fn whole_pixels(v: int) -> int {
    div_trunc(v, 1000)
}

/// Mobile `m` advanced by one tick of its velocity, unless that would carry it
/// out of the coordinate range.
pub open spec fn advanced(m: Entity<Mobile>) -> Entity<Mobile> {
    let dx = whole_pixels(m.collider.vx as int);
    let dy = whole_pixels(m.collider.vy as int);
    if m.can_move(dx, dy) {
        m.shifted(dx, dy)
    } else {
        m
    }
}

fn whole_pixels_exec(v: i32) -> (r: i32)
    ensures
        r == whole_pixels(v as int),
        -2_147_484 <= r <= 2_147_484,
{
    let a = if v < 0 {
        -(v as i64)
    } else {
        v as i64
    };
    let q = a / 1000;
    if v >= 0 {
        q as i32
    } else {
        -(q as i32)
    }
}

/// Position integration: every mobile moves by its velocity (whole pixels),
/// every projectile by one tick of its own.
pub fn integrate(mobiles: &mut Vec<Entity<Mobile>>, projs: &mut Vec<Projectile>)
    requires
        all_wf(old(mobiles)@),
    ensures
        all_wf(final(mobiles)@),
        final(mobiles)@.len() == old(mobiles)@.len(),
        forall|i: int| 0 <= i < old(mobiles)@.len() ==> #[trigger] final(mobiles)@[i] == advanced(old(mobiles)@[i]),
        final(projs)@.len() == old(projs)@.len(),
        forall|i: int| 0 <= i < old(projs)@.len() ==> #[trigger] final(projs)@[i] == old(projs)@[i].stepped(),
{
    let ghost ms = mobiles@;
    let mut i: usize = 0;
    while i < mobiles.len()
        invariant
            i <= mobiles@.len(),
            mobiles@.len() == ms.len(),
            all_wf(mobiles@),
            forall|k: int| i <= k < ms.len() ==> #[trigger] mobiles@[k] == ms[k],
            forall|k: int| 0 <= k < i ==> #[trigger] mobiles@[k] == advanced(ms[k]),
        decreases ms.len() - i,
    {
        let dx = whole_pixels_exec(mobiles[i].collider.vx);
        let dy = whole_pixels_exec(mobiles[i].collider.vy);
        let px = mobiles[i].position.0 as i64 + dx as i64;
        let py = mobiles[i].position.1 as i64 + dy as i64;
        if i32::MIN as i64 <= px && px <= i32::MAX as i64 && i32::MIN as i64 <= py && py
            <= i32::MAX as i64 {
            mobiles[i].move_pos(dx, dy);
        }
        i = i + 1;
    }
    let ghost ps = projs@;
    let mut j: usize = 0;
    while j < projs.len()
        invariant
            j <= projs@.len(),
            projs@.len() == ps.len(),
            forall|k: int| j <= k < ps.len() ==> #[trigger] projs@[k] == ps[k],
            forall|k: int| 0 <= k < j ==> #[trigger] projs@[k] == ps[k].stepped(),
        decreases ps.len() - j,
    {
        projs[j].update_pos();
        j = j + 1;
    }
}

/// Keys held during a tick.
#[derive(Clone, Copy, Debug, Default)]
pub struct Controls {
    pub right: bool,
    pub left: bool,
    pub up: bool,
    pub down: bool,
    pub aim_left: bool,
    pub aim_right: bool,
    pub aim_up: bool,
    pub aim_down: bool,
}

/// `v + 1` or `v - 1` by the pair of keys (the first wins), staying in range.
pub open spec fn nudged(v: i32, minus: bool, plus: bool) -> i32 {
    if minus && v > i32::MIN {
        (v - 1) as i32
    } else if !minus && plus && v < i32::MAX {
        (v + 1) as i32
    } else {
        v
    }
}

fn nudge(v: i32, minus: bool, plus: bool) -> (r: i32)
    ensures
        r == nudged(v, minus, plus),
{
    if minus {
        if v > i32::MIN {
            v - 1
        } else {
            v
        }
    } else if plus {
        if v < i32::MAX {
            v + 1
        } else {
            v
        }
    } else {
        v
    }
}

/// The player's controls: right or left (right wins) sets the horizontal speed,
/// up or down (up wins) the vertical one, and with neither key of a pair held the
/// player stops on that axis; the aim keys move the aim by one pixel per tick
/// (left and up win).
pub fn apply_controls(player: &mut Mobile, aim: &mut Vec2i, controls: &Controls)
    ensures
        final(player).vx == if controls.right {
            PLAYER_SPEED as int
        } else if controls.left {
            -PLAYER_SPEED as int
        } else {
            0
        },
        final(player).vy == if controls.up {
            -PLAYER_SPEED as int
        } else if controls.down {
            PLAYER_SPEED as int
        } else {
            0
        },
        final(player).rect == old(player).rect,
        final(player).hp == old(player).hp,
        final(player).is_player == old(player).is_player,
        *final(aim) == Vec2i(
            nudged(old(aim).0, controls.aim_left, controls.aim_right),
            nudged(old(aim).1, controls.aim_up, controls.aim_down),
        ),
{
    player.vx = if controls.right {
        PLAYER_SPEED
    } else if controls.left {
        -PLAYER_SPEED
    } else {
        0
    };
    player.vy = if controls.up {
        -PLAYER_SPEED
    } else if controls.down {
        PLAYER_SPEED
    } else {
        0
    };
    aim.0 = nudge(aim.0, controls.aim_left, controls.aim_right);
    aim.1 = nudge(aim.1, controls.aim_up, controls.aim_down);
}


/// Rows of rocks a scatter covers.
pub const SCATTER_ROWS: usize = 6;

/// Where cell `k` of a rock scatter lies: column `k / 6`, row `k % 6` counted
/// upward from just above `scroll_y`.
pub open spec fn scatter_pos(k: int, scroll_y: int) -> Vec2i {
    Vec2i((16 * (k / 6)) as i32, (scroll_y - 16 * (k % 6 + 1)) as i32)
}

/// Rocks of the first `n` cells of a scatter: one wherever the draw is 0.
pub open spec fn scattered_rocks(draws: Seq<u8>, n: int, scroll_y: int, frame_count: usize) -> Seq<
    Terrain,
>
    decreases n,
{
    if n <= 0 {
        Seq::empty()
    } else {
        scattered_rocks(draws, n - 1, scroll_y, frame_count) + if draws[n - 1] == 0 {
            seq![rock_terrain(scatter_pos(n - 1, scroll_y), frame_count)]
        } else {
            Seq::empty()
        }
    }
}

/// Whether slot `i` of a rock wall made from `seed` holds two rocks rather than
/// a boulder.
pub open spec fn wall_slot_rocky(seed: int, i: int) -> bool {
    ((seed + i) / 3) % 3 == 0
}

/// Terrain of the first `n` slots of a rock wall: per 32-pixel slot either two
/// rocks side by side or one boulder, just above `scroll_y`.
pub open spec fn rock_wall(seed: int, n: int, scroll_y: int, frame_count: usize) -> Seq<Terrain>
    decreases n,
{
    if n <= 0 {
        Seq::empty()
    } else {
        let i = n - 1;
        rock_wall(seed, n - 1, scroll_y, frame_count) + if wall_slot_rocky(seed, i) {
            seq![
                rock_terrain(Vec2i((32 * i) as i32, (scroll_y - 16) as i32), frame_count),
                rock_terrain(Vec2i((32 * i + 16) as i32, (scroll_y - 16) as i32), frame_count),
            ]
        } else {
            seq![boulder_terrain(Vec2i((32 * i) as i32, (scroll_y - 32) as i32), frame_count)]
        }
    }
}

/// `ts` is `old` followed by entities whose colliders are `added`, each well
/// formed and drawn from `sheet`.
pub open spec fn appended(ts: Seq<Entity<Terrain>>, old: Seq<Entity<Terrain>>, added: Seq<Terrain>, sheet: Texture) -> bool {
    &&& ts.len() == old.len() + added.len()
    &&& forall|k: int| 0 <= k < old.len() ==> #[trigger] ts[k] == old[k]
    &&& forall|k: int|
        0 <= k < added.len() ==> {
            &&& (#[trigger] ts[old.len() + k]).collider == added[k]
            &&& ts[old.len() + k].wf()
            &&& ts[old.len() + k].sprite.image == sheet
        }
}

/// New terrain above the view, from random draws. Kind 0 scatters rocks over
/// `width / 16` columns and six rows, one rock wherever the cell's draw (one
/// per cell, column by column) is 0; kind 1 builds a wall of `width / 32` slots
/// from `seed`; other kinds add nothing.
pub fn generate_terrain(
    terrains: &mut Vec<Entity<Terrain>>,
    tile_sheet: &Rc<Texture>,
    frame_count: usize,
    scroll_y: i32,
    width: usize,
    terrain_type: usize,
    draws: &[u8],
    seed: usize,
)
    requires
        width <= 0x1000_0000,
        scroll_y >= i32::MIN + 96,
        seed <= 0x1000_0000,
        terrain_type == 0 ==> draws@.len() == width / 16 * 6,
    ensures
        appended(
            final(terrains)@,
            old(terrains)@,
            if terrain_type == 0 {
                scattered_rocks(draws@, (width / 16 * 6) as int, scroll_y as int, frame_count)
            } else if terrain_type == 1 {
                rock_wall(seed as int, (width / 32) as int, scroll_y as int, frame_count)
            } else {
                Seq::empty()
            },
            **tile_sheet,
        ),
{
    let ghost start = terrains@;
    if terrain_type == 0 {
        let n = width / 16 * SCATTER_ROWS;
        let mut k: usize = 0;
        while k < n
            invariant
                k <= n,
                n == draws@.len(),
                n == width / 16 * 6,
                width <= 0x1000_0000,
                scroll_y >= i32::MIN + 96,
                appended(terrains@, start, scattered_rocks(draws@, k as int, scroll_y as int, frame_count), **tile_sheet),
            decreases n - k,
        {
            if draws[k] == 0 {
                let i = k / SCATTER_ROWS;
                let j = k % SCATTER_ROWS;
                let pos = Vec2i((16 * i) as i32, scroll_y - 16 * (j as i32 + 1));
                assert(pos == scatter_pos(k as int, scroll_y as int));
                let e = rock_entity(tile_sheet, frame_count, pos);
                terrains.push(e);
            }
            k = k + 1;
        }
    } else if terrain_type == 1 {
        let n = width / 32;
        let mut i: usize = 0;
        while i < n
            invariant
                i <= n,
                n == width / 32,
                width <= 0x1000_0000,
                seed <= 0x1000_0000,
                scroll_y >= i32::MIN + 96,
                appended(terrains@, start, rock_wall(seed as int, i as int, scroll_y as int, frame_count), **tile_sheet),
            decreases n - i,
        {
            let x = (32 * i) as i32;
            if ((seed + i) / 3) % 3 == 0 {
                let a = rock_entity(tile_sheet, frame_count, Vec2i(x, scroll_y - 16));
                let b = rock_entity(tile_sheet, frame_count, Vec2i(x + 16, scroll_y - 16));
                terrains.push(a);
                terrains.push(b);
            } else {
                let c = boulder_entity(tile_sheet, frame_count, Vec2i(x, scroll_y - 32));
                terrains.push(c);
            }
            i = i + 1;
        }
    } else {
        assert(terrains@ =~= start);
    }
}

/// Relies on rand's `thread_rng` and `Rng::gen_range`: a number drawn from
/// `0..n`, which must not be empty.
#[verifier::external_body]
fn random_below(n: usize) -> (r: usize)
    requires
        n > 0,
    ensures
        r < n,
{
    rand::thread_rng().gen_range(0..n)
}

/// `ts` is `old` with the terrain `generate_terrain` makes from `draws` (one per
/// scatter cell, each below 6) and `seed` (below 256).
pub open spec fn spawned_from(
    ts: Seq<Entity<Terrain>>,
    old: Seq<Entity<Terrain>>,
    sheet: Texture,
    frame_count: usize,
    scroll_y: i32,
    width: usize,
    terrain_type: usize,
    draws: Seq<u8>,
    seed: int,
) -> bool {
    &&& draws.len() == width / 16 * 6
    &&& forall|k: int| 0 <= k < draws.len() ==> #[trigger] draws[k] < 6
    &&& 0 <= seed < 256
    &&& appended(
        ts,
        old,
        if terrain_type == 0 {
            scattered_rocks(draws, (width / 16 * 6) as int, scroll_y as int, frame_count)
        } else if terrain_type == 1 {
            rock_wall(seed, (width / 32) as int, scroll_y as int, frame_count)
        } else {
            Seq::empty()
        },
        sheet,
    )
}

/// New terrain above the view, drawn at random: `generate_terrain` with a draw
/// from 0 to 5 for each cell of a scatter, or a wall seed from 0 to 255.
pub fn spawn_terrain(
    terrains: &mut Vec<Entity<Terrain>>,
    tile_sheet: &Rc<Texture>,
    frame_count: usize,
    scroll_y: i32,
    width: usize,
    terrain_type: usize,
)
    requires
        width <= 0x1000_0000,
        scroll_y >= i32::MIN + 96,
    ensures
        exists|draws: Seq<u8>, seed: int|
            #[trigger] spawned_from(
                final(terrains)@,
                old(terrains)@,
                **tile_sheet,
                frame_count,
                scroll_y,
                width,
                terrain_type,
                draws,
                seed,
            ),
{
    let cells = width / 16 * SCATTER_ROWS;
    let mut draws: Vec<u8> = Vec::new();
    if terrain_type == 0 {
        while draws.len() < cells
            invariant
                draws@.len() <= cells,
                forall|k: int| 0 <= k < draws@.len() ==> #[trigger] draws@[k] < 6,
            decreases cells - draws@.len(),
        {
            draws.push(random_below(6) as u8);
        }
    } else {
        while draws.len() < cells
            invariant
                draws@.len() <= cells,
                forall|k: int| 0 <= k < draws@.len() ==> #[trigger] draws@[k] < 6,
            decreases cells - draws@.len(),
        {
            draws.push(0);
        }
    }
    let seed = if terrain_type == 1 {
        random_below(256)
    } else {
        0
    };
    generate_terrain(terrains, tile_sheet, frame_count, scroll_y, width, terrain_type, draws.as_slice(), seed);
    assert(spawned_from(
        terrains@,
        old(terrains)@,
        **tile_sheet,
        frame_count,
        scroll_y,
        width,
        terrain_type,
        draws@,
        seed as int,
    ));
}

/// Terrain stays while it overlaps the view or is younger than 300 ticks.
pub open spec fn terrain_kept(frame_count: usize, view: Rect) -> spec_fn(Entity<Terrain>) -> bool {
    |e: Entity<Terrain>|
        rects_overlap(e.collider.rect, view) || (if frame_count >= e.collider.created_at {
            frame_count - e.collider.created_at
        } else {
            0
        }) < 300
}

/// Removes terrain that has left the view and is no longer new.
pub fn cleanup_terrain(terrains: &mut Vec<Entity<Terrain>>, frame_count: usize, view: Rect)
    ensures
        final(terrains)@ == old(terrains)@.filter(terrain_kept(frame_count, view)),
{
    let ghost orig = terrains@;
    let ghost pred = terrain_kept(frame_count, view);
    let mut i: usize = 0;
    let ghost mut j: int = 0;
    while i < terrains.len()
        invariant
            0 <= j <= orig.len(),
            pred == terrain_kept(frame_count, view),
            i == orig.take(j).filter(pred).len(),
            terrains@ == orig.take(j).filter(pred) + orig.skip(j),
        decreases terrains@.len() - i,
    {
        proof {
            reveal(Seq::filter);
            assert(orig.take(j + 1).drop_last() =~= orig.take(j));
            assert(terrains@[i as int] == orig[j]);
        }
        let keep = rects_collide(&terrains[i].collider.rect, &view) || frame_count.saturating_sub(
            terrains[i].collider.created_at,
        ) < 300;
        if keep {
            i = i + 1;
        } else {
            terrains.remove(i);
        }
        proof {
            j = j + 1;
            assert(terrains@ =~= orig.take(j).filter(pred) + orig.skip(j));
        }
    }
    proof {
        assert(orig.take(j) =~= orig);
    }
}

} // verus!
