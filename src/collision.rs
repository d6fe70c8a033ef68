use crate::entity::Entity;
use crate::types::{abs, lemma_mul_bound, max, min, Rect, RotatedRect, Vec2i, Vec2w};
use vstd::prelude::*;
use vstd::seq_lib::{to_multiset_build, to_multiset_insert};

verus! {

/// Hit points a projectile starts with: the hits and bounces it can take.
pub const PROJ_MAX_BOUNCES: i32 = 4;

/// Pixels a projectile travels per tick.
pub const PROJ_SPEED: i32 = 2;

/// Distance in pixels from a mobile's centre at which its projectiles appear.
pub const PROJ_SPAWN_DISTANCE: i64 = 30;

/// A collider named by its category and its index in that category's collection.
#[derive(PartialEq, Eq, Structural, Clone, Copy, Debug)]
pub enum ColliderID {
    Terrain(usize),
    Mobile(usize),
    Projectile(usize),
    Wall(usize),
}

/// Two colliders found overlapping, with the offset that would separate them.
#[derive(PartialEq, Eq, Clone, Copy, Debug)]
pub struct Contact {
    pub a: ColliderID,
    pub b: ColliderID,
    pub mtv: (i32, i32),
}

/// Something with a position in pixels that can be moved or placed.
pub trait Collider: Sized {
    spec fn pos(&self) -> (int, int);

    /// This collider moved by (dx, dy).
    spec fn moved(&self, dx: int, dy: int) -> Self;

    /// This collider placed at (x, y).
    spec fn placed(&self, x: int, y: int) -> Self;

    fn move_pos(&mut self, dx: i32, dy: i32)
        requires
            i32::MIN <= old(self).pos().0 + dx <= i32::MAX,
            i32::MIN <= old(self).pos().1 + dy <= i32::MAX,
        ensures
            *final(self) == old(self).moved(dx as int, dy as int),
            final(self).pos() == (old(self).pos().0 + dx, old(self).pos().1 + dy),
    ;

    fn set_pos(&mut self, x: i32, y: i32)
        ensures
            *final(self) == old(self).placed(x as int, y as int),
            final(self).pos() == (x as int, y as int),
    ;
}

pub open spec fn rect_moved(r: Rect, dx: int, dy: int) -> Rect {
    Rect { x: (r.x + dx) as i32, y: (r.y + dy) as i32, w: r.w, h: r.h }
}

pub open spec fn rect_placed(r: Rect, x: int, y: int) -> Rect {
    Rect { x: x as i32, y: y as i32, w: r.w, h: r.h }
}

/// Static block of the level; destructible ones lose hit points when hit.
#[derive(Clone)]
pub struct Terrain {
    pub rect: Rect,
    pub created_at: usize,
    pub destructible: bool,
    pub hp: i32,
}

impl Terrain {
    pub open spec fn with_hp(self, hp: int) -> Terrain {
        Terrain { rect: self.rect, created_at: self.created_at, destructible: self.destructible, hp: hp as i32 }
    }

    pub fn new(rect: Rect, created_at: usize, destructible: bool, hp: i32) -> (r: Self)
        ensures
            r == (Terrain { rect, created_at, destructible, hp }),
    {
        Self { rect, created_at, destructible, hp }
    }
}

impl Collider for Terrain {
    open spec fn pos(&self) -> (int, int) {
        (self.rect.x as int, self.rect.y as int)
    }

    open spec fn moved(&self, dx: int, dy: int) -> Terrain {
        Terrain { rect: rect_moved(self.rect, dx, dy), ..*self }
    }

    open spec fn placed(&self, x: int, y: int) -> Terrain {
        Terrain { rect: rect_placed(self.rect, x, y), ..*self }
    }

    fn move_pos(&mut self, dx: i32, dy: i32) {
        self.rect.x = self.rect.x + dx;
        self.rect.y = self.rect.y + dy;
    }

    fn set_pos(&mut self, x: i32, y: i32) {
        self.rect.x = x;
        self.rect.y = y;
    }
}

/// Freely moving box: the player or an enemy. Velocity is in thousandths of a
/// pixel per tick.
#[derive(Clone)]
pub struct Mobile {
    pub rect: Rect,
    pub vx: i32,
    pub vy: i32,
    pub hp: i32,
    pub is_player: bool,
}

impl Collider for Mobile {
    open spec fn pos(&self) -> (int, int) {
        (self.rect.x as int, self.rect.y as int)
    }

    open spec fn moved(&self, dx: int, dy: int) -> Mobile {
        Mobile { rect: rect_moved(self.rect, dx, dy), ..*self }
    }

    open spec fn placed(&self, x: int, y: int) -> Mobile {
        Mobile { rect: rect_placed(self.rect, x, y), ..*self }
    }

    fn move_pos(&mut self, dx: i32, dy: i32) {
        self.rect.x = self.rect.x + dx;
        self.rect.y = self.rect.y + dy;
    }

    fn set_pos(&mut self, x: i32, y: i32) {
        self.rect.x = x;
        self.rect.y = y;
    }
}

impl Mobile {
    pub open spec fn with_hp(self, hp: int) -> Mobile {
        Mobile { hp: hp as i32, ..self }
    }

    /// A 24-pixel mobile at rest at (x, y).
    pub open spec fn enemy_spec(x: i32, y: i32, hp: i32) -> Mobile {
        Mobile { rect: Rect { x, y, w: 24, h: 24 }, vx: 0, vy: 0, hp, is_player: false }
    }

    /// The player's mobile: 24 pixels, at rest at (x, y).
    pub open spec fn player_spec(x: i32, y: i32, hp: i32) -> Mobile {
        Mobile { rect: Rect { x, y, w: 24, h: 24 }, vx: 0, vy: 0, hp, is_player: true }
    }

    pub fn enemy(x: i32, y: i32, hp: i32) -> (r: Self)
        ensures
            r == Mobile::enemy_spec(x, y, hp),
    {
        Self { rect: Rect { x, y, w: 24, h: 24 }, vx: 0, vy: 0, hp, is_player: false }
    }

    pub fn player(x: i32, y: i32, hp: i32) -> (r: Self)
        ensures
            r == Mobile::player_spec(x, y, hp),
    {
        Self { rect: Rect { x, y, w: 24, h: 24 }, vx: 0, vy: 0, hp, is_player: true }
    }

    pub fn move_pos(&mut self, dx: i32, dy: i32)
        requires
            i32::MIN <= old(self).rect.x + dx <= i32::MAX,
            i32::MIN <= old(self).rect.y + dy <= i32::MAX,
        ensures
            *final(self) == old(self).moved(dx as int, dy as int),
    {
        self.rect.x = self.rect.x + dx;
        self.rect.y = self.rect.y + dy;
    }
}

/// `v` clamped into the range of `i64`.
pub open spec fn clamp_i64(v: int) -> i64 {
    if v > i64::MAX {
        i64::MAX
    } else if v < i64::MIN {
        i64::MIN
    } else {
        v as i64
    }
}

fn add_clamped(a: i64, b: i64) -> (r: i64)
    ensures
        r == clamp_i64(a + b),
{
    if b > 0 && a > i64::MAX - b {
        i64::MAX
    } else if b < 0 && a < i64::MIN - b {
        i64::MIN
    } else {
        a + b
    }
}

/// Oriented box flying at a fixed speed along its orientation. Position and
/// velocity are in thousandths of a pixel; `hp` is what is left of its budget
/// of hits and bounces.
#[derive(Clone)]
pub struct Projectile {
    pub rrect: RotatedRect,
    pub vx: i64,
    pub vy: i64,
    pub hp: i32,
    pub speed: i32,
}

impl Projectile {
    /// Velocity along `dir` at `speed` pixels per tick, in thousandths of a pixel.
    pub open spec fn velocity_for(dir: Vec2i, speed: i32) -> (i64, i64) {
        ((dir.0 * speed) as i64, (dir.1 * speed) as i64)
    }

    /// This projectile advanced by one tick of its velocity.
    pub open spec fn stepped(self) -> Projectile {
        Projectile {
            rrect: RotatedRect {
                x: clamp_i64(self.rrect.x + self.vx),
                y: clamp_i64(self.rrect.y + self.vy),
                ..self.rrect
            },
            ..self
        }
    }

    /// This projectile turned to `dir`, with the velocity that goes with it,
    /// and advanced by one tick.
    pub open spec fn turned(self, dir: Vec2i) -> Projectile {
        let v = Projectile::velocity_for(dir, self.speed);
        Projectile { rrect: RotatedRect { dir, ..self.rrect }, vx: v.0, vy: v.1, ..self }.stepped()
    }

    pub open spec fn with_hp(self, hp: int) -> Projectile {
        Projectile { hp: hp as i32, ..self }
    }

    /// A projectile fired by `from` along `dir` (cos and sin scaled by
    /// `SUBPIXELS`), starting a little away from its centre.
    pub fn new(from: &Mobile, dir: Vec2i) -> (r: Self)
        ensures
            r.rrect.x == (from.rect.x + from.rect.w as i32 / 2) * 1000 + dir.0 * PROJ_SPAWN_DISTANCE,
            r.rrect.y == (from.rect.y + from.rect.h as i32 / 2) * 1000 + dir.1 * PROJ_SPAWN_DISTANCE,
            r.rrect.w == 14,
            r.rrect.h == 7,
            r.rrect.dir == dir,
            (r.vx, r.vy) == Projectile::velocity_for(dir, PROJ_SPEED),
            r.hp == PROJ_MAX_BOUNCES,
            r.speed == PROJ_SPEED,
    {
        let cx = from.rect.x as i64 + (from.rect.w / 2) as i64;
        let cy = from.rect.y as i64 + (from.rect.h / 2) as i64;
        let x = cx * 1000 + dir.0 as i64 * PROJ_SPAWN_DISTANCE;
        let y = cy * 1000 + dir.1 as i64 * PROJ_SPAWN_DISTANCE;
        proof {
            assert(PROJ_SPEED == 2);
            lemma_mul_bound(dir.0 as int, PROJ_SPEED as int, 0x8000_0000, 2);
            lemma_mul_bound(dir.1 as int, PROJ_SPEED as int, 0x8000_0000, 2);
        }
        let vx = dir.0 as i64 * PROJ_SPEED as i64;
        let vy = dir.1 as i64 * PROJ_SPEED as i64;
        Self { rrect: RotatedRect { x, y, w: 14, h: 7, dir }, vx, vy, hp: PROJ_MAX_BOUNCES, speed: PROJ_SPEED }
    }

    pub fn get_velocity(&self) -> (r: (i64, i64))
        ensures
            r == (self.vx, self.vy),
    {
        (self.vx, self.vy)
    }

    /// Turns the projectile to `new_dir`, which also sets its velocity and
    /// advances it by one tick.
    pub fn set_rotation(&mut self, new_dir: Vec2i)
        ensures
            *final(self) == old(self).turned(new_dir),
    {
        self.rrect.dir = new_dir;
        self.update_velocity();
        self.update_pos();
    }

    fn update_velocity(&mut self)
        ensures
            *final(self) == (Projectile {
                vx: Projectile::velocity_for(old(self).rrect.dir, old(self).speed).0,
                vy: Projectile::velocity_for(old(self).rrect.dir, old(self).speed).1,
                ..*old(self)
            }),
    {
        proof {
            lemma_mul_bound(self.rrect.dir.0 as int, self.speed as int, 0x8000_0000, 0x8000_0000);
            lemma_mul_bound(self.rrect.dir.1 as int, self.speed as int, 0x8000_0000, 0x8000_0000);
        }
        self.vx = self.rrect.dir.0 as i64 * self.speed as i64;
        self.vy = self.rrect.dir.1 as i64 * self.speed as i64;
    }

    /// Advances the projectile by one tick of its velocity.
    pub fn update_pos(&mut self)
        ensures
            *final(self) == old(self).stepped(),
    {
        self.rrect.x = add_clamped(self.rrect.x, self.vx);
        self.rrect.y = add_clamped(self.rrect.y, self.vy);
    }

    /// Moves the projectile by whole pixels.
    pub fn move_pos(&mut self, dx: i32, dy: i32)
        ensures
            final(self).rrect.x == clamp_i64(old(self).rrect.x + 1000 * dx),
            final(self).rrect.y == clamp_i64(old(self).rrect.y + 1000 * dy),
            final(self).rrect.w == old(self).rrect.w,
            final(self).rrect.h == old(self).rrect.h,
            final(self).rrect.dir == old(self).rrect.dir,
            (final(self).vx, final(self).vy, final(self).hp, final(self).speed) == (
                old(self).vx,
                old(self).vy,
                old(self).hp,
                old(self).speed,
            ),
    {
        self.rrect.x = add_clamped(self.rrect.x, dx as i64 * 1000);
        self.rrect.y = add_clamped(self.rrect.y, dy as i64 * 1000);
    }

    /// Places the projectile's centre at a pixel position.
    pub fn set_pos(&mut self, x: i32, y: i32)
        ensures
            *final(self) == (Projectile {
                rrect: RotatedRect { x: (x * 1000) as i64, y: (y * 1000) as i64, ..old(self).rrect },
                ..*old(self)
            }),
    {
        self.rrect.x = x as i64 * 1000;
        self.rrect.y = y as i64 * 1000;
    }
}

/// Boundary of the world; never moves during play.
pub struct Wall {
    pub rect: Rect,
}

impl Collider for Wall {
    open spec fn pos(&self) -> (int, int) {
        (self.rect.x as int, self.rect.y as int)
    }

    open spec fn moved(&self, dx: int, dy: int) -> Wall {
        Wall { rect: rect_moved(self.rect, dx, dy) }
    }

    open spec fn placed(&self, x: int, y: int) -> Wall {
        Wall { rect: rect_placed(self.rect, x, y) }
    }

    fn move_pos(&mut self, dx: i32, dy: i32) {
        self.rect.x = self.rect.x + dx;
        self.rect.y = self.rect.y + dy;
    }

    fn set_pos(&mut self, x: i32, y: i32) {
        self.rect.x = x;
        self.rect.y = y;
    }
}

impl Wall {
    pub fn new(rect: Rect) -> (r: Self)
        ensures
            r.rect == rect,
    {
        Self { rect }
    }
}

/// Intervals [a1, a2] and [b1, b2] meet in at most one point.
pub open spec fn separated(a1: int, a2: int, b1: int, b2: int) -> bool {
    a2 <= b1 || b2 <= a1
}

/// Axis-aligned overlap: no separating axis among x and y.
pub open spec fn rects_overlap(a: Rect, b: Rect) -> bool {
    !separated(a.x as int, a.right(), b.x as int, b.right()) && !separated(
        a.y as int,
        a.bottom(),
        b.y as int,
        b.bottom(),
    )
}

/// Whether the pixel at (px, py) lies in `r`.
pub open spec fn covers_pixel(r: Rect, px: int, py: int) -> bool {
    r.x <= px < r.right() && r.y <= py < r.bottom()
}

/// Two rects share a pixel exactly when neither axis separates them; rects that
/// only touch along an edge share none.
pub proof fn lemma_overlap_iff_no_separating_axis(a: Rect, b: Rect)
    requires
        a.w > 0 && a.h > 0,
        b.w > 0 && b.h > 0,
    ensures
        (exists|px: int, py: int| covers_pixel(a, px, py) && covers_pixel(b, px, py))
            <==> rects_overlap(a, b),
{
    if rects_overlap(a, b) {
        let px = max(a.x as int, b.x as int);
        let py = max(a.y as int, b.y as int);
        assert(covers_pixel(a, px, py) && covers_pixel(b, px, py));
    }
    if exists|px: int, py: int| covers_pixel(a, px, py) && covers_pixel(b, px, py) {
        let (px, py) = choose|px: int, py: int| covers_pixel(a, px, py) && covers_pixel(b, px, py);
        assert(rects_overlap(a, b));
    }
}

/// Whether [ax1, ax2] and [bx1, bx2] are separated (touching counts as
/// separated).
pub fn separating_axis(ax1: i64, ax2: i64, bx1: i64, bx2: i64) -> (r: bool)
    requires
        ax1 <= ax2 && bx1 <= bx2,
    ensures
        r == separated(ax1 as int, ax2 as int, bx1 as int, bx2 as int),
{
    ax2 <= bx1 || bx2 <= ax1
}

/// Axis-aligned overlap test, one separating-axis test per axis.
pub fn rects_collide(a: &Rect, b: &Rect) -> (r: bool)
    ensures
        r == rects_overlap(*a, *b),
{
    !separating_axis(a.x as i64, a.x as i64 + a.w as i64, b.x as i64, b.x as i64 + b.w as i64)
        && !separating_axis(a.y as i64, a.y as i64 + a.h as i64, b.y as i64, b.y as i64 + b.h as i64)
}

/// Length of the common part of [a1, a2] and [b1, b2] (negative when apart).
pub open spec fn overlap_1d(a1: int, a2: int, b1: int, b2: int) -> int {
    min(a2, b2) - max(a1, b1)
}

/// Undirected displacement: the overlap on the axis where it is smaller (x on
/// a tie), or none when the rects do not overlap.
pub open spec fn rect_displacement_spec(r1: Rect, r2: Rect) -> Option<(i32, i32)> {
    let xo = overlap_1d(r1.x as int, r1.right(), r2.x as int, r2.right());
    let yo = overlap_1d(r1.y as int, r1.bottom(), r2.y as int, r2.bottom());
    if xo > 0 && yo > 0 {
        if xo > yo {
            Some((0i32, yo as i32))
        } else {
            Some((xo as i32, 0i32))
        }
    } else {
        None
    }
}

pub fn rect_displacement(r1: Rect, r2: Rect) -> (r: Option<(i32, i32)>)
    ensures
        r == rect_displacement_spec(r1, r2),
{
    let r1r = r1.x as i64 + r1.w as i64;
    let r2r = r2.x as i64 + r2.w as i64;
    let r1b = r1.y as i64 + r1.h as i64;
    let r2b = r2.y as i64 + r2.h as i64;
    let x_overlap = (if r1r < r2r {
        r1r
    } else {
        r2r
    }) - (if r1.x as i64 > r2.x as i64 {
        r1.x as i64
    } else {
        r2.x as i64
    });
    let y_overlap = (if r1b < r2b {
        r1b
    } else {
        r2b
    }) - (if r1.y as i64 > r2.y as i64 {
        r1.y as i64
    } else {
        r2.y as i64
    });
    if x_overlap > 0 && y_overlap > 0 {
        if x_overlap > y_overlap {
            Some((0, y_overlap as i32))
        } else {
            Some((x_overlap as i32, 0))
        }
    } else {
        None
    }
}

/// Of two candidate pushes, the one of smaller magnitude (the second on a tie).
pub open spec fn nearer(a: int, b: int) -> int {
    if abs(a) < abs(b) {
        a
    } else {
        b
    }
}

/// Directed push-out of `r1` from the stationary `r2`: per axis the smaller of
/// the push to the left/up and to the right/down, then the axis with the smaller
/// push (both on a tie).
pub open spec fn directed_disp(r1: Rect, r2: Rect) -> (int, int) {
    let xl = min(r2.x - r1.right(), 0);
    let xr = max(r2.right() - r1.x, 0);
    let yu = min(r2.y - r1.bottom(), 0);
    let yd = max(r2.bottom() - r1.y, 0);
    let xm = nearer(xl, xr);
    let ym = nearer(yu, yd);
    if abs(xm) < abs(ym) {
        (xm, 0)
    } else if abs(ym) < abs(xm) {
        (0, ym)
    } else {
        (xm, ym)
    }
}

fn nearer_exec(a: i64, b: i64) -> (r: i64)
    requires
        -0x4000_0000 <= a <= 0x4000_0000,
        -0x4000_0000 <= b <= 0x4000_0000,
    ensures
        r == nearer(a as int, b as int),
{
    let aa = if a < 0 {
        -a
    } else {
        a
    };
    let ab = if b < 0 {
        -b
    } else {
        b
    };
    if aa < ab {
        a
    } else {
        b
    }
}

/// Minimum translation moving `r1` out of `r2`, which it overlaps.
pub fn directed_rect_disp(r1: Rect, r2: Rect) -> (r: (i32, i32))
    requires
        rects_overlap(r1, r2),
    ensures
        (r.0 as int, r.1 as int) == directed_disp(r1, r2),
        abs(r.0 as int) <= r1.w + r2.w,
        abs(r.1 as int) <= r1.h + r2.h,
{
    let x_overlap_l = {
        let v = r2.x as i64 - r1.x as i64 - r1.w as i64;
        if v < 0 {
            v
        } else {
            0
        }
    };
    let x_overlap_r = {
        let v = r2.x as i64 + r2.w as i64 - r1.x as i64;
        if v > 0 {
            v
        } else {
            0
        }
    };
    let y_overlap_u = {
        let v = r2.y as i64 - r1.y as i64 - r1.h as i64;
        if v < 0 {
            v
        } else {
            0
        }
    };
    let y_overlap_d = {
        let v = r2.y as i64 + r2.h as i64 - r1.y as i64;
        if v > 0 {
            v
        } else {
            0
        }
    };
    let x_overlap_min = nearer_exec(x_overlap_l, x_overlap_r);
    let y_overlap_min = nearer_exec(y_overlap_u, y_overlap_d);
    let ax = if x_overlap_min < 0 {
        -x_overlap_min
    } else {
        x_overlap_min
    };
    let ay = if y_overlap_min < 0 {
        -y_overlap_min
    } else {
        y_overlap_min
    };
    if ax < ay {
        (x_overlap_min as i32, 0)
    } else if ay < ax {
        (0, y_overlap_min as i32)
    } else {
        (x_overlap_min as i32, y_overlap_min as i32)
    }
}

/// Dot product of a point with an axis.
pub open spec fn dot(p: Vec2w, ax: (int, int)) -> int {
    p.0 * ax.0 + p.1 * ax.1
}

/// Lowest projection of the corners of `r` on `ax`.
pub open spec fn proj_lo(r: RotatedRect, ax: (int, int)) -> int {
    min(
        min(dot(r.corner(0), ax), dot(r.corner(1), ax)),
        min(dot(r.corner(2), ax), dot(r.corner(3), ax)),
    )
}

/// Highest projection of the corners of `r` on `ax`.
pub open spec fn proj_hi(r: RotatedRect, ax: (int, int)) -> int {
    max(
        max(dot(r.corner(0), ax), dot(r.corner(1), ax)),
        max(dot(r.corner(2), ax), dot(r.corner(3), ax)),
    )
}

/// The projections of `a` and `b` on `ax` meet in at most one point.
pub open spec fn separated_along(a: RotatedRect, b: RotatedRect, ax: (int, int)) -> bool {
    proj_lo(a, ax) >= proj_hi(b, ax) || proj_lo(b, ax) >= proj_hi(a, ax)
}

/// Separating axis theorem over the two edge directions of each box: the boxes
/// overlap when no such axis separates them.
pub open spec fn boxes_overlap(a: RotatedRect, b: RotatedRect) -> bool {
    &&& !separated_along(a, b, a.half_w())
    &&& !separated_along(a, b, a.half_h())
    &&& !separated_along(a, b, b.half_w())
    &&& !separated_along(a, b, b.half_h())
}

/// The oriented overlap test does not depend on the order of its arguments.
pub proof fn lemma_boxes_overlap_symmetric(a: RotatedRect, b: RotatedRect)
    ensures
        boxes_overlap(a, b) == boxes_overlap(b, a),
{
}

fn dot_exec(p: &Vec2w, ax: i128, ay: i128) -> (r: i128)
    requires
        abs(p.0 as int) <= 0x2_0000_0000_0000_0000,
        abs(p.1 as int) <= 0x2_0000_0000_0000_0000,
        abs(ax as int) <= 0x8000_0000 * 0x1_0000,
        abs(ay as int) <= 0x8000_0000 * 0x1_0000,
    ensures
        r == dot(*p, (ax as int, ay as int)),
{
    proof {
        lemma_mul_bound(p.0 as int, ax as int, 0x2_0000_0000_0000_0000int, 0x8000_0000_0000int);
        lemma_mul_bound(p.1 as int, ay as int, 0x2_0000_0000_0000_0000int, 0x8000_0000_0000int);
    }
    p.0 * ax + p.1 * ay
}

/// Lowest and highest projection of the corners `cs` of `r` on (ax, ay).
fn extent(cs: &Vec<Vec2w>, Ghost(r): Ghost<RotatedRect>, ax: i128, ay: i128) -> (res: (i128, i128))
    requires
        cs@ == r.corners_spec(),
        abs(ax as int) <= 0x8000_0000 * 0x1_0000,
        abs(ay as int) <= 0x8000_0000 * 0x1_0000,
    ensures
        res.0 == proj_lo(r, (ax as int, ay as int)),
        res.1 == proj_hi(r, (ax as int, ay as int)),
{
    proof {
        r.lemma_corner_bounds(0);
        r.lemma_corner_bounds(1);
        r.lemma_corner_bounds(2);
        r.lemma_corner_bounds(3);
    }
    let d0 = dot_exec(&cs[0], ax, ay);
    let d1 = dot_exec(&cs[1], ax, ay);
    let d2 = dot_exec(&cs[2], ax, ay);
    let d3 = dot_exec(&cs[3], ax, ay);
    let lo01 = if d0 <= d1 {
        d0
    } else {
        d1
    };
    let lo23 = if d2 <= d3 {
        d2
    } else {
        d3
    };
    let hi01 = if d0 >= d1 {
        d0
    } else {
        d1
    };
    let hi23 = if d2 >= d3 {
        d2
    } else {
        d3
    };
    let lo = if lo01 <= lo23 {
        lo01
    } else {
        lo23
    };
    let hi = if hi01 >= hi23 {
        hi01
    } else {
        hi23
    };
    (lo, hi)
}

/// Edge directions of `r`: along and across its orientation.
fn edge_axes(r: &RotatedRect) -> (res: ((i128, i128), (i128, i128)))
    ensures
        (res.0.0 as int, res.0.1 as int) == r.half_w(),
        (res.1.0 as int, res.1.1 as int) == r.half_h(),
        abs(res.0.0 as int) <= 0x8000_0000 * 0x1_0000,
        abs(res.0.1 as int) <= 0x8000_0000 * 0x1_0000,
        abs(res.1.0 as int) <= 0x8000_0000 * 0x1_0000,
        abs(res.1.1 as int) <= 0x8000_0000 * 0x1_0000,
{
    proof {
        r.lemma_half_bounds();
    }
    (
        (r.dir.0 as i128 * r.w as i128, r.dir.1 as i128 * r.w as i128),
        (-(r.dir.1 as i128) * r.h as i128, r.dir.0 as i128 * r.h as i128),
    )
}

fn separated_along_exec(
    ca: &Vec<Vec2w>,
    cb: &Vec<Vec2w>,
    Ghost(a): Ghost<RotatedRect>,
    Ghost(b): Ghost<RotatedRect>,
    ax: (i128, i128),
) -> (r: bool)
    requires
        ca@ == a.corners_spec(),
        cb@ == b.corners_spec(),
        abs(ax.0 as int) <= 0x8000_0000 * 0x1_0000,
        abs(ax.1 as int) <= 0x8000_0000 * 0x1_0000,
    ensures
        r == separated_along(a, b, (ax.0 as int, ax.1 as int)),
{
    let (a_min, a_max) = extent(ca, Ghost(a), ax.0, ax.1);
    let (b_min, b_max) = extent(cb, Ghost(b), ax.0, ax.1);
    a_min >= b_max || b_min >= a_max
}

/// Oriented overlap test (separating axis theorem); touching boxes do not
/// overlap.
pub fn check_rotated_collision(rrect_a: &RotatedRect, rrect_b: &RotatedRect) -> (r: bool)
    ensures
        r == boxes_overlap(*rrect_a, *rrect_b),
{
    let corners_a = rrect_a.corners();
    let corners_b = rrect_b.corners();
    let (a1, a2) = edge_axes(rrect_a);
    let (b1, b2) = edge_axes(rrect_b);
    if separated_along_exec(&corners_a, &corners_b, Ghost(*rrect_a), Ghost(*rrect_b), a1) {
        return false;
    }
    if separated_along_exec(&corners_a, &corners_b, Ghost(*rrect_a), Ghost(*rrect_b), a2) {
        return false;
    }
    if separated_along_exec(&corners_a, &corners_b, Ghost(*rrect_a), Ghost(*rrect_b), b1) {
        return false;
    }
    if separated_along_exec(&corners_a, &corners_b, Ghost(*rrect_a), Ghost(*rrect_b), b2) {
        return false;
    }
    true
}

/// Contacts of the pairs (a, lo), (a, lo + 1), ..., (a, hi - 1), in that order.
pub open spec fn row_scan(cell: spec_fn(int, int) -> Seq<Contact>, a: int, lo: int, hi: int) -> Seq<
    Contact,
>
    decreases hi - lo,
{
    if hi <= lo {
        Seq::empty()
    } else {
        row_scan(cell, a, lo, hi - 1) + cell(a, hi - 1)
    }
}

/// First column scanned in row `a`: the one after the diagonal for pairs
/// within one collection, else the first.
pub open spec fn first_column(a: int, after_diagonal: bool) -> int {
    if after_diagonal {
        a + 1
    } else {
        0
    }
}

/// Contacts of all pairs of rows 0..rows and columns first_column..cols,
/// row by row.
pub open spec fn grid_scan(
    cell: spec_fn(int, int) -> Seq<Contact>,
    rows: int,
    after_diagonal: bool,
    cols: int,
) -> Seq<Contact>
    decreases rows,
{
    if rows <= 0 {
        Seq::empty()
    } else {
        grid_scan(cell, rows - 1, after_diagonal, cols) + row_scan(
            cell,
            rows - 1,
            first_column(rows - 1, after_diagonal),
            cols,
        )
    }
}

pub open spec fn contact_if(hit: bool, c: Contact) -> Seq<Contact> {
    if hit {
        seq![c]
    } else {
        Seq::empty()
    }
}

pub open spec fn mobile_pair_cells(ms: Seq<Entity<Mobile>>, ms2: Seq<Entity<Mobile>>) -> spec_fn(
    int,
    int,
) -> Seq<Contact> {
    |a: int, b: int|
        contact_if(
            rects_overlap(ms[a].collider.rect, ms2[b].collider.rect),
            Contact { a: ColliderID::Mobile(a as usize), b: ColliderID::Mobile(b as usize), mtv: (0, 0) },
        )
}

pub open spec fn mobile_terrain_cells(ms: Seq<Entity<Mobile>>, ts: Seq<Entity<Terrain>>) -> spec_fn(
    int,
    int,
) -> Seq<Contact> {
    |a: int, b: int|
        contact_if(
            rects_overlap(ms[a].collider.rect, ts[b].collider.rect),
            Contact {
                a: ColliderID::Mobile(a as usize),
                b: ColliderID::Terrain(b as usize),
                mtv: (
                    directed_disp(ms[a].collider.rect, ts[b].collider.rect).0 as i32,
                    directed_disp(ms[a].collider.rect, ts[b].collider.rect).1 as i32,
                ),
            },
        )
}

pub open spec fn mobile_wall_cells(ms: Seq<Entity<Mobile>>, ws: Seq<Wall>) -> spec_fn(
    int,
    int,
) -> Seq<Contact> {
    |a: int, b: int|
        contact_if(
            rects_overlap(ms[a].collider.rect, ws[b].rect),
            Contact {
                a: ColliderID::Mobile(a as usize),
                b: ColliderID::Wall(b as usize),
                mtv: match rect_displacement_spec(ms[a].collider.rect, ws[b].rect) {
                    Some(d) => d,
                    None => (0i32, 0i32),
                },
            },
        )
}

pub open spec fn projectile_mobile_cells(ps: Seq<Projectile>, ms: Seq<Entity<Mobile>>) -> spec_fn(
    int,
    int,
) -> Seq<Contact> {
    |a: int, b: int|
        contact_if(
            boxes_overlap(ps[a].rrect, ms[b].collider.rect.rotated_spec()),
            Contact {
                a: ColliderID::Projectile(a as usize),
                b: ColliderID::Mobile(b as usize),
                mtv: (0, 0),
            },
        )
}

pub open spec fn projectile_terrain_cells(ps: Seq<Projectile>, ts: Seq<Entity<Terrain>>) -> spec_fn(
    int,
    int,
) -> Seq<Contact> {
    |a: int, b: int|
        contact_if(
            boxes_overlap(ps[a].rrect, ts[b].collider.rect.rotated_spec()),
            Contact {
                a: ColliderID::Projectile(a as usize),
                b: ColliderID::Terrain(b as usize),
                mtv: (0, 0),
            },
        )
}

/// Every contact of one tick, by category (mobile-mobile, mobile-terrain,
/// mobile-wall, projectile-mobile, projectile-terrain), each row by row.
pub open spec fn all_contacts(
    ts: Seq<Entity<Terrain>>,
    ms: Seq<Entity<Mobile>>,
    ws: Seq<Wall>,
    ps: Seq<Projectile>,
) -> Seq<Contact> {
    grid_scan(mobile_pair_cells(ms, ms), ms.len() as int, true, ms.len() as int) + grid_scan(
        mobile_terrain_cells(ms, ts),
        ms.len() as int,
        false,
        ts.len() as int,
    ) + grid_scan(mobile_wall_cells(ms, ws), ms.len() as int, false, ws.len() as int) + grid_scan(
        projectile_mobile_cells(ps, ms),
        ps.len() as int,
        false,
        ms.len() as int,
    ) + grid_scan(projectile_terrain_cells(ps, ts), ps.len() as int, false, ts.len() as int)
}

/// Contacts between mobiles, each pair once.
fn gather_mobile_pairs(mobiles: &[Entity<Mobile>], others: &[Entity<Mobile>], into: &mut Vec<Contact>)
    requires
        mobiles@ == others@,
    ensures
        final(into)@ == old(into)@ + grid_scan(
            mobile_pair_cells(mobiles@, others@),
            mobiles@.len() as int,
            true,
            others@.len() as int,
        ),
{
    let ghost start = into@;
    let ghost cell = mobile_pair_cells(mobiles@, others@);
    let na = mobiles.len();
    let nb = others.len();
    let mut ai: usize = 0;
    while ai < na
        invariant
            ai <= na,
            na == mobiles@.len(),
            nb == others@.len(),
            na == nb,
            cell == mobile_pair_cells(mobiles@, others@),
            into@ == start + grid_scan(cell, ai as int, true, nb as int),
        decreases na - ai,
    {
        let mut bi: usize = ai + 1;
        while bi < nb
            invariant
                ai < na,
                ai + 1 <= bi <= nb,
                na == mobiles@.len(),
                nb == others@.len(),
                na == nb,
            na == nb,
                cell == mobile_pair_cells(mobiles@, others@),
                into@ == start + grid_scan(cell, ai as int, true, nb as int) + row_scan(
                    cell,
                    ai as int,
                    first_column(ai as int, true),
                    bi as int,
                ),
            decreases nb - bi,
        {
            if rects_collide(&mobiles[ai].collider.rect, &others[bi].collider.rect) {
                into.push(Contact { a: ColliderID::Mobile(ai), b: ColliderID::Mobile(bi), mtv: (0, 0) });
            }
            assert(into@ =~= start + grid_scan(cell, ai as int, true, nb as int) + row_scan(
                cell,
                ai as int,
                first_column(ai as int, true),
                bi + 1,
            ));
            bi = bi + 1;
        }
        assert(into@ =~= start + grid_scan(cell, ai + 1, true, nb as int));
        ai = ai + 1;
    }
}

/// Contacts of mobiles with terrain, with the directed push-out.
fn gather_mobile_terrain(mobiles: &[Entity<Mobile>], terrains: &[Entity<Terrain>], into: &mut Vec<Contact>)
    ensures
        final(into)@ == old(into)@ + grid_scan(
            mobile_terrain_cells(mobiles@, terrains@),
            mobiles@.len() as int,
            false,
            terrains@.len() as int,
        ),
{
    let ghost start = into@;
    let ghost cell = mobile_terrain_cells(mobiles@, terrains@);
    let na = mobiles.len();
    let nb = terrains.len();
    let mut ai: usize = 0;
    while ai < na
        invariant
            ai <= na,
            na == mobiles@.len(),
            nb == terrains@.len(),
            cell == mobile_terrain_cells(mobiles@, terrains@),
            into@ == start + grid_scan(cell, ai as int, false, nb as int),
        decreases na - ai,
    {
        let mut bi: usize = 0;
        while bi < nb
            invariant
                ai < na,
                bi <= nb,
                na == mobiles@.len(),
                nb == terrains@.len(),
                cell == mobile_terrain_cells(mobiles@, terrains@),
                into@ == start + grid_scan(cell, ai as int, false, nb as int) + row_scan(
                    cell,
                    ai as int,
                    first_column(ai as int, false),
                    bi as int,
                ),
            decreases nb - bi,
        {
            if rects_collide(&mobiles[ai].collider.rect, &terrains[bi].collider.rect) {
                into.push(Contact {
                    a: ColliderID::Mobile(ai),
                    b: ColliderID::Terrain(bi),
                    mtv: directed_rect_disp(mobiles[ai].collider.rect, terrains[bi].collider.rect),
                });
            }
            assert(into@ =~= start + grid_scan(cell, ai as int, false, nb as int) + row_scan(
                cell,
                ai as int,
                first_column(ai as int, false),
                bi + 1,
            ));
            bi = bi + 1;
        }
        assert(into@ =~= start + grid_scan(cell, ai + 1, false, nb as int));
        ai = ai + 1;
    }
}

/// Contacts of mobiles with walls, with the undirected displacement.
fn gather_mobile_walls(mobiles: &[Entity<Mobile>], walls: &[Wall], into: &mut Vec<Contact>)
    ensures
        final(into)@ == old(into)@ + grid_scan(
            mobile_wall_cells(mobiles@, walls@),
            mobiles@.len() as int,
            false,
            walls@.len() as int,
        ),
{
    let ghost start = into@;
    let ghost cell = mobile_wall_cells(mobiles@, walls@);
    let na = mobiles.len();
    let nb = walls.len();
    let mut ai: usize = 0;
    while ai < na
        invariant
            ai <= na,
            na == mobiles@.len(),
            nb == walls@.len(),
            cell == mobile_wall_cells(mobiles@, walls@),
            into@ == start + grid_scan(cell, ai as int, false, nb as int),
        decreases na - ai,
    {
        let mut bi: usize = 0;
        while bi < nb
            invariant
                ai < na,
                bi <= nb,
                na == mobiles@.len(),
                nb == walls@.len(),
                cell == mobile_wall_cells(mobiles@, walls@),
                into@ == start + grid_scan(cell, ai as int, false, nb as int) + row_scan(
                    cell,
                    ai as int,
                    first_column(ai as int, false),
                    bi as int,
                ),
            decreases nb - bi,
        {
            if rects_collide(&mobiles[ai].collider.rect, &walls[bi].rect) {
                into.push(Contact {
                    a: ColliderID::Mobile(ai),
                    b: ColliderID::Wall(bi),
                    mtv: match rect_displacement(mobiles[ai].collider.rect, walls[bi].rect) {
                        Some(d) => d,
                        None => (0, 0),
                    },
                });
            }
            assert(into@ =~= start + grid_scan(cell, ai as int, false, nb as int) + row_scan(
                cell,
                ai as int,
                first_column(ai as int, false),
                bi + 1,
            ));
            bi = bi + 1;
        }
        assert(into@ =~= start + grid_scan(cell, ai + 1, false, nb as int));
        ai = ai + 1;
    }
}

/// Contacts of projectiles with mobiles (oriented test).
fn gather_projectile_mobiles(projs: &[Projectile], mobiles: &[Entity<Mobile>], into: &mut Vec<Contact>)
    ensures
        final(into)@ == old(into)@ + grid_scan(
            projectile_mobile_cells(projs@, mobiles@),
            projs@.len() as int,
            false,
            mobiles@.len() as int,
        ),
{
    let ghost start = into@;
    let ghost cell = projectile_mobile_cells(projs@, mobiles@);
    let na = projs.len();
    let nb = mobiles.len();
    let mut ai: usize = 0;
    while ai < na
        invariant
            ai <= na,
            na == projs@.len(),
            nb == mobiles@.len(),
            cell == projectile_mobile_cells(projs@, mobiles@),
            into@ == start + grid_scan(cell, ai as int, false, nb as int),
        decreases na - ai,
    {
        let mut bi: usize = 0;
        while bi < nb
            invariant
                ai < na,
                bi <= nb,
                na == projs@.len(),
                nb == mobiles@.len(),
                cell == projectile_mobile_cells(projs@, mobiles@),
                into@ == start + grid_scan(cell, ai as int, false, nb as int) + row_scan(
                    cell,
                    ai as int,
                    first_column(ai as int, false),
                    bi as int,
                ),
            decreases nb - bi,
        {
            if check_rotated_collision(&projs[ai].rrect, &mobiles[bi].collider.rect.to_rotated()) {
                into.push(Contact { a: ColliderID::Projectile(ai), b: ColliderID::Mobile(bi), mtv: (0, 0) });
            }
            assert(into@ =~= start + grid_scan(cell, ai as int, false, nb as int) + row_scan(
                cell,
                ai as int,
                first_column(ai as int, false),
                bi + 1,
            ));
            bi = bi + 1;
        }
        assert(into@ =~= start + grid_scan(cell, ai + 1, false, nb as int));
        ai = ai + 1;
    }
}

/// Contacts of projectiles with terrain (oriented test).
fn gather_projectile_terrain(projs: &[Projectile], terrains: &[Entity<Terrain>], into: &mut Vec<Contact>)
    ensures
        final(into)@ == old(into)@ + grid_scan(
            projectile_terrain_cells(projs@, terrains@),
            projs@.len() as int,
            false,
            terrains@.len() as int,
        ),
{
    let ghost start = into@;
    let ghost cell = projectile_terrain_cells(projs@, terrains@);
    let na = projs.len();
    let nb = terrains.len();
    let mut ai: usize = 0;
    while ai < na
        invariant
            ai <= na,
            na == projs@.len(),
            nb == terrains@.len(),
            cell == projectile_terrain_cells(projs@, terrains@),
            into@ == start + grid_scan(cell, ai as int, false, nb as int),
        decreases na - ai,
    {
        let mut bi: usize = 0;
        while bi < nb
            invariant
                ai < na,
                bi <= nb,
                na == projs@.len(),
                nb == terrains@.len(),
                cell == projectile_terrain_cells(projs@, terrains@),
                into@ == start + grid_scan(cell, ai as int, false, nb as int) + row_scan(
                    cell,
                    ai as int,
                    first_column(ai as int, false),
                    bi as int,
                ),
            decreases nb - bi,
        {
            if check_rotated_collision(&projs[ai].rrect, &terrains[bi].collider.rect.to_rotated()) {
                into.push(Contact { a: ColliderID::Projectile(ai), b: ColliderID::Terrain(bi), mtv: (0, 0) });
            }
            assert(into@ =~= start + grid_scan(cell, ai as int, false, nb as int) + row_scan(
                cell,
                ai as int,
                first_column(ai as int, false),
                bi + 1,
            ));
            bi = bi + 1;
        }
        assert(into@ =~= start + grid_scan(cell, ai + 1, false, nb as int));
        ai = ai + 1;
    }
}

/// Whether `id` names a collider of collections of the given sizes.
pub open spec fn names_existing(id: ColliderID, nt: int, nm: int, nw: int, np: int) -> bool {
    match id {
        ColliderID::Terrain(i) => i < nt,
        ColliderID::Mobile(i) => i < nm,
        ColliderID::Wall(i) => i < nw,
        ColliderID::Projectile(i) => i < np,
    }
}

pub open spec fn contact_names_existing(c: Contact, nt: int, nm: int, nw: int, np: int) -> bool {
    names_existing(c.a, nt, nm, nw, np) && names_existing(c.b, nt, nm, nw, np)
}

proof fn lemma_row_scan_valid(
    cell: spec_fn(int, int) -> Seq<Contact>,
    a: int,
    lo: int,
    hi: int,
    valid: spec_fn(Contact) -> bool,
)
    requires
        forall|b: int, k: int|
            lo <= b < hi && 0 <= k < cell(a, b).len() ==> valid(#[trigger] cell(a, b)[k]),
    ensures
        forall|k: int| 0 <= k < row_scan(cell, a, lo, hi).len() ==> valid(#[trigger] row_scan(cell, a, lo, hi)[k]),
    decreases hi - lo,
{
    if hi > lo {
        lemma_row_scan_valid(cell, a, lo, hi - 1, valid);
        let r = row_scan(cell, a, lo, hi - 1);
        let c = cell(a, hi - 1);
        assert forall|k: int| 0 <= k < (r + c).len() implies valid(#[trigger] (r + c)[k]) by {
            if k >= r.len() {
                assert((r + c)[k] == c[k - r.len()]);
            }
        }
    }
}

proof fn lemma_grid_scan_valid(
    cell: spec_fn(int, int) -> Seq<Contact>,
    rows: int,
    after_diagonal: bool,
    cols: int,
    valid: spec_fn(Contact) -> bool,
)
    requires
        forall|a: int, b: int, k: int|
            0 <= a < rows && 0 <= b < cols && 0 <= k < cell(a, b).len() ==> valid(#[trigger] cell(a, b)[k]),
    ensures
        forall|k: int|
            0 <= k < grid_scan(cell, rows, after_diagonal, cols).len() ==> valid(
                #[trigger] grid_scan(cell, rows, after_diagonal, cols)[k],
            ),
    decreases rows,
{
    if rows > 0 {
        lemma_grid_scan_valid(cell, rows - 1, after_diagonal, cols, valid);
        let first = first_column(rows - 1, after_diagonal);
        assert forall|b: int, k: int|
            first <= b < cols && 0 <= k < cell(rows - 1, b).len() implies valid(
                #[trigger] cell(rows - 1, b)[k],
            ) by {}
        lemma_row_scan_valid(cell, rows - 1, first, cols, valid);
        let g = grid_scan(cell, rows - 1, after_diagonal, cols);
        let r = row_scan(cell, rows - 1, first, cols);
        assert forall|k: int| 0 <= k < (g + r).len() implies valid(#[trigger] (g + r)[k]) by {
            if k >= g.len() {
                assert((g + r)[k] == r[k - g.len()]);
            }
        }
    }
}

/// Every gathered contact names colliders that exist, so resolving them skips
/// none.
pub proof fn lemma_gathered_contacts_name_existing(
    ts: Seq<Entity<Terrain>>,
    ms: Seq<Entity<Mobile>>,
    ws: Seq<Wall>,
    ps: Seq<Projectile>,
)
    ensures
        forall|k: int|
            0 <= k < all_contacts(ts, ms, ws, ps).len() ==> contact_names_existing(
                #[trigger] all_contacts(ts, ms, ws, ps)[k],
                ts.len() as int,
                ms.len() as int,
                ws.len() as int,
                ps.len() as int,
            ),
{
    let valid = |c: Contact|
        contact_names_existing(c, ts.len() as int, ms.len() as int, ws.len() as int, ps.len() as int);
    let g1 = grid_scan(mobile_pair_cells(ms, ms), ms.len() as int, true, ms.len() as int);
    let g2 = grid_scan(mobile_terrain_cells(ms, ts), ms.len() as int, false, ts.len() as int);
    let g3 = grid_scan(mobile_wall_cells(ms, ws), ms.len() as int, false, ws.len() as int);
    let g4 = grid_scan(projectile_mobile_cells(ps, ms), ps.len() as int, false, ms.len() as int);
    let g5 = grid_scan(projectile_terrain_cells(ps, ts), ps.len() as int, false, ts.len() as int);
    lemma_grid_scan_valid(mobile_pair_cells(ms, ms), ms.len() as int, true, ms.len() as int, valid);
    lemma_grid_scan_valid(mobile_terrain_cells(ms, ts), ms.len() as int, false, ts.len() as int, valid);
    lemma_grid_scan_valid(mobile_wall_cells(ms, ws), ms.len() as int, false, ws.len() as int, valid);
    lemma_grid_scan_valid(projectile_mobile_cells(ps, ms), ps.len() as int, false, ms.len() as int, valid);
    lemma_grid_scan_valid(projectile_terrain_cells(ps, ts), ps.len() as int, false, ts.len() as int, valid);
    let all = all_contacts(ts, ms, ws, ps);
    assert(all == g1 + g2 + g3 + g4 + g5);
    assert forall|k: int| 0 <= k < all.len() implies valid(#[trigger] all[k]) by {
        let n1 = g1.len() as int;
        let n2 = n1 + g2.len();
        let n3 = n2 + g3.len();
        let n4 = n3 + g4.len();
        if k < n1 {
            assert(all[k] == g1[k]);
        } else if k < n2 {
            assert(all[k] == g2[k - n1]);
        } else if k < n3 {
            assert(all[k] == g3[k - n2]);
        } else if k < n4 {
            assert(all[k] == g4[k - n3]);
        } else {
            assert(all[k] == g5[k - n4]);
        }
    }
}

/// Appends every contact of this tick to `into`, in a fixed order: mobile pairs,
/// mobiles with terrain, mobiles with walls, projectiles with mobiles,
/// projectiles with terrain.
pub fn gather_contacts(
    terrains: &[Entity<Terrain>],
    mobiles: &[Entity<Mobile>],
    walls: &[Wall],
    projs: &[Projectile],
    into: &mut Vec<Contact>,
)
    ensures
        final(into)@ == old(into)@ + all_contacts(terrains@, mobiles@, walls@, projs@),
{
    let ghost start = into@;
    gather_mobile_pairs(mobiles, mobiles, into);
    gather_mobile_terrain(mobiles, terrains, into);
    gather_mobile_walls(mobiles, walls, into);
    gather_projectile_mobiles(projs, mobiles, into);
    gather_projectile_terrain(projs, terrains, into);
    assert(into@ =~= start + all_contacts(terrains@, mobiles@, walls@, projs@));
}


/// Squared length of a contact's translation vector.
pub open spec fn correction(c: Contact) -> int {
    c.mtv.0 * c.mtv.0 + c.mtv.1 * c.mtv.1
}

/// Where `c` goes in `s`, sorted by decreasing correction: after every contact,
/// from `i` on, whose correction is at least its own.
pub open spec fn insertion_point(s: Seq<Contact>, c: Contact, i: int) -> int
    decreases s.len() - i,
{
    if i < 0 || i >= s.len() {
        s.len() as int
    } else if correction(s[i]) < correction(c) {
        i
    } else {
        insertion_point(s, c, i + 1)
    }
}

/// `cs` sorted by decreasing correction, contacts of equal correction in the
/// order given (insertion sort).
pub open spec fn sorted_by_correction(cs: Seq<Contact>) -> Seq<Contact>
    decreases cs.len(),
{
    if cs.len() == 0 {
        cs
    } else {
        let s = sorted_by_correction(cs.drop_last());
        s.insert(insertion_point(s, cs.last(), 0), cs.last())
    }
}

proof fn lemma_insertion_point(s: Seq<Contact>, c: Contact, i: int)
    requires
        0 <= i <= s.len(),
    ensures
        i <= insertion_point(s, c, i) <= s.len(),
        forall|k: int| i <= k < insertion_point(s, c, i) ==> correction(#[trigger] s[k]) >= correction(c),
        insertion_point(s, c, i) < s.len() ==> correction(s[insertion_point(s, c, i)]) < correction(c),
    decreases s.len() - i,
{
    if i < s.len() {
        lemma_insertion_point(s, c, i + 1);
    }
}

pub open spec fn by_decreasing_correction(s: Seq<Contact>) -> bool {
    forall|i: int, j: int| 0 <= i < j < s.len() ==> correction(#[trigger] s[i]) >= correction(#[trigger] s[j])
}

/// Restitution order: the sort puts larger corrections first and keeps every
/// contact, each as many times as it was given.
pub proof fn lemma_sorted_by_correction(cs: Seq<Contact>)
    ensures
        by_decreasing_correction(sorted_by_correction(cs)),
        sorted_by_correction(cs).to_multiset() == cs.to_multiset(),
    decreases cs.len(),
{
    if cs.len() == 0 {
        assert(sorted_by_correction(cs) =~= cs);
    } else {
        let rest = cs.drop_last();
        let c = cs.last();
        lemma_sorted_by_correction(rest);
        let s = sorted_by_correction(rest);
        let p = insertion_point(s, c, 0);
        lemma_insertion_point(s, c, 0);
        let t = s.insert(p, c);
        assert(sorted_by_correction(cs) == t);
        assert forall|i: int, j: int| 0 <= i < j < t.len() implies correction(#[trigger] t[i])
            >= correction(#[trigger] t[j]) by {
            if j < p {
                assert(t[i] == s[i] && t[j] == s[j]);
            } else if j == p {
                assert(t[i] == s[i]);
            } else if i < p {
                assert(t[i] == s[i] && t[j] == s[j - 1]);
                assert(correction(s[i]) >= correction(c));
                assert(correction(c) > correction(s[p]));
                if j - 1 > p {
                    assert(correction(s[p]) >= correction(s[j - 1]));
                }
            } else if i == p {
                assert(t[j] == s[j - 1]);
                assert(correction(c) > correction(s[p]));
                if j - 1 > p {
                    assert(correction(s[p]) >= correction(s[j - 1]));
                }
            } else {
                assert(t[i] == s[i - 1] && t[j] == s[j - 1]);
            }
        }
        to_multiset_insert(s, p, c);
        assert(rest.push(c) =~= cs);
        to_multiset_build(rest, c);
    }
}

fn correction_exec(c: &Contact) -> (r: i128)
    ensures
        r == correction(*c),
{
    proof {
        lemma_mul_bound(c.mtv.0 as int, c.mtv.0 as int, 0x8000_0000, 0x8000_0000);
        lemma_mul_bound(c.mtv.1 as int, c.mtv.1 as int, 0x8000_0000, 0x8000_0000);
    }
    c.mtv.0 as i128 * c.mtv.0 as i128 + c.mtv.1 as i128 * c.mtv.1 as i128
}

/// The contacts, largest correction first.
fn sort_by_correction(contacts: &[Contact]) -> (r: Vec<Contact>)
    ensures
        r@ == sorted_by_correction(contacts@),
{
    let mut out: Vec<Contact> = Vec::new();
    let mut i: usize = 0;
    while i < contacts.len()
        invariant
            i <= contacts@.len(),
            out@ == sorted_by_correction(contacts@.take(i as int)),
        decreases contacts@.len() - i,
    {
        let c = contacts[i];
        let key = correction_exec(&c);
        let mut pos: usize = 0;
        while pos < out.len()
            invariant
                pos <= out@.len(),
                key == correction(c),
                insertion_point(out@, c, 0) == insertion_point(out@, c, pos as int),
            ensures
                pos == insertion_point(out@, c, 0),
            decreases out@.len() - pos,
        {
            if correction_exec(&out[pos]) < key {
                break ;
            }
            pos = pos + 1;
        }
        proof {
            assert(contacts@.take(i + 1).drop_last() =~= contacts@.take(i as int));
            assert(contacts@.take(i + 1).last() == c);
        }
        out.insert(pos, c);
        i = i + 1;
    }
    assert(contacts@.take(contacts@.len() as int) =~= contacts@);
    out
}

/// Mobile `e` pushed by `mtv`, its velocity stopped on each axis the push acts on.
pub open spec fn pushed(e: Entity<Mobile>, mtv: (i32, i32)) -> Entity<Mobile> {
    let s = e.shifted(mtv.0 as int, mtv.1 as int);
    s.with_collider(
        Mobile {
            vx: if mtv.0 != 0 {
                0
            } else {
                s.collider.vx
            },
            vy: if mtv.1 != 0 {
                0
            } else {
                s.collider.vy
            },
            ..s.collider
        },
    )
}

/// Restitution of one contact: a mobile-terrain contact pushes the mobile out
/// of the terrain. A contact naming no mobile of `ms`, or whose push would carry
/// the mobile out of the coordinate range, changes nothing.
pub open spec fn restitute_one(ms: Seq<Entity<Mobile>>, c: Contact) -> Seq<Entity<Mobile>> {
    match c.a {
        ColliderID::Mobile(i) => match c.b {
            ColliderID::Terrain(_) => if i < ms.len() && ms[i as int].can_move(
                c.mtv.0 as int,
                c.mtv.1 as int,
            ) {
                ms.update(i as int, pushed(ms[i as int], c.mtv))
            } else {
                ms
            },
            _ => ms,
        },
        _ => ms,
    }
}

/// Restitution of the contacts `cs`, in order.
pub open spec fn restitute_all(ms: Seq<Entity<Mobile>>, cs: Seq<Contact>) -> Seq<Entity<Mobile>>
    decreases cs.len(),
{
    if cs.len() == 0 {
        ms
    } else {
        restitute_one(restitute_all(ms, cs.drop_last()), cs.last())
    }
}

pub open spec fn all_wf<T: Collider>(es: Seq<Entity<T>>) -> bool {
    forall|i: int| 0 <= i < es.len() ==> (#[trigger] es[i]).wf()
}

/// Pushes mobiles out of the terrain they touch, largest correction first.
fn restitute(
    _statics: &[Entity<Terrain>],
    dynamics: &mut Vec<Entity<Mobile>>,
    contacts: &[Contact],
)
    requires
        all_wf(old(dynamics)@),
    ensures
        all_wf(final(dynamics)@),
        final(dynamics)@.len() == old(dynamics)@.len(),
        final(dynamics)@ == restitute_all(old(dynamics)@, sorted_by_correction(contacts@)),
{
    let sorted = sort_by_correction(contacts);
    let ghost start = dynamics@;
    let mut k: usize = 0;
    while k < sorted.len()
        invariant
            k <= sorted@.len(),
            all_wf(dynamics@),
            dynamics@.len() == start.len(),
            dynamics@ == restitute_all(start, sorted@.take(k as int)),
        decreases sorted@.len() - k,
    {
        let c = sorted[k];
        proof {
            assert(sorted@.take(k + 1).drop_last() =~= sorted@.take(k as int));
        }
        match (c.a, c.b) {
            (ColliderID::Mobile(ai), ColliderID::Terrain(_)) => {
                if ai < dynamics.len() {
                    let px = dynamics[ai].position.0 as i64 + c.mtv.0 as i64;
                    let py = dynamics[ai].position.1 as i64 + c.mtv.1 as i64;
                    if i32::MIN as i64 <= px && px <= i32::MAX as i64 && i32::MIN as i64 <= py && py
                        <= i32::MAX as i64 {
                        dynamics[ai].move_pos(c.mtv.0, c.mtv.1);
                        if c.mtv.0 != 0 {
                            dynamics[ai].collider.vx = 0;
                        }
                        if c.mtv.1 != 0 {
                            dynamics[ai].collider.vy = 0;
                        }
                    }
                }
            },
            _ => {},
        }
        proof {
            assert(dynamics@ == restitute_all(start, sorted@.take(k + 1)));
        }
        k = k + 1;
    }
    assert(sorted@.take(sorted@.len() as int) =~= sorted@);
}


/// Whether corner `k` of projectile `p` lies in `t`.
pub open spec fn corner_in(p: Projectile, t: Rect, k: int) -> bool {
    t.contains_fine(p.rrect.corner(k))
}

/// How many corners of `p` lie in `t`.
pub open spec fn corners_in(p: Projectile, t: Rect) -> int {
    (if corner_in(p, t, 0) {
        1int
    } else {
        0
    }) + (if corner_in(p, t, 1) {
        1int
    } else {
        0
    }) + (if corner_in(p, t, 2) {
        1int
    } else {
        0
    }) + (if corner_in(p, t, 3) {
        1int
    } else {
        0
    })
}

/// The first corner of `p` that lies in `t` (3 when none of 0 to 2 does).
pub open spec fn first_corner_in(p: Projectile, t: Rect) -> int {
    if corner_in(p, t, 0) {
        0
    } else if corner_in(p, t, 1) {
        1
    } else if corner_in(p, t, 2) {
        2
    } else {
        3
    }
}

/// Whether corner `k` of `r` is a leftmost or rightmost one.
pub open spec fn x_extremal(r: RotatedRect, k: int) -> bool {
    let x = r.corner(k).0 as int;
    let x0 = r.corner(0).0 as int;
    let x1 = r.corner(1).0 as int;
    let x2 = r.corner(2).0 as int;
    let x3 = r.corner(3).0 as int;
    x == max(max(x0, x1), max(x2, x3)) || x == min(min(x0, x1), min(x2, x3))
}

/// `-v`, with `i32::MIN` taken to `i32::MAX`.
pub open spec fn neg_sat(v: i32) -> i32 {
    if v == i32::MIN {
        i32::MAX
    } else {
        -v as i32
    }
}

/// `v - 1`, staying at `i32::MIN`.
pub open spec fn dec_sat(v: i32) -> int {
    if v == i32::MIN {
        v as int
    } else {
        v - 1
    }
}

/// New direction of a projectile that hits terrain `t`: with one corner in, a
/// leftmost or rightmost corner reflects it as pi - rotation (x flips), another
/// corner as 2 pi - rotation (y flips); with several corners in it turns back
/// (both flip); with none it keeps its course.
pub open spec fn bounce_dir(p: Projectile, t: Rect) -> Option<Vec2i> {
    let d = p.rrect.dir;
    let n = corners_in(p, t);
    if n == 0 {
        None
    } else if n == 1 {
        if x_extremal(p.rrect, first_corner_in(p, t)) {
            Some(Vec2i(neg_sat(d.0), d.1))
        } else {
            Some(Vec2i(d.0, neg_sat(d.1)))
        }
    } else {
        Some(Vec2i(neg_sat(d.0), neg_sat(d.1)))
    }
}

/// What a projectile does to a mobile's hit points: takes as many as the
/// projectile has, never below zero; a spent projectile does nothing.
pub open spec fn mobile_hp_after_hit(m: Mobile, p: Projectile) -> int {
    if p.hp <= 0 {
        m.hp as int
    } else if m.hp >= p.hp {
        m.hp - p.hp
    } else {
        0
    }
}

/// The colliders a tick works on: terrain, mobiles and projectiles.
pub type Bodies = (Seq<Entity<Terrain>>, Seq<Entity<Mobile>>, Seq<Projectile>);

/// Damage of one contact. Projectile-terrain: with exactly one corner in, the
/// projectile loses a hit point, and so does destructible terrain; the
/// projectile then bounces (`bounce_dir`). Projectile-mobile: the mobile loses
/// hit points (`mobile_hp_after_hit`) and the projectile is spent. A contact
/// naming a collider that is not there changes nothing; so do other categories.
pub open spec fn damage_step(w: Bodies, c: Contact) -> Bodies {
    let (ts, ms, ps) = w;
    match c.a {
        ColliderID::Projectile(a) => match c.b {
            ColliderID::Terrain(b) => if a < ps.len() && b < ts.len() {
                let p = ps[a as int];
                let t = ts[b as int].collider;
                let hit = corners_in(p, t.rect) == 1;
                let p1 = if hit {
                    p.with_hp(dec_sat(p.hp))
                } else {
                    p
                };
                let t1 = if hit && t.destructible {
                    t.with_hp(dec_sat(t.hp))
                } else {
                    t
                };
                let p2 = match bounce_dir(p, t.rect) {
                    Some(d) => p1.turned(d),
                    None => p1,
                };
                (ts.update(b as int, ts[b as int].with_collider(t1)), ms, ps.update(a as int, p2))
            } else {
                w
            },
            ColliderID::Mobile(b) => if a < ps.len() && b < ms.len() {
                let p = ps[a as int];
                let m = ms[b as int].collider;
                (
                    ts,
                    ms.update(b as int, ms[b as int].with_collider(m.with_hp(mobile_hp_after_hit(m, p)))),
                    ps.update(a as int, p.with_hp(0)),
                )
            } else {
                w
            },
            _ => w,
        },
        _ => w,
    }
}

/// Damage of the contacts `cs`, in order.
pub open spec fn damage_all(w: Bodies, cs: Seq<Contact>) -> Bodies
    decreases cs.len(),
{
    if cs.len() == 0 {
        w
    } else {
        damage_step(damage_all(w, cs.drop_last()), cs.last())
    }
}

/// The bodies after restitution and damage, before culling.
pub open spec fn resolved(w: Bodies, cs: Seq<Contact>) -> Bodies {
    damage_all((w.0, restitute_all(w.1, sorted_by_correction(cs)), w.2), cs)
}

fn i32_neg_sat(v: i32) -> (r: i32)
    ensures
        r == neg_sat(v),
{
    if v == i32::MIN {
        i32::MAX
    } else {
        -v
    }
}

fn i32_dec_sat(v: i32) -> (r: i32)
    ensures
        r == dec_sat(v),
{
    if v == i32::MIN {
        v
    } else {
        v - 1
    }
}

/// Projectile `a` against terrain `b`.
fn hit_terrain(terrains: &mut Vec<Entity<Terrain>>, projs: &mut Vec<Projectile>, a: usize, b: usize)
    requires
        a < old(projs)@.len(),
        b < old(terrains)@.len(),
    ensures
        ({
            let w = damage_step(
                (old(terrains)@, Seq::empty(), old(projs)@),
                Contact { a: ColliderID::Projectile(a), b: ColliderID::Terrain(b), mtv: (0, 0) },
            );
            final(terrains)@ == w.0 && final(projs)@ == w.2
        }),
{
    let ghost p = projs@[a as int];
    let corners = projs[a].rrect.corners();
    let trect = terrains[b].collider.rect;
    let in0 = trect.contains_fixed(&corners[0]);
    let in1 = trect.contains_fixed(&corners[1]);
    let in2 = trect.contains_fixed(&corners[2]);
    let in3 = trect.contains_fixed(&corners[3]);
    let corners_in: u8 = (if in0 {
        1
    } else {
        0
    }) + (if in1 {
        1
    } else {
        0
    }) + (if in2 {
        1
    } else {
        0
    }) + (if in3 {
        1
    } else {
        0
    });
    if corners_in == 1 {
        projs[a].hp = i32_dec_sat(projs[a].hp);
        if terrains[b].collider.destructible {
            terrains[b].collider.hp = i32_dec_sat(terrains[b].collider.hp);
        }
    }
    let x0 = corners[0].0;
    let x1 = corners[1].0;
    let x2 = corners[2].0;
    let x3 = corners[3].0;
    let x_max = {
        let m01 = if x0 >= x1 {
            x0
        } else {
            x1
        };
        let m23 = if x2 >= x3 {
            x2
        } else {
            x3
        };
        if m01 >= m23 {
            m01
        } else {
            m23
        }
    };
    let x_min = {
        let m01 = if x0 <= x1 {
            x0
        } else {
            x1
        };
        let m23 = if x2 <= x3 {
            x2
        } else {
            x3
        };
        if m01 <= m23 {
            m01
        } else {
            m23
        }
    };
    let d = projs[a].rrect.dir;
    if corners_in == 1 {
        let cx = if in0 {
            x0
        } else if in1 {
            x1
        } else if in2 {
            x2
        } else {
            x3
        };
        if cx == x_max || cx == x_min {
            projs[a].set_rotation(Vec2i(i32_neg_sat(d.0), d.1));
        } else {
            projs[a].set_rotation(Vec2i(d.0, i32_neg_sat(d.1)));
        }
    } else if corners_in >= 2 {
        projs[a].set_rotation(Vec2i(i32_neg_sat(d.0), i32_neg_sat(d.1)));
    }
}

/// Projectile `a` against mobile `b`.
fn hit_mobile(mobiles: &mut Vec<Entity<Mobile>>, projs: &mut Vec<Projectile>, a: usize, b: usize)
    requires
        a < old(projs)@.len(),
        b < old(mobiles)@.len(),
    ensures
        ({
            let w = damage_step(
                (Seq::empty(), old(mobiles)@, old(projs)@),
                Contact { a: ColliderID::Projectile(a), b: ColliderID::Mobile(b), mtv: (0, 0) },
            );
            final(mobiles)@ == w.1 && final(projs)@ == w.2
        }),
{
    let php = projs[a].hp;
    let mhp = mobiles[b].collider.hp;
    if php <= 0 {
    } else if mhp >= php {
        mobiles[b].collider.hp = mhp - php;
    } else {
        mobiles[b].collider.hp = 0;
    }
    projs[a].hp = 0;
}

/// Which colliders stay after a tick.
pub trait Survives: Sized {
    spec fn survives_spec() -> spec_fn(Self) -> bool;

    fn survives(&self) -> (r: bool)
        ensures
            r == Self::survives_spec()(*self),
    ;
}

/// Terrain stays while it has hit points.
pub open spec fn terrain_survives() -> spec_fn(Entity<Terrain>) -> bool {
    |e: Entity<Terrain>| e.collider.hp > 0
}

/// A mobile stays while it has hit points; the player always stays.
pub open spec fn mobile_survives() -> spec_fn(Entity<Mobile>) -> bool {
    |e: Entity<Mobile>| e.collider.hp > 0 || e.collider.is_player
}

/// A projectile stays while it has hit points.
pub open spec fn projectile_survives() -> spec_fn(Projectile) -> bool {
    |p: Projectile| p.hp > 0
}

impl Survives for Entity<Terrain> {
    open spec fn survives_spec() -> spec_fn(Entity<Terrain>) -> bool {
        terrain_survives()
    }

    fn survives(&self) -> (r: bool) {
        self.collider.hp > 0
    }
}

impl Survives for Entity<Mobile> {
    open spec fn survives_spec() -> spec_fn(Entity<Mobile>) -> bool {
        mobile_survives()
    }

    fn survives(&self) -> (r: bool) {
        self.collider.hp > 0 || self.collider.is_player
    }
}

impl Survives for Projectile {
    open spec fn survives_spec() -> spec_fn(Projectile) -> bool {
        projectile_survives()
    }

    fn survives(&self) -> (r: bool) {
        self.hp > 0
    }
}

/// Removes what does not survive, keeping the order of the rest.
fn retain_survivors<T: Survives>(v: &mut Vec<T>)
    ensures
        final(v)@ == old(v)@.filter(T::survives_spec()),
{
    let ghost orig = v@;
    let ghost pred = T::survives_spec();
    let mut i: usize = 0;
    let ghost mut j: int = 0;
    while i < v.len()
        invariant
            0 <= j <= orig.len(),
            pred == T::survives_spec(),
            i == orig.take(j).filter(pred).len(),
            v@ == orig.take(j).filter(pred) + orig.skip(j),
        decreases v@.len() - i,
    {
        proof {
            reveal(Seq::filter);
            assert(orig.take(j + 1).drop_last() =~= orig.take(j));
            assert(v@[i as int] == orig[j]);
        }
        if v[i].survives() {
            i = i + 1;
        } else {
            v.remove(i);
        }
        proof {
            j = j + 1;
            assert(v@ =~= orig.take(j).filter(pred) + orig.skip(j));
        }
    }
    proof {
        assert(orig.take(j) =~= orig);
    }
}

/// Resolves the contacts of one tick, in order: restitution (mobiles pushed out
/// of terrain, largest correction first), damage (contacts in the order given),
/// then culling of terrain, mobiles and projectiles left without hit points
/// (the player, at index 0, always stays). Returns whether the player still has
/// hit points and how many mobiles were removed.
pub fn handle_contact(
    terrains: &mut Vec<Entity<Terrain>>,
    mobiles: &mut Vec<Entity<Mobile>>,
    projs: &mut Vec<Projectile>,
    contacts: &[Contact],
) -> (r: (bool, usize))
    requires
        old(mobiles)@.len() > 0,
        all_wf(old(mobiles)@),
    ensures
        ({
            let w = resolved((old(terrains)@, old(mobiles)@, old(projs)@), contacts@);
            &&& final(terrains)@ == w.0.filter(terrain_survives())
            &&& final(mobiles)@ == w.1.filter(mobile_survives())
            &&& final(projs)@ == w.2.filter(projectile_survives())
            &&& r.0 == (w.1[0].collider.hp != 0)
            &&& r.1 == w.1.len() - final(mobiles)@.len()
        }),
        all_wf(final(mobiles)@),
{
    restitute(terrains, mobiles, contacts);
    let ghost start: Bodies = (terrains@, mobiles@, projs@);
    let mut k: usize = 0;
    while k < contacts.len()
        invariant
            k <= contacts@.len(),
            (terrains@, mobiles@, projs@) == damage_all(start, contacts@.take(k as int)),
            mobiles@.len() == start.1.len(),
            all_wf(mobiles@),
        decreases contacts@.len() - k,
    {
        let c = contacts[k];
        proof {
            assert(contacts@.take(k + 1).drop_last() =~= contacts@.take(k as int));
        }
        match (c.a, c.b) {
            (ColliderID::Projectile(a), ColliderID::Terrain(b)) => {
                if a < projs.len() && b < terrains.len() {
                    hit_terrain(terrains, projs, a, b);
                }
            },
            (ColliderID::Projectile(a), ColliderID::Mobile(b)) => {
                if a < projs.len() && b < mobiles.len() {
                    hit_mobile(mobiles, projs, a, b);
                }
            },
            _ => {},
        }
        k = k + 1;
    }
    proof {
        assert(contacts@.take(contacts@.len() as int) =~= contacts@);
    }
    let player_is_alive = mobiles[0].collider.hp != 0;
    retain_survivors(terrains);
    let ori = mobiles.len();
    let ghost damaged = mobiles@;
    retain_survivors(mobiles);
    proof {
        assert forall|i: int| 0 <= i < mobiles@.len() implies (#[trigger] mobiles@[i]).wf() by {
            let x = mobiles@[i];
            assert(damaged.filter(mobile_survives()).contains(x));
            damaged.lemma_filter_contains_rev(mobile_survives(), x);
        }
        damaged.lemma_filter_len(mobile_survives());
    }
    let new = mobiles.len();
    retain_survivors(projs);
    (player_is_alive, ori - new)
}


/// Restitution of a mobile lying inside a single terrain rect: the push is not
/// zero, on each axis it acts on it is at most the terrain's extent on that
/// axis, and the mobile's velocity is stopped on exactly those axes.
pub proof fn lemma_restitution_inside_terrain(ms: Seq<Entity<Mobile>>, i: usize, t: Rect, j: usize)
    requires
        i < ms.len(),
        ms[i as int].wf(),
        ms[i as int].collider.rect.w > 0,
        ms[i as int].collider.rect.h > 0,
        t.x <= ms[i as int].collider.rect.x,
        ms[i as int].collider.rect.right() <= t.right(),
        t.y <= ms[i as int].collider.rect.y,
        ms[i as int].collider.rect.bottom() <= t.bottom(),
        ms[i as int].can_move(
            directed_disp(ms[i as int].collider.rect, t).0,
            directed_disp(ms[i as int].collider.rect, t).1,
        ),
    ensures
        ({
            let m = ms[i as int].collider.rect;
            let d = directed_disp(m, t);
            let c = Contact {
                a: ColliderID::Mobile(i),
                b: ColliderID::Terrain(j),
                mtv: (d.0 as i32, d.1 as i32),
            };
            let after = restitute_all(ms, seq![c])[i as int].collider;
            &&& rects_overlap(m, t)
            &&& d != (0int, 0int)
            &&& d.0 != 0 ==> abs(d.0) <= t.w
            &&& d.1 != 0 ==> abs(d.1) <= t.h
            &&& after.rect.x == m.x + d.0
            &&& after.rect.y == m.y + d.1
            &&& after.vx == if d.0 != 0 {
                0
            } else {
                ms[i as int].collider.vx
            }
            &&& after.vy == if d.1 != 0 {
                0
            } else {
                ms[i as int].collider.vy
            }
        }),
{
    let m = ms[i as int].collider.rect;
    let d = directed_disp(m, t);
    let c = Contact {
        a: ColliderID::Mobile(i),
        b: ColliderID::Terrain(j),
        mtv: (d.0 as i32, d.1 as i32),
    };
    let xl = min(t.x - m.right(), 0);
    let xr = max(t.right() - m.x, 0);
    let yu = min(t.y - m.bottom(), 0);
    let yd = max(t.bottom() - m.y, 0);
    assert(xl == t.x - m.right() && abs(xl) <= t.w && abs(xl) >= m.w);
    assert(xr == t.right() - m.x && abs(xr) <= t.w && abs(xr) >= m.w);
    assert(yu == t.y - m.bottom() && abs(yu) <= t.h && abs(yu) >= m.h);
    assert(yd == t.bottom() - m.y && abs(yd) <= t.h && abs(yd) >= m.h);
    assert(abs(nearer(xl, xr)) <= t.w && abs(nearer(xl, xr)) >= m.w);
    assert(abs(nearer(yu, yd)) <= t.h && abs(nearer(yu, yd)) >= m.h);
    assert(c.mtv.0 as int == d.0 && c.mtv.1 as int == d.1);
    assert(seq![c].drop_last() =~= Seq::<Contact>::empty());
    assert(restitute_all(ms, Seq::<Contact>::empty()) == ms);
    assert(restitute_all(ms, seq![c]) == restitute_one(ms, c));

}

} // verus!
