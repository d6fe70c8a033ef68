use vstd::prelude::*;

verus! {

/// Thousandths of a pixel in one pixel: the unit of projectile positions and
/// velocities, and the length of a direction vector.
pub const SUBPIXELS: i64 = 1000;

/// Axis-aligned box whose top-left corner is at (x, y), in pixels.
#[derive(PartialEq, Eq, Structural, Clone, Copy, Hash, Debug)]
pub struct Rect {
    pub x: i32,
    pub y: i32,
    pub w: u16,
    pub h: u16,
}

/// Integer 2-vector (a pixel position or offset).
#[derive(PartialEq, Eq, Structural, Clone, Copy, Hash, Debug)]
pub struct Vec2i(pub i32, pub i32);

/// Wide integer 2-vector: a point of the oriented-box geometry, in
/// half-thousandths of a pixel.
#[derive(PartialEq, Eq, Structural, Clone, Copy, Hash, Debug)]
pub struct Vec2w(pub i128, pub i128);

#[derive(PartialEq, Eq, Structural, Clone, Copy, Hash, Debug)]
pub struct Rgba(pub u8, pub u8, pub u8, pub u8);

/// Oriented box. The centre (x, y) is in thousandths of a pixel; w and h are the
/// extents in pixels along and across the orientation; `dir` is the orientation
/// as (cos, sin) of the rotation scaled by `SUBPIXELS`, in a y-down plane.
#[derive(PartialEq, Eq, Structural, Clone, Copy, Debug)]
pub struct RotatedRect {
    pub x: i64,
    pub y: i64,
    pub w: u16,
    pub h: u16,
    pub dir: Vec2i,
}

pub open spec fn abs(a: int) -> int {
    if a < 0 {
        -a
    } else {
        a
    }
}

pub open spec fn min(a: int, b: int) -> int {
    if a <= b {
        a
    } else {
        b
    }
}

pub open spec fn max(a: int, b: int) -> int {
    if a >= b {
        a
    } else {
        b
    }
}

impl Rect {
    pub open spec fn right(self) -> int {
        self.x + self.w
    }

    pub open spec fn bottom(self) -> int {
        self.y + self.h
    }

    /// Point containment, boundary included.
    pub open spec fn contains_point(self, px: int, py: int) -> bool {
        self.x <= px <= self.right() && self.y <= py <= self.bottom()
    }

    /// Containment of a point given in half-thousandths of a pixel, boundary
    /// included.
    pub open spec fn contains_fine(self, p: Vec2w) -> bool {
        2000 * self.x <= p.0 <= 2000 * self.right() && 2000 * self.y <= p.1 <= 2000
            * self.bottom()
    }

    /// This rect as an oriented box with rotation zero.
    pub open spec fn rotated_spec(self) -> RotatedRect {
        RotatedRect {
            x: (1000 * self.x + 500 * self.w) as i64,
            y: (1000 * self.y + 500 * self.h) as i64,
            w: self.w,
            h: self.h,
            dir: Vec2i(SUBPIXELS as i32, 0),
        }
    }

    pub fn _contains(&self, point: &Vec2i) -> (r: bool)
        ensures
            r == self.contains_point(point.0 as int, point.1 as int),
    {
        let px = point.0 as i64;
        let py = point.1 as i64;
        px >= self.x as i64 && px <= self.x as i64 + self.w as i64 && py >= self.y as i64 && py
            <= self.y as i64 + self.h as i64
    }

    /// Whether a point of the oriented-box geometry lies in this rect.
    pub fn contains_fixed(&self, p: &Vec2w) -> (r: bool)
        ensures
            r == self.contains_fine(*p),
    {
        let left = self.x as i128 * 2000;
        let right = (self.x as i128 + self.w as i128) * 2000;
        let top = self.y as i128 * 2000;
        let bottom = (self.y as i128 + self.h as i128) * 2000;
        p.0 >= left && p.0 <= right && p.1 >= top && p.1 <= bottom
    }

    /// This rect as an oriented box with rotation zero and the same centre.
    pub fn to_rotated(&self) -> (r: RotatedRect)
        ensures
            r == self.rotated_spec(),
    {
        RotatedRect {
            x: self.x as i64 * 1000 + self.w as i64 * 500,
            y: self.y as i64 * 1000 + self.h as i64 * 500,
            w: self.w,
            h: self.h,
            dir: Vec2i(SUBPIXELS as i32, 0),
        }
    }
}

/// |a * b| <= ea * eb when |a| <= ea and |b| <= eb.
pub proof fn lemma_mul_bound(a: int, b: int, ea: int, eb: int)
    requires
        abs(a) <= ea,
        abs(b) <= eb,
    ensures
        abs(a * b) <= ea * eb,
{
    assert(abs(a * b) == abs(a) * abs(b)) by (nonlinear_arith);
    assert(abs(a) * abs(b) <= ea * eb) by (nonlinear_arith)
        requires
            0 <= abs(a) <= ea,
            0 <= abs(b) <= eb,
    ;
}

impl RotatedRect {
    /// Half of the extent along the orientation, in half-thousandths of a pixel.
    pub open spec fn half_w(self) -> (int, int) {
        (self.dir.0 * self.w, self.dir.1 * self.w)
    }

    /// Half of the extent across the orientation, in half-thousandths of a pixel.
    pub open spec fn half_h(self) -> (int, int) {
        (-self.dir.1 * self.h, self.dir.0 * self.h)
    }

    /// Corner `k` (0 to 3, one winding) in half-thousandths of a pixel.
    pub open spec fn corner(self, k: int) -> Vec2w {
        let cx = 2 * self.x;
        let cy = 2 * self.y;
        let (ax, ay) = self.half_w();
        let (bx, by) = self.half_h();
        if k == 0 {
            Vec2w((cx + ax + bx) as i128, (cy + ay + by) as i128)
        } else if k == 1 {
            Vec2w((cx + ax - bx) as i128, (cy + ay - by) as i128)
        } else if k == 2 {
            Vec2w((cx - ax - bx) as i128, (cy - ay - by) as i128)
        } else {
            Vec2w((cx - ax + bx) as i128, (cy - ay + by) as i128)
        }
    }

    pub open spec fn corners_spec(self) -> Seq<Vec2w> {
        seq![self.corner(0), self.corner(1), self.corner(2), self.corner(3)]
    }

    pub proof fn lemma_half_bounds(self)
        ensures
            abs(self.half_w().0) <= 0x8000_0000 * 0x1_0000,
            abs(self.half_w().1) <= 0x8000_0000 * 0x1_0000,
            abs(self.half_h().0) <= 0x8000_0000 * 0x1_0000,
            abs(self.half_h().1) <= 0x8000_0000 * 0x1_0000,
    {
        lemma_mul_bound(self.dir.0 as int, self.w as int, 0x8000_0000, 0x1_0000);
        lemma_mul_bound(self.dir.1 as int, self.w as int, 0x8000_0000, 0x1_0000);
        lemma_mul_bound(-self.dir.1 as int, self.h as int, 0x8000_0000, 0x1_0000);
        lemma_mul_bound(self.dir.0 as int, self.h as int, 0x8000_0000, 0x1_0000);
    }

    pub proof fn lemma_corner_bounds(self, k: int)
        ensures
            abs(self.corner(k).0 as int) <= 0x2_0000_0000_0000_0000,
            abs(self.corner(k).1 as int) <= 0x2_0000_0000_0000_0000,
    {
        self.lemma_half_bounds();
    }

    /// The four corners in winding order: centre plus or minus each half-extent.
    pub fn corners(&self) -> (cs: Vec<Vec2w>)
        ensures
            cs@ == self.corners_spec(),
    {
        proof {
            self.lemma_half_bounds();
        }
        let cx = 2 * self.x as i128;
        let cy = 2 * self.y as i128;
        let ax = self.dir.0 as i128 * self.w as i128;
        let ay = self.dir.1 as i128 * self.w as i128;
        let bx = -(self.dir.1 as i128) * self.h as i128;
        let by = self.dir.0 as i128 * self.h as i128;
        let mut cs: Vec<Vec2w> = Vec::new();
        cs.push(Vec2w(cx + ax + bx, cy + ay + by));
        cs.push(Vec2w(cx + ax - bx, cy + ay - by));
        cs.push(Vec2w(cx - ax - bx, cy - ay - by));
        cs.push(Vec2w(cx - ax + bx, cy - ay + by));
        assert(cs@ =~= self.corners_spec());
        cs
    }
}

} // verus!
