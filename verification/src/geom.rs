//! Exact two-dimensional geometry for the beam simulation: integer
//! coordinates, the eight compass directions a beam can travel in, and
//! reflection off axis-aligned surfaces.

use vstd::prelude::*;

verus! {

/// Bound on scene coordinates and on a beam's travel budget. Keeping both
/// inside this bound means every position reached by a beam, and every
/// intermediate difference computed by the raycaster, stays far away from
/// `i64` overflow.
pub const COORD_LIMIT: i64 = 0x4000_0000_0000;

/// A point (or displacement) in the integer world grid.
#[derive(Clone, Copy, Debug, PartialEq, Eq, Structural)]
pub struct Vec2i {
    pub x: i64,
    pub y: i64,
}

impl Vec2i {
    /// Both coordinates lie within the scene bound.
    pub open spec fn in_bounds(self) -> bool {
        &&& -COORD_LIMIT <= self.x <= COORD_LIMIT
        &&& -COORD_LIMIT <= self.y <= COORD_LIMIT
    }

    /// Both coordinates lie within twice the scene bound; positions reached
    /// mid-trace satisfy this even after travelling a whole budget.
    pub open spec fn in_reach_bounds(self) -> bool {
        &&& -2 * COORD_LIMIT <= self.x <= 2 * COORD_LIMIT
        &&& -2 * COORD_LIMIT <= self.y <= 2 * COORD_LIMIT
    }

    pub fn new(x: i64, y: i64) -> (v: Vec2i)
        ensures
            v == (Vec2i { x, y }),
    {
        Vec2i { x, y }
    }
}

/// The eight directions a beam can travel in. Reflection off an axis-aligned
/// surface maps this set onto itself, so a beam's direction stays in it for
/// the whole bounce chain.
#[derive(Clone, Copy, Debug, PartialEq, Eq, Structural)]
pub enum Dir8 {
    East,
    NorthEast,
    North,
    NorthWest,
    West,
    SouthWest,
    South,
    SouthEast,
}

/// The surface normal reported for a ray hit on an axis-aligned box. The
/// first four name the face that was struck by the axis its outward normal
/// points along; `Reverse` is reported when the cast started inside the box,
/// in which case the normal points straight back along the ray.
#[derive(Clone, Copy, Debug, PartialEq, Eq, Structural)]
pub enum HitNormal {
    XNeg,
    XPos,
    YNeg,
    YPos,
    Reverse,
}

impl Dir8 {
    /// Horizontal step per unit of travel: -1, 0 or 1.
    pub open spec fn dx(self) -> int {
        match self {
            Dir8::East => 1,
            Dir8::NorthEast => 1,
            Dir8::North => 0,
            Dir8::NorthWest => -1,
            Dir8::West => -1,
            Dir8::SouthWest => -1,
            Dir8::South => 0,
            Dir8::SouthEast => 1,
        }
    }

    /// Vertical step per unit of travel: -1, 0 or 1.
    pub open spec fn dy(self) -> int {
        match self {
            Dir8::East => 0,
            Dir8::NorthEast => 1,
            Dir8::North => 1,
            Dir8::NorthWest => 1,
            Dir8::West => 0,
            Dir8::SouthWest => -1,
            Dir8::South => -1,
            Dir8::SouthEast => -1,
        }
    }

    /// Executable horizontal step, equal to [`Self::dx`].
    pub fn dx_exec(self) -> (d: i64)
        ensures
            d == self.dx(),
            -1 <= d <= 1,
    {
        match self {
            Dir8::East | Dir8::NorthEast | Dir8::SouthEast => 1,
            Dir8::North | Dir8::South => 0,
            Dir8::West | Dir8::NorthWest | Dir8::SouthWest => -1,
        }
    }

    /// Executable vertical step, equal to [`Self::dy`].
    pub fn dy_exec(self) -> (d: i64)
        ensures
            d == self.dy(),
            -1 <= d <= 1,
    {
        match self {
            Dir8::North | Dir8::NorthEast | Dir8::NorthWest => 1,
            Dir8::East | Dir8::West => 0,
            Dir8::South | Dir8::SouthEast | Dir8::SouthWest => -1,
        }
    }

    /// The direction with the horizontal component negated.
    pub open spec fn flip_x(self) -> Dir8 {
        match self {
            Dir8::East => Dir8::West,
            Dir8::NorthEast => Dir8::NorthWest,
            Dir8::North => Dir8::North,
            Dir8::NorthWest => Dir8::NorthEast,
            Dir8::West => Dir8::East,
            Dir8::SouthWest => Dir8::SouthEast,
            Dir8::South => Dir8::South,
            Dir8::SouthEast => Dir8::SouthWest,
        }
    }

    /// The direction with the vertical component negated.
    pub open spec fn flip_y(self) -> Dir8 {
        match self {
            Dir8::East => Dir8::East,
            Dir8::NorthEast => Dir8::SouthEast,
            Dir8::North => Dir8::South,
            Dir8::NorthWest => Dir8::SouthWest,
            Dir8::West => Dir8::West,
            Dir8::SouthWest => Dir8::NorthWest,
            Dir8::South => Dir8::North,
            Dir8::SouthEast => Dir8::NorthEast,
        }
    }

    /// Reflection off a surface with the given normal: a vertical face flips
    /// the horizontal component, a horizontal face the vertical one, and a
    /// hit from inside sends the beam straight back.
    pub open spec fn reflect(self, n: HitNormal) -> Dir8 {
        match n {
            HitNormal::XNeg => self.flip_x(),
            HitNormal::XPos => self.flip_x(),
            HitNormal::YNeg => self.flip_y(),
            HitNormal::YPos => self.flip_y(),
            HitNormal::Reverse => self.flip_x().flip_y(),
        }
    }

    /// Executable reflection, equal to the specification-level [`Self::reflect`].
    pub fn reflect_exec(self, n: HitNormal) -> (r: Dir8)
        ensures
            r == self.reflect(n),
    {
        let flipped_x = match self {
            Dir8::East => Dir8::West,
            Dir8::NorthEast => Dir8::NorthWest,
            Dir8::North => Dir8::North,
            Dir8::NorthWest => Dir8::NorthEast,
            Dir8::West => Dir8::East,
            Dir8::SouthWest => Dir8::SouthEast,
            Dir8::South => Dir8::South,
            Dir8::SouthEast => Dir8::SouthWest,
        };
        match n {
            HitNormal::XNeg | HitNormal::XPos => flipped_x,
            HitNormal::YNeg | HitNormal::YPos => match self {
                Dir8::East => Dir8::East,
                Dir8::NorthEast => Dir8::SouthEast,
                Dir8::North => Dir8::South,
                Dir8::NorthWest => Dir8::SouthWest,
                Dir8::West => Dir8::West,
                Dir8::SouthWest => Dir8::NorthWest,
                Dir8::South => Dir8::North,
                Dir8::SouthEast => Dir8::NorthEast,
            },
            HitNormal::Reverse => match flipped_x {
                Dir8::East => Dir8::East,
                Dir8::NorthEast => Dir8::SouthEast,
                Dir8::North => Dir8::South,
                Dir8::NorthWest => Dir8::SouthWest,
                Dir8::West => Dir8::West,
                Dir8::SouthWest => Dir8::NorthWest,
                Dir8::South => Dir8::North,
                Dir8::SouthEast => Dir8::NorthEast,
            },
        }
    }
}

/// Travelling `t >= 0` units moves each coordinate by at most `t`.
pub proof fn lemma_dir_step_bounds(dir: Dir8, t: int)
    requires
        t >= 0,
    ensures
        -t <= t * dir.dx() <= t,
        -t <= t * dir.dy() <= t,
{
    assert(-1 <= dir.dx() <= 1);
    assert(-1 <= dir.dy() <= 1);
    assert(-t <= t * dir.dx() <= t) by (nonlinear_arith)
        requires
            t >= 0,
            -1 <= dir.dx() <= 1,
    ;
    assert(-t <= t * dir.dy() <= t) by (nonlinear_arith)
        requires
            t >= 0,
            -1 <= dir.dy() <= 1,
    ;
}

/// The point reached after travelling `t` units from `pos` along `dir`.
pub open spec fn spec_point_at(pos: Vec2i, dir: Dir8, t: int) -> Vec2i {
    Vec2i { x: (pos.x + t * dir.dx()) as i64, y: (pos.y + t * dir.dy()) as i64 }
}

/// Executable travel along a direction; the bounds keep both coordinate sums
/// within `i64`, so the result is exactly the specification-level point.
pub fn point_at(pos: Vec2i, dir: Dir8, t: i64) -> (p: Vec2i)
    requires
        0 <= t <= COORD_LIMIT,
        pos.in_reach_bounds(),
    ensures
        p == spec_point_at(pos, dir, t as int),
        p.x == pos.x + t * dir.dx(),
        p.y == pos.y + t * dir.dy(),
{
    let x = match dir {
        Dir8::East | Dir8::NorthEast | Dir8::SouthEast => pos.x + t,
        Dir8::North | Dir8::South => pos.x,
        Dir8::West | Dir8::NorthWest | Dir8::SouthWest => pos.x - t,
    };
    let y = match dir {
        Dir8::North | Dir8::NorthEast | Dir8::NorthWest => pos.y + t,
        Dir8::East | Dir8::West => pos.y,
        Dir8::South | Dir8::SouthEast | Dir8::SouthWest => pos.y - t,
    };
    Vec2i { x, y }
}

} // verus!
