//! Points, headings and the rectangle that constrains the camera's focus.
use vstd::prelude::*;
use crate::fixed::{ONE, fits};

verus! {

/// A point or displacement in world space, in millionths of a world unit. `y` is up.
#[derive(Clone, Copy, Debug, PartialEq, Eq, Structural)]
pub struct Position {
    pub x: i64,
    pub y: i64,
    pub z: i64,
}

impl Position {
    /// The origin.
    pub fn zero() -> (r: Position)
        ensures
            r == (Position { x: 0, y: 0, z: 0 }),
    {
        Position { x: 0, y: 0, z: 0 }
    }

    /// A point from its three coordinates.
    pub fn new(x: i64, y: i64, z: i64) -> (r: Position)
        ensures
            r == (Position { x, y, z }),
    {
        Position { x, y, z }
    }
}

/// The horizontal facing of a focus: the unit vector that points backward (away from where
/// the focus looks) in the XZ plane, in millionths.
///
/// For a yaw of `θ` about the up axis this is `(sin θ, cos θ)`; forward is its opposite, and
/// right is `(back_z, -back_x)`.
#[derive(Clone, Copy, Debug, PartialEq, Eq, Structural)]
pub struct Heading {
    pub back_x: i64,
    pub back_z: i64,
}

impl Heading {
    /// Each component lies in `[-ONE, ONE]`.
    pub open spec fn wf(self) -> bool {
        -ONE <= self.back_x <= ONE && -ONE <= self.back_z <= ONE
    }

    /// The heading of a focus with no yaw: back is `+Z`.
    pub fn identity() -> (r: Heading)
        ensures
            r == (Heading { back_x: 0, back_z: ONE }),
            r.wf(),
    {
        Heading { back_x: 0, back_z: ONE }
    }
}

/// An axis-aligned rectangle of the XZ plane: `x` in `[min_x, max_x]`, `z` in `[min_z, max_z]`.
#[derive(Clone, Copy, Debug, PartialEq, Eq, Structural)]
pub struct Bounds {
    pub min_x: i64,
    pub min_z: i64,
    pub max_x: i64,
    pub max_z: i64,
}

/// `v` clamped to `[lo, hi]`.
pub open spec fn clamp(v: int, lo: int, hi: int) -> int {
    if v < lo {
        lo
    } else if v > hi {
        hi
    } else {
        v
    }
}

impl Bounds {
    /// The minimum corner does not exceed the maximum corner on either axis.
    pub open spec fn wf(self) -> bool {
        self.min_x <= self.max_x && self.min_z <= self.max_z
    }

    /// Whether the horizontal part of `p` lies inside the rectangle, its edges included.
    pub open spec fn contains(self, p: Position) -> bool {
        self.min_x <= p.x <= self.max_x && self.min_z <= p.z <= self.max_z
    }

    /// The point of the rectangle nearest to `p` horizontally; the height of `p` is kept.
    pub open spec fn clamp_spec(self, p: Position) -> Position {
        Position {
            x: clamp(p.x as int, self.min_x as int, self.max_x as int) as i64,
            y: p.y,
            z: clamp(p.z as int, self.min_z as int, self.max_z as int) as i64,
        }
    }

    /// The rectangle centred on `(center_x, center_z)` that reaches `half_x` and `half_z`
    /// from the centre on each side.
    pub fn new(center_x: i64, center_z: i64, half_x: i64, half_z: i64) -> (r: Bounds)
        requires
            half_x >= 0,
            half_z >= 0,
            fits(center_x - half_x),
            fits(center_x + half_x),
            fits(center_z - half_z),
            fits(center_z + half_z),
        ensures
            r.min_x == center_x - half_x,
            r.max_x == center_x + half_x,
            r.min_z == center_z - half_z,
            r.max_z == center_z + half_z,
            r.wf(),
    {
        Bounds {
            min_x: center_x - half_x,
            min_z: center_z - half_z,
            max_x: center_x + half_x,
            max_z: center_z + half_z,
        }
    }
}

/// Constrains `position` to `bounds` along X and Z, keeping its height.
pub fn apply_bounds(bounds: &Bounds, position: Position) -> (r: Position)
    requires
        bounds.wf(),
    ensures
        r == bounds.clamp_spec(position),
{
    let x = if position.x < bounds.min_x {
        bounds.min_x
    } else if position.x > bounds.max_x {
        bounds.max_x
    } else {
        position.x
    };
    let z = if position.z < bounds.min_z {
        bounds.min_z
    } else if position.z > bounds.max_z {
        bounds.max_z
    } else {
        position.z
    };
    Position { x, y: position.y, z }
}

/// Clamping a point twice to the same rectangle gives what clamping it once gives.
pub proof fn lemma_apply_bounds_idempotent(bounds: Bounds, p: Position)
    requires
        bounds.wf(),
    ensures
        bounds.clamp_spec(bounds.clamp_spec(p)) == bounds.clamp_spec(p),
{
}

/// A clamped point lies inside the rectangle, keeps its height, and a point that is already
/// inside comes back unchanged.
pub proof fn lemma_apply_bounds_contains(bounds: Bounds, p: Position)
    requires
        bounds.wf(),
    ensures
        bounds.contains(bounds.clamp_spec(p)),
        bounds.clamp_spec(p).y == p.y,
        bounds.contains(p) ==> bounds.clamp_spec(p) == p,
{
}

} // verus!
