//! The control surface: how zoom, pan, rotate and drag deltas change the camera's targets.
use vstd::prelude::*;
use crate::fixed::{
    ONE, fits, lerp, lerp_i64, trunc_div, mul_div, floor_sqrt, is_floor_sqrt, isqrt, to_i64,
    lemma_lerp_between, lemma_floor_sqrt_is,
};
use crate::geometry::{Position, Heading, clamp};
use crate::camera::{RtsCamera, Focus, HALF_TURN, zoom_ok};

verus! {

/// The unit in which a mouse wheel reports its motion.
#[derive(Clone, Copy, Debug, PartialEq, Eq, Structural)]
pub enum ScrollUnit {
    /// Whole lines (notches).
    Line,
    /// Pixels; a thousand of them count as one line.
    Pixel,
}

/// The zoom amount of a wheel motion of `y` (millionths of the unit).
pub open spec fn wheel_zoom_amount_spec(unit: ScrollUnit, y: int) -> int {
    match unit {
        ScrollUnit::Line => y,
        ScrollUnit::Pixel => trunc_div(y, 1000),
    }
}

/// Converts a wheel motion into a zoom amount, in lines.
pub fn wheel_zoom_amount(unit: ScrollUnit, y: i64) -> (r: i64)
    ensures
        r == wheel_zoom_amount_spec(unit, y as int),
{
    match unit {
        ScrollUnit::Line => y,
        ScrollUnit::Pixel => mul_div(y, 1, 1000) as i64,
    }
}

/// The target zoom after a zoom delta: half the delta, scaled by the sensitivity, clamped to
/// `[0, ONE]`.
pub open spec fn zoomed_target(target_zoom: int, delta: int, sensitivity: int) -> int {
    clamp(target_zoom + trunc_div(delta * sensitivity, 2 * ONE), 0, ONE as int)
}

/// The target zoom after each delta of `deltas` in turn.
pub open spec fn zoom_after(target_zoom: int, deltas: Seq<i64>, sensitivity: int) -> int
    decreases deltas.len(),
{
    if deltas.len() == 0 {
        target_zoom
    } else {
        zoomed_target(
            zoom_after(target_zoom, deltas.drop_last(), sensitivity),
            deltas.last() as int,
            sensitivity,
        )
    }
}

/// The camera's pan speed factor at a zoom: `ONE` at no zoom down to `ONE / 2` at full zoom,
/// so that panning feels about as fast on screen at every zoom.
pub open spec fn pan_zoom_scale(zoom: int) -> int {
    lerp(ONE as int, (ONE / 2) as int, zoom)
}

/// `v` scaled by the fraction `s / ONE`, rounded toward zero.
pub open spec fn scaled(v: int, s: int) -> int {
    trunc_div(v * s, ONE as int)
}

/// The squared length of `(x, y, z)`.
pub open spec fn sq_len(p: Position) -> int {
    p.x * p.x + p.y * p.y + p.z * p.z
}

/// The length of `(x, y, z)` rounded up.
pub open spec fn length_spec(p: Position) -> int {
    let r = floor_sqrt(sq_len(p));
    if r * r == sq_len(p) {
        r
    } else {
        r + 1
    }
}

/// `p` scaled to length `ONE` (each component rounded toward zero), or zero when `p` is zero.
/// Dividing by the length rounded up keeps the result no longer than `ONE`.
pub open spec fn normalize_or_zero_spec(p: Position) -> Position {
    let len = length_spec(p);
    if len == 0 {
        Position { x: 0, y: 0, z: 0 }
    } else {
        Position {
            x: trunc_div(p.x * ONE, len) as i64,
            y: trunc_div(p.y * ONE, len) as i64,
            z: trunc_div(p.z * ONE, len) as i64,
        }
    }
}

/// How far a pan travels in `dt` microseconds at `pan_speed` (millionths of a unit a second),
/// before zoom scaling.
pub open spec fn pan_travel(dt: int, pan_speed: int) -> int {
    trunc_div(dt * pan_speed, ONE as int)
}

/// The displacement of a pan in the direction of `world_delta`, before zoom scaling.
pub open spec fn pan_offset(world_delta: Position, dt: int, pan_speed: int) -> Position {
    let dir = normalize_or_zero_spec(world_delta);
    let travel = pan_travel(dt, pan_speed);
    Position {
        x: scaled(dir.x as int, travel) as i64,
        y: scaled(dir.y as int, travel) as i64,
        z: scaled(dir.z as int, travel) as i64,
    }
}

/// The target focus after moving by `offset` scaled for the target zoom.
pub open spec fn panned_by(cam: RtsCamera, offset: Position) -> RtsCamera {
    let s = pan_zoom_scale(cam.target_zoom as int);
    let p = cam.target_focus.position;
    RtsCamera {
        target_focus: Focus {
            position: Position {
                x: (p.x + scaled(offset.x as int, s)) as i64,
                y: (p.y + scaled(offset.y as int, s)) as i64,
                z: (p.z + scaled(offset.z as int, s)) as i64,
            },
            ..cam.target_focus
        },
        ..cam
    }
}

/// Whether moving the target focus by `offset`, scaled for the target zoom, stays in range.
pub open spec fn pan_by_fits(cam: RtsCamera, offset: Position) -> bool {
    let s = pan_zoom_scale(cam.target_zoom as int);
    let p = cam.target_focus.position;
    fits(p.x + scaled(offset.x as int, s)) && fits(p.y + scaled(offset.y as int, s)) && fits(
        p.z + scaled(offset.z as int, s),
    )
}

/// The offset of a pan of `right` along the heading's right and `back` along its back.
pub open spec fn local_pan_offset(right: int, back: int, heading: Heading) -> Position {
    Position {
        x: trunc_div(right * heading.back_z + back * heading.back_x, ONE as int) as i64,
        y: 0,
        z: trunc_div(back * heading.back_z - right * heading.back_x, ONE as int) as i64,
    }
}

/// Which ways a pan input pushes: keys held, or the cursor near a window edge.
#[derive(Clone, Copy, Debug, PartialEq, Eq, Structural)]
pub struct PanKeys {
    pub forward: bool,
    pub back: bool,
    pub left: bool,
    pub right: bool,
}

/// `1` for `true`, `0` for `false`.
pub open spec fn b2i(b: bool) -> int {
    if b {
        1
    } else {
        0
    }
}

/// The sum of the unit vectors of the held directions, for a focus facing `heading`.
pub open spec fn pan_direction_spec(keys: PanKeys, heading: Heading) -> Position {
    let along = b2i(keys.back) - b2i(keys.forward);
    let across = b2i(keys.right) - b2i(keys.left);
    Position {
        x: (along * heading.back_x + across * heading.back_z) as i64,
        y: 0,
        z: (along * heading.back_z - across * heading.back_x) as i64,
    }
}

/// The edges of the window that the cursor is near: within `edge_pan_width` (a fraction of the
/// window's height) of the left, right, top or bottom edge.
pub open spec fn edge_pan_keys_spec(
    cursor_x: int,
    cursor_y: int,
    window_width: int,
    window_height: int,
    edge_pan_width: int,
) -> PanKeys {
    let w = scaled(window_height, edge_pan_width);
    PanKeys {
        left: cursor_x < w,
        right: cursor_x > window_width - w,
        forward: cursor_y < w,
        back: cursor_y > window_height - w,
    }
}

/// The yaw change of a horizontal mouse drag of `mouse_dx`: the window's full width turns the
/// view half a turn.
pub open spec fn mouse_rotate_amount_spec(mouse_dx: int, window_width: int) -> int {
    trunc_div(mouse_dx * HALF_TURN, window_width)
}

/// The yaw change of the rotate keys for one frame, at `speed` (millionths).
pub open spec fn key_rotate_amount_spec(left: bool, right: bool, window_width: int, speed: int) -> int {
    trunc_div((b2i(left) - b2i(right)) * HALF_TURN * speed, window_width)
}

/// How the rendered view maps the screen to the world, as far as drag panning needs it.
#[derive(Clone, Copy, Debug, PartialEq, Eq, Structural)]
pub enum Projection {
    /// A vertical field of view (microradians) and a width-to-height ratio (millionths).
    Perspective { fov: i64, aspect_ratio: i64 },
    /// The visible area's width and height, in millionths of a world unit.
    Orthographic { width: i64, height: i64 },
    /// A projection with no rule for drag panning.
    Custom,
}

/// Why a drag could not be turned into a pan.
#[derive(Clone, Copy, Debug, PartialEq, Eq, Structural)]
pub enum GrabError {
    /// The projection is neither perspective nor orthographic.
    UnsupportedProjection,
    /// A distance, a scaled drag or the moved target would not fit an `i64`.
    OutOfRange,
}

/// A control would move a value beyond what an `i64` holds; nothing was changed.
#[derive(Clone, Copy, Debug, PartialEq, Eq, Structural)]
pub struct OutOfRange;

/// Whether every intermediate of a drag and the moved target fit `i64`s.
pub open spec fn grab_in_range(
    cam: RtsCamera,
    dx: int,
    dy: int,
    anchor: Option<Position>,
    camera_position: Position,
    projection: Projection,
    vw: int,
    vh: int,
    heading: Heading,
) -> bool {
    let reference = grab_reference(cam, anchor);
    let dist = distance_spec(camera_position, reference);
    &&& (projection is Perspective ==> distance_fits(camera_position, reference))
    &&& grab_world_drag_fits(projection, dx, dy, vw, vh, dist)
    &&& match grab_world_drag(projection, dx, dy, vw, vh, dist) {
        Some((wx, wy)) => {
            let (ox, oz) = grab_offset(wx, wy, heading);
            fits(cam.target_focus.position.x + ox) && fits(cam.target_focus.position.z + oz)
        },
        None => true,
    }
}

/// The distance between two points, rounded down.
pub open spec fn distance_spec(a: Position, b: Position) -> int {
    floor_sqrt(
        (a.x - b.x) * (a.x - b.x) + (a.y - b.y) * (a.y - b.y) + (a.z - b.z) * (a.z - b.z),
    )
}

/// Whether the coordinate differences of two points can be held by `i64`s.
pub open spec fn distance_fits(a: Position, b: Position) -> bool {
    fits(a.x - b.x) && fits(a.y - b.y) && fits(a.z - b.z)
}

/// The point whose distance from the camera scales a perspective drag: the grabbed ground point,
/// or the focus when nothing was grabbed.
pub open spec fn grab_reference(cam: RtsCamera, anchor: Option<Position>) -> Position {
    match anchor {
        Some(a) => a,
        None => cam.focus.position,
    }
}

/// The world-space drag `(right, forward)` for a screen drag `(dx, dy)` over a viewport of
/// `vw` by `vh`. A perspective view scales the drag by the field of view per pixel and by the
/// distance to the grabbed point; an orthographic view by the visible area per pixel alone.
pub open spec fn grab_world_drag(
    projection: Projection,
    dx: int,
    dy: int,
    vw: int,
    vh: int,
    dist: int,
) -> Option<(int, int)> {
    match projection {
        Projection::Perspective { fov, aspect_ratio } => {
            let fov_x = scaled(fov as int, aspect_ratio as int);
            let sx = trunc_div(dx * fov_x, vw);
            let sy = trunc_div(dy * fov, vh);
            Some((scaled(sx, dist), scaled(sy, dist)))
        },
        Projection::Orthographic { width, height } => {
            Some((trunc_div(dx * width, vw), trunc_div(dy * height, vh)))
        },
        Projection::Custom => None,
    }
}

/// Whether every intermediate value of `grab_world_drag` can be held by an `i64`.
pub open spec fn grab_world_drag_fits(
    projection: Projection,
    dx: int,
    dy: int,
    vw: int,
    vh: int,
    dist: int,
) -> bool {
    match projection {
        Projection::Perspective { fov, aspect_ratio } => {
            let fov_x = scaled(fov as int, aspect_ratio as int);
            let sx = trunc_div(dx * fov_x, vw);
            let sy = trunc_div(dy * fov, vh);
            fits(dist) && fits(fov_x) && fits(sx) && fits(sy) && fits(scaled(sx, dist)) && fits(
                scaled(sy, dist),
            )
        },
        Projection::Orthographic { width, height } => {
            fits(trunc_div(dx * width, vw)) && fits(trunc_div(dy * height, vh))
        },
        Projection::Custom => true,
    }
}

/// The horizontal displacement of the target focus for a world-space drag: forward by
/// `forward`, and against the drag sideways (the ground follows the cursor).
pub open spec fn grab_offset(right: int, forward: int, heading: Heading) -> (int, int) {
    (
        trunc_div(-heading.back_x * forward - heading.back_z * right, ONE as int),
        trunc_div(-heading.back_z * forward + heading.back_x * right, ONE as int),
    )
}

/// The camera after a drag, or the error for an unsupported projection.
pub open spec fn grabbed(
    cam: RtsCamera,
    dx: int,
    dy: int,
    anchor: Option<Position>,
    camera_position: Position,
    projection: Projection,
    vw: int,
    vh: int,
    heading: Heading,
) -> Option<RtsCamera> {
    let dist = distance_spec(camera_position, grab_reference(cam, anchor));
    match grab_world_drag(projection, dx, dy, vw, vh, dist) {
        Some((wx, wy)) => {
            let (ox, oz) = grab_offset(wx, wy, heading);
            let p = cam.target_focus.position;
            Some(
                RtsCamera {
                    target_focus: Focus {
                        position: Position { x: (p.x + ox) as i64, z: (p.z + oz) as i64, ..p },
                        ..cam.target_focus
                    },
                    ..cam
                },
            )
        },
        None => None,
    }
}

/// Whatever zoom deltas arrive, one after another, the target zoom stays in `[0, ONE]` at every
/// step, starting from a target zoom in range.
pub proof fn lemma_zoom_stays_in_range(target_zoom: int, deltas: Seq<i64>, sensitivity: int)
    requires
        0 <= target_zoom <= ONE,
    ensures
        forall|i: int|
            0 <= i <= deltas.len() ==> 0 <= #[trigger] zoom_after(
                target_zoom,
                deltas.take(i),
                sensitivity,
            ) <= ONE,
{
    assert forall|i: int| 0 <= i <= deltas.len() implies 0 <= #[trigger] zoom_after(
        target_zoom,
        deltas.take(i),
        sensitivity,
    ) <= ONE by {
        if i == 0 {
            assert(deltas.take(i).len() == 0);
        }
    }
}

/// `|v * s / ONE| <= |v|` when `0 <= s <= ONE`, and likewise for `|s| <= ONE`.
proof fn lemma_scaled_bounded(v: int, s: int)
    requires
        -ONE <= s <= ONE,
    ensures
        -(if v >= 0 { v } else { -v }) <= scaled(v, s) <= (if v >= 0 { v } else { -v }),
{
    let m = if v >= 0 { v } else { -v };
    assert(-(m * ONE) <= v * s <= m * ONE) by (nonlinear_arith)
        requires
            -ONE <= s <= ONE,
            m == (if v >= 0 { v } else { -v }),
    ;
}

/// A component of a vector is no longer than any bound on the vector's length.
proof fn lemma_component_within_length(c: int, n: int, len: int)
    requires
        c * c <= n,
        n <= len * len,
        0 <= len,
    ensures
        -len <= c <= len,
{
    if c > len {
        assert(len * len < c * c) by (nonlinear_arith)
            requires
                0 <= len < c,
        ;
    } else if -c > len {
        assert(len * len < c * c) by (nonlinear_arith)
            requires
                0 <= len < -c,
        ;
    }
}

/// `c * ONE / len` lies in `[-ONE, ONE]` when `|c| <= len`.
proof fn lemma_unit_component(c: int, len: int)
    requires
        len > 0,
        -len <= c <= len,
    ensures
        -ONE <= trunc_div(c * ONE, len) <= ONE,
{
    assert(-(len * ONE) <= c * ONE <= len * ONE) by (nonlinear_arith)
        requires
            -len <= c <= len,
            len > 0,
    ;
    assert(c * ONE >= 0 ==> (c * ONE) / len <= ONE) by (nonlinear_arith)
        requires
            c * ONE <= len * ONE,
            len > 0,
    ;
    assert(c * ONE < 0 ==> (-(c * ONE)) / len <= ONE) by (nonlinear_arith)
        requires
            -(c * ONE) <= len * ONE,
            len > 0,
    ;
}

/// The squared length of a point held in `i64`s fits a `u128`, and so does its root in a `u64`.
proof fn lemma_square_sum_bounds(x: int, y: int, z: int)
    requires
        fits(x),
        fits(y),
        fits(z),
    ensures
        0 <= x * x <= 0x4000_0000_0000_0000_0000_0000_0000_0000,
        0 <= y * y <= 0x4000_0000_0000_0000_0000_0000_0000_0000,
        0 <= z * z <= 0x4000_0000_0000_0000_0000_0000_0000_0000,
        0 <= x * x + y * y + z * z <= 3 * 0x4000_0000_0000_0000_0000_0000_0000_0000,
{
    assert(0 <= x * x <= 0x4000_0000_0000_0000_0000_0000_0000_0000) by (nonlinear_arith)
        requires
            fits(x),
    ;
    assert(0 <= y * y <= 0x4000_0000_0000_0000_0000_0000_0000_0000) by (nonlinear_arith)
        requires
            fits(y),
    ;
    assert(0 <= z * z <= 0x4000_0000_0000_0000_0000_0000_0000_0000) by (nonlinear_arith)
        requires
            fits(z),
    ;
}

/// `x^2 + y^2 + z^2`.
fn square_sum(x: i128, y: i128, z: i128) -> (r: u128)
    requires
        fits(x as int),
        fits(y as int),
        fits(z as int),
    ensures
        r == x * x + y * y + z * z,
        r <= 3 * 0x4000_0000_0000_0000_0000_0000_0000_0000,
{
    proof {
        lemma_square_sum_bounds(x as int, y as int, z as int);
    }
    (x * x) as u128 + (y * y) as u128 + (z * z) as u128
}

/// The distance between two points, rounded down.
pub fn distance(a: Position, b: Position) -> (r: u64)
    requires
        distance_fits(a, b),
    ensures
        r == distance_spec(a, b),
{
    let n = square_sum(a.x as i128 - b.x as i128, a.y as i128 - b.y as i128, a.z as i128 - b.z as i128);
    isqrt(n)
}

/// Scales `p` to length `ONE`; the zero vector stays zero.
pub fn normalize_or_zero(p: Position) -> (r: Position)
    ensures
        r == normalize_or_zero_spec(p),
        -ONE <= r.x <= ONE,
        -ONE <= r.y <= ONE,
        -ONE <= r.z <= ONE,
{
    let n = square_sum(p.x as i128, p.y as i128, p.z as i128);
    let root = isqrt(n);
    let len: u128 = if (root as u128) * (root as u128) == n {
        root as u128
    } else {
        root as u128 + 1
    };
    if len == 0 {
        return Position { x: 0, y: 0, z: 0 };
    }
    proof {
        let nn = p.x * p.x + p.y * p.y + p.z * p.z;
        assert(p.x * p.x >= 0 && p.y * p.y >= 0 && p.z * p.z >= 0) by (nonlinear_arith);
        assert(nn <= len * len) by (nonlinear_arith)
            requires
                nn < (root + 1) * (root + 1),
                len == root || len == root + 1,
                len == root ==> root * root == nn,
        ;
        lemma_component_within_length(p.x as int, nn, len as int);
        lemma_component_within_length(p.y as int, nn, len as int);
        lemma_component_within_length(p.z as int, nn, len as int);
        lemma_unit_component(p.x as int, len as int);
        lemma_unit_component(p.y as int, len as int);
        lemma_unit_component(p.z as int, len as int);
    }
    let l = len as i128;
    Position {
        x: unit_component(p.x, l),
        y: unit_component(p.y, l),
        z: unit_component(p.z, l),
    }
}

/// `c * ONE / len`, rounded toward zero.
fn unit_component(c: i64, len: i128) -> (r: i64)
    requires
        0 < len <= 0x1_0000_0000_0000_0000,
        -ONE <= trunc_div(c * ONE, len as int) <= ONE,
    ensures
        r == trunc_div(c * ONE, len as int),
{
    let p: i128 = c as i128 * ONE as i128;
    if p >= 0 {
        ((p as u128) / (len as u128)) as i64
    } else {
        -((((-p) as u128) / (len as u128)) as i64)
    }
}

impl RtsCamera {
    /// Changes the target zoom by half of `delta` times `sensitivity` (millionths), keeping it
    /// in `[0, ONE]`.
    pub fn apply_zoom_delta(&mut self, delta: i64, sensitivity: i64)
        ensures
            final(self).target_zoom == zoomed_target(
                old(self).target_zoom as int,
                delta as int,
                sensitivity as int,
            ),
            0 <= final(self).target_zoom <= ONE,
            *final(self) == (RtsCamera { target_zoom: final(self).target_zoom, ..*old(self) }),
            old(self).wf() ==> final(self).wf(),
    {
        let change = mul_div(delta, sensitivity, 2 * ONE);
        let z: i128 = self.target_zoom as i128 + change;
        self.target_zoom = if z < 0 {
            0
        } else if z > ONE as i128 {
            ONE
        } else {
            z as i64
        };
    }

    /// Moves the target focus by `offset`, scaled down for the target zoom (by half at full
    /// zoom); refused, with nothing changed, when the new target would not fit.
    pub fn pan_by(&mut self, offset: Position) -> (r: Result<(), OutOfRange>)
        requires
            zoom_ok(old(self).target_zoom),
        ensures
            r is Ok <==> pan_by_fits(*old(self), offset),
            r is Ok ==> *final(self) == panned_by(*old(self), offset),
            r is Err ==> *final(self) == *old(self),
            old(self).wf() ==> final(self).wf(),
    {
        proof {
            lemma_lerp_between(ONE as int, (ONE / 2) as int, self.target_zoom as int);
        }
        let s = lerp_i64(ONE, ONE / 2, self.target_zoom);
        let p = self.target_focus.position;
        let x = to_i64(p.x as i128 + mul_div(offset.x, s, ONE));
        let y = to_i64(p.y as i128 + mul_div(offset.y, s, ONE));
        let z = to_i64(p.z as i128 + mul_div(offset.z, s, ONE));
        match (x, y, z) {
            (Some(x), Some(y), Some(z)) => {
                self.target_focus.position = Position { x, y, z };
                Ok(())
            },
            _ => Err(OutOfRange),
        }
    }

    /// Pans the target focus in the direction of `world_delta` at `pan_speed` (millionths of a
    /// unit a second) for `dt` microseconds, scaled for the target zoom. Only the direction of
    /// `world_delta` counts: two keys held at once pan no faster than one. Refused, with nothing
    /// changed, when the travel or the new target would not fit.
    pub fn apply_pan_delta(&mut self, world_delta: Position, dt: u64, pan_speed: i64) -> (r:
        Result<(), OutOfRange>)
        requires
            zoom_ok(old(self).target_zoom),
        ensures
            r is Ok <==> fits(pan_travel(dt as int, pan_speed as int)) && pan_by_fits(
                *old(self),
                pan_offset(world_delta, dt as int, pan_speed as int),
            ),
            r is Ok ==> *final(self) == panned_by(
                *old(self),
                pan_offset(world_delta, dt as int, pan_speed as int),
            ),
            r is Err ==> *final(self) == *old(self),
            old(self).wf() ==> final(self).wf(),
    {
        let dir = normalize_or_zero(world_delta);
        assert(-0x8000_0000_0000_0000_0000_0000_0000_0000 < dt * pan_speed
            < 0x8000_0000_0000_0000_0000_0000_0000_0000) by (nonlinear_arith)
            requires
                0 <= dt <= u64::MAX,
                i64::MIN <= pan_speed <= i64::MAX,
        ;
        let p: i128 = dt as i128 * pan_speed as i128;
        let travel: i128 = if p >= 0 {
            ((p as u128) / (ONE as u128)) as i128
        } else {
            -((((-p) as u128) / (ONE as u128)) as i128)
        };
        let travel: i64 = match to_i64(travel) {
            Some(v) => v,
            None => return Err(OutOfRange),
        };
        proof {
            lemma_scaled_bounded(travel as int, dir.x as int);
            lemma_scaled_bounded(travel as int, dir.y as int);
            lemma_scaled_bounded(travel as int, dir.z as int);
            assert(dir.x * travel == travel * dir.x) by (nonlinear_arith);
            assert(dir.y * travel == travel * dir.y) by (nonlinear_arith);
            assert(dir.z * travel == travel * dir.z) by (nonlinear_arith);
        }
        let offset = Position {
            x: mul_div(dir.x, travel, ONE) as i64,
            y: mul_div(dir.y, travel, ONE) as i64,
            z: mul_div(dir.z, travel, ONE) as i64,
        };
        self.pan_by(offset)
    }

    /// Pans the target focus by `right` along the focus's right and `back` along its back
    /// (millionths of a unit), scaled for the target zoom. Refused, with nothing changed, when
    /// the offset or the new target would not fit.
    pub fn apply_local_pan_delta(&mut self, right: i64, back: i64, heading: Heading) -> (r: Result<
        (),
        OutOfRange,
    >)
        requires
            zoom_ok(old(self).target_zoom),
            heading.wf(),
        ensures
            r is Ok <==> fits(trunc_div(right * heading.back_z + back * heading.back_x, ONE as int))
                && fits(trunc_div(back * heading.back_z - right * heading.back_x, ONE as int))
                && pan_by_fits(*old(self), local_pan_offset(right as int, back as int, heading)),
            r is Ok ==> *final(self) == panned_by(
                *old(self),
                local_pan_offset(right as int, back as int, heading),
            ),
            r is Err ==> *final(self) == *old(self),
            old(self).wf() ==> final(self).wf(),
    {
        let x = combine(right, heading.back_z, back as i128, heading.back_x);
        let z = combine(back, heading.back_z, -(right as i128), heading.back_x);
        assert(back * heading.back_z + (-right) * heading.back_x == back * heading.back_z - right
            * heading.back_x) by (nonlinear_arith);
        match (to_i64(x), to_i64(z)) {
            (Some(x), Some(z)) => self.pan_by(Position { x, y: 0, z }),
            _ => Err(OutOfRange),
        }
    }

    /// Turns the target focus about the up axis by `-yaw_delta` (microradians): a rightward
    /// drag turns the view clockwise seen from above. Refused, with nothing changed, when the
    /// new yaw would not fit.
    pub fn apply_rotate_delta(&mut self, yaw_delta: i64) -> (r: Result<(), OutOfRange>)
        ensures
            r is Ok <==> fits(old(self).target_focus.yaw - yaw_delta),
            r is Ok ==> *final(self) == (RtsCamera {
                target_focus: Focus {
                    yaw: (old(self).target_focus.yaw - yaw_delta) as i64,
                    ..old(self).target_focus
                },
                ..*old(self)
            }),
            r is Err ==> *final(self) == *old(self),
            old(self).wf() ==> final(self).wf(),
    {
        match self.target_focus.yaw.checked_sub(yaw_delta) {
            Some(yaw) => {
                self.target_focus.yaw = yaw;
                Ok(())
            },
            None => Err(OutOfRange),
        }
    }

    /// Pans the target focus for a drag of `(screen_dx, screen_dy)` across a viewport of
    /// `viewport_width` by `viewport_height` (all in millionths of a pixel), so that the grabbed
    /// point stays under the cursor. A perspective drag is scaled by the distance from
    /// `camera_position` to the grabbed ground point `anchor`, or to the focus when nothing was
    /// grabbed; an orthographic drag is not. A custom projection is refused, and so is a drag
    /// whose arithmetic would not fit; either way the camera is left unchanged.
    pub fn apply_grab_delta(
        &mut self,
        screen_dx: i64,
        screen_dy: i64,
        anchor: Option<Position>,
        camera_position: Position,
        projection: Projection,
        viewport_width: i64,
        viewport_height: i64,
        heading: Heading,
    ) -> (r: Result<(), GrabError>)
        requires
            viewport_width > 0,
            viewport_height > 0,
            heading.wf(),
        ensures
            r == Err::<(), GrabError>(GrabError::UnsupportedProjection) <==> projection is Custom,
            r == Err::<(), GrabError>(GrabError::OutOfRange) <==> !(projection is Custom)
                && !grab_in_range(*old(self), screen_dx as int, screen_dy as int, anchor,
                camera_position, projection, viewport_width as int, viewport_height as int,
                heading),
            r is Err ==> *final(self) == *old(self),
            r is Ok ==> Some(*final(self)) == grabbed(*old(self), screen_dx as int,
                screen_dy as int, anchor, camera_position, projection, viewport_width as int,
                viewport_height as int, heading),
            old(self).wf() ==> final(self).wf(),
    {
        let (wx, wy): (i64, i64) = match projection {
            Projection::Perspective { fov, aspect_ratio } => {
                let reference = match anchor {
                    Some(a) => a,
                    None => self.focus.position,
                };
                let (cx, rx) = (camera_position.x as i128, reference.x as i128);
                let (cy, ry) = (camera_position.y as i128, reference.y as i128);
                let (cz, rz) = (camera_position.z as i128, reference.z as i128);
                if to_i64(cx - rx).is_none() || to_i64(cy - ry).is_none() || to_i64(
                    cz - rz,
                ).is_none() {
                    return Err(GrabError::OutOfRange);
                }
                let dist = match to_i64(distance(camera_position, reference) as i128) {
                    Some(v) => v,
                    None => return Err(GrabError::OutOfRange),
                };
                let fov_x = match to_i64(mul_div(fov, aspect_ratio, ONE)) {
                    Some(v) => v,
                    None => return Err(GrabError::OutOfRange),
                };
                let sx = match to_i64(mul_div(screen_dx, fov_x, viewport_width)) {
                    Some(v) => v,
                    None => return Err(GrabError::OutOfRange),
                };
                let sy = match to_i64(mul_div(screen_dy, fov, viewport_height)) {
                    Some(v) => v,
                    None => return Err(GrabError::OutOfRange),
                };
                match (to_i64(mul_div(sx, dist, ONE)), to_i64(mul_div(sy, dist, ONE))) {
                    (Some(wx), Some(wy)) => (wx, wy),
                    _ => return Err(GrabError::OutOfRange),
                }
            },
            Projection::Orthographic { width, height } => {
                match (
                    to_i64(mul_div(screen_dx, width, viewport_width)),
                    to_i64(mul_div(screen_dy, height, viewport_height)),
                ) {
                    (Some(wx), Some(wy)) => (wx, wy),
                    _ => return Err(GrabError::OutOfRange),
                }
            },
            Projection::Custom => {
                return Err(GrabError::UnsupportedProjection);
            },
        };
        let ox = combine(wy, -heading.back_x, wx as i128, -heading.back_z);
        let oz = combine(wy, -heading.back_z, wx as i128, heading.back_x);
        assert(-heading.back_x * wy - heading.back_z * wx == wy * (-heading.back_x) + wx * (
        -heading.back_z)) by (nonlinear_arith);
        assert(-heading.back_z * wy + heading.back_x * wx == wy * (-heading.back_z) + wx
            * heading.back_x) by (nonlinear_arith);
        let p = self.target_focus.position;
        match (to_i64(p.x as i128 + ox), to_i64(p.z as i128 + oz)) {
            (Some(x), Some(z)) => {
                self.target_focus.position = Position { x, y: p.y, z };
                Ok(())
            },
            _ => Err(GrabError::OutOfRange),
        }
    }
}

/// `(a * b + c * d) / ONE`, rounded toward zero, for `|b|, |d| <= ONE`.
fn combine(a: i64, b: i64, c: i128, d: i64) -> (r: i128)
    requires
        -ONE <= b <= ONE,
        -ONE <= d <= ONE,
        -0x8000_0000_0000_0000 <= c <= 0x8000_0000_0000_0000,
    ensures
        r == trunc_div(a * b + c * d, ONE as int),
        -0x2_0000_0000_0000_0000 <= r <= 0x2_0000_0000_0000_0000,
{
    assert(-0x8000_0000_0000_0000 * ONE <= a * b <= 0x8000_0000_0000_0000 * ONE) by (nonlinear_arith)
        requires
            -ONE <= b <= ONE,
            i64::MIN <= a <= i64::MAX,
    ;
    assert(-0x8000_0000_0000_0000 * ONE <= c * d <= 0x8000_0000_0000_0000 * ONE) by (nonlinear_arith)
        requires
            -ONE <= d <= ONE,
            -0x8000_0000_0000_0000 <= c <= 0x8000_0000_0000_0000,
    ;
    let n: i128 = a as i128 * b as i128 + c * d as i128;
    assert(-0x2_0000_0000_0000_0000 * ONE <= n <= 0x2_0000_0000_0000_0000 * ONE);
    if n >= 0 {
        ((n as u128) / (ONE as u128)) as i128
    } else {
        -((((-n) as u128) / (ONE as u128)) as i128)
    }
}

/// The summed unit vectors of the held pan directions, for a focus facing `heading`.
pub fn pan_direction(keys: PanKeys, heading: Heading) -> (r: Position)
    requires
        heading.wf(),
    ensures
        r == pan_direction_spec(keys, heading),
{
    let along: i64 = (if keys.back { 1i64 } else { 0 }) - (if keys.forward { 1i64 } else { 0 });
    let across: i64 = (if keys.right { 1i64 } else { 0 }) - (if keys.left { 1i64 } else { 0 });
    assert(-ONE <= along * heading.back_x <= ONE && -ONE <= across * heading.back_z <= ONE
        && -ONE <= along * heading.back_z <= ONE && -ONE <= across * heading.back_x <= ONE)
        by (nonlinear_arith)
        requires
            -1 <= along <= 1,
            -1 <= across <= 1,
            heading.wf(),
    ;
    Position {
        x: along * heading.back_x + across * heading.back_z,
        y: 0,
        z: along * heading.back_z - across * heading.back_x,
    }
}

/// The edges that the cursor is near, for edge panning. Positions and sizes are in millionths
/// of a pixel, `edge_pan_width` is a fraction of the window's height.
pub fn edge_pan_keys(
    cursor_x: i64,
    cursor_y: i64,
    window_width: i64,
    window_height: i64,
    edge_pan_width: i64,
) -> (r: PanKeys)
    ensures
        r == edge_pan_keys_spec(
            cursor_x as int,
            cursor_y as int,
            window_width as int,
            window_height as int,
            edge_pan_width as int,
        ),
{
    let w = mul_div(window_height, edge_pan_width, ONE);
    PanKeys {
        left: (cursor_x as i128) < w,
        right: (cursor_x as i128) > window_width as i128 - w,
        forward: (cursor_y as i128) < w,
        back: (cursor_y as i128) > window_height as i128 - w,
    }
}

/// The yaw delta (for `apply_rotate_delta`) of a horizontal mouse drag of `mouse_dx` over a
/// window `window_width` wide: the full width turns the view half a turn. `None` when it would
/// not fit.
pub fn mouse_rotate_amount(mouse_dx: i64, window_width: i64) -> (r: Option<i64>)
    requires
        window_width > 0,
    ensures
        r is Some <==> fits(mouse_rotate_amount_spec(mouse_dx as int, window_width as int)),
        r is Some ==> r->Some_0 == mouse_rotate_amount_spec(mouse_dx as int, window_width as int),
{
    to_i64(mul_div(mouse_dx, HALF_TURN, window_width))
}

/// The yaw delta (for `apply_rotate_delta`) of the rotate keys over one frame at `speed`
/// (millionths): the left key turns one way, the right key the other, both at once not at all.
/// `None` when it would not fit.
pub fn key_rotate_amount(left: bool, right: bool, window_width: i64, speed: i64) -> (r: Option<
    i64,
>)
    requires
        window_width > 0,
    ensures
        r is Some <==> fits(key_rotate_amount_spec(left, right, window_width as int, speed as int)),
        r is Some ==> r->Some_0 == key_rotate_amount_spec(
            left,
            right,
            window_width as int,
            speed as int,
        ),
{
    let dir: i64 = (if left { 1i64 } else { 0 }) - (if right { 1i64 } else { 0 });
    assert(dir * HALF_TURN * speed == speed * (dir * HALF_TURN)) by (nonlinear_arith);
    to_i64(mul_div(speed, dir * HALF_TURN, window_width))
}

/// Every non-negative integer has a square root rounded down.
proof fn lemma_floor_sqrt_exists(n: int)
    requires
        0 <= n,
    ensures
        is_floor_sqrt(n, floor_sqrt(n)),
    decreases n,
{
    if n == 0 {
        assert(is_floor_sqrt(0, 0));
    } else {
        lemma_floor_sqrt_exists(n - 1);
        let r = floor_sqrt(n - 1);
        if (r + 1) * (r + 1) <= n {
            assert((r + 2) * (r + 2) > n) by (nonlinear_arith)
                requires
                    0 <= r,
                    n - 1 < (r + 1) * (r + 1),
            ;
            assert(is_floor_sqrt(n, r + 1));
        } else {
            assert(is_floor_sqrt(n, r));
        }
    }
}

/// Rounding a quotient toward zero never makes it larger: `q^2 d^2 <= n^2` for `q = n / d`.
proof fn lemma_trunc_div_sq(n: int, d: int)
    requires
        d > 0,
    ensures
        trunc_div(n, d) * trunc_div(n, d) * (d * d) <= n * n,
{
    let m = if n >= 0 { n } else { -n };
    let q = m / d;
    vstd::arithmetic::div_mod::lemma_fundamental_div_mod(m, d);
    vstd::arithmetic::div_mod::lemma_mod_pos_bound(m, d);
    vstd::arithmetic::div_mod::lemma_div_pos_is_pos(m, d);
    assert(0 <= q * d <= m) by (nonlinear_arith)
        requires
            m == d * q + m % d,
            0 <= m % d,
            0 <= q,
            d > 0,
    ;
    assert(q * q * (d * d) <= m * m) by (nonlinear_arith)
        requires
            0 <= q * d <= m,
    ;
    assert(m * m == n * n) by (nonlinear_arith)
        requires
            m == n || m == -n,
    ;
    assert(trunc_div(n, d) * trunc_div(n, d) == q * q) by (nonlinear_arith)
        requires
            trunc_div(n, d) == q || trunc_div(n, d) == -q,
    ;
}

/// The normalized vector is no longer than `ONE`.
pub proof fn lemma_normalize_or_zero_bounded(p: Position)
    ensures
        sq_len(normalize_or_zero_spec(p)) <= ONE * ONE,
{
    let n = sq_len(p);
    assert(p.x * p.x >= 0 && p.y * p.y >= 0 && p.z * p.z >= 0) by (nonlinear_arith);
    lemma_floor_sqrt_exists(n);
    let r = floor_sqrt(n);
    let len = length_spec(p);
    if len != 0 {
        assert(n <= len * len) by (nonlinear_arith)
            requires
                n < (r + 1) * (r + 1),
                len == r || len == r + 1,
                len == r ==> r * r == n,
        ;
        assert(len > 0);
        lemma_component_within_length(p.x as int, n, len);
        lemma_component_within_length(p.y as int, n, len);
        lemma_component_within_length(p.z as int, n, len);
        lemma_unit_component(p.x as int, len);
        lemma_unit_component(p.y as int, len);
        lemma_unit_component(p.z as int, len);
        let (ux, uy, uz) = (
            trunc_div(p.x * ONE, len),
            trunc_div(p.y * ONE, len),
            trunc_div(p.z * ONE, len),
        );
        lemma_trunc_div_sq(p.x * ONE, len);
        lemma_trunc_div_sq(p.y * ONE, len);
        lemma_trunc_div_sq(p.z * ONE, len);
        assert((ux * ux + uy * uy + uz * uz) * (len * len) <= (ONE * ONE) * n) by (nonlinear_arith)
            requires
                ux * ux * (len * len) <= (p.x * ONE) * (p.x * ONE),
                uy * uy * (len * len) <= (p.y * ONE) * (p.y * ONE),
                uz * uz * (len * len) <= (p.z * ONE) * (p.z * ONE),
                n == p.x * p.x + p.y * p.y + p.z * p.z,
        ;
        assert(ux * ux + uy * uy + uz * uz <= ONE * ONE) by (nonlinear_arith)
            requires
                (ux * ux + uy * uy + uz * uz) * (len * len) <= (ONE * ONE) * n,
                n <= len * len,
                len > 0,
        ;
        let u = normalize_or_zero_spec(p);
        assert(u.x == ux && u.y == uy && u.z == uz);
    }
}

/// However many directions are held at once, a pan covers no more ground than its travel
/// allows: the squared length of the offset is at most the squared travel. One direction held
/// alone (a single non-zero axis) covers the travel exactly.
pub proof fn lemma_pan_no_faster_than_travel(world_delta: Position, dt: int, pan_speed: int)
    requires
        fits(pan_travel(dt, pan_speed)),
        fits(-pan_travel(dt, pan_speed)),
    ensures
        sq_len(pan_offset(world_delta, dt, pan_speed)) <= pan_travel(dt, pan_speed) * pan_travel(
            dt,
            pan_speed,
        ),
        world_delta.x == 0 && world_delta.y == 0 && world_delta.z > 0 ==> pan_offset(
            world_delta,
            dt,
            pan_speed,
        ) == (Position { x: 0, y: 0, z: pan_travel(dt, pan_speed) as i64 }),
{
    let travel = pan_travel(dt, pan_speed);
    let u = normalize_or_zero_spec(world_delta);
    lemma_normalize_or_zero_bounded(world_delta);
    assert(-ONE <= u.x <= ONE && -ONE <= u.y <= ONE && -ONE <= u.z <= ONE) by (nonlinear_arith)
        requires
            u.x * u.x + u.y * u.y + u.z * u.z <= ONE * ONE,
    ;
    lemma_scaled_bounded(travel, u.x as int);
    lemma_scaled_bounded(travel, u.y as int);
    lemma_scaled_bounded(travel, u.z as int);
    assert(u.x * travel == travel * u.x && u.y * travel == travel * u.y && u.z * travel == travel
        * u.z) by (nonlinear_arith);
    let (ox, oy, oz) = (scaled(u.x as int, travel), scaled(u.y as int, travel), scaled(u.z as int, travel));
    lemma_trunc_div_sq(u.x * travel, ONE as int);
    lemma_trunc_div_sq(u.y * travel, ONE as int);
    lemma_trunc_div_sq(u.z * travel, ONE as int);
    let (a, b, c) = (u.x as int, u.y as int, u.z as int);
    let t2 = travel * travel;
    assert(t2 >= 0) by (nonlinear_arith)
        requires
            t2 == travel * travel,
    ;
    assert((a * travel) * (a * travel) == (a * a) * t2 && (b * travel) * (b * travel) == (b * b)
        * t2 && (c * travel) * (c * travel) == (c * c) * t2) by (nonlinear_arith)
        requires
            t2 == travel * travel,
    ;
    assert((a * a) * t2 + (b * b) * t2 + (c * c) * t2 == (a * a + b * b + c * c) * t2)
        by (nonlinear_arith);
    assert((a * a + b * b + c * c) * t2 <= (ONE * ONE) * t2) by (nonlinear_arith)
        requires
            a * a + b * b + c * c <= ONE * ONE,
            t2 >= 0,
    ;
    assert(ox * ox + oy * oy + oz * oz <= t2);
    assert(ox == scaled(travel, a) && oy == scaled(travel, b) && oz == scaled(travel, c));
    assert(fits(ox) && fits(oy) && fits(oz));
    let o = pan_offset(world_delta, dt, pan_speed);
    assert(o.x == ox && o.y == oy && o.z == oz);
    if world_delta.x == 0 && world_delta.y == 0 && world_delta.z > 0 {
        let v = world_delta.z as int;
        assert(is_floor_sqrt(v * v, v)) by (nonlinear_arith)
            requires
                v > 0,
        ;
        lemma_floor_sqrt_is(v * v, v);
        assert(sq_len(world_delta) == v * v);
        assert(length_spec(world_delta) == v);
        assert(v * ONE / v == ONE) by (nonlinear_arith)
            requires
                v > 0,
        ;
        assert(u.x == 0 && u.y == 0 && u.z == ONE);
        assert(ONE * travel == travel * ONE) by (nonlinear_arith);
        assert(scaled(ONE as int, travel) == travel);
        assert(0 * travel == 0);
        assert(scaled(0, travel) == 0);
    }
}

} // verus!
