//! The camera's state and the per-frame stages that move it toward its targets.
use vstd::prelude::*;
use crate::fixed::{ONE, fits, lerp, lerp_i64, floor_sqrt, isqrt, abs_diff, lemma_lerp_between};
use crate::geometry::{Position, Bounds, apply_bounds};

verus! {

/// A quarter turn (90 degrees), in microradians.
pub const QUARTER_TURN: i64 = 1_570_796;

/// Half a turn (180 degrees), in microradians.
pub const HALF_TURN: i64 = 3_141_593;

/// A full turn (360 degrees), in microradians.
pub const FULL_TURN: i64 = 6_283_185;

/// The tilt that a dynamic angle reaches at full zoom: a fifth of a turn (72 degrees),
/// in microradians.
pub const MAX_ANGLE: i64 = 1_256_637;

/// Twenty degrees, in microradians: the default tilt.
pub const DEFAULT_ANGLE: i64 = 349_066;

/// The anchor that the camera looks at: a point and a yaw about the up axis (microradians).
#[derive(Clone, Copy, Debug, PartialEq, Eq, Structural)]
pub struct Focus {
    pub position: Position,
    pub yaw: i64,
}

impl Focus {
    /// The focus at the origin, with no yaw.
    pub fn identity() -> (r: Focus)
        ensures
            r == (Focus { position: Position { x: 0, y: 0, z: 0 }, yaw: 0 }),
    {
        Focus { position: Position { x: 0, y: 0, z: 0 }, yaw: 0 }
    }
}

/// The state of one camera: its configuration, where it is, and where it is heading.
///
/// Zoom and smoothness are fractions in millionths, heights are millionths of a world unit,
/// angles are microradians. A tilt of `0` looks straight down.
#[derive(Clone, Copy, Debug, PartialEq, Eq, Structural)]
pub struct RtsCamera {
    /// Height of the camera at full zoom (`zoom == ONE`).
    pub height_min: i64,
    /// Height of the camera at no zoom (`zoom == 0`).
    pub height_max: i64,
    /// The rectangle that the target focus is kept in, horizontally.
    pub bounds: Bounds,
    /// The current tilt.
    pub angle: i64,
    /// The tilt that `angle` moves toward.
    pub target_angle: i64,
    /// The tilt at no zoom; with `dynamic_angle` off, the tilt at every zoom.
    pub min_angle: i64,
    /// Whether the tilt grows as the camera zooms in.
    pub dynamic_angle: bool,
    /// How slowly the camera follows its targets: `0` snaps every frame, values near `ONE`
    /// follow very slowly.
    pub smoothness: i64,
    /// The current, smoothed focus.
    pub focus: Focus,
    /// The focus that `focus` moves toward; set by the controls and by ground following.
    pub target_focus: Focus,
    /// The current zoom, from `0` (at `height_max`) to `ONE` (at `height_min`).
    pub zoom: i64,
    /// The zoom that `zoom` moves toward.
    pub target_zoom: i64,
    /// One-shot request to move the focus to the target focus horizontally on the next update.
    pub snap: bool,
}

/// Why a camera's configuration cannot be used.
#[derive(Clone, Copy, Debug, PartialEq, Eq, Structural)]
pub enum ConfigError {
    /// The heights are not `0 < height_min < height_max`.
    HeightRange,
    /// The smoothness is outside `[0, ONE)`.
    Smoothness,
    /// The bounds do not enclose an area.
    EmptyBounds,
    /// A tilt lies outside `[0, QUARTER_TURN)`.
    Angle,
    /// A zoom lies outside `[0, ONE]`.
    Zoom,
}

/// Whether a tilt lies in `[0, QUARTER_TURN)`.
pub open spec fn angle_ok(a: i64) -> bool {
    0 <= a < QUARTER_TURN
}

/// Whether a zoom lies in `[0, ONE]`.
pub open spec fn zoom_ok(z: i64) -> bool {
    0 <= z <= ONE
}

/// The angle equivalent to `d` (up to whole turns) that lies nearest zero, in
/// `(FULL_TURN / 2 - FULL_TURN, FULL_TURN / 2]`.
pub open spec fn wrap_angle(d: int) -> int {
    let r = d % (FULL_TURN as int);
    if r > FULL_TURN / 2 {
        r - FULL_TURN
    } else {
        r
    }
}

/// The yaw that smoothing from `from` heads for: the equivalent of `to` reached by turning the
/// shorter way round.
pub open spec fn yaw_goal(from: int, to: int) -> int {
    from + wrap_angle(to - from)
}

/// `wrap_angle` lies in its range and differs from its argument by whole turns.
pub proof fn lemma_wrap_angle(d: int)
    ensures
        FULL_TURN / 2 - FULL_TURN < wrap_angle(d) <= FULL_TURN / 2,
        (d - wrap_angle(d)) % (FULL_TURN as int) == 0,
{
    let f = FULL_TURN as int;
    let q = d / f;
    assert(d == q * f + d % f);
    assert(d - d % f == q * f);
    assert(d - (d % f - f) == (q + 1) * f);
    vstd::arithmetic::div_mod::lemma_mod_multiples_basic(q, f);
    vstd::arithmetic::div_mod::lemma_mod_multiples_basic(q + 1, f);
}

/// Moving `s` of the way toward the yaw goal leaves the goal where it was.
proof fn lemma_wrap_angle_shift(d: int, s: int)
    requires
        0 <= s <= wrap_angle(d) || wrap_angle(d) <= s <= 0,
    ensures
        wrap_angle(d - s) == wrap_angle(d) - s,
{
    let f = FULL_TURN as int;
    let w = wrap_angle(d);
    let r = d % f;
    let q = d / f;
    assert(d == q * f + r);
    if w == r {
        assert(d - s == q * f + (r - s));
        vstd::arithmetic::div_mod::lemma_mod_multiples_vanish(q, r - s, f);
        vstd::arithmetic::div_mod::lemma_small_mod((r - s) as nat, f as nat);
    } else if s == w {
        assert(d - s == (q + 1) * f);
        vstd::arithmetic::div_mod::lemma_mod_multiples_basic(q + 1, f);
    } else {
        assert(d - s == q * f + (r - s));
        vstd::arithmetic::div_mod::lemma_mod_multiples_vanish(q, r - s, f);
        vstd::arithmetic::div_mod::lemma_small_mod((r - s) as nat, f as nat);
    }
}

/// The nearest equivalent of a yaw difference, as `wrap_angle` states it.
pub fn wrap_yaw_difference(from: i64, to: i64) -> (r: i64)
    ensures
        r == wrap_angle(to - from),
        FULL_TURN / 2 - FULL_TURN < r <= FULL_TURN / 2,
{
    proof {
        lemma_wrap_angle(to - from);
    }
    let d: i128 = to as i128 - from as i128;
    let f: i128 = FULL_TURN as i128;
    let r: i128 = if d >= 0 {
        ((d as u128) % (f as u128)) as i128
    } else {
        let m: i128 = (((-d) as u128) % (f as u128)) as i128;
        proof {
            let q = (-d) / (f as int);
            assert(-d == q * f + m);
            if m == 0 {
                assert(d == (-q) * f);
                vstd::arithmetic::div_mod::lemma_mod_multiples_basic(-q, f as int);
            } else {
                assert(d == (-q - 1) * f + (f - m));
                vstd::arithmetic::div_mod::lemma_mod_multiples_vanish(-q - 1, f - m, f as int);
                vstd::arithmetic::div_mod::lemma_small_mod((f - m) as nat, f as nat);
            }
        }
        if m == 0 {
            0
        } else {
            f - m
        }
    };
    if r > f / 2 {
        (r - f) as i64
    } else {
        r as i64
    }
}

/// The circular ease-in curve `1 - sqrt(1 - x^2)` on `[0, ONE]`, with the root rounded down.
pub open spec fn ease_in_circular_spec(x: int) -> int {
    ONE - floor_sqrt(ONE * ONE - x * x)
}

/// `s^n` in millionths, each factor rounded down as it is applied.
pub open spec fn decay_pow(s: int, n: nat) -> int
    decreases n,
{
    if n == 0 {
        ONE as int
    } else {
        decay_pow(s, (n - 1) as nat) * s / (ONE as int)
    }
}

impl RtsCamera {
    /// The heights are positive and `height_min` lies below `height_max`.
    pub open spec fn heights_ok(self) -> bool {
        0 < self.height_min < self.height_max
    }

    /// The smoothness lies in `[0, ONE)`: `ONE` would never reach the targets.
    pub open spec fn smoothness_ok(self) -> bool {
        0 <= self.smoothness < ONE
    }

    /// The bounds enclose an area.
    pub open spec fn bounds_ok(self) -> bool {
        self.bounds.min_x < self.bounds.max_x && self.bounds.min_z < self.bounds.max_z
    }

    /// Every tilt lies in `[0, QUARTER_TURN)`.
    pub open spec fn angles_ok(self) -> bool {
        angle_ok(self.min_angle) && angle_ok(self.angle) && angle_ok(self.target_angle)
    }

    /// Both zooms lie in `[0, ONE]`.
    pub open spec fn zooms_ok(self) -> bool {
        zoom_ok(self.zoom) && zoom_ok(self.target_zoom)
    }

    /// A configuration and state that the pipeline can work on.
    pub open spec fn wf(self) -> bool {
        &&& self.heights_ok()
        &&& self.smoothness_ok()
        &&& self.bounds_ok()
        &&& self.angles_ok()
        &&& self.zooms_ok()
    }

    /// Checks the configuration, reporting the first problem found.
    pub fn validate(&self) -> (r: Result<(), ConfigError>)
        ensures
            r.is_ok() <==> self.wf(),
            r == Err::<(), ConfigError>(ConfigError::HeightRange) <==> !self.heights_ok(),
            r == Err::<(), ConfigError>(ConfigError::Smoothness) <==> self.heights_ok()
                && !self.smoothness_ok(),
            r == Err::<(), ConfigError>(ConfigError::EmptyBounds) <==> self.heights_ok()
                && self.smoothness_ok() && !self.bounds_ok(),
            r == Err::<(), ConfigError>(ConfigError::Angle) <==> self.heights_ok()
                && self.smoothness_ok() && self.bounds_ok() && !self.angles_ok(),
            r == Err::<(), ConfigError>(ConfigError::Zoom) <==> self.heights_ok()
                && self.smoothness_ok() && self.bounds_ok() && self.angles_ok() && !self.zooms_ok(),
    {
        if !(0 < self.height_min && self.height_min < self.height_max) {
            return Err(ConfigError::HeightRange);
        }
        if !(0 <= self.smoothness && self.smoothness < ONE) {
            return Err(ConfigError::Smoothness);
        }
        if !(self.bounds.min_x < self.bounds.max_x && self.bounds.min_z < self.bounds.max_z) {
            return Err(ConfigError::EmptyBounds);
        }
        if !(0 <= self.min_angle && self.min_angle < QUARTER_TURN && 0 <= self.angle
            && self.angle < QUARTER_TURN && 0 <= self.target_angle && self.target_angle
            < QUARTER_TURN) {
            return Err(ConfigError::Angle);
        }
        if !(0 <= self.zoom && self.zoom <= ONE && 0 <= self.target_zoom && self.target_zoom
            <= ONE) {
            return Err(ConfigError::Zoom);
        }
        Ok(())
    }

    /// Every smoothed value set to its target at once.
    pub open spec fn reset_spec(self) -> RtsCamera {
        RtsCamera {
            focus: self.target_focus,
            zoom: self.target_zoom,
            angle: self.target_angle,
            ..self
        }
    }

    /// Sets the focus, zoom and tilt immediately to the targets they are moving toward.
    pub fn reset_smoothing(&mut self)
        ensures
            *final(self) == old(self).reset_spec(),
            old(self).wf() ==> final(self).wf(),
    {
        self.focus = self.target_focus;
        self.zoom = self.target_zoom;
        self.angle = self.target_angle;
    }

    /// The state of a camera as it first becomes active.
    pub open spec fn initialize_spec(self) -> RtsCamera {
        RtsCamera {
            zoom: self.target_zoom,
            focus: self.target_focus,
            angle: self.min_angle,
            target_angle: self.min_angle,
            ..self
        }
    }

    /// Copies the targets into the current state when the camera becomes active, so that it
    /// does not animate from a default pose on its first frame, and starts the tilt at
    /// `min_angle`.
    pub fn initialize(&mut self)
        ensures
            *final(self) == old(self).initialize_spec(),
            old(self).wf() ==> final(self).wf(),
    {
        self.zoom = self.target_zoom;
        self.focus = self.target_focus;
        self.angle = self.min_angle;
        self.target_angle = self.min_angle;
    }

    /// Where the ground ray starts: `height_max` above the target focus.
    pub open spec fn ground_ray_origin_spec(self) -> Position {
        Position {
            y: (self.target_focus.position.y + self.height_max) as i64,
            ..self.target_focus.position
        }
    }

    /// The origin of the downward ray that finds the ground under the target focus. Starting
    /// `height_max` above the focus keeps it above any terrain that the camera can see.
    pub fn ground_ray_origin(&self) -> (r: Position)
        requires
            fits(self.target_focus.position.y + self.height_max),
        ensures
            r == self.ground_ray_origin_spec(),
    {
        Position {
            x: self.target_focus.position.x,
            y: self.target_focus.position.y + self.height_max,
            z: self.target_focus.position.z,
        }
    }

    /// The target focus moved to the height of the ground hit, if any.
    pub open spec fn follow_ground_spec(self, hit_y: Option<i64>) -> RtsCamera {
        match hit_y {
            Some(y) => RtsCamera {
                target_focus: Focus {
                    position: Position { y, ..self.target_focus.position },
                    ..self.target_focus
                },
                ..self
            },
            None => self,
        }
    }

    /// Puts the target focus at the height where the ground ray hit; without a hit the target
    /// keeps its last height.
    pub fn follow_ground(&mut self, hit_y: Option<i64>)
        ensures
            *final(self) == old(self).follow_ground_spec(hit_y),
            old(self).wf() ==> final(self).wf(),
    {
        if let Some(y) = hit_y {
            self.target_focus.position.y = y;
        }
    }

    /// The target focus constrained to the bounds.
    pub open spec fn apply_camera_bounds_spec(self) -> RtsCamera {
        RtsCamera {
            target_focus: Focus {
                position: self.bounds.clamp_spec(self.target_focus.position),
                ..self.target_focus
            },
            ..self
        }
    }

    /// Keeps the target focus inside the bounds horizontally.
    pub fn apply_camera_bounds(&mut self)
        requires
            old(self).bounds.wf(),
        ensures
            *final(self) == old(self).apply_camera_bounds_spec(),
            old(self).wf() ==> final(self).wf(),
    {
        self.target_focus.position = apply_bounds(&self.bounds, self.target_focus.position);
    }

    /// The target tilt that the zoom calls for.
    pub open spec fn dynamic_angle_spec(self) -> RtsCamera {
        if self.dynamic_angle {
            RtsCamera {
                target_angle: lerp(
                    self.min_angle as int,
                    MAX_ANGLE as int,
                    ease_in_circular_spec(self.target_zoom as int),
                ) as i64,
                ..self
            }
        } else {
            self
        }
    }

    /// With `dynamic_angle` on, tilts the target from `min_angle` toward `MAX_ANGLE` along the
    /// circular ease-in of the target zoom; otherwise leaves the target tilt alone.
    pub fn dynamic_angle(&mut self)
        requires
            zoom_ok(old(self).target_zoom),
        ensures
            *final(self) == old(self).dynamic_angle_spec(),
            old(self).wf() ==> final(self).wf(),
    {
        if self.dynamic_angle {
            let e = ease_in_circular(self.target_zoom);
            proof {
                lemma_lerp_between(self.min_angle as int, MAX_ANGLE as int, e as int);
            }
            self.target_angle = lerp_i64(self.min_angle, MAX_ANGLE, e);
        }
    }

    /// The focus moved onto the target horizontally, when a snap was requested.
    pub open spec fn snap_to_target_spec(self) -> RtsCamera {
        if self.snap {
            RtsCamera {
                focus: Focus {
                    position: Position {
                        x: self.target_focus.position.x,
                        z: self.target_focus.position.z,
                        ..self.focus.position
                    },
                    ..self.focus
                },
                snap: false,
                ..self
            }
        } else {
            self
        }
    }

    /// Honours a snap request: copies the target focus's X and Z into the focus and clears
    /// the request. Height, yaw and zoom stay under smoothing.
    pub fn snap_to_target(&mut self)
        ensures
            *final(self) == old(self).snap_to_target_spec(),
            old(self).wf() ==> final(self).wf(),
    {
        if self.snap {
            self.focus.position.x = self.target_focus.position.x;
            self.focus.position.z = self.target_focus.position.z;
            self.snap = false;
        }
    }

    /// Every smoothed value moved toward its target by the fraction `t / ONE`.
    pub open spec fn move_towards_target_spec(self, t: int) -> RtsCamera {
        RtsCamera {
            focus: Focus {
                position: Position {
                    x: lerp(self.focus.position.x as int, self.target_focus.position.x as int, t)
                        as i64,
                    y: lerp(self.focus.position.y as int, self.target_focus.position.y as int, t)
                        as i64,
                    z: lerp(self.focus.position.z as int, self.target_focus.position.z as int, t)
                        as i64,
                },
                yaw: lerp(
                    self.focus.yaw as int,
                    yaw_goal(self.focus.yaw as int, self.target_focus.yaw as int),
                    t,
                ) as i64,
            },
            zoom: lerp(self.zoom as int, self.target_zoom as int, t) as i64,
            angle: lerp(self.angle as int, self.target_angle as int, t) as i64,
            ..self
        }
    }

    /// Whether the yaw that smoothing heads for can be held by an `i64`.
    pub open spec fn yaw_goal_fits(self) -> bool {
        fits(yaw_goal(self.focus.yaw as int, self.target_focus.yaw as int))
    }

    /// One smoothing step: the focus (position and yaw), the zoom and the tilt each move toward
    /// their targets by the fraction `t / ONE` of the remaining distance (see `smoothing_factor`).
    /// The yaw turns the shorter way round, toward the equivalent of the target yaw nearest to it.
    pub fn move_towards_target(&mut self, t: i64)
        requires
            0 <= t <= ONE,
            old(self).yaw_goal_fits(),
        ensures
            *final(self) == old(self).move_towards_target_spec(t as int),
            old(self).wf() ==> final(self).wf(),
    {
        proof {
            lemma_lerp_between(self.zoom as int, self.target_zoom as int, t as int);
            lemma_lerp_between(self.angle as int, self.target_angle as int, t as int);
        }
        self.focus.position.x = lerp_i64(self.focus.position.x, self.target_focus.position.x, t);
        self.focus.position.y = lerp_i64(self.focus.position.y, self.target_focus.position.y, t);
        self.focus.position.z = lerp_i64(self.focus.position.z, self.target_focus.position.z, t);
        let goal = self.focus.yaw + wrap_yaw_difference(self.focus.yaw, self.target_focus.yaw);
        self.focus.yaw = lerp_i64(self.focus.yaw, goal, t);
        self.zoom = lerp_i64(self.zoom, self.target_zoom, t);
        self.angle = lerp_i64(self.angle, self.target_angle, t);
    }

    /// The whole frame: ground following, bounds, tilt, snap, then smoothing.
    pub open spec fn update_spec(self, hit_y: Option<i64>, t: int) -> RtsCamera {
        self.follow_ground_spec(hit_y).apply_camera_bounds_spec().dynamic_angle_spec()
            .snap_to_target_spec().move_towards_target_spec(t)
    }

    /// Runs one frame of the pipeline in its fixed order: the target focus takes the ground
    /// height (`hit_y`, when the ground ray hit), is kept inside the bounds, the target tilt
    /// follows the zoom, a pending snap is honoured, and the current state moves toward the
    /// targets by `t / ONE`.
    pub fn update(&mut self, hit_y: Option<i64>, t: i64)
        requires
            old(self).wf(),
            old(self).yaw_goal_fits(),
            0 <= t <= ONE,
        ensures
            *final(self) == old(self).update_spec(hit_y, t as int),
            final(self).wf(),
    {
        self.follow_ground(hit_y);
        self.apply_camera_bounds();
        self.dynamic_angle();
        self.snap_to_target();
        self.move_towards_target(t);
    }
}

impl Default for RtsCamera {
    /// Heights 2 to 30 world units, bounds of 20 units around the origin, a 20 degree tilt
    /// that grows with zoom, smoothness 0.3, and everything else at rest at the origin.
    fn default() -> (r: RtsCamera)
        ensures
            r.height_min == 2 * ONE,
            r.height_max == 30 * ONE,
            r.bounds.min_x == -20 * ONE,
            r.bounds.min_z == -20 * ONE,
            r.bounds.max_x == 20 * ONE,
            r.bounds.max_z == 20 * ONE,
            r.angle == DEFAULT_ANGLE,
            r.target_angle == DEFAULT_ANGLE,
            r.min_angle == DEFAULT_ANGLE,
            r.dynamic_angle,
            r.smoothness == 3 * ONE / 10,
            r.focus == (Focus { position: Position { x: 0, y: 0, z: 0 }, yaw: 0 }),
            r.target_focus == (Focus { position: Position { x: 0, y: 0, z: 0 }, yaw: 0 }),
            r.zoom == 0,
            r.target_zoom == 0,
            !r.snap,
            r.wf(),
    {
        RtsCamera {
            bounds: Bounds::new(0, 0, 20 * ONE, 20 * ONE),
            height_min: 2 * ONE,
            height_max: 30 * ONE,
            angle: DEFAULT_ANGLE,
            target_angle: DEFAULT_ANGLE,
            min_angle: DEFAULT_ANGLE,
            dynamic_angle: true,
            smoothness: 3 * ONE / 10,
            focus: Focus::identity(),
            target_focus: Focus::identity(),
            zoom: 0,
            target_zoom: 0,
            snap: false,
        }
    }
}

/// The circular ease-in `1 - sqrt(1 - x^2)` of a fraction `x` in `[0, ONE]`: flat near `0`,
/// steep near `ONE`.
pub fn ease_in_circular(x: i64) -> (r: i64)
    requires
        0 <= x <= ONE,
    ensures
        r == ease_in_circular_spec(x as int),
        0 <= r <= ONE,
{
    assert(0 <= x * x <= ONE * ONE) by (nonlinear_arith)
        requires
            0 <= x <= ONE,
    ;
    let s = isqrt((ONE as u128) * (ONE as u128) - (x as u128) * (x as u128));
    assert(s <= ONE) by (nonlinear_arith)
        requires
            s * s <= ONE * ONE - x * x,
            0 <= s,
            0 <= x * x,
    ;
    ONE - s as i64
}

/// The fraction of the remaining distance that smoothing keeps after one second:
/// `smoothness^7`, in millionths. Raising to the seventh power makes the setting feel
/// roughly linear over its range.
pub fn retention_per_second(smoothness: i64) -> (r: i64)
    requires
        0 <= smoothness <= ONE,
    ensures
        r == decay_pow(smoothness as int, 7),
        0 <= r <= ONE,
{
    let mut r: i64 = ONE;
    let mut i: u32 = 0;
    while i < 7
        invariant
            0 <= i <= 7,
            0 <= smoothness <= ONE,
            r == decay_pow(smoothness as int, i as nat),
            0 <= r <= ONE,
        decreases 7 - i,
    {
        assert(0 <= r * smoothness <= ONE * ONE) by (nonlinear_arith)
            requires
                0 <= r <= ONE,
                0 <= smoothness <= ONE,
        ;
        let p: u64 = (r as u64) * (smoothness as u64);
        r = (p / (ONE as u64)) as i64;
        i = i + 1;
    }
    r
}

/// The smoothing step's interpolation fraction, `ONE - retained`, where `retained` is the part
/// of the remaining distance kept over the frame (`retention_per_second` raised to the frame's
/// duration in seconds).
pub fn smoothing_factor(retained: i64) -> (r: i64)
    requires
        0 <= retained <= ONE,
    ensures
        r == ONE - retained,
        0 <= r <= ONE,
{
    ONE - retained
}

/// `b` lies between `a` and `target`, and no farther from `target` than `a` is.
pub open spec fn approaches(a: int, b: int, target: int) -> bool {
    &&& (a <= target ==> a <= b <= target)
    &&& (target <= a ==> target <= b <= a)
    &&& abs_diff(b, target) <= abs_diff(a, target)
}

/// Each smoothed value of `next` approaches its target from where it stood in `cam`, without
/// passing it, and the targets are the same in both.
pub open spec fn smoothing_approaches(cam: RtsCamera, next: RtsCamera) -> bool {
    let (f, g, tf) = (cam.focus.position, next.focus.position, cam.target_focus.position);
    &&& next.target_focus == cam.target_focus
    &&& next.target_zoom == cam.target_zoom
    &&& next.target_angle == cam.target_angle
    &&& approaches(f.x as int, g.x as int, tf.x as int)
    &&& approaches(f.y as int, g.y as int, tf.y as int)
    &&& approaches(f.z as int, g.z as int, tf.z as int)
    &&& approaches(
        cam.focus.yaw as int,
        next.focus.yaw as int,
        yaw_goal(cam.focus.yaw as int, cam.target_focus.yaw as int),
    )
    &&& approaches(cam.zoom as int, next.zoom as int, cam.target_zoom as int)
    &&& approaches(cam.angle as int, next.angle as int, cam.target_angle as int)
}

/// The camera after `n` smoothing steps of fraction `t / ONE`.
pub open spec fn smoothing_steps(cam: RtsCamera, t: int, n: nat) -> RtsCamera
    decreases n,
{
    if n == 0 {
        cam
    } else {
        smoothing_steps(cam, t, (n - 1) as nat).move_towards_target_spec(t)
    }
}

/// One smoothing step moves every smoothed value toward its target without overshooting, and
/// with `t > 0` strictly closer to any target it has not reached.
pub proof fn lemma_smoothing_step_approaches(cam: RtsCamera, t: int)
    requires
        0 <= t <= ONE,
        cam.yaw_goal_fits(),
    ensures
        smoothing_approaches(cam, cam.move_towards_target_spec(t)),
        t > 0 && cam.zoom != cam.target_zoom ==> abs_diff(
            cam.move_towards_target_spec(t).zoom as int,
            cam.target_zoom as int,
        ) < abs_diff(cam.zoom as int, cam.target_zoom as int),
        t > 0 && cam.angle != cam.target_angle ==> abs_diff(
            cam.move_towards_target_spec(t).angle as int,
            cam.target_angle as int,
        ) < abs_diff(cam.angle as int, cam.target_angle as int),
        ({
            let goal = yaw_goal(cam.focus.yaw as int, cam.target_focus.yaw as int);
            &&& yaw_goal(cam.move_towards_target_spec(t).focus.yaw as int, cam.target_focus.yaw as int)
                == goal
            &&& (t > 0 && cam.focus.yaw != goal ==> abs_diff(
                cam.move_towards_target_spec(t).focus.yaw as int,
                goal,
            ) < abs_diff(cam.focus.yaw as int, goal))
        }),
        t > 0 && cam.focus.position != cam.target_focus.position ==> {
            let (f, g, tf) = (
                cam.focus.position,
                cam.move_towards_target_spec(t).focus.position,
                cam.target_focus.position,
            );
            abs_diff(g.x as int, tf.x as int) + abs_diff(g.y as int, tf.y as int) + abs_diff(
                g.z as int,
                tf.z as int,
            ) < abs_diff(f.x as int, tf.x as int) + abs_diff(f.y as int, tf.y as int) + abs_diff(
                f.z as int,
                tf.z as int,
            )
        },
{
    let (f, tf) = (cam.focus.position, cam.target_focus.position);
    lemma_lerp_between(f.x as int, tf.x as int, t);
    lemma_lerp_between(f.y as int, tf.y as int, t);
    lemma_lerp_between(f.z as int, tf.z as int, t);
    let goal = yaw_goal(cam.focus.yaw as int, cam.target_focus.yaw as int);
    lemma_lerp_between(cam.focus.yaw as int, goal, t);
    lemma_lerp_between(cam.zoom as int, cam.target_zoom as int, t);
    lemma_lerp_between(cam.angle as int, cam.target_angle as int, t);
    lemma_wrap_angle_shift(
        cam.target_focus.yaw - cam.focus.yaw,
        lerp(cam.focus.yaw as int, goal, t) - cam.focus.yaw,
    );
}

/// Repeated smoothing toward fixed targets: every step approaches the targets without ever
/// passing them, so each smoothed value moves monotonically toward its target.
pub proof fn lemma_smoothing_converges(cam: RtsCamera, t: int, n: nat)
    requires
        0 <= t <= ONE,
        cam.yaw_goal_fits(),
    ensures
        yaw_goal(smoothing_steps(cam, t, n).focus.yaw as int, cam.target_focus.yaw as int)
            == yaw_goal(cam.focus.yaw as int, cam.target_focus.yaw as int),
        smoothing_steps(cam, t, n).target_focus == cam.target_focus,
        smoothing_steps(cam, t, n).target_zoom == cam.target_zoom,
        smoothing_steps(cam, t, n).target_angle == cam.target_angle,
        smoothing_approaches(smoothing_steps(cam, t, n), smoothing_steps(cam, t, n + 1)),
    decreases n,
{
    if n > 0 {
        lemma_smoothing_converges(cam, t, (n - 1) as nat);
    }
    lemma_smoothing_step_approaches(smoothing_steps(cam, t, n), t);
    assert(smoothing_steps(cam, t, n + 1) == smoothing_steps(cam, t, n).move_towards_target_spec(t));
}

/// With a snap pending, one update puts the focus exactly on the (bounded) target focus in X and
/// Z and clears the request, while the height and yaw move by the ordinary smoothing step.
pub proof fn lemma_snap_is_exact(cam: RtsCamera, hit_y: Option<i64>, t: int)
    requires
        cam.wf(),
        cam.yaw_goal_fits(),
        cam.snap,
        0 <= t <= ONE,
    ensures
        ({
            let next = cam.update_spec(hit_y, t);
            let target = cam.follow_ground_spec(hit_y).apply_camera_bounds_spec().target_focus;
            &&& next.focus.position.x == next.target_focus.position.x
            &&& next.focus.position.z == next.target_focus.position.z
            &&& next.target_focus == target
            &&& !next.snap
            &&& next.focus.position.y == lerp(
                cam.focus.position.y as int,
                target.position.y as int,
                t,
            )
            &&& next.focus.yaw == lerp(
                cam.focus.yaw as int,
                yaw_goal(cam.focus.yaw as int, target.yaw as int),
                t,
            )
            &&& next.zoom == lerp(cam.zoom as int, cam.target_zoom as int, t)
        }),
{
    let target = cam.follow_ground_spec(hit_y).apply_camera_bounds_spec().target_focus;
    lemma_lerp_between(target.position.x as int, target.position.x as int, t);
    lemma_lerp_between(target.position.z as int, target.position.z as int, t);
    lemma_lerp_between(cam.focus.position.y as int, target.position.y as int, t);
    lemma_lerp_between(cam.focus.yaw as int, yaw_goal(cam.focus.yaw as int, target.yaw as int), t);
    lemma_lerp_between(cam.zoom as int, cam.target_zoom as int, t);
}

/// `a` after `n` interpolation steps of fraction `t / ONE` toward `b`.
pub open spec fn lerp_iter(a: int, b: int, t: int, n: nat) -> int
    decreases n,
{
    if n == 0 {
        a
    } else {
        lerp(lerp_iter(a, b, t, (n - 1) as nat), b, t)
    }
}

/// Each step with `t > 0` closes at least one unit of the distance, never passing `b`.
proof fn lemma_lerp_iter_closes(a: int, b: int, t: int, n: nat)
    requires
        0 < t <= ONE,
    ensures
        a <= b ==> a <= lerp_iter(a, b, t, n) <= b,
        b <= a ==> b <= lerp_iter(a, b, t, n) <= a,
        abs_diff(lerp_iter(a, b, t, n), b) <= (if abs_diff(a, b) >= n {
            abs_diff(a, b) - n
        } else {
            0
        }),
    decreases n,
{
    if n > 0 {
        lemma_lerp_iter_closes(a, b, t, (n - 1) as nat);
        lemma_lerp_between(lerp_iter(a, b, t, (n - 1) as nat), b, t);
    }
}

/// Each smoothed value after `n` steps is its own `lerp_iter`, and the targets stay put.
proof fn lemma_smoothing_steps_fields(cam: RtsCamera, t: int, n: nat)
    requires
        0 < t <= ONE,
        cam.yaw_goal_fits(),
    ensures
        ({
            let c = smoothing_steps(cam, t, n);
            let (f, tf) = (cam.focus.position, cam.target_focus.position);
            &&& c.target_focus == cam.target_focus
            &&& c.target_zoom == cam.target_zoom
            &&& c.target_angle == cam.target_angle
            &&& c.focus.position.x == lerp_iter(f.x as int, tf.x as int, t, n)
            &&& c.focus.position.y == lerp_iter(f.y as int, tf.y as int, t, n)
            &&& c.focus.position.z == lerp_iter(f.z as int, tf.z as int, t, n)
            &&& c.focus.yaw == lerp_iter(
                cam.focus.yaw as int,
                yaw_goal(cam.focus.yaw as int, cam.target_focus.yaw as int),
                t,
                n,
            )
            &&& c.zoom == lerp_iter(cam.zoom as int, cam.target_zoom as int, t, n)
            &&& c.angle == lerp_iter(cam.angle as int, cam.target_angle as int, t, n)
        }),
    decreases n,
{
    if n > 0 {
        let m = (n - 1) as nat;
        lemma_smoothing_steps_fields(cam, t, m);
        lemma_smoothing_converges(cam, t, m);
        let p = smoothing_steps(cam, t, m);
        lemma_smoothing_step_approaches(p, t);
        assert(smoothing_steps(cam, t, n) == p.move_towards_target_spec(t));
        let (f, tf) = (cam.focus.position, cam.target_focus.position);
        lemma_lerp_between(p.zoom as int, cam.target_zoom as int, t);
        lemma_lerp_between(p.angle as int, cam.target_angle as int, t);
        lemma_lerp_between(
            p.focus.yaw as int,
            yaw_goal(cam.focus.yaw as int, cam.target_focus.yaw as int),
            t,
        );
        lemma_lerp_between(p.focus.position.x as int, tf.x as int, t);
        lemma_lerp_between(p.focus.position.y as int, tf.y as int, t);
        lemma_lerp_between(p.focus.position.z as int, tf.z as int, t);
    }
}

/// Smoothing with `t > 0` never gets stuck: after as many steps as the largest remaining
/// distance (in millionths), every smoothed value sits exactly on its target; the yaw on the
/// target's nearest equivalent, whole turns away from it.
pub proof fn lemma_smoothing_reaches_targets(cam: RtsCamera, t: int, n: nat)
    requires
        0 < t <= ONE,
        cam.yaw_goal_fits(),
        n >= abs_diff(cam.focus.position.x as int, cam.target_focus.position.x as int),
        n >= abs_diff(cam.focus.position.y as int, cam.target_focus.position.y as int),
        n >= abs_diff(cam.focus.position.z as int, cam.target_focus.position.z as int),
        n >= abs_diff(cam.focus.yaw as int, yaw_goal(cam.focus.yaw as int, cam.target_focus.yaw as int)),
        n >= abs_diff(cam.zoom as int, cam.target_zoom as int),
        n >= abs_diff(cam.angle as int, cam.target_angle as int),
    ensures
        smoothing_steps(cam, t, n).focus.position == cam.target_focus.position,
        smoothing_steps(cam, t, n).focus.yaw == yaw_goal(
            cam.focus.yaw as int,
            cam.target_focus.yaw as int,
        ),
        (cam.target_focus.yaw - smoothing_steps(cam, t, n).focus.yaw) % (FULL_TURN as int) == 0,
        smoothing_steps(cam, t, n).zoom == cam.target_zoom,
        smoothing_steps(cam, t, n).angle == cam.target_angle,
{
    let (f, tf) = (cam.focus.position, cam.target_focus.position);
    lemma_smoothing_steps_fields(cam, t, n);
    lemma_lerp_iter_closes(f.x as int, tf.x as int, t, n);
    lemma_lerp_iter_closes(f.y as int, tf.y as int, t, n);
    lemma_lerp_iter_closes(f.z as int, tf.z as int, t, n);
    lemma_lerp_iter_closes(
        cam.focus.yaw as int,
        yaw_goal(cam.focus.yaw as int, cam.target_focus.yaw as int),
        t,
        n,
    );
    lemma_wrap_angle(cam.target_focus.yaw - cam.focus.yaw);
    lemma_lerp_iter_closes(cam.zoom as int, cam.target_zoom as int, t, n);
    lemma_lerp_iter_closes(cam.angle as int, cam.target_angle as int, t, n);
}

} // verus!
