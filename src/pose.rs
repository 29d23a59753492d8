//! The camera's final transform, derived from the smoothed focus, zoom and tilt.
use vstd::prelude::*;
use crate::fixed::{ONE, fits, lerp, lerp_i64, trunc_div, mul_div, to_i64, lemma_lerp_between};
use crate::geometry::{Position, Heading};
use crate::camera::{RtsCamera, QUARTER_TURN};

verus! {

/// Where the camera stands and how it is turned: a yaw about the up axis, then a pitch about
/// the camera's own X axis (both microradians; a pitch of `-QUARTER_TURN` looks straight down).
#[derive(Clone, Copy, Debug, PartialEq, Eq, Structural)]
pub struct Pose {
    pub position: Position,
    pub yaw: i64,
    pub pitch: i64,
}

/// The camera's height above the focus: `height_max` at no zoom, `height_min` at full zoom.
pub open spec fn camera_height_spec(cam: RtsCamera) -> int {
    lerp(cam.height_max as int, cam.height_min as int, cam.zoom as int)
}

/// How far the camera stands back from the focus horizontally, `height * tan(angle)`, for a
/// tangent `tan_angle` in millionths.
pub open spec fn camera_offset_spec(cam: RtsCamera, tan_angle: int) -> int {
    trunc_div(camera_height_spec(cam) * tan_angle, ONE as int)
}

/// The pose: up from the focus by the height, back along the heading by the offset, pitched
/// up from straight down by the tilt.
pub open spec fn camera_pose_spec(cam: RtsCamera, tan_angle: int, heading: Heading) -> Pose {
    let offset = camera_offset_spec(cam, tan_angle);
    Pose {
        position: Position {
            x: (cam.focus.position.x + trunc_div(heading.back_x * offset, ONE as int)) as i64,
            y: (cam.focus.position.y + camera_height_spec(cam)) as i64,
            z: (cam.focus.position.z + trunc_div(heading.back_z * offset, ONE as int)) as i64,
        },
        yaw: cam.focus.yaw,
        pitch: (cam.angle - QUARTER_TURN) as i64,
    }
}

/// Whether every coordinate of the pose can be held by an `i64`.
pub open spec fn camera_pose_fits(cam: RtsCamera, tan_angle: int, heading: Heading) -> bool {
    let offset = camera_offset_spec(cam, tan_angle);
    &&& fits(offset)
    &&& fits(cam.focus.position.x + trunc_div(heading.back_x * offset, ONE as int))
    &&& fits(cam.focus.position.y + camera_height_spec(cam))
    &&& fits(cam.focus.position.z + trunc_div(heading.back_z * offset, ONE as int))
}

/// `|a * b / ONE| <= |b|` when `|a| <= ONE`.
proof fn lemma_unit_scale_bounded(a: int, b: int)
    requires
        -ONE <= a <= ONE,
    ensures
        -(if b >= 0 { b } else { -b }) <= trunc_div(a * b, ONE as int) <= (if b >= 0 { b } else { -b }),
{
    let m = if b >= 0 { b } else { -b };
    assert(-(m * ONE) <= a * b <= m * ONE) by (nonlinear_arith)
        requires
            -ONE <= a <= ONE,
            m == (if b >= 0 { b } else { -b }),
    ;
    assert(a * b >= 0 ==> (a * b) / (ONE as int) <= m);
    assert(a * b < 0 ==> (-(a * b)) / (ONE as int) <= m);
}

impl RtsCamera {
    /// The camera's height above the focus at the current zoom.
    pub fn camera_height(&self) -> (r: i64)
        requires
            0 <= self.zoom <= ONE,
        ensures
            r == camera_height_spec(*self),
            self.height_min <= self.height_max ==> self.height_min <= r <= self.height_max,
    {
        proof {
            lemma_lerp_between(self.height_max as int, self.height_min as int, self.zoom as int);
        }
        lerp_i64(self.height_max, self.height_min, self.zoom)
    }
}

/// The camera's transform, for the tangent of the current tilt (`tan_angle`, in millionths) and
/// the heading of the focus's yaw; `None` when a coordinate of it would not fit an `i64`. It
/// reads only the focus, zoom, tilt and heights, so calling it again on the same values gives
/// the same result.
pub fn update_camera_transform(cam: &RtsCamera, tan_angle: i64, heading: Heading) -> (r: Option<
    Pose,
>)
    requires
        cam.wf(),
        heading.wf(),
    ensures
        r == (if camera_pose_fits(*cam, tan_angle as int, heading) {
            Some(camera_pose_spec(*cam, tan_angle as int, heading))
        } else {
            None
        }),
{
    let height = cam.camera_height();
    let offset = match to_i64(mul_div(height, tan_angle, ONE)) {
        Some(v) => v,
        None => return None,
    };
    proof {
        lemma_unit_scale_bounded(heading.back_x as int, offset as int);
        lemma_unit_scale_bounded(heading.back_z as int, offset as int);
    }
    let dx = mul_div(heading.back_x, offset, ONE);
    let dz = mul_div(heading.back_z, offset, ONE);
    let x = match to_i64(cam.focus.position.x as i128 + dx) {
        Some(v) => v,
        None => return None,
    };
    let y = match to_i64(cam.focus.position.y as i128 + height as i128) {
        Some(v) => v,
        None => return None,
    };
    let z = match to_i64(cam.focus.position.z as i128 + dz) {
        Some(v) => v,
        None => return None,
    };
    Some(
        Pose {
            position: Position { x, y, z },
            yaw: cam.focus.yaw,
            pitch: cam.angle - QUARTER_TURN,
        },
    )
}

/// The pose depends on the focus, zoom, tilt and heights alone: two cameras that agree on
/// those get the same pose, and either both poses fit or neither does, whatever their targets,
/// bounds, smoothness or pending snap.
pub proof fn lemma_pose_is_pure(a: RtsCamera, b: RtsCamera, tan_angle: int, heading: Heading)
    requires
        a.focus == b.focus,
        a.zoom == b.zoom,
        a.angle == b.angle,
        a.height_min == b.height_min,
        a.height_max == b.height_max,
    ensures
        camera_pose_spec(a, tan_angle, heading) == camera_pose_spec(b, tan_angle, heading),
        camera_pose_fits(a, tan_angle, heading) == camera_pose_fits(b, tan_angle, heading),
{
}

} // verus!
