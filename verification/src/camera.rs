//! The camera: its free-look orientation, its translations, the eased warp
//! transit between two points, and the collision test.
//!
//! Sines, cosines and their inverses are not computed here.  The functions
//! that need them take a function value that supplies them: `sin_cos` maps a
//! fixed-point angle in radians to its sine and cosine, and `heading_of` maps
//! a direction of length `UNIT` to the yaw `atan2(z, x)` and the pitch
//! `asin(y)` that point along it.
use vstd::prelude::*;
use crate::fixed::UNIT;
use crate::fixed::clamp_i32;
use crate::fixed::clamp_i64;
use crate::fixed::clamp_spec;
use crate::fixed::div_floor;
use crate::fixed::is_isqrt;
use crate::fixed::isqrt_spec;
use crate::fixed::isqrt_wide;
use crate::fixed::lerp;
use crate::fixed::limited;
use crate::fixed::mul_fixed;
use crate::fixed::mul_unit;
use crate::fixed::saturate;
use crate::fixed::saturated;
use crate::vector::Vec3;
use crate::vector::cross;
use crate::vector::cross_product;
use crate::vector::normalize_wide;
use crate::vector::normalized_wide;

verus! {

/// The pitch never leaves `[-PITCH_LIMIT, PITCH_LIMIT]` (1.57 radians).
pub const PITCH_LIMIT: i32 = 15_700;

/// Warp progress gained per second.
pub const WARP_RATE: i32 = 2;

/// How much farther than its radius a body keeps the camera away (10.0).
pub const SAFETY_MARGIN: i32 = 100_000;

/// The camera state.
///
/// Outside a warp, `target` lies `distance` along the direction of `yaw` and
/// `pitch` from `position`.
#[derive(Clone, Copy, Debug)]
pub struct Camera {
    pub position: Vec3,
    pub target: Vec3,
    pub up: Vec3,
    /// Vertical field of view in degrees.
    pub fov: i32,
    pub near: i32,
    pub far: i32,
    /// Width over height of the viewport.
    pub aspect: i32,
    pub yaw: i32,
    pub pitch: i32,
    pub distance: i32,
    pub warp_target: Option<Vec3>,
    pub warp_start: Option<Vec3>,
    /// Progress of the warp in `[0, 1]`.
    pub warp_progress: i32,
    pub is_warping: bool,
}

/// The part of the camera that a warp reads and changes.
pub struct Warp {
    pub position: Vec3,
    pub start: Option<Vec3>,
    pub target: Option<Vec3>,
    pub progress: i32,
    pub active: bool,
}

/// The direction of a yaw and a pitch, given the sine and cosine of each:
/// `(cos yaw * cos pitch, sin pitch, sin yaw * cos pitch)`.
pub open spec fn direction_from(yaw: (i32, i32), pitch: (i32, i32)) -> Vec3 {
    Vec3 {
        x: mul_unit(limited(yaw.1 as int), limited(pitch.1 as int)) as i32,
        y: limited(pitch.0 as int) as i32,
        z: mul_unit(limited(yaw.0 as int), limited(pitch.1 as int)) as i32,
    }
}

/// `dir` is the direction that `sin_cos` gives for the yaw and the pitch.
pub open spec fn is_direction<T: Fn(i32) -> (i32, i32)>(sin_cos: T, yaw: i32, pitch: i32, dir: Vec3) -> bool {
    exists|ty: (i32, i32), tp: (i32, i32)|
        call_ensures(sin_cos, (yaw,), ty) && call_ensures(sin_cos, (pitch,), tp) && dir
            == direction_from(ty, tp)
}

/// The point `d` along `dir` from `p`, each coordinate limited to the range
/// of a scalar.
pub open spec fn translated(p: Vec3, dir: Vec3, d: int) -> Vec3 {
    Vec3 {
        x: saturated(p.x + mul_unit(dir.x as int, d)) as i32,
        y: saturated(p.y + mul_unit(dir.y as int, d)) as i32,
        z: saturated(p.z + mul_unit(dir.z as int, d)) as i32,
    }
}

/// The squared distance between two points.
pub open spec fn distance_squared(a: Vec3, b: Vec3) -> int {
    (b.x - a.x) * (b.x - a.x) + (b.y - a.y) * (b.y - a.y) + (b.z - a.z) * (b.z - a.z)
}

/// The distance between two points, rounded down.
pub open spec fn span(a: Vec3, b: Vec3) -> int {
    isqrt_spec(distance_squared(a, b))
}

/// The direction of length `UNIT` from `a` to `b`.
pub open spec fn unit_toward(a: Vec3, b: Vec3) -> Vec3 {
    normalized_wide((b.x - a.x, b.y - a.y, b.z - a.z))
}

/// The orientation `after` is what a resynchronisation makes of `before`
/// when the camera looks from `position` at `target`: the distance between
/// the two and the heading along them, or no change where the two coincide.
pub open spec fn resynced<H: Fn(Vec3) -> (i32, i32)>(
    heading_of: H,
    position: Vec3,
    target: Vec3,
    before: (i32, i32, i32),
    after: (i32, i32, i32),
) -> bool {
    if distance_squared(position, target) > 0 {
        &&& after.2 == saturated(span(position, target))
        &&& call_ensures(heading_of, (unit_toward(position, target),), (after.0, after.1))
    } else {
        after == before
    }
}

/// Cubic ease-in-out on `[0, 1]`: `4 t^3` below one half and
/// `1 - (2 - 2 t)^3 / 2` from there on; `t` is limited to `[0, 1]` first.
pub open spec fn ease(t: int) -> int {
    let t = clamp_spec(t, 0, UNIT as int);
    if t < UNIT / 2 {
        4 * t * t * t / (UNIT * UNIT)
    } else {
        UNIT - (2 * UNIT - 2 * t) * (2 * UNIT - 2 * t) * (2 * UNIT - 2 * t) / (2 * UNIT * UNIT)
    }
}

/// Component-wise blend of two points.
pub open spec fn lerp3(a: Vec3, b: Vec3, t: int) -> Vec3 {
    Vec3 {
        x: lerp(a.x as int, b.x as int, t) as i32,
        y: lerp(a.y as int, b.y as int, t) as i32,
        z: lerp(a.z as int, b.z as int, t) as i32,
    }
}

/// Warp progress after `dt` more seconds, kept in `[0, 1]`.
pub open spec fn advanced_progress(progress: int, dt: int) -> int {
    clamp_spec(progress + WARP_RATE * dt, 0, UNIT as int)
}

/// The pitch after a rotation by `angle`.
pub open spec fn rotated_pitch(pitch: int, angle: int) -> int {
    clamp_spec(pitch + angle, -(PITCH_LIMIT as int), PITCH_LIMIT as int)
}

/// The pitch after a series of rotations.
pub open spec fn pitch_after(pitch: int, angles: Seq<int>) -> int
    decreases angles.len(),
{
    if angles.len() == 0 {
        pitch
    } else {
        rotated_pitch(pitch_after(pitch, angles.drop_last()), angles.last())
    }
}

impl Warp {
    /// The warp after `dt` more seconds.  An inactive warp stays as it is.  An
    /// active one gains progress; at full progress the position is exactly
    /// the target and the warp is cleared, before that the position is the
    /// eased blend of start and target.  An active warp without a start or
    /// a target merely ends.
    pub open spec fn advanced(self, dt: int) -> Warp {
        if !self.active {
            self
        } else {
            let progress = advanced_progress(self.progress as int, dt);
            match (self.start, self.target) {
                (Some(start), Some(target)) => {
                    if progress >= UNIT {
                        Warp { position: target, start: None, target: None, progress: 0, active: false }
                    } else {
                        Warp {
                            position: lerp3(start, target, ease(progress)),
                            start: self.start,
                            target: self.target,
                            progress: progress as i32,
                            active: true,
                        }
                    }
                },
                _ => Warp {
                    position: self.position,
                    start: self.start,
                    target: self.target,
                    progress: progress as i32,
                    active: false,
                },
            }
        }
    }

    /// The warp after a series of updates.
    pub open spec fn advanced_by(self, dts: Seq<int>) -> Warp
        decreases dts.len(),
    {
        if dts.len() == 0 {
            self
        } else {
            self.advanced_by(dts.drop_last()).advanced(dts.last())
        }
    }

    /// The warp arrives within this update.
    pub open spec fn arrives(self, dt: int) -> bool {
        self.active && self.start is Some && self.target is Some && advanced_progress(
            self.progress as int,
            dt,
        ) >= UNIT
    }
}

/// The sum of a series of time steps.
pub open spec fn total_time(dts: Seq<int>) -> int
    decreases dts.len(),
{
    if dts.len() == 0 {
        0
    } else {
        total_time(dts.drop_last()) + dts.last()
    }
}

/// The ease curve starts at 0, ends at 1 and passes through one half at one
/// half.
pub proof fn lemma_ease_fixed_points()
    ensures
        ease(0) == 0,
        ease(UNIT as int) == UNIT,
        ease(UNIT / 2) == UNIT / 2,
{
    assert(10_000int * 10_000 * 10_000 == 1_000_000_000_000) by (nonlinear_arith);
    assert(2 * 10_000int * 10_000 == 200_000_000) by (nonlinear_arith);
}

/// No series of rotations takes the pitch past the limit: from a pitch
/// within the limit, any number of rotations, upwards or downwards, leaves it
/// within `[-PITCH_LIMIT, PITCH_LIMIT]`; and from any pitch at all, one
/// rotation is enough to bring it there.
pub proof fn lemma_pitch_never_exceeds(pitch: int, angles: Seq<int>)
    requires
        -PITCH_LIMIT <= pitch <= PITCH_LIMIT || angles.len() > 0,
    ensures
        -PITCH_LIMIT <= pitch_after(pitch, angles) <= PITCH_LIMIT,
    decreases angles.len(),
{
    if angles.len() > 1 {
        lemma_pitch_never_exceeds(pitch, angles.drop_last());
    }
}

/// `b` lies nearer to `a` than `reach`.
pub open spec fn within_reach(a: Vec3, b: Vec3, reach: int) -> bool {
    reach > 0 && distance_squared(a, b) < reach * reach
}

/// The right-hand direction of a camera that looks along `forward`: the cross
/// product of `forward` and `up`, rescaled to length `UNIT`.
pub open spec fn right_of(forward: Vec3, up: Vec3) -> Vec3 {
    normalized_wide(cross(forward, up))
}

/// The camera `c` after its position has moved by `d` along `along` and its
/// target has been placed anew along the look direction `look`.
pub open spec fn moved(c: Camera, along: Vec3, d: int, look: Vec3) -> Camera {
    let position = translated(c.position, along, d);
    Camera { position, target: translated(position, look, c.distance as int), ..c }
}

/// The camera `c` with a new yaw and pitch and its target placed along the
/// look direction `look`.
pub open spec fn turned(c: Camera, yaw: int, pitch: int, look: Vec3) -> Camera {
    Camera {
        yaw: yaw as i32,
        pitch: pitch as i32,
        target: translated(c.position, look, c.distance as int),
        ..c
    }
}

/// A blend of two numbers at `t` in `[0, 1]` lies between them.
proof fn lemma_lerp_between(a: int, b: int, t: int)
    requires
        0 <= t <= UNIT,
    ensures
        a <= b ==> a <= lerp(a, b, t) <= b,
        b <= a ==> b <= lerp(a, b, t) <= a,
{
    let u: int = UNIT as int;
    let s = a * (u - t) + b * t;
    if a <= b {
        assert(a * 10_000 <= s <= b * 10_000) by (nonlinear_arith)
            requires
                s == a * (u - t) + b * t,
                0 <= t <= u,
                u == 10_000,
                a <= b,
        ;
    } else {
        assert(b * 10_000 <= s <= a * 10_000) by (nonlinear_arith)
            requires
                s == a * (u - t) + b * t,
                0 <= t <= u,
                u == 10_000,
                b <= a,
        ;
    }
}

/// The blend of two scalars at `t` in `[0, 1]`.
fn blend_scalar(a: i32, b: i32, t: i32) -> (r: i32)
    requires
        0 <= t <= UNIT,
    ensures
        r == lerp(a as int, b as int, t as int),
{
    proof {
        lemma_lerp_between(a as int, b as int, t as int);
        assert(-0x8000_0000 * 10_000 <= a * (UNIT - t) <= 0x8000_0000 * 10_000) by (nonlinear_arith)
            requires
                -0x8000_0000 <= a <= 0x8000_0000,
                0 <= UNIT - t <= 10_000,
        ;
        assert(-0x8000_0000 * 10_000 <= b * t <= 0x8000_0000 * 10_000) by (nonlinear_arith)
            requires
                -0x8000_0000 <= b <= 0x8000_0000,
                0 <= t <= 10_000,
        ;
    }
    let sum: i128 = a as i128 * (UNIT - t) as i128 + b as i128 * t as i128;
    div_floor(sum, UNIT as i128) as i32
}

/// One coordinate moved by `d` along a direction component.
fn translate_scalar(p: i32, dir: i32, d: i32) -> (r: i32)
    ensures
        r == saturated(p + mul_unit(dir as int, d as int)),
{
    saturate(p as i128 + mul_fixed(dir, d) as i128)
}

/// The point `d` along `dir` from `p`.
fn translate(p: &Vec3, dir: &Vec3, d: i32) -> (r: Vec3)
    ensures
        r == translated(*p, *dir, d as int),
{
    Vec3 {
        x: translate_scalar(p.x, dir.x, d),
        y: translate_scalar(p.y, dir.y, d),
        z: translate_scalar(p.z, dir.z, d),
    }
}

impl Camera {
    /// The warp sub-state together with the position it drives.
    pub open spec fn warp(self) -> Warp {
        Warp {
            position: self.position,
            start: self.warp_start,
            target: self.warp_target,
            progress: self.warp_progress,
            active: self.is_warping,
        }
    }

    /// Yaw, pitch and distance.
    pub open spec fn orientation(self) -> (i32, i32, i32) {
        (self.yaw, self.pitch, self.distance)
    }

    /// The camera of a fresh scene: at `(0, 200, 500)`, looking at the origin
    /// with the y axis up, a 60 degree field of view, and no warp under way.
    /// Yaw, pitch and distance are those of that view.
    pub open spec fn initial(width: u16, height: u16) -> Camera {
        Camera {
            position: Vec3 { x: 0, y: 2_000_000, z: 5_000_000 },
            target: Vec3 { x: 0, y: 0, z: 0 },
            up: Vec3 { x: 0, y: UNIT, z: 0 },
            fov: 600_000,
            near: 1_000,
            far: 100_000_000,
            aspect: (width * UNIT / (height as int)) as i32,
            yaw: -15_708i32,
            pitch: -3_805i32,
            distance: 5_385_164,
            warp_target: None,
            warp_start: None,
            warp_progress: 0,
            is_warping: false,
        }
    }

    /// The camera of a fresh scene for a viewport of the given size.
    pub fn new(width: u16, height: u16) -> (c: Camera)
        requires
            height > 0,
        ensures
            c == Camera::initial(width, height),
            c.distance == span(c.position, c.target),
    {
        proof {
            assert(is_isqrt(29_000_000_000_000, 5_385_164)) by (nonlinear_arith);
            crate::fixed::lemma_isqrt_is(29_000_000_000_000, 5_385_164);
            assert(distance_squared(
                Vec3 { x: 0, y: 2_000_000, z: 5_000_000 },
                Vec3 { x: 0, y: 0, z: 0 },
            ) == 29_000_000_000_000) by (nonlinear_arith);
        }
        Camera {
            position: Vec3 { x: 0, y: 2_000_000, z: 5_000_000 },
            target: Vec3 { x: 0, y: 0, z: 0 },
            up: Vec3 { x: 0, y: UNIT, z: 0 },
            fov: 600_000,
            near: 1_000,
            far: 100_000_000,
            aspect: (width as i64 * UNIT as i64 / height as i64) as i32,
            yaw: -15_708,
            pitch: -3_805,
            distance: 5_385_164,
            warp_target: None,
            warp_start: None,
            warp_progress: 0,
            is_warping: false,
        }
    }

    /// Cubic ease-in-out of a progress value.
    pub fn ease_in_out_cubic(&self, t: i32) -> (r: i32)
        ensures
            r == ease(t as int),
            0 <= r <= UNIT,
    {
        let t: i64 = clamp_i32(t, 0, UNIT) as i64;
        let unit: i64 = UNIT as i64;
        if t < unit / 2 {
            assert(0 <= 4 * t * t * t <= 4 * 5_000 * 5_000 * 5_000 && 0 <= 4 * t * t <= 4 * 5_000
                * 5_000) by (nonlinear_arith)
                requires
                    0 <= t < 5_000,
            ;
            (4 * t * t * t / (unit * unit)) as i32
        } else {
            let s: i64 = 2 * unit - 2 * t;
            assert(0 <= s * s * s <= 10_000 * 10_000 * 10_000 && 0 <= s * s <= 10_000 * 10_000)
                by (nonlinear_arith)
                requires
                    0 <= s <= 10_000,
            ;
            (unit - s * s * s / (2 * unit * unit)) as i32
        }
    }

    /// Begins a warp from the present position to `target`; a warp already
    /// under way starts over from where the camera is now.
    pub fn start_warp(&mut self, target: Vec3)
        ensures
            *final(self) == (Camera {
                warp_target: Some(target),
                warp_start: Some(old(self).position),
                warp_progress: 0,
                is_warping: true,
                ..*old(self)
            }),
    {
        self.warp_target = Some(target);
        self.warp_start = Some(self.position);
        self.warp_progress = 0;
        self.is_warping = true;
    }

    /// Takes yaw, pitch and distance from the line of sight.
    fn sync_from_target<H: Fn(Vec3) -> (i32, i32)>(&mut self, heading_of: &H)
        requires
            forall|d: Vec3| call_requires(*heading_of, (d,)),
        ensures
            resynced(
                *heading_of,
                old(self).position,
                old(self).target,
                old(self).orientation(),
                final(self).orientation(),
            ),
            *final(self) == (Camera {
                yaw: final(self).yaw,
                pitch: final(self).pitch,
                distance: final(self).distance,
                ..*old(self)
            }),
    {
        let dx: i128 = self.target.x as i128 - self.position.x as i128;
        let dy: i128 = self.target.y as i128 - self.position.y as i128;
        let dz: i128 = self.target.z as i128 - self.position.z as i128;
        proof {
            assert(0 <= dx * dx <= 0x1_0000_0000_0000_0000) by (nonlinear_arith)
                requires
                    -0x1_0000_0000 <= dx <= 0x1_0000_0000,
            ;
            assert(0 <= dy * dy <= 0x1_0000_0000_0000_0000) by (nonlinear_arith)
                requires
                    -0x1_0000_0000 <= dy <= 0x1_0000_0000,
            ;
            assert(0 <= dz * dz <= 0x1_0000_0000_0000_0000) by (nonlinear_arith)
                requires
                    -0x1_0000_0000 <= dz <= 0x1_0000_0000,
            ;
        }
        let len2: u128 = (dx * dx) as u128 + (dy * dy) as u128 + (dz * dz) as u128;
        if len2 > 0 {
            let dist: u64 = isqrt_wide(len2);
            let dir: Vec3 = normalize_wide((dx, dy, dz));
            self.distance = saturate(dist as i128);
            let (yaw, pitch) = heading_of(dir);
            self.yaw = yaw;
            self.pitch = pitch;
        }
    }

    /// Places the camera at `offset` from a body and points it at the body.
    pub fn follow_body<H: Fn(Vec3) -> (i32, i32)>(
        &mut self,
        body_position: Vec3,
        offset: Vec3,
        heading_of: &H,
    )
        requires
            forall|d: Vec3| call_requires(*heading_of, (d,)),
        ensures
            final(self).target == body_position,
            final(self).position == translated(body_position, offset, UNIT as int),
            resynced(
                *heading_of,
                final(self).position,
                final(self).target,
                old(self).orientation(),
                final(self).orientation(),
            ),
            *final(self) == (Camera {
                position: final(self).position,
                target: final(self).target,
                yaw: final(self).yaw,
                pitch: final(self).pitch,
                distance: final(self).distance,
                ..*old(self)
            }),
    {
        self.target = body_position;
        self.position = Vec3 {
            x: saturate(body_position.x as i128 + offset.x as i128),
            y: saturate(body_position.y as i128 + offset.y as i128),
            z: saturate(body_position.z as i128 + offset.z as i128),
        };
        self.sync_from_target(heading_of);
    }

    /// The look direction of the present yaw and pitch.
    pub fn forward_direction<T: Fn(i32) -> (i32, i32)>(&self, sin_cos: &T) -> (dir: Vec3)
        requires
            forall|a: i32| call_requires(*sin_cos, (a,)),
        ensures
            is_direction(*sin_cos, self.yaw, self.pitch, dir),
            -UNIT <= dir.x <= UNIT,
            -UNIT <= dir.y <= UNIT,
            -UNIT <= dir.z <= UNIT,
    {
        let ty: (i32, i32) = sin_cos(self.yaw);
        let tp: (i32, i32) = sin_cos(self.pitch);
        let sin_yaw: i32 = clamp_i32(ty.0, -UNIT, UNIT);
        let cos_yaw: i32 = clamp_i32(ty.1, -UNIT, UNIT);
        let sin_pitch: i32 = clamp_i32(tp.0, -UNIT, UNIT);
        let cos_pitch: i32 = clamp_i32(tp.1, -UNIT, UNIT);
        assert(-10_000 * 10_000 <= cos_yaw * cos_pitch <= 10_000 * 10_000 && -10_000 * 10_000
            <= sin_yaw * cos_pitch <= 10_000 * 10_000) by (nonlinear_arith)
            requires
                -10_000 <= cos_yaw <= 10_000,
                -10_000 <= sin_yaw <= 10_000,
                -10_000 <= cos_pitch <= 10_000,
        ;
        let dir: Vec3 = Vec3 {
            x: mul_fixed(cos_yaw, cos_pitch) as i32,
            y: sin_pitch,
            z: mul_fixed(sin_yaw, cos_pitch) as i32,
        };
        assert(dir == direction_from(ty, tp));
        dir
    }

    /// Places the target anew, `distance` along `direction` from the
    /// position.
    fn update_direction(&mut self, direction: &Vec3)
        ensures
            *final(self) == (Camera {
                target: translated(old(self).position, *direction, old(self).distance as int),
                ..*old(self)
            }),
    {
        self.target = translate(&self.position, direction, self.distance);
    }

    /// Moves the camera along its look direction; the look direction stays.
    pub fn move_forward<T: Fn(i32) -> (i32, i32)>(&mut self, distance: i32, sin_cos: &T)
        requires
            forall|a: i32| call_requires(*sin_cos, (a,)),
        ensures
            exists|dir: Vec3|
                is_direction(*sin_cos, old(self).yaw, old(self).pitch, dir) && *final(self)
                    == moved(*old(self), dir, distance as int, dir),
    {
        let dir: Vec3 = self.forward_direction(sin_cos);
        self.position = translate(&self.position, &dir, distance);
        self.update_direction(&dir);
        assert(*self == moved(*old(self), dir, distance as int, dir));
    }

    /// Moves the camera sideways, along the cross product of its look
    /// direction and its up vector; the look direction stays.
    pub fn move_right<T: Fn(i32) -> (i32, i32)>(&mut self, distance: i32, sin_cos: &T)
        requires
            forall|a: i32| call_requires(*sin_cos, (a,)),
        ensures
            exists|dir: Vec3|
                is_direction(*sin_cos, old(self).yaw, old(self).pitch, dir) && *final(self)
                    == moved(*old(self), right_of(dir, old(self).up), distance as int, dir),
    {
        let dir: Vec3 = self.forward_direction(sin_cos);
        let right: Vec3 = normalize_wide(cross_product(&dir, &self.up));
        self.position = translate(&self.position, &right, distance);
        self.update_direction(&dir);
    }

    /// Moves the camera along its up vector; the look direction stays.
    pub fn move_up<T: Fn(i32) -> (i32, i32)>(&mut self, distance: i32, sin_cos: &T)
        requires
            forall|a: i32| call_requires(*sin_cos, (a,)),
        ensures
            exists|dir: Vec3|
                is_direction(*sin_cos, old(self).yaw, old(self).pitch, dir) && *final(self)
                    == moved(*old(self), old(self).up, distance as int, dir),
    {
        let dir: Vec3 = self.forward_direction(sin_cos);
        let up: Vec3 = self.up;
        self.position = translate(&self.position, &up, distance);
        self.update_direction(&dir);
        assert(*self == moved(*old(self), old(self).up, distance as int, dir));
    }

    /// Turns the camera about the vertical axis.  The yaw accumulates without
    /// a bound other than the range of a scalar.
    pub fn rotate_yaw<T: Fn(i32) -> (i32, i32)>(&mut self, angle: i32, sin_cos: &T)
        requires
            forall|a: i32| call_requires(*sin_cos, (a,)),
        ensures
            final(self).yaw == saturated(old(self).yaw + angle),
            exists|dir: Vec3|
                is_direction(*sin_cos, final(self).yaw, old(self).pitch, dir) && *final(self)
                    == turned(
                    *old(self),
                    saturated(old(self).yaw + angle),
                    old(self).pitch as int,
                    dir,
                ),
    {
        self.yaw = saturate(self.yaw as i128 + angle as i128);
        let dir: Vec3 = self.forward_direction(sin_cos);
        self.update_direction(&dir);
        assert(is_direction(*sin_cos, self.yaw, old(self).pitch, dir));
        assert(*self == turned(
            *old(self),
            saturated(old(self).yaw + angle),
            old(self).pitch as int,
            dir,
        ));
    }

    /// Tilts the camera up or down; the pitch stays within `PITCH_LIMIT`.
    pub fn rotate_pitch<T: Fn(i32) -> (i32, i32)>(&mut self, angle: i32, sin_cos: &T)
        requires
            forall|a: i32| call_requires(*sin_cos, (a,)),
        ensures
            final(self).pitch == rotated_pitch(old(self).pitch as int, angle as int),
            -PITCH_LIMIT <= final(self).pitch <= PITCH_LIMIT,
            exists|dir: Vec3|
                is_direction(*sin_cos, old(self).yaw, final(self).pitch, dir) && *final(self)
                    == turned(
                    *old(self),
                    old(self).yaw as int,
                    rotated_pitch(old(self).pitch as int, angle as int),
                    dir,
                ),
    {
        self.pitch = clamp_i64(self.pitch as i64 + angle as i64, -PITCH_LIMIT as i64, PITCH_LIMIT as i64) as i32;
        let dir: Vec3 = self.forward_direction(sin_cos);
        self.update_direction(&dir);
        assert(*self == turned(
            *old(self),
            old(self).yaw as int,
            rotated_pitch(old(self).pitch as int, angle as int),
            dir,
        ));
    }

    /// Advances a warp by `delta_time` seconds; without a warp nothing
    /// changes.  On arrival the camera stands exactly on the warp target and
    /// yaw, pitch and distance are taken anew from the line of sight.
    pub fn update<H: Fn(Vec3) -> (i32, i32)>(&mut self, delta_time: i32, heading_of: &H)
        requires
            forall|d: Vec3| call_requires(*heading_of, (d,)),
        ensures
            final(self).warp() == old(self).warp().advanced(delta_time as int),
            old(self).warp().arrives(delta_time as int) ==> resynced(
                *heading_of,
                final(self).position,
                final(self).target,
                old(self).orientation(),
                final(self).orientation(),
            ),
            !old(self).warp().arrives(delta_time as int) ==> final(self).orientation() == old(
                self,
            ).orientation(),
            *final(self) == (Camera {
                position: final(self).position,
                yaw: final(self).yaw,
                pitch: final(self).pitch,
                distance: final(self).distance,
                warp_target: final(self).warp_target,
                warp_start: final(self).warp_start,
                warp_progress: final(self).warp_progress,
                is_warping: final(self).is_warping,
                ..*old(self)
            }),
    {
        if self.is_warping {
            let rate: i64 = WARP_RATE as i64;
            self.warp_progress = clamp_i64(
                self.warp_progress as i64 + rate * delta_time as i64,
                0,
                UNIT as i64,
            ) as i32;
            match (self.warp_start, self.warp_target) {
                (Some(start), Some(target)) => {
                    if self.warp_progress >= UNIT {
                        self.position = target;
                        self.is_warping = false;
                        self.warp_progress = 0;
                        self.warp_start = None;
                        self.warp_target = None;
                        self.sync_from_target(heading_of);
                    } else {
                        let t: i32 = self.ease_in_out_cubic(self.warp_progress);
                        self.position = Vec3 {
                            x: blend_scalar(start.x, target.x, t),
                            y: blend_scalar(start.y, target.y, t),
                            z: blend_scalar(start.z, target.z, t),
                        };
                    }
                },
                _ => {
                    self.is_warping = false;
                },
            }
        }
    }

    /// Whether the camera is nearer to the centre of a body than its radius
    /// plus the safety margin.  Nothing is changed: the caller moves the
    /// camera away.
    pub fn check_collision(&self, center: Vec3, radius: i32) -> (hit: bool)
        ensures
            hit == within_reach(self.position, center, radius + SAFETY_MARGIN),
    {
        let reach: i128 = radius as i128 + SAFETY_MARGIN as i128;
        if reach <= 0 {
            return false;
        }
        let dx: i128 = center.x as i128 - self.position.x as i128;
        let dy: i128 = center.y as i128 - self.position.y as i128;
        let dz: i128 = center.z as i128 - self.position.z as i128;
        proof {
            assert(0 <= dx * dx <= 0x1_0000_0000_0000_0000) by (nonlinear_arith)
                requires
                    -0x1_0000_0000 <= dx <= 0x1_0000_0000,
            ;
            assert(0 <= dy * dy <= 0x1_0000_0000_0000_0000) by (nonlinear_arith)
                requires
                    -0x1_0000_0000 <= dy <= 0x1_0000_0000,
            ;
            assert(0 <= dz * dz <= 0x1_0000_0000_0000_0000) by (nonlinear_arith)
                requires
                    -0x1_0000_0000 <= dz <= 0x1_0000_0000,
            ;
            assert(0 <= reach * reach <= 0x1_0000_0000_0000_0000) by (nonlinear_arith)
                requires
                    0 <= reach <= 0x1_0000_0000,
            ;
        }
        dx * dx + dy * dy + dz * dz < reach * reach
    }
}

/// Every time step of the series is zero or more.
pub open spec fn no_step_back(dts: Seq<int>) -> bool {
    forall|i: int| 0 <= i < dts.len() ==> dts[i] >= 0
}

/// Where a warp that has just been started stands after a series of updates
/// that never step back in time: under way, with the progress that the time
/// so far has earned, or arrived and cleared, exactly on the target.
proof fn lemma_warp_progresses(w: Warp, target: Vec3, dts: Seq<int>)
    requires
        w.active,
        w.start is Some,
        w.target == Some(target),
        w.progress == 0,
        no_step_back(dts),
    ensures
        ({
            let after = w.advanced_by(dts);
            if WARP_RATE * total_time(dts) >= UNIT {
                !after.active && after.position == target
            } else {
                &&& after.active
                &&& after.start == w.start
                &&& after.target == w.target
                &&& after.progress == WARP_RATE * total_time(dts)
            }
        }),
        total_time(dts) >= 0,
    decreases dts.len(),
{
    if dts.len() > 0 {
        let earlier = dts.drop_last();
        lemma_warp_progresses(w, target, earlier);
    }
}

/// A warp to `target`, once started, ends on it: after updates that never
/// step back in time and together last long enough for full progress, the
/// warp is no longer active and the position is exactly `target`.
pub proof fn lemma_warp_arrives(w: Warp, target: Vec3, dts: Seq<int>)
    requires
        w.active,
        w.start is Some,
        w.target == Some(target),
        w.progress == 0,
        no_step_back(dts),
        WARP_RATE * total_time(dts) >= UNIT,
    ensures
        !w.advanced_by(dts).active,
        w.advanced_by(dts).position == target,
{
    lemma_warp_progresses(w, target, dts);
}

/// At a distance of exactly the reach a point is not within reach; nearer
/// than that it is.
pub proof fn lemma_reach_is_strict(a: Vec3, b: Vec3, reach: int)
    requires
        reach > 0,
    ensures
        distance_squared(a, b) == reach * reach ==> !within_reach(a, b, reach),
        distance_squared(a, b) < reach * reach ==> within_reach(a, b, reach),
        distance_squared(a, b) > reach * reach ==> !within_reach(a, b, reach),
{
}

} // verus!
