//! The camera: viewport, focal distance, position and orientation, and the
//! map from a discrete pixel coordinate to a world-space view ray.
//!
//! Pixel coordinates are centered: `(0, 0)` is the middle of the canvas and
//! a coordinate is valid while its magnitude is at most half the canvas size
//! (inclusive), with the halves rounded down.  Movement policy: a relative
//! translation rotates the offset by the camera's current orientation before
//! adding it (first-person movement); an absolute translation adds the
//! offset along the world axes.

use vstd::prelude::*;
use crate::rat::{Rat, Ratio, pack, r_div, r_int, r_mul};
use crate::vector::{V3, Vector3, cv_add, ov3};
use crate::quaternion::{QuatV, Quaternion, c_rotate, cq_mul};

verus! {

/// The mathematical value of a camera.
pub ghost struct CamV {
    pub vw: Ratio,
    pub vh: Ratio,
    pub vd: Ratio,
    pub position: V3,
    pub rotation: QuatV,
    pub cw: int,
    pub ch: int,
}

/// Largest canvas dimension the camera accepts; keeps every pixel coordinate
/// and its viewport image well inside the scalar range.
pub open spec fn canvas_cap() -> int {
    0x7fff_ffff
}

/// A movable, rotatable pinhole camera.
pub struct Camera {
    viewport_size: (Rat, Rat),
    v_distance: Rat,
    position: Vector3,
    rotation: Quaternion,
    canvas_size: (usize, usize),
}

impl View for Camera {
    type V = CamV;

    closed spec fn view(&self) -> CamV {
        CamV {
            vw: self.viewport_size.0@,
            vh: self.viewport_size.1@,
            vd: self.v_distance@,
            position: self.position@,
            rotation: self.rotation@,
            cw: self.canvas_size.0 as int,
            ch: self.canvas_size.1 as int,
        }
    }
}

/// The checked view ray of the centered pixel `(x, y)`: the viewport point
/// `(x * (vw / cw), y * (vh / ch), vd)` rotated by the camera's orientation.
/// The ray originates at the camera's position and is not normalized.
pub open spec fn c_canvas_ray(cam: CamV, x: int, y: int) -> Option<V3> {
    match pack(r_div(cam.vw, r_int(cam.cw))) {
        None => None,
        Some(sx) => match pack(r_mul(r_int(x), sx)) {
            None => None,
            Some(vx) => match pack(r_div(cam.vh, r_int(cam.ch))) {
                None => None,
                Some(sy) => match pack(r_mul(r_int(y), sy)) {
                    None => None,
                    Some(vy) => c_rotate(cam.rotation, V3 { x: vx, y: vy, z: cam.vd }),
                },
            },
        },
    }
}

/// The checked new position of a translation: a relative offset is first
/// rotated by the current orientation, an absolute one is added as it is.
pub open spec fn c_translate(cam: CamV, off: V3, relative: bool) -> Option<V3> {
    if relative {
        match c_rotate(cam.rotation, off) {
            Some(ro) => cv_add(cam.position, ro),
            None => None,
        }
    } else {
        cv_add(cam.position, off)
    }
}

impl Camera {
    #[verifier::type_invariant]
    spec fn inv(self) -> bool {
        &&& 1 <= self.canvas_size.0 as int <= canvas_cap()
        &&& 1 <= self.canvas_size.1 as int <= canvas_cap()
    }

    /// A camera over every setting at once.  The canvas must have positive
    /// dimensions within `canvas_cap()`.
    pub fn new(
        viewport_size: (Rat, Rat),
        v_distance: Rat,
        position: Vector3,
        rotation: Quaternion,
        canvas_size: (usize, usize),
    ) -> (r: Camera)
        requires
            1 <= canvas_size.0 as int <= canvas_cap(),
            1 <= canvas_size.1 as int <= canvas_cap(),
        ensures
            r@ == (CamV {
                vw: viewport_size.0@,
                vh: viewport_size.1@,
                vd: v_distance@,
                position: position@,
                rotation: rotation@,
                cw: canvas_size.0 as int,
                ch: canvas_size.1 as int,
            }),
    {
        Camera { viewport_size, v_distance, position, rotation, canvas_size }
    }

    /// The view ray of the centered pixel `(x, y)`.  Calling it outside the
    /// canvas's own coordinate range is a caller bug, excluded here rather
    /// than answered.
    pub fn get_canvas_ray(&self, x: isize, y: isize) -> (r: Option<Vector3>)
        requires
            -(self@.cw / 2) <= x as int <= self@.cw / 2,
            -(self@.ch / 2) <= y as int <= self@.ch / 2,
        ensures
            ov3(r) == c_canvas_ray(self@, x as int, y as int),
    {
        proof {
            use_type_invariant(self);
        }
        let cwr = Rat::of_int(self.canvas_size.0 as i64);
        let chr = Rat::of_int(self.canvas_size.1 as i64);
        let sx = match self.viewport_size.0.div(&cwr) {
            Some(v) => v,
            None => {
                return None;
            },
        };
        let vx = match Rat::of_int(x as i64).mul(&sx) {
            Some(v) => v,
            None => {
                return None;
            },
        };
        let sy = match self.viewport_size.1.div(&chr) {
            Some(v) => v,
            None => {
                return None;
            },
        };
        let vy = match Rat::of_int(y as i64).mul(&sy) {
            Some(v) => v,
            None => {
                return None;
            },
        };
        let ray = Vector3::new(vx, vy, self.v_distance);
        ray.rotate(&self.rotation)
    }

    /// The camera's world position.
    pub fn get_position(&self) -> (r: Vector3)
        ensures
            r@ == self@.position,
    {
        self.position
    }

    /// Compose a rotation delta on the right: the delta acts in the camera's
    /// current local frame.  Leaves the camera unchanged and reports `false`
    /// when the composed orientation does not fit the stored range.
    pub fn rotate(&mut self, delta: &Quaternion) -> (ok: bool)
        ensures
            match cq_mul(old(self)@.rotation, delta@) {
                Some(q) => ok && final(self)@ == (CamV { rotation: q, ..old(self)@ }),
                None => !ok && final(self)@ == old(self)@,
            },
    {
        proof {
            use_type_invariant(&*self);
        }
        match self.rotation.mul(delta) {
            Some(q) => {
                self.rotation = q;
                true
            },
            None => false,
        }
    }

    /// Replace the orientation outright.
    pub fn set_rotation(&mut self, q: &Quaternion)
        ensures
            final(self)@ == (CamV { rotation: q@, ..old(self)@ }),
    {
        proof {
            use_type_invariant(&*self);
        }
        self.rotation = *q;
    }

    /// Move the camera.  A relative offset is rotated into the camera's
    /// current frame first; an absolute one is added along the world axes.
    /// Leaves the camera unchanged and reports `false` when the new position
    /// does not fit the stored range.
    pub fn translate(&mut self, offset: &Vector3, relative: bool) -> (ok: bool)
        ensures
            match c_translate(old(self)@, offset@, relative) {
                Some(p) => ok && final(self)@ == (CamV { position: p, ..old(self)@ }),
                None => !ok && final(self)@ == old(self)@,
            },
    {
        proof {
            use_type_invariant(&*self);
        }
        let moved = if relative {
            match offset.rotate(&self.rotation) {
                Some(ro) => self.position.add(&ro),
                None => None,
            }
        } else {
            self.position.add(offset)
        };
        match moved {
            Some(p) => {
                self.position = p;
                true
            },
            None => false,
        }
    }
}

/// Why a camera could not be built.
#[derive(Clone, Copy, Debug, PartialEq, Eq, Structural)]
pub enum CameraBuildError {
    /// The canvas size, the one setting without a default, was never given.
    MissingCanvasSize,
    /// The given canvas size has a zero dimension or one beyond
    /// `canvas_cap()`.
    InvalidCanvasSize,
}

/// The mathematical value of a camera under construction.
pub ghost struct CamBuilderV {
    pub viewport: Option<(Ratio, Ratio)>,
    pub v_distance: Option<Ratio>,
    pub position: Option<V3>,
    pub rotation: Option<QuatV>,
    pub canvas: Option<(int, int)>,
}

/// The one required setting is present and valid.
pub open spec fn build_ok(b: CamBuilderV) -> bool {
    match b.canvas {
        Some((w, h)) => 1 <= w <= canvas_cap() && 1 <= h <= canvas_cap(),
        None => false,
    }
}

/// The error a failing build reports.
pub open spec fn build_err(b: CamBuilderV) -> CameraBuildError {
    if b.canvas is None {
        CameraBuildError::MissingCanvasSize
    } else {
        CameraBuildError::InvalidCanvasSize
    }
}

/// The camera a successful build yields: each absent setting replaced by its
/// default — viewport `(8/5, 9/10)`, focal distance `1`, position the
/// origin, rotation the identity.
pub open spec fn built_camera(b: CamBuilderV) -> CamV {
    CamV {
        vw: match b.viewport {
            Some(v) => v.0,
            None => crate::rat::reduce(Ratio { n: 8, d: 5 }),
        },
        vh: match b.viewport {
            Some(v) => v.1,
            None => crate::rat::reduce(Ratio { n: 9, d: 10 }),
        },
        vd: match b.v_distance {
            Some(v) => v,
            None => r_int(1),
        },
        position: match b.position {
            Some(v) => v,
            None => V3 { x: r_int(0), y: r_int(0), z: r_int(0) },
        },
        rotation: match b.rotation {
            Some(v) => v,
            None => QuatV { w: r_int(1), x: r_int(0), y: r_int(0), z: r_int(0) },
        },
        cw: b.canvas->Some_0.0,
        ch: b.canvas->Some_0.1,
    }
}

/// Builder-style optional configuration for `Camera`: every setting but the
/// canvas size has a default.
pub struct CameraBuilder {
    viewport_size: Option<(Rat, Rat)>,
    v_distance: Option<Rat>,
    position: Option<Vector3>,
    rotation: Option<Quaternion>,
    canvas_size: Option<(usize, usize)>,
}

impl View for CameraBuilder {
    type V = CamBuilderV;

    closed spec fn view(&self) -> CamBuilderV {
        CamBuilderV {
            viewport: match self.viewport_size {
                Some(v) => Some((v.0@, v.1@)),
                None => None,
            },
            v_distance: match self.v_distance {
                Some(v) => Some(v@),
                None => None,
            },
            position: match self.position {
                Some(v) => Some(v@),
                None => None,
            },
            rotation: match self.rotation {
                Some(v) => Some(v@),
                None => None,
            },
            canvas: match self.canvas_size {
                Some(v) => Some((v.0 as int, v.1 as int)),
                None => None,
            },
        }
    }
}

impl Default for CameraBuilder {
    /// A builder with nothing set.
    fn default() -> (r: CameraBuilder)
        ensures
            r@ == (CamBuilderV {
                viewport: None,
                v_distance: None,
                position: None,
                rotation: None,
                canvas: None,
            }),
    {
        CameraBuilder {
            viewport_size: None,
            v_distance: None,
            position: None,
            rotation: None,
            canvas_size: None,
        }
    }
}

impl CameraBuilder {
    pub fn viewport_size(self, v: (Rat, Rat)) -> (r: CameraBuilder)
        ensures
            r@ == (CamBuilderV { viewport: Some((v.0@, v.1@)), ..self@ }),
    {
        CameraBuilder { viewport_size: Some(v), ..self }
    }

    pub fn v_distance(self, v: Rat) -> (r: CameraBuilder)
        ensures
            r@ == (CamBuilderV { v_distance: Some(v@), ..self@ }),
    {
        CameraBuilder { v_distance: Some(v), ..self }
    }

    pub fn position(self, v: Vector3) -> (r: CameraBuilder)
        ensures
            r@ == (CamBuilderV { position: Some(v@), ..self@ }),
    {
        CameraBuilder { position: Some(v), ..self }
    }

    pub fn rotation(self, v: Quaternion) -> (r: CameraBuilder)
        ensures
            r@ == (CamBuilderV { rotation: Some(v@), ..self@ }),
    {
        CameraBuilder { rotation: Some(v), ..self }
    }

    pub fn canvas_size(self, v: (usize, usize)) -> (r: CameraBuilder)
        ensures
            r@ == (CamBuilderV { canvas: Some((v.0 as int, v.1 as int)), ..self@ }),
    {
        CameraBuilder { canvas_size: Some(v), ..self }
    }

    /// Build the camera: fails exactly when the canvas size is missing or
    /// invalid; every other setting falls back to its default.
    pub fn build(&self) -> (r: Result<Camera, CameraBuildError>)
        ensures
            build_ok(self@) ==> (r matches Ok(c) && c@ == built_camera(self@)),
            !build_ok(self@) ==> (r matches Err(e) && e == build_err(self@)),
    {
        let (cw, ch) = match self.canvas_size {
            Some(v) => v,
            None => {
                return Err(CameraBuildError::MissingCanvasSize);
            },
        };
        if cw < 1 || ch < 1 || cw > 0x7fff_ffff || ch > 0x7fff_ffff {
            return Err(CameraBuildError::InvalidCanvasSize);
        }
        let viewport = match self.viewport_size {
            Some(v) => v,
            None => (Rat::new(8, 5), Rat::new(9, 10)),
        };
        let v_distance = match self.v_distance {
            Some(v) => v,
            None => Rat::of_int(1),
        };
        let position = match self.position {
            Some(v) => v,
            None => Vector3::zero(),
        };
        let rotation = match self.rotation {
            Some(v) => v,
            None => Quaternion::identity(),
        };
        Ok(Camera::new(viewport, v_distance, position, rotation, (cw, ch)))
    }
}

} // verus!
