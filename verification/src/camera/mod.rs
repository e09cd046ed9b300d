//! Cameras: the projection parameters that a document gives, and the pose
//! that a viewer starts from.

use crate::algebra::Vec3;
use crate::scalar::{ONE, ZERO};
use vstd::prelude::*;

verus! {

/// Bit pattern of `-5.0`.
pub const MINUS_FIVE: u32 = 0xc0a0_0000;

/// Bit pattern of `5.0`.
pub const FIVE: u32 = 0x40a0_0000;

/// Bit pattern of `100.0`.
pub const HUNDRED: u32 = 0x42c8_0000;

/// Bit pattern of `20.0`.
pub const TWENTY: u32 = 0x41a0_0000;

/// Bit pattern of `0.01`, rounded to single precision.
pub const HUNDREDTH: u32 = 0x3c23_d70a;

/// The box that an orthographic camera shows.
#[derive(Clone, Copy, Debug, PartialEq, Eq)]
pub struct OrtographicData {
    pub left: u32,
    pub right: u32,
    pub top: u32,
    pub bottom: u32,
    pub near: u32,
    pub far: u32,
}

/// The frustum of a perspective camera. Without an aspect ratio the viewport
/// decides it when the matrix is built; without a far plane the projection
/// is infinite.
#[derive(Clone, Copy, Debug, PartialEq, Eq)]
pub struct PerspectiveData {
    pub aspect_ratio: Option<u32>,
    pub y_fov: u32,
    pub z_near: u32,
    pub z_far: Option<u32>,
}

/// The projection of a camera.
#[derive(Clone, Copy, Debug, PartialEq, Eq)]
pub enum CameraType {
    Orthographic(OrtographicData),
    Perspective(PerspectiveData),
}

/// A camera projection as a document writes it.
#[derive(Clone, Copy, Debug, PartialEq, Eq)]
pub enum SourceProjection {
    Orthographic { xmag: u32, ymag: u32, znear: u32, zfar: u32 },
    Perspective { aspect_ratio: Option<u32>, yfov: u32, znear: u32, zfar: Option<u32> },
}

/// A direction in which a camera can be moved.
#[derive(Clone, Copy, Debug, PartialEq, Eq, Structural)]
pub enum Direction {
    Front,
    Back,
    Left,
    Right,
    Up,
    Down,
}

/// A camera: where it stands, where it looks, what it projects and how fast
/// it answers to input.
#[derive(Clone, Copy, Debug, PartialEq, Eq)]
pub struct Camera {
    pub pos: Vec3,
    pub front: Vec3,
    pub ty: CameraType,
    pub rotation_speed: u32,
    pub movement_speed: u32,
    pub yaw: u32,
    pub pitch: u32,
}

impl OrtographicData {
    /// A box of ten units across and a hundred deep.
    pub open spec fn default_spec() -> OrtographicData {
        OrtographicData {
            left: MINUS_FIVE,
            right: FIVE,
            top: MINUS_FIVE,
            bottom: FIVE,
            near: ZERO,
            far: HUNDRED,
        }
    }
}

impl Default for OrtographicData {
    fn default() -> (data: OrtographicData)
        ensures
            data == OrtographicData::default_spec(),
    {
        OrtographicData {
            left: MINUS_FIVE,
            right: FIVE,
            top: MINUS_FIVE,
            bottom: FIVE,
            near: ZERO,
            far: HUNDRED,
        }
    }
}

impl PerspectiveData {
    /// A field of view of 20, a near plane at 0.01, no far plane and no
    /// aspect ratio of its own.
    pub open spec fn default_spec() -> PerspectiveData {
        PerspectiveData { aspect_ratio: None, y_fov: TWENTY, z_near: HUNDREDTH, z_far: None }
    }
}

impl Default for PerspectiveData {
    fn default() -> (data: PerspectiveData)
        ensures
            data == PerspectiveData::default_spec(),
    {
        PerspectiveData { aspect_ratio: None, y_fov: TWENTY, z_near: HUNDREDTH, z_far: None }
    }
}

impl CameraType {
    /// The projection that a document's camera stands for. An orthographic
    /// camera shows the box from the origin to its magnifications.
    pub open spec fn of(source: SourceProjection) -> CameraType {
        match source {
            SourceProjection::Orthographic { xmag, ymag, znear, zfar } => CameraType::Orthographic(
                OrtographicData {
                    left: ZERO,
                    right: xmag,
                    top: ymag,
                    bottom: ZERO,
                    near: znear,
                    far: zfar,
                },
            ),
            SourceProjection::Perspective { aspect_ratio, yfov, znear, zfar } => {
                CameraType::Perspective(
                    PerspectiveData { aspect_ratio, y_fov: yfov, z_near: znear, z_far: zfar },
                )
            },
        }
    }

    pub fn ortographic(data: OrtographicData) -> (ty: CameraType)
        ensures
            ty == CameraType::Orthographic(data),
    {
        CameraType::Orthographic(data)
    }

    pub fn perspective(data: PerspectiveData) -> (ty: CameraType)
        ensures
            ty == CameraType::Perspective(data),
    {
        CameraType::Perspective(data)
    }

    /// Maps the projection of a document's camera.
    pub fn from_projection(source: &SourceProjection) -> (ty: CameraType)
        ensures
            ty == CameraType::of(*source),
    {
        match *source {
            SourceProjection::Orthographic { xmag, ymag, znear, zfar } => CameraType::Orthographic(
                OrtographicData {
                    left: ZERO,
                    right: xmag,
                    top: ymag,
                    bottom: ZERO,
                    near: znear,
                    far: zfar,
                },
            ),
            SourceProjection::Perspective { aspect_ratio, yfov, znear, zfar } => {
                CameraType::Perspective(
                    PerspectiveData { aspect_ratio, y_fov: yfov, z_near: znear, z_far: zfar },
                )
            },
        }
    }
}

impl Camera {
    /// A camera at the origin that looks along the x axis.
    pub open spec fn with_type(ty: CameraType) -> Camera {
        Camera {
            pos: Vec3 { x: ZERO, y: ZERO, z: ZERO },
            front: Vec3 { x: ONE, y: ZERO, z: ZERO },
            ty,
            rotation_speed: TWENTY,
            movement_speed: HUNDREDTH,
            yaw: ZERO,
            pitch: ZERO,
        }
    }

    /// The camera that a scene gets when its document brings none.
    pub open spec fn fallback() -> Camera {
        Camera::with_type(CameraType::Perspective(PerspectiveData::default_spec()))
    }

    pub fn from_type(ty: CameraType) -> (camera: Camera)
        ensures
            camera == Camera::with_type(ty),
    {
        Camera {
            pos: Vec3 { x: ZERO, y: ZERO, z: ZERO },
            front: Vec3 { x: ONE, y: ZERO, z: ZERO },
            ty,
            rotation_speed: TWENTY,
            movement_speed: HUNDREDTH,
            yaw: ZERO,
            pitch: ZERO,
        }
    }

    pub fn pos(&self) -> (pos: &Vec3)
        ensures
            *pos == self.pos,
    {
        &self.pos
    }

    pub fn front(&self) -> (front: &Vec3)
        ensures
            *front == self.front,
    {
        &self.front
    }
}

} // verus!
