//! Camera description with explicit parameters.

use crate::scalar::Scalar;
use vstd::prelude::*;

verus! {

/// Default near clipping plane distance: one tenth.
pub const DEFAULT_NEAR: i64 = 100_000;

/// Default far clipping plane distance: one thousand.
pub const DEFAULT_FAR: i64 = 1_000_000_000;

/// Projection type for the camera.
#[derive(Debug, Clone, Copy, PartialEq, Eq, Structural)]
pub enum Projection {
    Perspective,
    Orthographic,
}

/// Camera with explicit position, target, and projection parameters.
#[derive(Debug, Clone, Copy)]
pub struct Camera {
    /// Camera position in world coordinates.
    pub position: [Scalar; 3],
    /// Point the camera is looking at.
    pub target: [Scalar; 3],
    /// Up vector for camera orientation.
    pub up: [Scalar; 3],
    pub projection: Projection,
    /// Near clipping plane distance.
    pub near: Scalar,
    /// Far clipping plane distance.
    pub far: Scalar,
    /// Field of view in degrees (perspective) or view height (orthographic).
    pub fov_or_height: Scalar,
}

impl Camera {
    /// A camera of the given kind with the default clipping planes and the
    /// y axis pointing up.
    pub open spec fn standard(
        projection: Projection,
        position: [Scalar; 3],
        target: [Scalar; 3],
        fov_or_height: Scalar,
        c: Camera,
    ) -> bool {
        &&& c.position == position
        &&& c.target == target
        &&& c.up@ == seq![Scalar::Finite(0), Scalar::Finite(1_000_000), Scalar::Finite(0)]
        &&& c.projection == projection
        &&& c.near == Scalar::Finite(100_000)
        &&& c.far == Scalar::Finite(1_000_000_000)
        &&& c.fov_or_height == fov_or_height
    }

    /// Create a new perspective camera.
    pub fn perspective(position: [Scalar; 3], target: [Scalar; 3], fov_degrees: Scalar) -> (c:
        Self)
        ensures
            Camera::standard(Projection::Perspective, position, target, fov_degrees, c),
    {
        let up = [Scalar::Finite(0), Scalar::Finite(1_000_000), Scalar::Finite(0)];
        assert(up@ =~= seq![Scalar::Finite(0), Scalar::Finite(1_000_000), Scalar::Finite(0)]);
        Camera {
            position,
            target,
            up,
            projection: Projection::Perspective,
            near: Scalar::Finite(DEFAULT_NEAR),
            far: Scalar::Finite(DEFAULT_FAR),
            fov_or_height: fov_degrees,
        }
    }

    /// Create a new orthographic camera.
    pub fn orthographic(position: [Scalar; 3], target: [Scalar; 3], view_height: Scalar) -> (c:
        Self)
        ensures
            Camera::standard(Projection::Orthographic, position, target, view_height, c),
    {
        let up = [Scalar::Finite(0), Scalar::Finite(1_000_000), Scalar::Finite(0)];
        assert(up@ =~= seq![Scalar::Finite(0), Scalar::Finite(1_000_000), Scalar::Finite(0)]);
        Camera {
            position,
            target,
            up,
            projection: Projection::Orthographic,
            near: Scalar::Finite(DEFAULT_NEAR),
            far: Scalar::Finite(DEFAULT_FAR),
            fov_or_height: view_height,
        }
    }
}

} // verus!
