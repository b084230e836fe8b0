//! The camera: which depths it draws, and where it stands over the field.

use vstd::prelude::*;
use crate::coord::{WorldCoord, WorldPoint, UNIT};
use crate::stack::{BASE_DEPTH, MARKER_DEPTH};

verus! {

/// The depth at which the camera is set up.
pub const CAMERA_DEPTH: i32 = 1;

/// How far the camera sees once it is set up.
pub const VISION_DEPTH: i32 = 5;

/// Where the camera stands on the depth axis and how far it sees.
///
/// The camera looks down the depth axis, towards smaller values. It draws what
/// lies strictly between `z_depth - vision_depth` and `z_depth`; what lies on
/// either limit is not drawn.
#[derive(Clone, Copy, Debug, PartialEq, Eq, Structural)]
pub struct CameraState {
    pub z_depth: i32,
    pub vision_depth: i32,
}

/// How the camera is placed over a field: it stands over the middle of the
/// field and looks at a window `width` by `height` world units large.
#[derive(Clone, Copy, Debug, PartialEq, Eq, Structural)]
pub struct CameraFrame {
    /// The middle of the field.
    pub center: WorldPoint,
    /// The camera's own depth.
    pub z: i32,
    pub width: u64,
    pub height: u64,
}

impl CameraState {
    /// Whether something at depth `z` is inside the camera's view volume.
    pub open spec fn sees(self, z: int) -> bool {
        self.z_depth - self.vision_depth < z < self.z_depth
    }

    /// A camera that is not set up yet: it stands at depth zero and sees
    /// nothing.
    pub fn new() -> (camera: CameraState)
        ensures
            camera.z_depth == 0,
            camera.vision_depth == 0,
            forall|z: int| !camera.sees(z),
    {
        CameraState { z_depth: 0, vision_depth: 0 }
    }

    /// Sets the camera up at [`CAMERA_DEPTH`] with a vision of
    /// [`VISION_DEPTH`]. From there it draws the base sprites of the tiles
    /// and the markers laid over them.
    pub fn initialise(&mut self)
        ensures
            final(self).z_depth == CAMERA_DEPTH,
            final(self).vision_depth == VISION_DEPTH,
            final(self).sees(BASE_DEPTH as int),
            final(self).sees(MARKER_DEPTH as int),
    {
        self.z_depth = CAMERA_DEPTH;
        self.vision_depth = VISION_DEPTH;
    }

    /// Tells whether the camera draws what is placed at depth `z`.
    pub fn is_visible(&self, z: i32) -> (visible: bool)
        ensures
            visible == self.sees(z as int),
    {
        let far: i64 = self.z_depth as i64 - self.vision_depth as i64;
        far < z as i64 && z < self.z_depth
    }

    /// Places the camera over a field that is `arena.0` world units wide and
    /// `arena.1` high: over its middle, at the camera's depth, looking at the
    /// whole field.
    pub fn adjust(&self, arena: (u64, u64)) -> (frame: CameraFrame)
        ensures
            2 * frame.center.x@ == arena.0 as int * UNIT as int,
            2 * frame.center.y@ == arena.1 as int * UNIT as int,
            frame.z == self.z_depth,
            frame.width == arena.0,
            frame.height == arena.1,
    {
        CameraFrame {
            center: WorldPoint::new(WorldCoord::half_of(arena.0), WorldCoord::half_of(arena.1)),
            z: self.z_depth,
            width: arena.0,
            height: arena.1,
        }
    }
}

} // verus!
