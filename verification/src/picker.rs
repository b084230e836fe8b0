//! Turning a press of the select button into a marker on a tile.
//!
//! One tick of the picker has two halves, with the projection of the pointer
//! into the world between them. [`Picker::begin`] looks at the input and at
//! the cameras and decides whether a selection starts and through which
//! camera the pointer is to be projected. [`Picker::finish`] takes the
//! projected point and marks the tile that holds it. The caller does the
//! projection.

use vstd::prelude::*;
use crate::coord::{Spot, WorldPoint};
use crate::grid::{Grid, GridModel, Selection};

verus! {

/// Something a tick needs and did not find. None of these is a fault: the
/// tick is skipped and the next one looks again.
#[derive(Clone, Copy, Debug, PartialEq, Eq, Structural)]
pub enum MissingResource {
    /// Nothing reports the state of the select action.
    InputHandler,
    /// The pointer has no position, as when it is outside the window.
    Pointer,
    /// No camera is marked as active, or no camera exists at all.
    Camera,
}

/// What the input source reports at the start of a tick.
#[derive(Clone, Copy, Debug)]
pub struct InputSnapshot {
    /// Whether the select action is down; `None` when nothing reports it.
    pub select: Option<bool>,
    /// Whether the pointer has a position on the screen.
    pub pointer_available: bool,
}

/// The cameras that exist, by their handles, and the handle that is marked
/// as the active camera.
#[derive(Debug)]
pub struct CameraRegistry {
    /// The handle marked as active, if any is.
    pub active: Option<u64>,
    /// The handles of all cameras.
    pub cameras: Vec<u64>,
}

impl CameraRegistry {
    /// The camera that a tick looks through: the active one if it is among
    /// the cameras, else the first camera there is. There is none when no
    /// handle is marked as active, and none when no camera exists.
    pub open spec fn resolved(self) -> Option<u64> {
        match self.active {
            None => None,
            Some(handle) => if self.cameras@.contains(handle) {
                Some(handle)
            } else if self.cameras@.len() > 0 {
                Some(self.cameras@[0])
            } else {
                None
            },
        }
    }

    /// Finds the camera that a tick looks through.
    pub fn resolve(&self) -> (camera: Option<u64>)
        ensures
            camera == self.resolved(),
    {
        let handle: u64 = match self.active {
            Some(handle) => handle,
            None => {
                return None;
            },
        };
        let mut i: usize = 0;
        while i < self.cameras.len()
            invariant
                self.active == Some(handle),
                i <= self.cameras@.len(),
                forall|j: int| 0 <= j < i ==> self.cameras@[j] != handle,
            decreases self.cameras@.len() - i,
        {
            if self.cameras[i] == handle {
                return Some(handle);
            }
            i = i + 1;
        }
        if self.cameras.len() > 0 {
            Some(self.cameras[0])
        } else {
            None
        }
    }
}

/// Where the picker stands between the two halves of a tick.
#[derive(Clone, Copy, Debug, PartialEq, Eq, Structural)]
pub enum PickerState {
    /// No selection is under way.
    Idle,
    /// A selection started; the pointer is being projected through `camera`.
    ActiveSelection { camera: u64 },
}

/// What the first half of a tick decided.
#[derive(Clone, Copy, Debug, PartialEq, Eq, Structural)]
pub enum Activation {
    /// The select action is not down.
    Idle,
    /// The tick is skipped for want of a resource.
    Missing(MissingResource),
    /// A selection starts: project the pointer through `camera`.
    Project { camera: u64 },
}

impl Activation {
    /// What the input and the cameras of a tick lead to. The select action is
    /// looked at first, then the pointer, then the cameras.
    pub open spec fn of(input: InputSnapshot, registry: CameraRegistry) -> Activation {
        match input.select {
            None => Activation::Missing(MissingResource::InputHandler),
            Some(pressed) => if !pressed {
                Activation::Idle
            } else if !input.pointer_available {
                Activation::Missing(MissingResource::Pointer)
            } else {
                match registry.resolved() {
                    None => Activation::Missing(MissingResource::Camera),
                    Some(camera) => Activation::Project { camera },
                }
            },
        }
    }

    /// The state in which the picker waits for the projected point.
    pub open spec fn state(self) -> PickerState {
        match self {
            Activation::Project { camera } => PickerState::ActiveSelection { camera },
            _ => PickerState::Idle,
        }
    }
}

/// The picker: its state, and the sprite that its markers show.
#[derive(Clone, Copy, Debug)]
pub struct Picker {
    pub state: PickerState,
    pub marker_sprite: usize,
}

impl Picker {
    /// The field after the second half of a tick: `projected` was selected if
    /// a selection was under way and the projection gave a point; else the
    /// field is as it was.
    pub open spec fn field_after(self, grid: GridModel, projected: Option<Spot>) -> GridModel {
        match (self.state, projected) {
            (PickerState::ActiveSelection { .. }, Some(p)) => grid.select(p, self.marker_sprite),
            _ => grid,
        }
    }

    /// What the second half of a tick reports.
    pub open spec fn picked(self, grid: GridModel, projected: Option<Spot>) -> Option<Selection> {
        match (self.state, projected) {
            (PickerState::ActiveSelection { .. }, Some(p)) => grid.selection(p, self.marker_sprite),
            _ => None,
        }
    }

    /// An idle picker whose markers show `marker_sprite`.
    pub fn new(marker_sprite: usize) -> (picker: Picker)
        ensures
            picker.state == PickerState::Idle,
            picker.marker_sprite == marker_sprite,
    {
        Picker { state: PickerState::Idle, marker_sprite }
    }

    /// First half of a tick. A selection starts when the select action is
    /// down, the pointer has a position and a camera can be found; the picker
    /// then waits for the pointer to be projected through that camera. In
    /// every other case the picker is idle afterwards.
    pub fn begin(&mut self, input: &InputSnapshot, cameras: &CameraRegistry) -> (activation: Activation)
        ensures
            activation == Activation::of(*input, *cameras),
            final(self).state == activation.state(),
            final(self).marker_sprite == old(self).marker_sprite,
    {
        let activation: Activation = match input.select {
            None => Activation::Missing(MissingResource::InputHandler),
            Some(false) => Activation::Idle,
            Some(true) => {
                if !input.pointer_available {
                    Activation::Missing(MissingResource::Pointer)
                } else {
                    match cameras.resolve() {
                        None => Activation::Missing(MissingResource::Camera),
                        Some(camera) => Activation::Project { camera },
                    }
                }
            },
        };
        self.state = match activation {
            Activation::Project { camera } => PickerState::ActiveSelection { camera },
            _ => PickerState::Idle,
        };
        activation
    }

    /// Second half of a tick. If a selection is under way and the projection
    /// gave a point, the point is selected in `grid`: the tile that holds it
    /// gets one more marker. In every case the picker is idle afterwards.
    pub fn finish(&mut self, grid: &mut Grid, projected: Option<WorldPoint>) -> (picked: Option<Selection>)
        requires
            old(grid)@.wf(),
        ensures
            final(grid)@.wf(),
            final(grid)@ == old(self).field_after(old(grid)@, spot_of(projected)),
            picked == old(self).picked(old(grid)@, spot_of(projected)),
            final(self).state == PickerState::Idle,
            final(self).marker_sprite == old(self).marker_sprite,
    {
        let state: PickerState = self.state;
        self.state = PickerState::Idle;
        match (state, projected) {
            (PickerState::ActiveSelection { .. }, Some(point)) => grid.select(point, self.marker_sprite),
            _ => None,
        }
    }
}

/// The place that a projected point stands for, if there is a point.
pub open spec fn spot_of(projected: Option<WorldPoint>) -> Option<Spot> {
    match projected {
        Some(point) => Some(point@),
        None => None,
    }
}

} // verus!
