//! The sprites drawn on one tile, from the bottom up.

use vstd::prelude::*;

verus! {

/// How far the sprites of a tile are set in from its lower left corner, along
/// both axes, in whole world units.
pub const VISUAL_INSET: u64 = 16;

/// Depth of the base sprite of every tile.
pub const BASE_DEPTH: i32 = -1;

/// Depth of a selection marker. It lies nearer to the camera than
/// [`BASE_DEPTH`], so a marker is drawn over the tile it marks.
pub const MARKER_DEPTH: i32 = 0;

/// One visual of a tile: which sprite is drawn, and where.
///
/// `x` and `y` are whole world units. `z` is the depth: of two layers, the one
/// with the larger `z` is nearer to the camera and is drawn over the other.
#[derive(Clone, Copy, Debug, PartialEq, Eq, Structural)]
pub struct Layer {
    pub sprite: usize,
    pub x: u64,
    pub y: u64,
    pub z: i32,
}

/// The layers of one tile in the order in which they were added. The first is
/// the tile's own sprite, the later ones are markers laid over it. Layers are
/// only ever appended.
///
/// Its view is the sequence of layers.
#[derive(Debug)]
pub struct TileStack {
    layers: Vec<Layer>,
}

impl View for TileStack {
    type V = Seq<Layer>;

    closed spec fn view(&self) -> Seq<Layer> {
        self.layers@
    }
}

impl TileStack {
    /// A stack that holds the base layer and nothing else.
    pub fn new(base: Layer) -> (stack: TileStack)
        ensures
            stack@ == seq![base],
    {
        let mut layers: Vec<Layer> = Vec::new();
        layers.push(base);
        TileStack { layers }
    }

    /// Lays `layer` on top of the stack.
    pub fn push(&mut self, layer: Layer)
        ensures
            final(self)@ == old(self)@.push(layer),
    {
        self.layers.push(layer);
    }

    /// The number of layers.
    pub fn len(&self) -> (n: usize)
        ensures
            n == self@.len(),
    {
        self.layers.len()
    }

    /// The layer at place `index`, counted from the bottom, if there is one.
    pub fn get(&self, index: usize) -> (layer: Option<Layer>)
        ensures
            layer == (if index < self@.len() { Some(self@[index as int]) } else { None }),
    {
        if index < self.layers.len() {
            Some(self.layers[index])
        } else {
            None
        }
    }
}

} // verus!
