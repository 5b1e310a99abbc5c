//! What the library hands to the code that draws: the worlds of a frame as
//! plain values, in the order in which they are to be written.

use vstd::prelude::*;

verus! {

/// How a world is filled.
#[derive(Debug, Clone, Copy, PartialEq, Eq, Structural)]
pub enum WorldMode {
    /// From a background map.
    Normal,
    /// From the object table.
    Object,
}

/// One world of the display: its header, and where it lies on the screen
/// and in its background map.
#[derive(Debug, Clone, Copy, PartialEq, Eq, Structural)]
pub struct World {
    pub bgm: WorldMode,
    pub lon: bool,
    pub ron: bool,
    pub bg_map_base: u8,
    pub gx: i16,
    pub gp: i16,
    pub gy: i16,
    pub mx: i16,
    pub my: i16,
    pub w: i16,
    pub h: i16,
}

/// A picture to draw as objects, with the place of its top left corner on
/// the screen.
pub struct Sprite<T: 'static> {
    pub image: &'static T,
    pub dst: (i16, i16),
}

} // verus!
