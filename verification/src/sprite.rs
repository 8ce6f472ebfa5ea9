//! The sprite component.

use vstd::prelude::*;

verus! {

/// A drawable sprite component: the handle of the texture it samples.
#[derive(Clone, Copy, PartialEq, Eq, Structural, Debug)]
pub struct Sprite {
    pub texture: u64,
}

impl Sprite {
    /// Builds a sprite over the given texture handle.
    pub fn new(texture: u64) -> (r: Sprite)
        ensures
            r == (Sprite { texture }),
    {
        Sprite { texture }
    }
}

} // verus!
