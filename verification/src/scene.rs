//! The size of the rendered scene.

use vstd::prelude::*;

verus! {

/// The width and the height of the scene, in pixels.
#[derive(Debug)]
pub struct SceneInfo {
    width: u32,
    height: u32,
}

impl View for SceneInfo {
    type V = (u32, u32);

    closed spec fn view(&self) -> (u32, u32) {
        (self.width, self.height)
    }
}

impl Default for SceneInfo {
    fn default() -> (scene: Self)
        ensures
            scene@ == (0u32, 0u32),
    {
        SceneInfo { width: 0, height: 0 }
    }
}

impl SceneInfo {
    pub fn new(width: u32, height: u32) -> (scene: SceneInfo)
        ensures
            scene@ == (width, height),
    {
        SceneInfo { width, height }
    }

    pub fn dimensions(&self) -> (size: (u32, u32))
        ensures
            size == self@,
    {
        (self.width, self.height)
    }
}

} // verus!
