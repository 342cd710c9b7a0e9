//! The 2D user interface layer: a vello scene that the backend renders.
use vstd::prelude::*;

use vello::wgpu::Device;
use vello::Scene;

verus! {

/// A vello scene, opaque here.
#[verifier::external_type_specification]
#[verifier::external_body]
pub struct ExScene(Scene);

/// A wgpu device, opaque here.
#[verifier::external_type_specification]
#[verifier::external_body]
pub struct ExDevice(Device);

/// The error report of `color_eyre`, opaque here.
#[verifier::external_type_specification]
#[verifier::external_body]
pub struct ExReport(color_eyre::Report);

/// `Scene::new` of vello: a scene with nothing drawn in it. The scene is
/// opaque here, so nothing is stated of it.
#[verifier::external_body]
fn empty_scene() -> Scene {
    Scene::new()
}

/// The user interface drawn over the 3D content.
pub struct LumaUI {
    scene: Scene,
}

impl LumaUI {
    /// The scene that the interface draws into.
    pub closed spec fn current_scene(&self) -> Scene {
        self.scene
    }

    /// A user interface with an empty scene; it never fails.
    pub fn new(_device: &Device) -> (r: Result<Self, color_eyre::Report>)
        ensures
            r is Ok,
    {
        Ok(LumaUI { scene: empty_scene() })
    }

    /// The scene that the interface draws into.
    pub fn scene(&self) -> (r: &Scene)
        ensures
            *r == self.current_scene(),
    {
        &self.scene
    }

    /// The scene that the interface draws into, for drawing.
    pub fn scene_mut(&mut self) -> (r: &mut Scene)
        ensures
            *r == old(self).current_scene(),
            final(self).current_scene() == *final(r),
    {
        &mut self.scene
    }
}

} // verus!
