//! The saved render configuration: aspect ratio, camera and world.  This
//! is the root of a scene document; turning it into a render-time
//! configuration (camera geometry, bounding-volume hierarchy over
//! numeric boxes) involves floating-point arithmetic and is driven by the
//! rendering front end, which calls back into [`crate::world`] and
//! [`crate::bvh`] for the verified parts.

use crate::assets::{spec_has_asset, AssetValidationError, Assets};
use crate::camera::CameraSave;
use crate::geometry::spec_geometries_assets;
use crate::scalar::Real64;
use crate::world::{spec_world_valid, WorldSave, WorldSaveView};
use vstd::prelude::*;

verus! {

/// Ghost image of a [`ConfigSave`].
pub ghost struct ConfigSaveView {
    pub aspect: Real64,
    pub camera: CameraSave,
    pub world: WorldSaveView,
}

/// A render configuration as saved in a scene document.
#[derive(Debug, PartialEq)]
pub struct ConfigSave {
    pub aspect: Real64,
    pub camera: CameraSave,
    pub world: WorldSave,
}

impl View for ConfigSave {
    type V = ConfigSaveView;

    open spec fn view(&self) -> ConfigSaveView {
        ConfigSaveView { aspect: self.aspect, camera: self.camera, world: self.world@ }
    }
}

impl ConfigSave {
    /// Packs an aspect ratio, a camera and a world.
    pub fn new(aspect: Real64, camera: CameraSave, world: WorldSave) -> (r: ConfigSave)
        ensures
            r@ == (ConfigSaveView { aspect, camera, world: world@ }),
    {
        ConfigSave { aspect, camera, world }
    }

    /// Checks that every image texture in the world names a registered
    /// asset, reporting a missing name.
    pub fn validate(&self, assets: &Assets) -> (r: Result<(), AssetValidationError>)
        ensures
            r.is_ok() <==> spec_world_valid(self@.world, *assets),
            match r {
                Ok(()) => true,
                Err(AssetValidationError::MissingAsset { asset_name }) => {
                    &&& spec_geometries_assets(self@.world.geometries).contains(asset_name@)
                    &&& !spec_has_asset(*assets, asset_name@)
                },
            },
    {
        self.world.validate(assets)
    }
}

} // verus!
