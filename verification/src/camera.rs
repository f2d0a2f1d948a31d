//! The saved camera description: where it looks from and to, its lens,
//! and the shutter window.
//!
//! Turning the description into view-plane geometry, and producing the
//! jittered sample rays, is floating-point arithmetic and lives with the
//! rendering front end.

use crate::scalar::Real64;
use crate::vector::Vector;
use vstd::prelude::*;

verus! {

/// The lens parameters of a camera: vertical field of view in degrees,
/// aperture, and focus distance.
#[derive(Debug, Clone, Copy, PartialEq, Eq, Structural)]
pub struct Lens {
    pub vertical_fov: Real64,
    pub aperture: Real64,
    pub focus_distance: Real64,
}

impl Lens {
    /// Packs the three lens parameters.
    pub fn new(vertical_fov: Real64, aperture: Real64, focus_distance: Real64) -> (r: Lens)
        ensures
            r == (Lens { vertical_fov, aperture, focus_distance }),
    {
        Lens { vertical_fov, aperture, focus_distance }
    }
}

/// A camera as saved in a scene document.
#[derive(Debug, Clone, Copy, PartialEq, Eq, Structural)]
pub struct CameraSave {
    pub look_from: Vector,
    pub look_at: Vector,
    pub view_up: Vector,
    pub vertical_fov: Real64,
    pub aspect: Real64,
    pub aperture: Real64,
    pub focus_distance: Real64,
    pub time_start: Real64,
    pub time_end: Real64,
}

impl CameraSave {
    /// Assembles a saved camera from its frame, lens and shutter window.
    pub fn new(
        look_from: &Vector,
        look_at: &Vector,
        view_up: &Vector,
        aspect: Real64,
        lens: Lens,
        time_start: Real64,
        time_end: Real64,
    ) -> (r: CameraSave)
        ensures
            r == (CameraSave {
                look_from: *look_from,
                look_at: *look_at,
                view_up: *view_up,
                vertical_fov: lens.vertical_fov,
                aspect,
                aperture: lens.aperture,
                focus_distance: lens.focus_distance,
                time_start,
                time_end,
            }),
    {
        CameraSave {
            look_from: *look_from,
            look_at: *look_at,
            view_up: *view_up,
            vertical_fov: lens.vertical_fov,
            aspect,
            aperture: lens.aperture,
            focus_distance: lens.focus_distance,
            time_start,
            time_end,
        }
    }

    /// The shutter-open time.
    pub fn time_start(&self) -> (r: Real64)
        ensures
            r == self.time_start,
    {
        self.time_start
    }

    /// The shutter-close time.
    pub fn time_end(&self) -> (r: Real64)
        ensures
            r == self.time_end,
    {
        self.time_end
    }
}

} // verus!
