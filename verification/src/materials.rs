//! Surface materials: Lambertian, metal, dielectric, diffuse light and
//! isotropic fog.
//!
//! The verified core owns the material description, which materials count
//! as light emitters (attractors for next-event sampling), and the asset
//! check over their textures.  Scattering and emission arithmetic is
//! floating-point and lives with the rendering front end.

use crate::assets::{spec_has_asset, AssetValidationError, Assets};
use crate::colour::Colour;
use crate::scalar::Real64;
use crate::texture::{spec_texture_assets, Texture, TextureView};
use vstd::prelude::*;
use vstd::set::Set;

verus! {

/// A surface material.
#[derive(Debug, PartialEq)]
pub enum Material {
    Lambertian { albedo: Texture },
    Metal { albedo: Colour, fuzz: Real64 },
    Dielectric { refractive_index: Real64 },
    DiffuseLight { emit: Texture },
    Isotropic { albedo: Texture },
}

/// Ghost image of a [`Material`].
pub ghost enum MaterialView {
    Lambertian { albedo: TextureView },
    Metal { albedo: Colour, fuzz: Real64 },
    Dielectric { refractive_index: Real64 },
    DiffuseLight { emit: TextureView },
    Isotropic { albedo: TextureView },
}

impl View for Material {
    type V = MaterialView;

    open spec fn view(&self) -> MaterialView {
        match *self {
            Material::Lambertian { albedo } => MaterialView::Lambertian { albedo: albedo@ },
            Material::Metal { albedo, fuzz } => MaterialView::Metal { albedo, fuzz },
            Material::Dielectric { refractive_index } => MaterialView::Dielectric {
                refractive_index,
            },
            Material::DiffuseLight { emit } => MaterialView::DiffuseLight { emit: emit@ },
            Material::Isotropic { albedo } => MaterialView::Isotropic { albedo: albedo@ },
        }
    }
}

/// The asset names the material's textures refer to.
pub open spec fn spec_material_assets(m: MaterialView) -> Set<Seq<char>> {
    match m {
        MaterialView::Lambertian { albedo } => spec_texture_assets(albedo),
        MaterialView::Metal { .. } => Set::empty(),
        MaterialView::Dielectric { .. } => Set::empty(),
        MaterialView::DiffuseLight { emit } => spec_texture_assets(emit),
        MaterialView::Isotropic { albedo } => spec_texture_assets(albedo),
    }
}

/// Every asset name the material refers to is registered in `assets`.
pub open spec fn spec_material_valid(m: MaterialView, assets: Assets) -> bool {
    forall|name: Seq<char>|
        spec_material_assets(m).contains(name) ==> spec_has_asset(assets, name)
}

/// Whether the material emits light: true exactly of diffuse lights.
pub open spec fn spec_material_is_attractor(m: MaterialView) -> bool {
    m is DiffuseLight
}

impl Material {
    /// Checks that every image texture the material refers to names a
    /// registered asset, reporting a missing name.
    pub fn validate(&self, assets: &Assets) -> (r: Result<(), AssetValidationError>)
        ensures
            r.is_ok() <==> spec_material_valid(self@, *assets),
            match r {
                Ok(()) => true,
                Err(AssetValidationError::MissingAsset { asset_name }) => {
                    &&& spec_material_assets(self@).contains(asset_name@)
                    &&& !spec_has_asset(*assets, asset_name@)
                },
            },
    {
        match self {
            Material::Lambertian { albedo } => albedo.validate(assets),
            Material::Metal { .. } => Ok(()),
            Material::Dielectric { .. } => Ok(()),
            Material::DiffuseLight { emit } => emit.validate(assets),
            Material::Isotropic { albedo } => albedo.validate(assets),
        }
    }

    /// True exactly when the material is a diffuse light, the only
    /// emitting material; such geometries join the attractor list.
    pub fn is_attractor(&self) -> (r: bool)
        ensures
            r == spec_material_is_attractor(self@),
    {
        match self {
            Material::DiffuseLight { .. } => true,
            _ => false,
        }
    }

    /// A structurally equal copy of the material.
    pub fn duplicate(&self) -> (r: Material)
        ensures
            r@ == self@,
    {
        match self {
            Material::Lambertian { albedo } => Material::Lambertian {
                albedo: albedo.duplicate(),
            },
            Material::Metal { albedo, fuzz } => Material::Metal { albedo: *albedo, fuzz: *fuzz },
            Material::Dielectric { refractive_index } => Material::Dielectric {
                refractive_index: *refractive_index,
            },
            Material::DiffuseLight { emit } => Material::DiffuseLight { emit: emit.duplicate() },
            Material::Isotropic { albedo } => Material::Isotropic { albedo: albedo.duplicate() },
        }
    }
}

} // verus!
