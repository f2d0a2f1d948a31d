//! Colour textures: constant, checker, Perlin noise and image lookup.
//!
//! The verified core owns the texture description and the rule that every
//! image texture must name a registered asset.  Evaluating a texture at a
//! point is floating-point arithmetic and lives with the rendering front
//! end.

use crate::assets::{spec_has_asset, AssetValidationError, Assets};
use crate::colour::Colour;
use crate::scalar::Real64;
use vstd::prelude::*;
use vstd::set::Set;

verus! {

/// The random table behind a Perlin-noise texture: a table of random unit
/// colours and one shuffled index permutation per axis.
#[derive(Debug, PartialEq)]
pub struct NoiseConfig {
    pub ran: Vec<Colour>,
    pub perm_x: Vec<usize>,
    pub perm_y: Vec<usize>,
    pub perm_z: Vec<usize>,
}

/// Ghost image of a [`NoiseConfig`].
pub ghost struct NoiseConfigView {
    pub ran: Seq<Colour>,
    pub perm_x: Seq<usize>,
    pub perm_y: Seq<usize>,
    pub perm_z: Seq<usize>,
}

impl View for NoiseConfig {
    type V = NoiseConfigView;

    open spec fn view(&self) -> NoiseConfigView {
        NoiseConfigView {
            ran: self.ran@,
            perm_x: self.perm_x@,
            perm_y: self.perm_y@,
            perm_z: self.perm_z@,
        }
    }
}

impl NoiseConfig {
    /// Packs the four tables.
    pub fn new(ran: Vec<Colour>, perm_x: Vec<usize>, perm_y: Vec<usize>, perm_z: Vec<usize>) -> (r:
        NoiseConfig)
        ensures
            r@ == (NoiseConfigView {
                ran: ran@,
                perm_x: perm_x@,
                perm_y: perm_y@,
                perm_z: perm_z@,
            }),
    {
        NoiseConfig { ran, perm_x, perm_y, perm_z }
    }
}

/// A colour texture.
#[derive(Debug, PartialEq)]
pub enum Texture {
    Constant { colour: Colour },
    Checker { even: Box<Texture>, odd: Box<Texture> },
    Noise { base_colour: Colour, scale: Real64, noisiness: Real64, noise_config: NoiseConfig },
    Image { asset_name: String },
}

/// Ghost image of a [`Texture`].
pub ghost enum TextureView {
    Constant { colour: Colour },
    Checker { even: Box<TextureView>, odd: Box<TextureView> },
    Noise { base_colour: Colour, scale: Real64, noisiness: Real64, noise_config: NoiseConfigView },
    Image { asset_name: Seq<char> },
}

/// The ghost image of a texture tree.
pub open spec fn texture_view(t: Texture) -> TextureView
    decreases t,
{
    match t {
        Texture::Constant { colour } => TextureView::Constant { colour },
        Texture::Checker { even, odd } => TextureView::Checker {
            even: Box::new(texture_view(*even)),
            odd: Box::new(texture_view(*odd)),
        },
        Texture::Noise { base_colour, scale, noisiness, noise_config } => TextureView::Noise {
            base_colour,
            scale,
            noisiness,
            noise_config: noise_config@,
        },
        Texture::Image { asset_name } => TextureView::Image { asset_name: asset_name@ },
    }
}

impl View for Texture {
    type V = TextureView;

    open spec fn view(&self) -> TextureView {
        texture_view(*self)
    }
}

/// The asset names an image texture anywhere in the tree refers to.
pub open spec fn spec_texture_assets(t: TextureView) -> Set<Seq<char>>
    decreases t,
{
    match t {
        TextureView::Constant { .. } => Set::empty(),
        TextureView::Checker { even, odd } => spec_texture_assets(*even).union(
            spec_texture_assets(*odd),
        ),
        TextureView::Noise { .. } => Set::empty(),
        TextureView::Image { asset_name } => Set::empty().insert(asset_name),
    }
}

/// Every asset name in `t` is registered in `assets`.
pub open spec fn spec_texture_valid(t: TextureView, assets: Assets) -> bool {
    forall|name: Seq<char>|
        spec_texture_assets(t).contains(name) ==> spec_has_asset(assets, name)
}

impl Texture {
    /// Checks that every image texture in the tree names a registered
    /// asset, reporting the first missing name found.
    pub fn validate(&self, assets: &Assets) -> (r: Result<(), AssetValidationError>)
        ensures
            r.is_ok() <==> spec_texture_valid(self@, *assets),
            match r {
                Ok(()) => true,
                Err(AssetValidationError::MissingAsset { asset_name }) => {
                    &&& spec_texture_assets(self@).contains(asset_name@)
                    &&& !spec_has_asset(*assets, asset_name@)
                },
            },
        decreases *self,
    {
        match self {
            Texture::Constant { .. } => Ok(()),
            Texture::Checker { even, odd } => {
                even.validate(assets)?;
                odd.validate(assets)?;
                Ok(())
            },
            Texture::Noise { .. } => Ok(()),
            Texture::Image { asset_name } => assets.validate(asset_name.as_str()),
        }
    }

    /// A structurally equal copy of the texture tree.
    pub fn duplicate(&self) -> (r: Texture)
        ensures
            r@ == self@,
        decreases *self,
    {
        match self {
            Texture::Constant { colour } => Texture::Constant { colour: *colour },
            Texture::Checker { even, odd } => Texture::Checker {
                even: Box::new(even.duplicate()),
                odd: Box::new(odd.duplicate()),
            },
            Texture::Noise { base_colour, scale, noisiness, noise_config } => Texture::Noise {
                base_colour: *base_colour,
                scale: *scale,
                noisiness: *noisiness,
                noise_config: NoiseConfig {
                    ran: copy_vec(&noise_config.ran),
                    perm_x: copy_vec(&noise_config.perm_x),
                    perm_y: copy_vec(&noise_config.perm_y),
                    perm_z: copy_vec(&noise_config.perm_z),
                },
            },
            Texture::Image { asset_name } => Texture::Image {
                asset_name: copy_string(asset_name),
            },
        }
    }
}

/// An element-for-element copy of a vector of plain values.
pub fn copy_vec<T: Copy>(v: &Vec<T>) -> (r: Vec<T>)
    ensures
        r@ == v@,
{
    let mut r: Vec<T> = Vec::new();
    let n = v.len();
    let mut i: usize = 0;
    while i < n
        invariant
            i <= n,
            n == v@.len(),
            r@ == v@.subrange(0, i as int),
        decreases n - i,
    {
        r.push(v[i]);
        i = i + 1;
    }
    proof {
        assert(v@.subrange(0, n as int) =~= v@);
    }
    r
}

/// A copy of a string with the same characters.
pub fn copy_string(s: &String) -> (r: String)
    ensures
        r@ == s@,
{
    s.as_str().to_owned()
}

} // verus!
