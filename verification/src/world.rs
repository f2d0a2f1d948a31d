//! The saved world: a background gradient and the flat list of
//! geometries, plus the rules read off that list before rendering — the
//! asset check and the extraction of light-emitting geometries.

use crate::assets::{spec_has_asset, AssetValidationError, Assets};
use crate::background::Background;
use crate::geometry::{
    geometries_view, lemma_geometries_assets_member, lemma_geometries_assets_split,
    lemma_geometries_view_len, lemma_geometries_view_push, spec_geometries_assets,
    spec_geometry_is_attractor, Geometry, GeometryView,
};
use vstd::prelude::*;

verus! {

/// Ghost image of a [`WorldSave`].
pub ghost struct WorldSaveView {
    pub background: Background,
    pub geometries: Seq<GeometryView>,
}

/// A world as saved in a scene document.
#[derive(Debug, PartialEq)]
pub struct WorldSave {
    background: Background,
    geometries: Vec<Geometry>,
}

impl View for WorldSave {
    type V = WorldSaveView;

    closed spec fn view(&self) -> WorldSaveView {
        WorldSaveView {
            background: self.background,
            geometries: geometries_view(self.geometries@),
        }
    }
}

/// Every asset name in any geometry of the world is registered.
pub open spec fn spec_world_valid(w: WorldSaveView, assets: Assets) -> bool {
    forall|name: Seq<char>|
        spec_geometries_assets(w.geometries).contains(name) ==> spec_has_asset(assets, name)
}

/// The light-emitting geometries of `s`, in order.
pub open spec fn spec_attractors(s: Seq<GeometryView>) -> Seq<GeometryView>
    decreases s,
{
    if s.len() == 0 {
        Seq::empty()
    } else if spec_geometry_is_attractor(s.last()) {
        spec_attractors(s.drop_last()).push(s.last())
    } else {
        spec_attractors(s.drop_last())
    }
}

impl WorldSave {
    /// Packs a background and a geometry list.
    pub fn new(background: Background, geometries: Vec<Geometry>) -> (r: WorldSave)
        ensures
            r@ == (WorldSaveView {
                background,
                geometries: geometries_view(geometries@),
            }),
    {
        WorldSave { background, geometries }
    }

    /// The geometry list.
    pub fn geometries(&self) -> (r: &Vec<Geometry>)
        ensures
            geometries_view(r@) == self@.geometries,
    {
        &self.geometries
    }

    /// The background gradient.
    pub fn background(&self) -> (r: &Background)
        ensures
            r == self@.background,
    {
        &self.background
    }

    /// Takes the geometries out, leaving the world empty.  The world must
    /// not have been drained already.
    pub fn drain_geometries(&mut self) -> (r: Vec<Geometry>)
        requires
            old(self)@.geometries.len() > 0,
        ensures
            geometries_view(r@) == old(self)@.geometries,
            final(self)@.geometries.len() == 0,
            final(self)@.background == old(self)@.background,
    {
        let r = self.geometries.split_off(0);
        proof {
            assert(r@ =~= old(self).geometries@);
        }
        r
    }

    /// Checks that every image texture anywhere in the world names a
    /// registered asset, reporting a missing name.
    pub fn validate(&self, assets: &Assets) -> (r: Result<(), AssetValidationError>)
        ensures
            r.is_ok() <==> spec_world_valid(self@, *assets),
            match r {
                Ok(()) => true,
                Err(AssetValidationError::MissingAsset { asset_name }) => {
                    &&& spec_geometries_assets(self@.geometries).contains(asset_name@)
                    &&& !spec_has_asset(*assets, asset_name@)
                },
            },
    {
        validate_geometries(&self.geometries, assets)
    }
}

/// Checks every geometry of a list, as [`Geometry::validate`] does.
#[verifier::loop_isolation(false)]
pub fn validate_geometries(geometries: &Vec<Geometry>, assets: &Assets) -> (r: Result<
    (),
    AssetValidationError,
>)
    ensures
        r.is_ok() <==> (forall|name: Seq<char>|
            spec_geometries_assets(geometries_view(geometries@)).contains(name)
                ==> spec_has_asset(*assets, name)),
        match r {
            Ok(()) => true,
            Err(AssetValidationError::MissingAsset { asset_name }) => {
                &&& spec_geometries_assets(geometries_view(geometries@)).contains(asset_name@)
                &&& !spec_has_asset(*assets, asset_name@)
            },
        },
{
    let ghost views = geometries_view(geometries@);
    proof {
        lemma_geometries_view_len(geometries@);
    }
    let n = geometries.len();
    let mut i: usize = 0;
    while i < n
        invariant
            i <= n,
            forall|name: Seq<char>|
                spec_geometries_assets(views.subrange(0, i as int)).contains(name)
                    ==> spec_has_asset(*assets, name),
        decreases n - i,
    {
        match geometries[i].validate(assets) {
            Ok(()) => (),
            Err(e) => {
                proof {
                    lemma_geometries_assets_member(views, i as int);
                }
                return Err(e);
            },
        }
        proof {
            lemma_geometries_assets_split(views, i as int);
        }
        i = i + 1;
    }
    proof {
        assert(views.subrange(0, n as int) =~= views);
    }
    Ok(())
}

/// The light-emitting geometries of a list, copied in order; they become
/// the attractor set for next-event light sampling.
#[verifier::loop_isolation(false)]
pub fn attractors(geometries: &Vec<Geometry>) -> (r: Vec<Geometry>)
    ensures
        geometries_view(r@) == spec_attractors(geometries_view(geometries@)),
{
    let ghost views = geometries_view(geometries@);
    proof {
        lemma_geometries_view_len(geometries@);
    }
    let n = geometries.len();
    let mut r: Vec<Geometry> = Vec::new();
    let mut i: usize = 0;
    while i < n
        invariant
            i <= n,
            geometries_view(r@) == spec_attractors(views.subrange(0, i as int)),
        decreases n - i,
    {
        proof {
            assert(views.subrange(0, i + 1).drop_last() =~= views.subrange(0, i as int));
            assert(views.subrange(0, i + 1).last() == views[i as int]);
        }
        if geometries[i].is_attractor() {
            let copy = geometries[i].duplicate();
            proof {
                lemma_geometries_view_push(r@, copy);
            }
            r.push(copy);
        }
        i = i + 1;
    }
    proof {
        assert(views.subrange(0, n as int) =~= views);
    }
    r
}

} // verus!
