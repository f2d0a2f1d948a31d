//! The closed set of geometry variants: spheres, axis-aligned rectangles,
//! cubes, participating media, the affine wrappers and the
//! bounding-volume-hierarchy node.
//!
//! The verified core owns the geometry description and the structural
//! rules over it: construction of composite geometries, the asset check
//! over their materials, which geometries are light emitters, and which
//! carry a bounding box.  Ray intersection is floating-point arithmetic
//! and lives with the rendering front end; hierarchy construction is in
//! [`crate::bvh`].

use crate::aabb::AxisAlignedBoundingBox;
use crate::assets::{spec_has_asset, AssetValidationError, Assets};
use crate::materials::{
    spec_material_assets, spec_material_is_attractor, Material, MaterialView,
};
use crate::scalar::Real64;
use crate::texture::Texture;
use crate::vector::Vector;
use vstd::prelude::*;
use vstd::set::Set;

verus! {

/// A scene-construction failure.
#[derive(Debug, PartialEq, Eq, Structural)]
pub enum GeometryError {
    /// A geometry without a bounding box cannot be rotated.
    RotationUnsupported(),
    /// A geometry without a bounding box cannot join a bounding-volume
    /// hierarchy.
    MissingBoundingBox(),
    /// A bounding-volume hierarchy cannot be built over nothing.
    EmptyBvh(),
}

impl GeometryError {
    /// The error rendered as a line of text.
    pub fn message(&self) -> String {
        match self {
            GeometryError::RotationUnsupported() => (
                "rotation is only supported for geometries that have bounding boxes"
            ).to_owned(),
            GeometryError::MissingBoundingBox() => (
                "geometries with no bounding boxes are not supported"
            ).to_owned(),
            GeometryError::EmptyBvh() => (
                "a bounding volume hierarchy needs at least one geometry"
            ).to_owned(),
        }
    }
}

/// A sphere, centre and radius; a negative radius turns the surface
/// normals inward (a hollow shell).
#[derive(Debug, PartialEq)]
pub struct Sphere {
    pub centre: Vector,
    pub radius: Real64,
    pub material: Material,
}

/// A sphere whose centre moves linearly between two keyframes.
#[derive(Debug, PartialEq)]
pub struct MovingSphere {
    pub centre_start: Vector,
    pub time_start: Real64,
    pub centre_end: Vector,
    pub time_end: Real64,
    pub radius: Real64,
    pub material: Material,
}

/// Six axis-aligned rectangles forming a box; the low/high corners are
/// kept beside them.
#[derive(Debug, PartialEq)]
pub struct Cube {
    pub rectangles: Vec<Geometry>,
    pub pmin: Vector,
    pub pmax: Vector,
}

/// A constant-density participating medium bounded by another geometry.
#[derive(Debug, PartialEq)]
pub struct ConstantMedium {
    pub boundary: Box<Geometry>,
    pub density: Real64,
    pub material: Material,
}

/// An axis-aligned rectangle in a plane of constant `z`.
#[derive(Debug, PartialEq)]
pub struct XyRect {
    pub x0: Real64,
    pub x1: Real64,
    pub y0: Real64,
    pub y1: Real64,
    pub k: Real64,
    pub material: Material,
}

/// An axis-aligned rectangle in a plane of constant `y`.
#[derive(Debug, PartialEq)]
pub struct XzRect {
    pub x0: Real64,
    pub x1: Real64,
    pub z0: Real64,
    pub z1: Real64,
    pub k: Real64,
    pub material: Material,
}

/// An axis-aligned rectangle in a plane of constant `x`.
#[derive(Debug, PartialEq)]
pub struct YzRect {
    pub y0: Real64,
    pub y1: Real64,
    pub z0: Real64,
    pub z1: Real64,
    pub k: Real64,
    pub material: Material,
}

/// A wrapper that flips the wrapped geometry's surface normals.
#[derive(Debug, PartialEq)]
pub struct FlipNormals {
    pub geometry: Box<Geometry>,
}

/// A wrapper that translates the wrapped geometry by an offset.
#[derive(Debug, PartialEq)]
pub struct Translate {
    pub geometry: Box<Geometry>,
    pub offset: Vector,
}

/// A wrapper that rotates the wrapped geometry about the vertical axis.
#[derive(Debug, PartialEq)]
pub struct RotateY {
    pub geometry: Box<Geometry>,
    pub angle: Real64,
}

/// One node of a bounding volume hierarchy: up to two children and the
/// cached box around them.
#[derive(Debug, PartialEq)]
pub struct BoundingVolumeHierarchyNode {
    pub left: Option<Box<Geometry>>,
    pub right: Option<Box<Geometry>>,
    pub bounding_box: AxisAlignedBoundingBox,
}

/// A geometry: the closed union of every variant.
#[derive(Debug, PartialEq)]
pub enum Geometry {
    Bvh(Box<BoundingVolumeHierarchyNode>),
    Sphere(Box<Sphere>),
    MovingSphere(Box<MovingSphere>),
    Cube(Box<Cube>),
    ConstantMedium(Box<ConstantMedium>),
    XyRect(Box<XyRect>),
    XzRect(Box<XzRect>),
    YzRect(Box<YzRect>),
    Flip(Box<FlipNormals>),
    Translate(Box<Translate>),
    RotateY(Box<RotateY>),
}

/// Ghost image of a [`Geometry`].
pub ghost enum GeometryView {
    Bvh {
        left: Option<Box<GeometryView>>,
        right: Option<Box<GeometryView>>,
        bounding_box: AxisAlignedBoundingBox,
    },
    Sphere { centre: Vector, radius: Real64, material: MaterialView },
    MovingSphere {
        centre_start: Vector,
        time_start: Real64,
        centre_end: Vector,
        time_end: Real64,
        radius: Real64,
        material: MaterialView,
    },
    Cube { rectangles: Seq<GeometryView>, pmin: Vector, pmax: Vector },
    ConstantMedium { boundary: Box<GeometryView>, density: Real64, material: MaterialView },
    XyRect { x0: Real64, x1: Real64, y0: Real64, y1: Real64, k: Real64, material: MaterialView },
    XzRect { x0: Real64, x1: Real64, z0: Real64, z1: Real64, k: Real64, material: MaterialView },
    YzRect { y0: Real64, y1: Real64, z0: Real64, z1: Real64, k: Real64, material: MaterialView },
    Flip { geometry: Box<GeometryView> },
    Translate { geometry: Box<GeometryView>, offset: Vector },
    RotateY { geometry: Box<GeometryView>, angle: Real64 },
}

/// The ghost image of a geometry tree.
pub open spec fn geometry_view(g: Geometry) -> GeometryView
    decreases g,
{
    match g {
        Geometry::Bvh(node) => GeometryView::Bvh {
            left: match node.left {
                Some(child) => Some(Box::new(geometry_view(*child))),
                None => None,
            },
            right: match node.right {
                Some(child) => Some(Box::new(geometry_view(*child))),
                None => None,
            },
            bounding_box: node.bounding_box,
        },
        Geometry::Sphere(s) => GeometryView::Sphere {
            centre: s.centre,
            radius: s.radius,
            material: s.material@,
        },
        Geometry::MovingSphere(s) => GeometryView::MovingSphere {
            centre_start: s.centre_start,
            time_start: s.time_start,
            centre_end: s.centre_end,
            time_end: s.time_end,
            radius: s.radius,
            material: s.material@,
        },
        Geometry::Cube(c) => GeometryView::Cube {
            rectangles: geometries_view(c.rectangles@),
            pmin: c.pmin,
            pmax: c.pmax,
        },
        Geometry::ConstantMedium(m) => GeometryView::ConstantMedium {
            boundary: Box::new(geometry_view(*m.boundary)),
            density: m.density,
            material: m.material@,
        },
        Geometry::XyRect(r) => GeometryView::XyRect {
            x0: r.x0,
            x1: r.x1,
            y0: r.y0,
            y1: r.y1,
            k: r.k,
            material: r.material@,
        },
        Geometry::XzRect(r) => GeometryView::XzRect {
            x0: r.x0,
            x1: r.x1,
            z0: r.z0,
            z1: r.z1,
            k: r.k,
            material: r.material@,
        },
        Geometry::YzRect(r) => GeometryView::YzRect {
            y0: r.y0,
            y1: r.y1,
            z0: r.z0,
            z1: r.z1,
            k: r.k,
            material: r.material@,
        },
        Geometry::Flip(f) => GeometryView::Flip { geometry: Box::new(geometry_view(*f.geometry)) },
        Geometry::Translate(t) => GeometryView::Translate {
            geometry: Box::new(geometry_view(*t.geometry)),
            offset: t.offset,
        },
        Geometry::RotateY(rot) => GeometryView::RotateY {
            geometry: Box::new(geometry_view(*rot.geometry)),
            angle: rot.angle,
        },
    }
}

/// The ghost image of a sequence of geometries, elementwise.
pub open spec fn geometries_view(s: Seq<Geometry>) -> Seq<GeometryView>
    decreases s,
{
    if s.len() == 0 {
        Seq::empty()
    } else {
        geometries_view(s.drop_last()).push(geometry_view(s.last()))
    }
}

impl View for Geometry {
    type V = GeometryView;

    open spec fn view(&self) -> GeometryView {
        geometry_view(*self)
    }
}

/// The ghost image of a sequence keeps its length and maps elements.
pub broadcast proof fn lemma_geometries_view_len(s: Seq<Geometry>)
    ensures
        (#[trigger] geometries_view(s)).len() == s.len(),
        forall|i: int| 0 <= i < s.len() ==> geometries_view(s)[i] == geometry_view(s[i]),
    decreases s,
{
    if s.len() > 0 {
        lemma_geometries_view_len(s.drop_last());
    }
}

/// Appending a geometry appends its ghost image.
pub proof fn lemma_geometries_view_push(s: Seq<Geometry>, g: Geometry)
    ensures
        geometries_view(s.push(g)) == geometries_view(s).push(geometry_view(g)),
{
    assert(s.push(g).drop_last() =~= s);
    assert(s.push(g).last() == g);
}

/// The asset names referred to anywhere in the geometry tree.
pub open spec fn spec_geometry_assets(g: GeometryView) -> Set<Seq<char>>
    decreases g,
{
    match g {
        GeometryView::Bvh { left, right, .. } => {
            let left_assets = match left {
                Some(child) => spec_geometry_assets(*child),
                None => Set::empty(),
            };
            let right_assets = match right {
                Some(child) => spec_geometry_assets(*child),
                None => Set::empty(),
            };
            left_assets.union(right_assets)
        },
        GeometryView::Sphere { material, .. } => spec_material_assets(material),
        GeometryView::MovingSphere { material, .. } => spec_material_assets(material),
        GeometryView::Cube { rectangles, .. } => spec_geometries_assets(rectangles),
        GeometryView::ConstantMedium { boundary, material, .. } => spec_material_assets(
            material,
        ).union(spec_geometry_assets(*boundary)),
        GeometryView::XyRect { material, .. } => spec_material_assets(material),
        GeometryView::XzRect { material, .. } => spec_material_assets(material),
        GeometryView::YzRect { material, .. } => spec_material_assets(material),
        GeometryView::Flip { geometry } => spec_geometry_assets(*geometry),
        GeometryView::Translate { geometry, .. } => spec_geometry_assets(*geometry),
        GeometryView::RotateY { geometry, .. } => spec_geometry_assets(*geometry),
    }
}

/// The asset names referred to by a sequence of geometries.
pub open spec fn spec_geometries_assets(s: Seq<GeometryView>) -> Set<Seq<char>>
    decreases s,
{
    if s.len() == 0 {
        Set::empty()
    } else {
        spec_geometries_assets(s.drop_last()).union(spec_geometry_assets(s.last()))
    }
}

/// Every asset name in the tree is registered in `assets`.
pub open spec fn spec_geometry_valid(g: GeometryView, assets: Assets) -> bool {
    forall|name: Seq<char>|
        spec_geometry_assets(g).contains(name) ==> spec_has_asset(assets, name)
}

/// Whether the geometry emits light and should join the attractor list:
/// true of spheres and rectangles with an emitting material, carried
/// through the affine wrappers; never true of moving spheres, cubes,
/// media or hierarchy nodes.
pub open spec fn spec_geometry_is_attractor(g: GeometryView) -> bool
    decreases g,
{
    match g {
        GeometryView::Bvh { .. } => false,
        GeometryView::Sphere { material, .. } => spec_material_is_attractor(material),
        GeometryView::MovingSphere { .. } => false,
        GeometryView::Cube { .. } => false,
        GeometryView::ConstantMedium { .. } => false,
        GeometryView::XyRect { material, .. } => spec_material_is_attractor(material),
        GeometryView::XzRect { material, .. } => spec_material_is_attractor(material),
        GeometryView::YzRect { material, .. } => spec_material_is_attractor(material),
        GeometryView::Flip { geometry } => spec_geometry_is_attractor(*geometry),
        GeometryView::Translate { geometry, .. } => spec_geometry_is_attractor(*geometry),
        GeometryView::RotateY { geometry, .. } => spec_geometry_is_attractor(*geometry),
    }
}

/// Whether the geometry carries a bounding box over the shutter window.
/// Every plain variant does; a wrapper or medium carries one exactly when
/// what it wraps does.
pub open spec fn spec_has_bounding_box(g: GeometryView) -> bool
    decreases g,
{
    match g {
        GeometryView::ConstantMedium { boundary, .. } => spec_has_bounding_box(*boundary),
        GeometryView::Flip { geometry } => spec_has_bounding_box(*geometry),
        GeometryView::Translate { geometry, .. } => spec_has_bounding_box(*geometry),
        GeometryView::RotateY { geometry, .. } => spec_has_bounding_box(*geometry),
        _ => true,
    }
}

impl Geometry {
    /// Checks that every image texture in the tree names a registered
    /// asset, reporting a missing name.
    #[verifier::loop_isolation(false)]
    pub fn validate(&self, assets: &Assets) -> (r: Result<(), AssetValidationError>)
        ensures
            r.is_ok() <==> spec_geometry_valid(self@, *assets),
            match r {
                Ok(()) => true,
                Err(AssetValidationError::MissingAsset { asset_name }) => {
                    &&& spec_geometry_assets(self@).contains(asset_name@)
                    &&& !spec_has_asset(*assets, asset_name@)
                },
            },
        decreases *self,
    {
        match self {
            Geometry::Bvh(node) => {
                if let Some(child) = &node.left {
                    child.validate(assets)?;
                }
                if let Some(child) = &node.right {
                    child.validate(assets)?;
                }
                Ok(())
            },
            Geometry::Sphere(s) => s.material.validate(assets),
            Geometry::MovingSphere(s) => s.material.validate(assets),
            Geometry::Cube(c) => {
                let ghost rectangles_view = geometries_view(c.rectangles@);
                proof {
                    lemma_geometries_view_len(c.rectangles@);
                }
                let n = c.rectangles.len();
                let mut i: usize = 0;
                while i < n
                    invariant
                        i <= n,
                        forall|name: Seq<char>|
                            spec_geometries_assets(rectangles_view.subrange(0, i as int)).contains(
                                name,
                            ) ==> spec_has_asset(*assets, name),
                    decreases n - i,
                {
                    proof {
                        assert(decreases_to!(*self => (**c).rectangles@));
                        assert(decreases_to!((**c).rectangles@ => (**c).rectangles@[i as int]));
                    }
                    match c.rectangles[i].validate(assets) {
                        Ok(()) => (),
                        Err(e) => {
                            proof {
                                lemma_geometries_assets_member(rectangles_view, i as int);
                            }
                            return Err(e);
                        },
                    }
                    proof {
                        lemma_geometries_assets_split(rectangles_view, i as int);
                    }
                    i = i + 1;
                }
                proof {
                    assert(rectangles_view.subrange(0, n as int) =~= rectangles_view);
                }
                Ok(())
            },
            Geometry::ConstantMedium(m) => {
                m.material.validate(assets)?;
                m.boundary.validate(assets)?;
                Ok(())
            },
            Geometry::XyRect(r) => r.material.validate(assets),
            Geometry::XzRect(r) => r.material.validate(assets),
            Geometry::YzRect(r) => r.material.validate(assets),
            Geometry::Flip(f) => f.geometry.validate(assets),
            Geometry::Translate(t) => t.geometry.validate(assets),
            Geometry::RotateY(rot) => rot.geometry.validate(assets),
        }
    }

    /// True exactly when the geometry emits light (see
    /// [`spec_geometry_is_attractor`]).
    pub fn is_attractor(&self) -> (r: bool)
        ensures
            r == spec_geometry_is_attractor(self@),
        decreases *self,
    {
        match self {
            Geometry::Bvh(..) => false,
            Geometry::Sphere(s) => s.material.is_attractor(),
            Geometry::MovingSphere(..) => false,
            Geometry::Cube(..) => false,
            Geometry::ConstantMedium(..) => false,
            Geometry::XyRect(r) => r.material.is_attractor(),
            Geometry::XzRect(r) => r.material.is_attractor(),
            Geometry::YzRect(r) => r.material.is_attractor(),
            Geometry::Flip(f) => f.geometry.is_attractor(),
            Geometry::Translate(t) => t.geometry.is_attractor(),
            Geometry::RotateY(rot) => rot.geometry.is_attractor(),
        }
    }

    /// True exactly when the geometry carries a bounding box (see
    /// [`spec_has_bounding_box`]).
    pub fn has_bounding_box(&self) -> (r: bool)
        ensures
            r == spec_has_bounding_box(self@),
        decreases *self,
    {
        match self {
            Geometry::ConstantMedium(m) => m.boundary.has_bounding_box(),
            Geometry::Flip(f) => f.geometry.has_bounding_box(),
            Geometry::Translate(t) => t.geometry.has_bounding_box(),
            Geometry::RotateY(rot) => rot.geometry.has_bounding_box(),
            _ => true,
        }
    }

    /// A structurally equal copy of the geometry tree.
    #[verifier::loop_isolation(false)]
    pub fn duplicate(&self) -> (r: Geometry)
        ensures
            r@ == self@,
        decreases *self,
    {
        match self {
            Geometry::Bvh(node) => Geometry::Bvh(
                Box::new(
                    BoundingVolumeHierarchyNode {
                        left: match &node.left {
                            Some(child) => Some(Box::new(child.duplicate())),
                            None => None,
                        },
                        right: match &node.right {
                            Some(child) => Some(Box::new(child.duplicate())),
                            None => None,
                        },
                        bounding_box: node.bounding_box,
                    },
                ),
            ),
            Geometry::Sphere(s) => Geometry::Sphere(
                Box::new(
                    Sphere {
                        centre: s.centre,
                        radius: s.radius,
                        material: s.material.duplicate(),
                    },
                ),
            ),
            Geometry::MovingSphere(s) => Geometry::MovingSphere(
                Box::new(
                    MovingSphere {
                        centre_start: s.centre_start,
                        time_start: s.time_start,
                        centre_end: s.centre_end,
                        time_end: s.time_end,
                        radius: s.radius,
                        material: s.material.duplicate(),
                    },
                ),
            ),
            Geometry::Cube(c) => {
                proof {
                    lemma_geometries_view_len(c.rectangles@);
                }
                let n = c.rectangles.len();
                let mut rectangles: Vec<Geometry> = Vec::new();
                let mut i: usize = 0;
                while i < n
                    invariant
                        i <= n,
                        rectangles@.len() == i,
                        forall|j: int|
                            0 <= j < i ==> geometry_view(#[trigger] rectangles@[j])
                                == geometry_view(c.rectangles@[j]),
                    decreases n - i,
                {
                    proof {
                        assert(decreases_to!(*self => (**c).rectangles@));
                        assert(decreases_to!((**c).rectangles@ => (**c).rectangles@[i as int]));
                    }
                    rectangles.push(c.rectangles[i].duplicate());
                    i = i + 1;
                }
                proof {
                    lemma_geometries_view_len(rectangles@);
                    assert(geometries_view(rectangles@) =~= geometries_view(c.rectangles@));
                }
                Geometry::Cube(Box::new(Cube { rectangles, pmin: c.pmin, pmax: c.pmax }))
            },
            Geometry::ConstantMedium(m) => Geometry::ConstantMedium(
                Box::new(
                    ConstantMedium {
                        boundary: Box::new(m.boundary.duplicate()),
                        density: m.density,
                        material: m.material.duplicate(),
                    },
                ),
            ),
            Geometry::XyRect(r) => Geometry::XyRect(
                Box::new(
                    XyRect {
                        x0: r.x0,
                        x1: r.x1,
                        y0: r.y0,
                        y1: r.y1,
                        k: r.k,
                        material: r.material.duplicate(),
                    },
                ),
            ),
            Geometry::XzRect(r) => Geometry::XzRect(
                Box::new(
                    XzRect {
                        x0: r.x0,
                        x1: r.x1,
                        z0: r.z0,
                        z1: r.z1,
                        k: r.k,
                        material: r.material.duplicate(),
                    },
                ),
            ),
            Geometry::YzRect(r) => Geometry::YzRect(
                Box::new(
                    YzRect {
                        y0: r.y0,
                        y1: r.y1,
                        z0: r.z0,
                        z1: r.z1,
                        k: r.k,
                        material: r.material.duplicate(),
                    },
                ),
            ),
            Geometry::Flip(f) => Geometry::Flip(
                Box::new(FlipNormals { geometry: Box::new(f.geometry.duplicate()) }),
            ),
            Geometry::Translate(t) => Geometry::Translate(
                Box::new(
                    Translate { geometry: Box::new(t.geometry.duplicate()), offset: t.offset },
                ),
            ),
            Geometry::RotateY(rot) => Geometry::RotateY(
                Box::new(RotateY { geometry: Box::new(rot.geometry.duplicate()), angle: rot.angle }),
            ),
        }
    }

    /// Wraps the geometry so its surface normals point the other way.
    pub fn flip(self) -> (r: Geometry)
        ensures
            r@ == (GeometryView::Flip { geometry: Box::new(self@) }),
    {
        FlipNormals::build(self)
    }

    /// Wraps the geometry so it is rendered shifted by `offset`.
    pub fn translate(self, offset: Vector) -> (r: Geometry)
        ensures
            r@ == (GeometryView::Translate { geometry: Box::new(self@), offset }),
    {
        Translate::build(self, offset)
    }

    /// Wraps the geometry so it is rendered rotated about the vertical
    /// axis; refused when the geometry has no bounding box to rotate.
    pub fn rotate_y(self, angle: Real64) -> (r: Result<Geometry, GeometryError>)
        ensures
            match r {
                Ok(wrapped) => spec_has_bounding_box(self@) && wrapped@ == (GeometryView::RotateY {
                    geometry: Box::new(self@),
                    angle,
                }),
                Err(e) => !spec_has_bounding_box(self@) && e == GeometryError::RotationUnsupported(),
            },
    {
        RotateY::build(self, angle)
    }
}

/// Extending a prefix by one element adds that element's asset names.
pub proof fn lemma_geometries_assets_split(s: Seq<GeometryView>, i: int)
    requires
        0 <= i < s.len(),
    ensures
        spec_geometries_assets(s.subrange(0, i + 1)) == spec_geometries_assets(
            s.subrange(0, i),
        ).union(spec_geometry_assets(s[i])),
{
    let extended = s.subrange(0, i + 1);
    assert(extended.drop_last() =~= s.subrange(0, i));
    assert(extended.last() == s[i]);
}

/// An element's asset names are among the sequence's asset names.
pub proof fn lemma_geometries_assets_member(s: Seq<GeometryView>, i: int)
    requires
        0 <= i < s.len(),
    ensures
        spec_geometry_assets(s[i]).subset_of(spec_geometries_assets(s)),
    decreases s,
{
    if i == s.len() - 1 {
        assert(s.last() == s[i]);
    } else {
        lemma_geometries_assets_member(s.drop_last(), i);
        assert(s.drop_last()[i] == s[i]);
    }
}

impl Sphere {
    /// A sphere geometry.
    pub fn build(centre: Vector, radius: Real64, material: Material) -> (r: Geometry)
        ensures
            r@ == (GeometryView::Sphere { centre, radius, material: material@ }),
    {
        Geometry::Sphere(Box::new(Sphere { centre, radius, material }))
    }
}

impl MovingSphere {
    /// A moving-sphere geometry interpolating between two keyframes.
    pub fn build(
        centre_start: Vector,
        time_start: Real64,
        centre_end: Vector,
        time_end: Real64,
        radius: Real64,
        material: Material,
    ) -> (r: Geometry)
        ensures
            r@ == (GeometryView::MovingSphere {
                centre_start,
                time_start,
                centre_end,
                time_end,
                radius,
                material: material@,
            }),
    {
        Geometry::MovingSphere(
            Box::new(
                MovingSphere { centre_start, time_start, centre_end, time_end, radius, material },
            ),
        )
    }
}

impl XyRect {
    /// A rectangle spanning `x_lines` by `y_lines` in the plane
    /// `z = z_plane`.
    pub fn build(x_lines: (Real64, Real64), y_lines: (Real64, Real64), z_plane: Real64, material: Material) -> (r: Geometry)
        ensures
            r@ == (GeometryView::XyRect {
                x0: x_lines.0,
                x1: x_lines.1,
                y0: y_lines.0,
                y1: y_lines.1,
                k: z_plane,
                material: material@,
            }),
    {
        let (x0, x1) = x_lines;
        let (y0, y1) = y_lines;
        Geometry::XyRect(Box::new(XyRect { x0, x1, y0, y1, k: z_plane, material }))
    }
}

impl XzRect {
    /// A rectangle spanning `x_lines` by `z_lines` in the plane
    /// `y = y_plane`.
    pub fn build(x_lines: (Real64, Real64), z_lines: (Real64, Real64), y_plane: Real64, material: Material) -> (r: Geometry)
        ensures
            r@ == (GeometryView::XzRect {
                x0: x_lines.0,
                x1: x_lines.1,
                z0: z_lines.0,
                z1: z_lines.1,
                k: y_plane,
                material: material@,
            }),
    {
        let (x0, x1) = x_lines;
        let (z0, z1) = z_lines;
        Geometry::XzRect(Box::new(XzRect { x0, x1, z0, z1, k: y_plane, material }))
    }
}

impl YzRect {
    /// A rectangle spanning `y_lines` by `z_lines` in the plane
    /// `x = x_plane`.
    pub fn build(y_lines: (Real64, Real64), z_lines: (Real64, Real64), x_plane: Real64, material: Material) -> (r: Geometry)
        ensures
            r@ == (GeometryView::YzRect {
                y0: y_lines.0,
                y1: y_lines.1,
                z0: z_lines.0,
                z1: z_lines.1,
                k: x_plane,
                material: material@,
            }),
    {
        let (y0, y1) = y_lines;
        let (z0, z1) = z_lines;
        Geometry::YzRect(Box::new(YzRect { y0, y1, z0, z1, k: x_plane, material }))
    }
}

/// The six faces of the box spanning `pmin` to `pmax`: opposite-face
/// pairs per axis, the low face of each pair flipped inward.
pub open spec fn spec_cube_rectangles(pmin: Vector, pmax: Vector, material: MaterialView) -> Seq<
    GeometryView,
> {
    seq![
        GeometryView::XyRect { x0: pmin.x, x1: pmax.x, y0: pmin.y, y1: pmax.y, k: pmax.z, material },
        GeometryView::Flip {
            geometry: Box::new(
                GeometryView::XyRect {
                    x0: pmin.x,
                    x1: pmax.x,
                    y0: pmin.y,
                    y1: pmax.y,
                    k: pmin.z,
                    material,
                },
            ),
        },
        GeometryView::XzRect { x0: pmin.x, x1: pmax.x, z0: pmin.z, z1: pmax.z, k: pmax.y, material },
        GeometryView::Flip {
            geometry: Box::new(
                GeometryView::XzRect {
                    x0: pmin.x,
                    x1: pmax.x,
                    z0: pmin.z,
                    z1: pmax.z,
                    k: pmin.y,
                    material,
                },
            ),
        },
        GeometryView::YzRect { y0: pmin.y, y1: pmax.y, z0: pmin.z, z1: pmax.z, k: pmax.x, material },
        GeometryView::Flip {
            geometry: Box::new(
                GeometryView::YzRect {
                    y0: pmin.y,
                    y1: pmax.y,
                    z0: pmin.z,
                    z1: pmax.z,
                    k: pmin.x,
                    material,
                },
            ),
        },
    ]
}

impl Cube {
    /// A box spanning `pmin` to `pmax`, made of six rectangles (see
    /// [`spec_cube_rectangles`]).
    pub fn build(pmin: Vector, pmax: Vector, material: Material) -> (r: Geometry)
        ensures
            r@ == (GeometryView::Cube {
                rectangles: spec_cube_rectangles(pmin, pmax, material@),
                pmin,
                pmax,
            }),
    {
        let mut rectangles: Vec<Geometry> = Vec::new();

        rectangles.push(
            XyRect::build((pmin.x(), pmax.x()), (pmin.y(), pmax.y()), pmax.z(), material.duplicate()),
        );
        rectangles.push(
            XyRect::build(
                (pmin.x(), pmax.x()),
                (pmin.y(), pmax.y()),
                pmin.z(),
                material.duplicate(),
            ).flip(),
        );
        rectangles.push(
            XzRect::build((pmin.x(), pmax.x()), (pmin.z(), pmax.z()), pmax.y(), material.duplicate()),
        );
        rectangles.push(
            XzRect::build(
                (pmin.x(), pmax.x()),
                (pmin.z(), pmax.z()),
                pmin.y(),
                material.duplicate(),
            ).flip(),
        );
        rectangles.push(
            YzRect::build((pmin.y(), pmax.y()), (pmin.z(), pmax.z()), pmax.x(), material.duplicate()),
        );
        rectangles.push(
            YzRect::build((pmin.y(), pmax.y()), (pmin.z(), pmax.z()), pmin.x(), material).flip(),
        );

        proof {
            lemma_geometries_view_len(rectangles@);
            assert(geometries_view(rectangles@) =~= spec_cube_rectangles(pmin, pmax, material@));
        }

        Geometry::Cube(Box::new(Cube { rectangles, pmin, pmax }))
    }
}

impl ConstantMedium {
    /// A constant-density medium filling `boundary`, scattering
    /// isotropically with the given albedo.
    pub fn build(boundary: Geometry, density: Real64, albedo: Texture) -> (r: Geometry)
        ensures
            r@ == (GeometryView::ConstantMedium {
                boundary: Box::new(boundary@),
                density,
                material: MaterialView::Isotropic { albedo: albedo@ },
            }),
    {
        Geometry::ConstantMedium(
            Box::new(
                ConstantMedium {
                    boundary: Box::new(boundary),
                    density,
                    material: Material::Isotropic { albedo },
                },
            ),
        )
    }
}

impl FlipNormals {
    /// Wraps `geometry` with inverted surface normals.
    pub fn build(geometry: Geometry) -> (r: Geometry)
        ensures
            r@ == (GeometryView::Flip { geometry: Box::new(geometry@) }),
    {
        Geometry::Flip(Box::new(FlipNormals { geometry: Box::new(geometry) }))
    }
}

impl Translate {
    /// Wraps `geometry` shifted by `offset`.
    pub fn build(geometry: Geometry, offset: Vector) -> (r: Geometry)
        ensures
            r@ == (GeometryView::Translate { geometry: Box::new(geometry@), offset }),
    {
        Geometry::Translate(Box::new(Translate { geometry: Box::new(geometry), offset }))
    }
}

impl RotateY {
    /// Wraps `geometry` rotated about the vertical axis by `angle`
    /// degrees; refused when the geometry carries no bounding box, since
    /// the rotated box could not be recomputed.
    pub fn build(geometry: Geometry, angle: Real64) -> (r: Result<Geometry, GeometryError>)
        ensures
            match r {
                Ok(wrapped) => spec_has_bounding_box(geometry@) && wrapped@ == (
                GeometryView::RotateY { geometry: Box::new(geometry@), angle }),
                Err(e) => !spec_has_bounding_box(geometry@) && e
                    == GeometryError::RotationUnsupported(),
            },
    {
        if !geometry.has_bounding_box() {
            return Err(GeometryError::RotationUnsupported());
        }
        Ok(Geometry::RotateY(Box::new(RotateY { geometry: Box::new(geometry), angle })))
    }
}

} // verus!
