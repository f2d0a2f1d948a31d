//! The scene model: validation, attractor extraction, construction of
//! composite geometries, and hierarchy building.

use ray_tracer::aabb::AxisAlignedBoundingBox;
use ray_tracer::assets::{AssetValidationError, Assets};
use ray_tracer::colour::Colour;
use ray_tracer::geometry::{
    BoundingVolumeHierarchyNode, Geometry, GeometryError, Sphere, XzRect,
};
use ray_tracer::materials::Material;
use ray_tracer::scalar::Real64;
use ray_tracer::texture::Texture;
use ray_tracer::vector::Vector;
use ray_tracer::world::{attractors, WorldSave};
use ray_tracer::background::Background;

fn r(x: f64) -> Real64 {
    Real64::from_bits(x.to_bits())
}

fn v(x: f64, y: f64, z: f64) -> Vector {
    Vector::new(r(x), r(y), r(z))
}

fn c(red: f64, green: f64, blue: f64) -> Colour {
    Colour::new(r(red), r(green), r(blue))
}

fn grey_sphere(radius: f64) -> Geometry {
    Sphere::build(
        v(0.0, 0.0, 0.0),
        r(radius),
        Material::Lambertian { albedo: Texture::Constant { colour: c(0.5, 0.5, 0.5) } },
    )
}

fn light_rect() -> Geometry {
    XzRect::build(
        (r(213.0), r(343.0)),
        (r(227.0), r(332.0)),
        r(554.0),
        Material::DiffuseLight { emit: Texture::Constant { colour: c(15.0, 15.0, 15.0) } },
    )
}

#[test]
fn test_assets_validate() {
    let assets = Assets::new(vec![String::from("earth.png")]);
    assert!(assets.validate("earth.png").is_ok());
    match assets.validate("moon.png") {
        Err(AssetValidationError::MissingAsset { asset_name }) => {
            assert_eq!(asset_name, "moon.png");
        },
        Ok(()) => panic!("missing asset accepted"),
    }
}

#[test]
fn test_asset_error_message() {
    let assets = Assets::new(Vec::new());
    let error = assets.validate("earth.png").unwrap_err();
    assert_eq!(
        error.message(),
        "asset with name <earth.png> has not been loaded"
    );
}

#[test]
fn test_geometry_validate_reaches_nested_textures() {
    let assets = Assets::new(vec![String::from("earth.png")]);
    let textured = Sphere::build(
        v(0.0, 0.0, 0.0),
        r(1.0),
        Material::Lambertian {
            albedo: Texture::Checker {
                even: Box::new(Texture::Image { asset_name: String::from("earth.png") }),
                odd: Box::new(Texture::Constant { colour: c(0.9, 0.9, 0.9) }),
            },
        },
    );
    assert!(textured.validate(&assets).is_ok());

    let missing = Sphere::build(
        v(0.0, 0.0, 0.0),
        r(1.0),
        Material::DiffuseLight { emit: Texture::Image { asset_name: String::from("sun.png") } },
    );
    match missing.validate(&assets) {
        Err(AssetValidationError::MissingAsset { asset_name }) => {
            assert_eq!(asset_name, "sun.png");
        },
        Ok(()) => panic!("missing asset accepted"),
    }
}

#[test]
fn test_attractors_keep_only_emitters() {
    let geometries = vec![grey_sphere(1.0), light_rect().flip(), grey_sphere(2.0)];
    let found = attractors(&geometries);
    assert_eq!(found.len(), 1);
    assert!(found[0].is_attractor());
    assert_eq!(found[0], light_rect().flip());
}

#[test]
fn test_world_validate() {
    let assets = Assets::new(Vec::new());
    let world = WorldSave::new(
        Background::new(c(1.0, 1.0, 1.0), c(0.5, 0.7, 1.0)),
        vec![grey_sphere(1.0), light_rect()],
    );
    assert!(world.validate(&assets).is_ok());
}

#[test]
fn test_rotate_y_accepts_boxed_geometry() {
    let rotated = grey_sphere(1.0).rotate_y(r(45.0));
    assert!(rotated.is_ok());
}

#[test]
fn test_geometry_duplicate_is_equal() {
    let geometry = light_rect().flip().translate(v(1.0, 2.0, 3.0));
    assert_eq!(geometry.duplicate(), geometry);
}

#[test]
fn test_bvh_build_empty_is_error() {
    let built = BoundingVolumeHierarchyNode::build(Vec::new(), Vec::new());
    assert_eq!(built.unwrap_err(), GeometryError::EmptyBvh());
}

#[test]
fn test_bvh_build_missing_box_is_error() {
    let built = BoundingVolumeHierarchyNode::build(vec![grey_sphere(1.0)], vec![None]);
    assert_eq!(built.unwrap_err(), GeometryError::MissingBoundingBox());
}

fn unit_box_at(offset: f64) -> Option<AxisAlignedBoundingBox> {
    Some(AxisAlignedBoundingBox::new(
        v(offset - 1.0, offset - 1.0, offset - 1.0),
        v(offset + 1.0, offset + 1.0, offset + 1.0),
    ))
}

fn leaf_geometries(tree: &Geometry, out: &mut Vec<Geometry>) {
    match tree {
        Geometry::Bvh(node) => {
            if let Some(child) = &node.left {
                leaf_geometries(child, out);
            }
            if let Some(child) = &node.right {
                leaf_geometries(child, out);
            }
        },
        other => out.push(other.duplicate()),
    }
}

#[test]
fn test_bvh_build_keeps_every_geometry() {
    let geometries = vec![grey_sphere(1.0), grey_sphere(2.0), grey_sphere(3.0), light_rect()];
    let boxes = vec![unit_box_at(0.0), unit_box_at(4.0), unit_box_at(2.0), unit_box_at(9.0)];
    let root = BoundingVolumeHierarchyNode::build(geometries, boxes).unwrap();

    let mut leaves = Vec::new();
    leaf_geometries(&root, &mut leaves);
    assert_eq!(leaves.len(), 4);
    let mut sphere_count = 0;
    let mut light_count = 0;
    for leaf in &leaves {
        if *leaf == light_rect() {
            light_count += 1;
        } else {
            sphere_count += 1;
        }
    }
    assert_eq!(light_count, 1);
    assert_eq!(sphere_count, 3);
}

#[test]
fn test_bvh_build_sorts_by_box_minimum() {
    // The three boxes are ordered the same way on every axis, so whatever
    // axis the random choice picks, the sorted split puts the lowest box
    // alone on the left; an unsorted split would put the middle one there.
    let geometries = vec![grey_sphere(2.0), grey_sphere(1.0), grey_sphere(3.0)];
    let boxes = vec![unit_box_at(5.0), unit_box_at(0.0), unit_box_at(10.0)];
    let root = BoundingVolumeHierarchyNode::build(geometries, boxes).unwrap();

    match &root {
        Geometry::Bvh(node) => {
            let left = node.left.as_ref().unwrap();
            let mut left_leaves = Vec::new();
            leaf_geometries(left, &mut left_leaves);
            assert_eq!(left_leaves, vec![grey_sphere(1.0)]);
        },
        _ => panic!("hierarchy root is not a hierarchy node"),
    }
}

#[test]
fn test_geometry_error_messages() {
    assert_eq!(
        GeometryError::RotationUnsupported().message(),
        "rotation is only supported for geometries that have bounding boxes"
    );
    assert_eq!(
        GeometryError::MissingBoundingBox().message(),
        "geometries with no bounding boxes are not supported"
    );
}

#[test]
fn test_bvh_leaf_is_attractor_free() {
    let geometries = vec![light_rect()];
    let boxes = vec![unit_box_at(0.0)];
    let root = BoundingVolumeHierarchyNode::build(geometries, boxes).unwrap();
    assert!(!root.is_attractor());
}
