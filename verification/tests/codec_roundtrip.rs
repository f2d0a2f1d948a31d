//! The scene-document codec: serialising a configuration and reading it
//! back preserves the geometry count and every field value.

use ray_tracer::background::Background;
use ray_tracer::camera::{CameraSave, Lens};
use ray_tracer::codec::{
    decode_camera, decode_config, decode_world, encode_camera, encode_config, encode_world,
    DocValue,
};
use ray_tracer::colour::Colour;
use ray_tracer::config::ConfigSave;
use ray_tracer::geometry::{ConstantMedium, Cube, MovingSphere, Sphere};
use ray_tracer::materials::Material;
use ray_tracer::scalar::Real64;
use ray_tracer::texture::{NoiseConfig, Texture};
use ray_tracer::vector::Vector;
use ray_tracer::world::WorldSave;

fn r(x: f64) -> Real64 {
    Real64::from_bits(x.to_bits())
}

fn v(x: f64, y: f64, z: f64) -> Vector {
    Vector::new(r(x), r(y), r(z))
}

fn c(red: f64, green: f64, blue: f64) -> Colour {
    Colour::new(r(red), r(green), r(blue))
}

fn sample_camera() -> CameraSave {
    CameraSave::new(
        &v(13.0, 2.0, 3.0),
        &v(0.0, 0.0, 0.0),
        &v(0.0, 1.0, 0.0),
        r(1.5),
        Lens::new(r(20.0), r(0.1), r(10.0)),
        r(0.0),
        r(1.0),
    )
}

fn sample_world() -> WorldSave {
    WorldSave::new(
        Background::new(c(1.0, 1.0, 1.0), c(0.5, 0.0, 0.0)),
        vec![
            Sphere::build(
                v(0.0, 0.0, -1.0),
                r(0.5),
                Material::Lambertian {
                    albedo: Texture::Constant { colour: c(0.1, 0.2, 0.5) },
                },
            ),
            Sphere::build(
                v(0.0, -100.5, -1.0),
                r(100.0),
                Material::Lambertian {
                    albedo: Texture::Constant { colour: c(0.8, 0.8, 0.0) },
                },
            ),
            Sphere::build(
                v(1.0, 0.0, -1.0),
                r(0.5),
                Material::Metal { albedo: c(0.8, 0.6, 0.2), fuzz: r(0.1) },
            ),
            Sphere::build(
                v(-1.0, 0.0, -1.0),
                r(-0.45),
                Material::Dielectric { refractive_index: r(1.5) },
            ),
        ],
    )
}

#[test]
fn test_serialise_roundtrip_camera() {
    let camera = sample_camera();
    let serialised = encode_camera(&camera);
    let deserialised = decode_camera(&serialised).unwrap();
    assert_eq!(camera, deserialised);
}

#[test]
fn test_serialise_roundtrip_world() {
    let mut world = sample_world();
    let serialised = encode_world(&world);
    let mut deserialised = decode_world(&serialised).unwrap();
    assert_eq!(
        world.drain_geometries().len(),
        deserialised.drain_geometries().len()
    );
}

#[test]
fn test_serialise_roundtrip_saved_config() {
    let saved_config = ConfigSave::new(r(1.5), sample_camera(), sample_world());
    let serialised = encode_config(&saved_config);
    let deserialised = decode_config(&serialised).unwrap();
    assert_eq!(saved_config, deserialised);
}

#[test]
fn test_roundtrip_composite_geometries() {
    let boundary = Sphere::build(
        v(0.0, 0.0, 0.0),
        r(2.0),
        Material::Dielectric { refractive_index: r(1.5) },
    );
    let geometries = vec![
        Cube::build(
            v(0.0, 0.0, 0.0),
            v(1.0, 2.0, 3.0),
            Material::Metal { albedo: c(0.7, 0.7, 0.7), fuzz: r(0.0) },
        )
        .translate(v(1.0, 0.0, 0.0))
        .rotate_y(r(15.0))
        .unwrap()
        .flip(),
        ConstantMedium::build(boundary, r(0.01), Texture::Constant { colour: c(1.0, 1.0, 1.0) }),
        MovingSphere::build(
            v(0.0, 0.0, 0.0),
            r(0.0),
            v(1.0, 1.0, 1.0),
            r(1.0),
            r(0.25),
            Material::Lambertian {
                albedo: Texture::Noise {
                    base_colour: c(0.6, 0.6, 0.6),
                    scale: r(4.0),
                    noisiness: r(2.0),
                    noise_config: NoiseConfig::new(
                        vec![c(0.5, 0.5, 0.5), c(0.25, 0.5, 0.75)],
                        vec![1, 0],
                        vec![0, 1],
                        vec![1, 0],
                    ),
                },
            },
        ),
    ];
    let world = WorldSave::new(Background::new(c(1.0, 1.0, 1.0), c(0.5, 0.7, 1.0)), geometries);
    let saved_config = ConfigSave::new(r(2.0), sample_camera(), world);
    let serialised = encode_config(&saved_config);
    let deserialised = decode_config(&serialised).unwrap();
    assert_eq!(saved_config, deserialised);
}

#[test]
fn test_decode_rejects_malformed_document() {
    assert!(decode_config(&DocValue::Count(7)).is_err());
    assert!(decode_world(&DocValue::Nothing).is_err());
    assert!(decode_camera(&DocValue::Text(String::from("camera"))).is_err());
}
