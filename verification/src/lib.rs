//! Core library of a Monte Carlo path tracer.
//!
//! The library owns the declarative scene model (geometry, materials,
//! textures, camera), the rules that must hold of it before a render may
//! start (asset validation, bounding-volume-hierarchy construction), the
//! document codec used to save and load scenes, and the command-line
//! value types.  Scalar coordinates are carried as IEEE-754 double bit
//! patterns (see [`scalar`]); the verified code orders and arranges them but
//! never performs floating-point arithmetic, which is left to the
//! unverified rendering front end.

pub mod scalar;

pub mod float;

pub mod vector;

pub mod colour;

pub mod aabb;

pub mod text;

pub mod assets;

pub mod texture;

pub mod materials;

pub mod geometry;

pub mod background;

pub mod camera;

pub mod world;

pub mod config;

pub mod bvh;

pub mod codec;

pub mod scenes;

pub mod cli;

pub mod progress;

pub mod renderer;
