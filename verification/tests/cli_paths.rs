//! The command-line layer: path validation, file names, scene names and
//! the progress counter.

use ray_tracer::cli::{
    validate_config_path, validate_output_path, CliParsingError, ImagePath,
};
use ray_tracer::progress::StepLogger;
use ray_tracer::renderer::{should_scatter, MAX_SCATTER_DEPTH};
use ray_tracer::scenes::Scene;

#[test]
fn test_validate_config_path() {
    assert!(validate_config_path("scene.yaml").is_ok());
    match validate_config_path("scene.yml") {
        Err(CliParsingError::InvalidConfigPath { config_path }) => {
            assert_eq!(config_path, "scene.yml");
        },
        other => panic!("unexpected result {:?}", other),
    }
}

#[test]
fn test_validate_output_path() {
    assert!(validate_output_path("image.ppm").is_ok());
    assert!(validate_output_path("image.jpeg").is_ok());
    assert!(validate_output_path("image.jpg").is_ok());
    assert!(validate_output_path("image.png").is_ok());
    match validate_output_path("image.gif") {
        Err(CliParsingError::InvalidOutputPath { output_path }) => {
            assert_eq!(output_path, "image.gif");
        },
        other => panic!("unexpected result {:?}", other),
    }
}

#[test]
fn test_cli_error_messages() {
    let error = validate_config_path("scene.json").unwrap_err();
    assert_eq!(error.message(), "Config path <scene.json> must end in .yaml");
    let error = validate_output_path("out.txt").unwrap_err();
    assert_eq!(
        error.message(),
        "Output path <out.txt> must end in one of .ppm, .jpeg, .jpg, .png"
    );
}

#[test]
fn test_image_path_file_name() {
    assert_eq!(ImagePath(String::from("assets/earth.png")).file_name(), "earth.png");
    assert_eq!(ImagePath(String::from("a/b/c.jpg")).file_name(), "c.jpg");
    assert_eq!(ImagePath(String::from("plain.png")).file_name(), "plain.png");
    assert_eq!(ImagePath(String::from("trailing/")).file_name(), "");
}

#[test]
fn test_scene_names() {
    assert_eq!(Scene::from_name("CornellBox"), Some(Scene::CornellBox));
    assert_eq!(Scene::from_name("NextWeekFinal"), Some(Scene::NextWeekFinal));
    assert_eq!(Scene::from_name("NoSuchScene"), None);
    assert_eq!(Scene::CornellSmoke.name(), "CornellSmoke");
    assert_eq!(Scene::variants_list().len(), 11);
}

#[test]
fn test_step_logger_counts() {
    let mut logger = StepLogger::new(6);
    assert_eq!(logger.num_of_steps(), 6);
    assert_eq!(logger.advance(), 1);
    assert_eq!(logger.advance(), 2);
    assert_eq!(logger.step(), 3);
}

#[test]
fn test_scatter_depth_cap() {
    assert_eq!(MAX_SCATTER_DEPTH, 50);
    assert!(should_scatter(0));
    assert!(should_scatter(49));
    assert!(!should_scatter(50));
    assert!(!should_scatter(51));
}
