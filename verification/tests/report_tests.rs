use frustum::audit::OverallStatus;
use frustum::camera::Camera;
use frustum::geometry::Mesh;
use frustum::regression::{compare_for_regression, RegressionTolerance};
use frustum::report::{audit_render, RenderConfig};
use frustum::audit::GeometryProbes;
use frustum::scalar::Scalar;
use frustum::scene::{Bounds, Scene};

fn s(x: f32) -> Scalar {
    Scalar::Finite((x as f64 * 1_000_000.0).round() as i64)
}

fn point(p: [f32; 3]) -> [Scalar; 3] {
    [s(p[0]), s(p[1]), s(p[2])]
}

fn test_config() -> RenderConfig {
    RenderConfig { width: 256, height: 256, background: [s(0.1), s(0.1), s(0.15), s(1.0)] }
}

fn test_camera() -> Camera {
    Camera::perspective(point([2.0, 1.5, 2.0]), point([0.0, 0.0, 0.0]), s(45.0))
}

fn cube_mesh() -> Mesh {
    let positions: Vec<f32> = vec![
        -0.5, -0.5, 0.5, 0.5, -0.5, 0.5, 0.5, 0.5, 0.5, -0.5, 0.5, 0.5, // front
        -0.5, -0.5, -0.5, -0.5, 0.5, -0.5, 0.5, 0.5, -0.5, 0.5, -0.5, -0.5, // back
    ];
    let indices: Vec<u32> = vec![0, 1, 2, 0, 2, 3, 4, 5, 6, 4, 6, 7];
    Mesh::new(positions.iter().map(|v| s(*v)).collect(), indices)
}

fn cube_scene() -> Scene {
    Scene::new(
        test_camera(),
        Bounds { min: point([-1.0, -1.0, -1.0]), max: point([1.0, 1.0, 1.0]) },
    )
    .add_mesh(cube_mesh())
}

/// A picture of the background colour with a grey square in the middle.
fn picture(config: &RenderConfig, square: u32) -> Vec<u8> {
    let mut pixels = Vec::new();
    let lo = (config.width - square) / 2;
    let hi = lo + square;
    for y in 0..config.height {
        for x in 0..config.width {
            if x >= lo && x < hi && y >= lo && y < hi {
                pixels.extend_from_slice(&[180, 180, 180, 255]);
            } else {
                pixels.extend_from_slice(&[25, 25, 38, 255]);
            }
        }
    }
    pixels
}

fn audit(scene: &Scene, config: &RenderConfig, pixels: &[u8]) -> frustum::audit::AuditBundle {
    audit_render(
        scene,
        config,
        pixels,
        GeometryProbes::unmeasured(!scene.elements.is_empty()),
        "Vulkan".to_string(),
        "test adapter".to_string(),
        "0.1.0".to_string(),
        "{\"scene\":\"cube\"}",
    )
}

#[test]
fn audit_of_a_cube_render() {
    let scene = cube_scene();
    let config = test_config();
    let pixels = picture(&config, 128);
    let bundle = audit(&scene, &config, &pixels);

    assert!(!bundle.metadata.scene_hash.is_empty());
    assert_eq!(bundle.metadata.resolution, [config.width, config.height]);
    assert!(bundle.metadata.primitive_counts.total_triangles > 0);
    assert_eq!(bundle.metadata.primitive_counts.total_triangles, 4);
    assert_eq!(bundle.metadata.primitive_counts.total_vertices, 8);
    assert_eq!(bundle.metadata.backend, "Vulkan");
    assert!(bundle.geometry.geometry_visible);

    // A quarter of the picture is the square.
    assert_eq!(bundle.image_metrics.background_percentage, Scalar::Finite(75_000_000));
    assert_eq!(bundle.image_metrics.transparent_percentage, Scalar::Finite(0));
    assert_eq!(bundle.image_metrics.connected_components, 1);
    assert_eq!(bundle.image_metrics.dominant_colors, vec![[24, 24, 40], [184, 184, 184]]);
    assert_eq!(bundle.image_metrics.histogram.red[1], 256 * 256 - 128 * 128);
    assert_eq!(bundle.image_metrics.histogram.red[11], 128 * 128);
    // The edge runs along the outline of the square, two pixels wide.
    let outline = 128 * 128 - 126 * 126 + 130 * 130 - 128 * 128 - 4;
    assert_eq!(
        bundle.image_metrics.edge_density,
        Scalar::Finite(outline * 1_000_000 / (254 * 254))
    );

    assert!(
        bundle.invariants.errors.is_empty(),
        "Valid scene should have no invariant errors: {:?}",
        bundle.invariants.errors
    );
    assert!(bundle.invariants.warnings.is_empty());
    assert_eq!(bundle.invariants.overall, OverallStatus::Pass);
    assert_eq!(
        bundle.invariants.notes,
        vec![
            "Scene contains 1 meshes (4 triangles), 0 point clouds, 0 polylines".to_string(),
            "1 distinct regions detected in rendered image".to_string(),
        ]
    );
}

#[test]
fn audit_of_an_empty_scene_on_a_blank_picture() {
    let scene = Scene::new(
        test_camera(),
        Bounds { min: point([-1.0, -1.0, -1.0]), max: point([1.0, 1.0, 1.0]) },
    );
    let config = RenderConfig { width: 64, height: 64, ..test_config() };
    let pixels = picture(&config, 0);
    let bundle = audit(&scene, &config, &pixels);
    assert_eq!(bundle.image_metrics.background_percentage, Scalar::Finite(100_000_000));
    assert_eq!(bundle.image_metrics.connected_components, 0);
    assert!(bundle.invariants.errors.is_empty());
    let warnings: Vec<&str> =
        bundle.invariants.warnings.iter().map(|w| w.message.as_str()).collect();
    assert_eq!(
        warnings,
        vec![
            "Scene contains no geometry elements",
            "No geometry visible in view frustum (everything clipped or outside view)",
            "100.000000% of image is background color - scene may be empty or not visible",
        ]
    );
    assert_eq!(bundle.invariants.overall, OverallStatus::PassWithWarnings);
}

#[test]
fn audits_of_the_same_render_match() {
    let scene = cube_scene();
    let config = test_config();
    let first = audit(&scene, &config, &picture(&config, 128));
    let second = audit(&scene, &config, &picture(&config, 128));
    assert_eq!(first.metadata.scene_hash, second.metadata.scene_hash);
    let result = compare_for_regression(&first, &second, RegressionTolerance::default());
    assert!(result.matches);
    assert!(result.differences.is_empty());
    assert!(result.notes.is_empty());

    // A much larger square is a regression: background and histogram change.
    let third = audit(&scene, &config, &picture(&config, 200));
    let result = compare_for_regression(&first, &third, RegressionTolerance::default());
    assert!(!result.matches);
    assert_eq!(result.differences.len(), 2);
    assert!(result.differences[0].starts_with("Color histogram drift: "));
    assert!(result.differences[1].starts_with("Background percentage changed: 75.000000% -> "));
}

#[test]
fn audit_of_a_picture_without_pixels() {
    let scene = cube_scene();
    let config = RenderConfig { width: 0, height: 0, ..test_config() };
    let bundle = audit(&scene, &config, &[]);
    assert_eq!(bundle.image_metrics.transparent_percentage, Scalar::Nan);
    let errors: Vec<&str> = bundle.invariants.errors.iter().map(|e| e.message.as_str()).collect();
    assert_eq!(errors, vec!["Invalid resolution: 0x0"]);
    assert_eq!(bundle.invariants.overall, OverallStatus::Fail);
}
