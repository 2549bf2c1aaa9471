use frustum::audit::{
    AuditBundle, BoundsSummary, CameraSummary, ColorHistogram, DepthStats, GeometryProbes,
    ImageMetrics, InvariantResults, PrimitiveCounts, RenderMetadata,
};
use frustum::regression::{
    compare_for_regression, exceeds_ratio, histogram_difference, RegressionTolerance,
};
use frustum::scalar::Scalar;

fn s(x: f32) -> Scalar {
    Scalar::Finite((x as f64 * 1_000_000.0).round() as i64)
}

fn zero3() -> [Scalar; 3] {
    [s(0.0), s(0.0), s(0.0)]
}

fn bundle() -> AuditBundle {
    AuditBundle {
        metadata: RenderMetadata {
            scene_hash: "0123456789abcdef".to_string(),
            schema_version: "frustum/scene/v1".to_string(),
            renderer_version: "0.1.0".to_string(),
            backend: "Vulkan".to_string(),
            adapter: "test adapter".to_string(),
            resolution: [64, 64],
            camera: CameraSummary {
                projection: "perspective".to_string(),
                position: [s(2.0), s(1.5), s(2.0)],
                target: zero3(),
                near: s(0.1),
                far: s(1000.0),
                fov_or_height: s(45.0),
            },
            world_bounds: BoundsSummary {
                min: [s(-1.0), s(-1.0), s(-1.0)],
                max: [s(1.0), s(1.0), s(1.0)],
                center: zero3(),
                extent: [s(2.0), s(2.0), s(2.0)],
            },
            primitive_counts: PrimitiveCounts {
                meshes: 1,
                total_triangles: 12,
                total_vertices: 8,
                ..Default::default()
            },
        },
        geometry: GeometryProbes {
            ndc_bounds: None,
            depth_stats: DepthStats {
                min: s(0.0),
                max: s(1.0),
                mean: s(0.5),
                far_plane_percentage: s(0.0),
            },
            degenerate_count: 0,
            clipped_count: 0,
            backface_count: 0,
            geometry_visible: true,
            has_invalid_values: false,
        },
        image_metrics: ImageMetrics {
            histogram: ColorHistogram {
                red: [100; 16],
                green: [100; 16],
                blue: [100; 16],
                alpha: [100; 16],
            },
            edge_density: s(0.25),
            transparent_percentage: s(0.0),
            background_percentage: s(40.0),
            connected_components: 1,
            dominant_colors: vec![[8, 8, 8]],
        },
        invariants: InvariantResults::new(),
    }
}

fn defaults() -> RegressionTolerance {
    RegressionTolerance::default()
}

#[test]
fn default_tolerances() {
    let t = defaults();
    assert_eq!(t.depth_tolerance, s(0.01));
    assert_eq!(t.histogram_tolerance, s(0.05));
    assert_eq!(t.edge_density_tolerance, s(0.1));
    assert_eq!(t.background_tolerance, s(5.0));
}

#[test]
fn a_bundle_matches_itself() {
    let a = bundle();
    let result = compare_for_regression(&a, &a, defaults());
    assert!(result.matches);
    assert!(result.differences.is_empty());
    assert!(result.notes.is_empty());

    // Also when it holds values that are no numbers, or nothing at all.
    let mut odd = bundle();
    odd.geometry.depth_stats.mean = Scalar::Nan;
    odd.image_metrics.edge_density = Scalar::PosInf;
    odd.image_metrics.background_percentage = Scalar::NegInf;
    odd.image_metrics.histogram.red = [0; 16];
    odd.image_metrics.histogram.green = [0; 16];
    odd.image_metrics.histogram.blue = [0; 16];
    let result = compare_for_regression(&odd, &odd, defaults());
    assert!(result.matches);
    assert!(result.differences.is_empty());
    assert!(result.notes.is_empty());
}

#[test]
fn triangle_count_mismatch_never_matches() {
    let a = bundle();
    let mut b = bundle();
    b.metadata.primitive_counts.total_triangles = 13;
    let result = compare_for_regression(&a, &b, defaults());
    assert!(!result.matches);
    assert_eq!(result.differences, vec!["Triangle count changed: 12 -> 13".to_string()]);
    assert!(result.notes.is_empty());

    // Whatever the tolerances.
    let lax = RegressionTolerance {
        depth_tolerance: Scalar::PosInf,
        histogram_tolerance: Scalar::PosInf,
        edge_density_tolerance: Scalar::PosInf,
        background_tolerance: Scalar::PosInf,
    };
    let result = compare_for_regression(&a, &b, lax);
    assert!(!result.matches);
    assert_eq!(result.differences.len(), 1);
}

#[test]
fn mean_depth_beyond_tolerance_is_a_difference() {
    let a = bundle();
    let mut b = bundle();
    b.geometry.depth_stats.mean = s(0.51);
    let result = compare_for_regression(&a, &b, defaults());
    assert!(result.matches, "a change of exactly the tolerance is accepted");
    b.geometry.depth_stats.mean = Scalar::Finite(510_001);
    let result = compare_for_regression(&a, &b, defaults());
    assert!(!result.matches);
    assert_eq!(
        result.differences,
        vec![
            "Mean depth changed beyond tolerance: 0.500000 -> 0.510001 (diff: 0.010001, tolerance: 0.010000)"
                .to_string()
        ]
    );
    b.geometry.depth_stats.mean = s(0.4);
    assert!(!compare_for_regression(&a, &b, defaults()).matches);
    b.geometry.depth_stats.mean = Scalar::PosInf;
    assert!(!compare_for_regression(&a, &b, defaults()).matches);
    // A mean that is no number differs from nothing.
    b.geometry.depth_stats.mean = Scalar::Nan;
    assert!(compare_for_regression(&a, &b, defaults()).matches);
}

#[test]
fn histogram_drift_is_measured_against_the_baseline_counts() {
    let a = bundle();
    let mut b = bundle();
    // The baseline counts 16 * 3 * 100 = 4800. A drift of 240 is a twentieth.
    b.image_metrics.histogram.red[0] = 220;
    b.image_metrics.histogram.green[5] = 40;
    b.image_metrics.histogram.blue[15] = 40;
    assert_eq!(
        histogram_difference(&a.image_metrics.histogram, &b.image_metrics.histogram),
        (240, 4800)
    );
    let result = compare_for_regression(&a, &b, defaults());
    assert!(result.matches);
    assert!(result.differences.is_empty());
    b.image_metrics.histogram.blue[15] = 39;
    let result = compare_for_regression(&a, &b, defaults());
    assert!(!result.matches);
    assert_eq!(
        result.differences,
        vec!["Color histogram drift: 0.050208 (tolerance: 0.050000)".to_string()]
    );
    // The alpha channel does not count.
    let mut c = bundle();
    c.image_metrics.histogram.alpha = [0; 16];
    assert!(compare_for_regression(&a, &c, defaults()).matches);
}

#[test]
fn empty_baseline_histogram_does_not_drift() {
    let mut a = bundle();
    a.image_metrics.histogram.red = [0; 16];
    a.image_metrics.histogram.green = [0; 16];
    a.image_metrics.histogram.blue = [0; 16];
    let b = bundle();
    assert_eq!(
        histogram_difference(&a.image_metrics.histogram, &b.image_metrics.histogram),
        (4800, 0)
    );
    let result = compare_for_regression(&a, &b, defaults());
    assert!(result.matches);
    assert!(result.differences.is_empty());
}

#[test]
fn histogram_totals_fit_full_bins() {
    let full = ColorHistogram {
        red: [u32::MAX; 16],
        green: [u32::MAX; 16],
        blue: [u32::MAX; 16],
        alpha: [0; 16],
    };
    let empty = ColorHistogram { red: [0; 16], green: [0; 16], blue: [0; 16], alpha: [0; 16] };
    let total = 48 * u32::MAX as u64;
    assert_eq!(histogram_difference(&full, &empty), (total, total));
    assert_eq!(histogram_difference(&empty, &full), (total, 0));
    assert!(exceeds_ratio(total, total, Scalar::Finite(999_999)));
    assert!(!exceeds_ratio(total, total, Scalar::Finite(1_000_000)));
    assert!(!exceeds_ratio(total, total, Scalar::Finite(i64::MAX)));
    assert!(exceeds_ratio(0, total, Scalar::Finite(i64::MIN)));
}

#[test]
fn exact_ratio_comparison() {
    assert!(!exceeds_ratio(1, 3, Scalar::Finite(333_334)));
    assert!(exceeds_ratio(1, 3, Scalar::Finite(333_333)));
    assert!(!exceeds_ratio(1, 2, Scalar::Finite(500_000)));
    assert!(exceeds_ratio(0, 5, Scalar::Finite(-1)));
    assert!(!exceeds_ratio(0, 5, Scalar::Finite(0)));
    assert!(!exceeds_ratio(7, 0, Scalar::Finite(0)));
    assert!(exceeds_ratio(7, 0, Scalar::Finite(-1)));
    assert!(!exceeds_ratio(7, 1, Scalar::Nan));
    assert!(!exceeds_ratio(7, 1, Scalar::PosInf));
    assert!(exceeds_ratio(0, 1, Scalar::NegInf));
}

#[test]
fn edge_density_change_only_leaves_a_note() {
    let a = bundle();
    let mut b = bundle();
    b.image_metrics.edge_density = s(0.5);
    let result = compare_for_regression(&a, &b, defaults());
    assert!(result.matches);
    assert!(result.differences.is_empty());
    assert_eq!(result.notes, vec!["Edge density changed: 0.250000 -> 0.500000".to_string()]);
    b.image_metrics.edge_density = s(0.35);
    let result = compare_for_regression(&a, &b, defaults());
    assert!(result.notes.is_empty());
}

#[test]
fn background_percentage_beyond_tolerance_is_a_difference() {
    let a = bundle();
    let mut b = bundle();
    b.image_metrics.background_percentage = s(45.0);
    assert!(compare_for_regression(&a, &b, defaults()).matches);
    b.image_metrics.background_percentage = s(34.5);
    let result = compare_for_regression(&a, &b, defaults());
    assert!(!result.matches);
    assert_eq!(
        result.differences,
        vec!["Background percentage changed: 40.000000% -> 34.500000%".to_string()]
    );
}

#[test]
fn different_backends_only_leave_a_note() {
    let a = bundle();
    let mut b = bundle();
    b.metadata.backend = "Metal".to_string();
    b.metadata.adapter = "another adapter".to_string();
    let result = compare_for_regression(&a, &b, defaults());
    assert!(result.matches);
    assert!(result.differences.is_empty());
    assert_eq!(result.notes, vec!["Different GPU backend: Vulkan vs Metal".to_string()]);
}

#[test]
fn differences_are_listed_in_rule_order() {
    let a = bundle();
    let mut b = bundle();
    b.metadata.primitive_counts.total_triangles = 0;
    b.geometry.depth_stats.mean = s(0.9);
    b.image_metrics.histogram.red = [0; 16];
    b.image_metrics.edge_density = s(0.0);
    b.image_metrics.background_percentage = s(100.0);
    b.metadata.backend = "Dx12".to_string();
    let result = compare_for_regression(&a, &b, defaults());
    assert!(!result.matches);
    assert_eq!(
        result.differences,
        vec![
            "Triangle count changed: 12 -> 0".to_string(),
            "Mean depth changed beyond tolerance: 0.500000 -> 0.900000 (diff: 0.400000, tolerance: 0.010000)"
                .to_string(),
            "Color histogram drift: 0.333333 (tolerance: 0.050000)".to_string(),
            "Background percentage changed: 40.000000% -> 100.000000%".to_string(),
        ]
    );
    assert_eq!(
        result.notes,
        vec![
            "Edge density changed: 0.250000 -> 0.000000".to_string(),
            "Different GPU backend: Vulkan vs Dx12".to_string(),
        ]
    );
}
