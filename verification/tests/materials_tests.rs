use frustum::camera::{Camera, Projection};
use frustum::geometry::{Mesh, PointCloud, Polyline};
use frustum::lighting::{default_enabled, Light};
use frustum::materials::{
    color_with, default_clamp, default_missing_color, get_solid_color, scalar_to_color, Colormap,
    Material, ScalarMappedMaterial, SolidMaterial,
};
use frustum::scalar::Scalar;
use frustum::scene::{Bounds, Scene, SceneElement};

fn s(x: f32) -> Scalar {
    Scalar::Finite((x as f64 * 1_000_000.0).round() as i64)
}

fn scene() -> Scene {
    Scene::new(
        Camera::orthographic([s(0.0), s(0.0), s(5.0)], [s(0.0), s(0.0), s(0.0)], s(10.0)),
        Bounds { min: [s(-1.0); 3], max: [s(1.0); 3] },
    )
}

#[test]
fn colormap_names() {
    assert_eq!(Colormap::Viridis.name(), "viridis");
    assert_eq!(Colormap::Plasma.name(), "plasma");
    assert_eq!(Colormap::Inferno.name(), "inferno");
    assert_eq!(Colormap::Magma.name(), "magma");
    assert_eq!(Colormap::Cividis.name(), "cividis");
}

#[test]
fn colormaps_are_found_by_name_in_any_case() {
    for map in [
        Colormap::Viridis,
        Colormap::Plasma,
        Colormap::Inferno,
        Colormap::Magma,
        Colormap::Cividis,
    ] {
        assert_eq!(Colormap::from_name(map.name()), Some(map));
        assert_eq!(Colormap::from_lowercase_name(map.name()), Some(map));
    }
    assert_eq!(Colormap::from_name("VIRIDIS"), Some(Colormap::Viridis));
    assert_eq!(Colormap::from_name("Plasma"), Some(Colormap::Plasma));
    assert_eq!(Colormap::from_name("mAgMa"), Some(Colormap::Magma));
    assert_eq!(Colormap::from_name("jet"), None);
    assert_eq!(Colormap::from_name(""), None);
    assert_eq!(Colormap::from_name(" viridis"), None);
    assert_eq!(Colormap::from_name("viridis2"), None);
    // The inner function takes the name as it is.
    assert_eq!(Colormap::from_lowercase_name("VIRIDIS"), None);
}

#[test]
fn defaults_for_descriptions_that_do_not_say() {
    assert!(default_clamp());
    assert!(default_enabled());
    assert_eq!(default_missing_color(), [s(0.5), s(0.5), s(0.5), s(1.0)]);
}

#[test]
fn material_constructors() {
    let solid = SolidMaterial::new("red".to_string(), [s(1.0), s(0.0), s(0.0)]);
    assert_eq!(solid.id, "red");
    assert_eq!(solid.color, [s(1.0), s(0.0), s(0.0), s(1.0)]);
    let glass = SolidMaterial::with_alpha("glass".to_string(), [s(0.5), s(0.5), s(1.0), s(0.25)]);
    assert_eq!(glass.color[3], s(0.25));

    let mapped =
        ScalarMappedMaterial::new("m".to_string(), "viridis".to_string(), [s(0.0), s(2.0)]);
    assert_eq!(mapped.id, "m");
    assert_eq!(mapped.colormap, "viridis");
    assert_eq!(mapped.range, [s(0.0), s(2.0)]);
    assert!(mapped.clamp);
    assert_eq!(mapped.missing_color, [s(0.5), s(0.5), s(0.5), s(1.0)]);
    let mapped = mapped.with_clamp(false).with_missing_color([s(1.0), s(0.0), s(1.0), s(1.0)]);
    assert!(!mapped.clamp);
    assert_eq!(mapped.missing_color, [s(1.0), s(0.0), s(1.0), s(1.0)]);
    assert_eq!(mapped.colormap, "viridis");
    assert_eq!(mapped.range, [s(0.0), s(2.0)]);

    assert_eq!(Material::Solid(solid).id(), "red");
    assert_eq!(Material::ScalarMapped(mapped).id(), "m");
}

#[test]
fn materials_are_looked_up_by_identifier() {
    let scene = scene()
        .add_material(Material::Solid(SolidMaterial::new(
            "a".to_string(),
            [s(1.0), s(0.0), s(0.0)],
        )))
        .add_material(Material::ScalarMapped(ScalarMappedMaterial::new(
            "b".to_string(),
            "plasma".to_string(),
            [s(0.0), s(1.0)],
        )))
        .add_material(Material::Solid(SolidMaterial::new(
            "a".to_string(),
            [s(0.0), s(1.0), s(0.0)],
        )));
    assert_eq!(scene.materials.len(), 3);
    match scene.get_material("a") {
        // The first material of that identifier is found.
        Some(Material::Solid(m)) => assert_eq!(m.color[0], s(1.0)),
        _ => panic!("material a should be found"),
    }
    match scene.get_material("b") {
        Some(Material::ScalarMapped(m)) => assert_eq!(m.colormap, "plasma"),
        _ => panic!("material b should be found"),
    }
    assert!(scene.get_material("c").is_none());
    assert!(scene.get_material("").is_none());
}

#[test]
fn scene_keeps_elements_in_order() {
    let light = Light { direction: [s(0.0), s(1.0), s(0.0)], intensity: s(0.8), enabled: true };
    let scene = scene()
        .add_mesh(Mesh::new(vec![s(0.0); 9], vec![0, 1, 2]))
        .add_point_cloud(PointCloud::new(vec![s(0.0); 6], s(4.0)))
        .add_polyline(Polyline::new(vec![s(0.0); 6], s(1.0)))
        .with_light(light.with_enabled(false));
    assert_eq!(scene.elements.len(), 3);
    assert!(matches!(scene.elements[0], SceneElement::Mesh(_)));
    assert!(matches!(scene.elements[1], SceneElement::PointCloud(_)));
    assert!(matches!(scene.elements[2], SceneElement::Polyline(_)));
    let stored = scene.light.unwrap();
    assert!(!stored.enabled);
    assert_eq!(stored.intensity, s(0.8));
    assert_eq!(stored.direction, [s(0.0), s(1.0), s(0.0)]);
    assert!(scene.materials.is_empty());
}

#[test]
fn cameras_start_with_default_planes() {
    let p = Camera::perspective([s(0.0), s(0.0), s(5.0)], [s(0.0); 3], s(45.0));
    assert_eq!(p.projection, Projection::Perspective);
    assert_eq!(p.near, s(0.1));
    assert_eq!(p.far, s(1000.0));
    assert_eq!(p.up, [s(0.0), s(1.0), s(0.0)]);
    assert_eq!(p.fov_or_height, s(45.0));
    assert_eq!(p.position, [s(0.0), s(0.0), s(5.0)]);
    let o = Camera::orthographic([s(1.0); 3], [s(0.0); 3], s(10.0));
    assert_eq!(o.projection, Projection::Orthographic);
    assert_eq!(o.near, s(0.1));
    assert_eq!(o.far, s(1000.0));
    assert_eq!(o.fov_or_height, s(10.0));
    assert_eq!(o.target, [s(0.0); 3]);
}

#[test]
fn primitive_constructors_and_counts() {
    let mesh = Mesh::new(vec![s(0.0); 12], vec![0, 1, 2, 0, 2, 3, 9])
        .with_normals(vec![s(0.0); 12])
        .with_scalars(vec![s(1.0); 4])
        .with_material("m".to_string());
    assert_eq!(mesh.vertex_count(), 4);
    assert_eq!(mesh.triangle_count(), 2);
    assert_eq!(mesh.material_id, Some("m".to_string()));
    assert_eq!(mesh.normals.as_ref().map(|n| n.len()), Some(12));
    assert_eq!(mesh.scalars.as_ref().map(|n| n.len()), Some(4));

    let cloud = PointCloud::new(vec![s(0.0); 7], s(3.0));
    assert_eq!(cloud.len(), 2);
    assert!(!cloud.is_empty());
    assert!(cloud.scalars.is_none() && cloud.material_id.is_none());
    let cloud = cloud.with_scalars(vec![s(1.0), s(2.0)]).with_material("p".to_string());
    assert_eq!(cloud.scalars, Some(vec![s(1.0), s(2.0)]));
    assert_eq!(cloud.material_id, Some("p".to_string()));
    assert_eq!(cloud.point_size, s(3.0));
    assert!(PointCloud::new(vec![], s(1.0)).is_empty());

    let line = Polyline::new(vec![s(0.0); 6], s(2.0)).with_material("l".to_string());
    assert_eq!(line.line_width, s(2.0));
    assert_eq!(line.material_id, Some("l".to_string()));
    assert_eq!(line.positions.len(), 6);
}

fn value(s: Scalar) -> f32 {
    match s {
        Scalar::Finite(v) => (v as f64 / 1_000_000.0) as f32,
        Scalar::PosInf => f32::INFINITY,
        Scalar::NegInf => f32::NEG_INFINITY,
        Scalar::Nan => f32::NAN,
    }
}

fn sample(map: Colormap, t: f32) -> [f32; 3] {
    let c = map.sample(s(t));
    [value(c[0]), value(c[1]), value(c[2])]
}

#[test]
fn test_colormap_endpoints() {
    // Viridis should go from dark purple to yellow
    let start = sample(Colormap::Viridis, 0.0);
    let end = sample(Colormap::Viridis, 1.0);

    // Start should be dark (low luminance)
    assert!(start[0] < 0.4 && start[1] < 0.1);
    // End should be bright yellow-ish
    assert!(end[0] > 0.9 && end[1] > 0.9);
}

#[test]
fn test_colormap_clamping() {
    let below = sample(Colormap::Viridis, -0.5);
    let start = sample(Colormap::Viridis, 0.0);
    assert_eq!(below, start);

    let above = sample(Colormap::Viridis, 1.5);
    let end = sample(Colormap::Viridis, 1.0);
    assert_eq!(above, end);
}

#[test]
fn colormap_samples_in_exact_units() {
    let f = Scalar::Finite;
    assert_eq!(Colormap::Viridis.sample(s(0.0)), [f(267_004), f(4_874), f(329_415)]);
    assert_eq!(Colormap::Viridis.sample(s(0.25)), [f(364_428), f(299_153), f(548_709)]);
    assert_eq!(Colormap::Viridis.sample(s(0.5)), [f(569_464), f(551_826), f(671_170)]);
    assert_eq!(Colormap::Viridis.sample(s(1.0)), [f(1_000_000); 3]);
    // A channel below zero is cut off at zero.
    assert_eq!(Colormap::Cividis.sample(s(0.0)), [f(0), f(135_112), f(311_950)]);
    assert_eq!(Colormap::Cividis.sample(s(0.25)), [f(282_154), f(305_929), f(384_271)]);
    assert_eq!(Colormap::Cividis.sample(s(1.0)), [f(1_000_000), f(999_932), f(319_050)]);
    assert_eq!(Colormap::Cividis.sample(Scalar::PosInf), Colormap::Cividis.sample(s(1.0)));
    assert_eq!(Colormap::Cividis.sample(Scalar::NegInf), Colormap::Cividis.sample(s(0.0)));
    assert_eq!(Colormap::Plasma.sample(Scalar::Nan), [Scalar::Nan; 3]);
    // Every map stays within zero and one and close to its polynomial.
    for map in [
        Colormap::Viridis,
        Colormap::Plasma,
        Colormap::Inferno,
        Colormap::Magma,
        Colormap::Cividis,
    ] {
        for step in 0..=100 {
            let c = sample(map, step as f32 / 100.0);
            assert!(c.iter().all(|v| (0.0..=1.0).contains(v)), "{:?} at {}", map, step);
        }
    }
}

#[test]
fn scalars_map_to_colors() {
    let material =
        ScalarMappedMaterial::new("m".to_string(), "Viridis".to_string(), [s(10.0), s(20.0)]);
    assert_eq!(scalar_to_color(s(15.0), &material), Colormap::Viridis.sample(s(0.5)));
    assert_eq!(scalar_to_color(s(10.0), &material), Colormap::Viridis.sample(s(0.0)));
    assert_eq!(scalar_to_color(s(12.5), &material), Colormap::Viridis.sample(s(0.25)));
    assert_eq!(scalar_to_color(s(99.0), &material), Colormap::Viridis.sample(s(1.0)));
    // Scalars that are not finite get the missing colour.
    assert_eq!(scalar_to_color(Scalar::Nan, &material), [s(0.5), s(0.5), s(0.5)]);
    assert_eq!(scalar_to_color(Scalar::PosInf, &material), [s(0.5), s(0.5), s(0.5)]);
    // An unknown colormap gives grey.
    let grey = ScalarMappedMaterial::new("g".to_string(), "jet".to_string(), [s(0.0), s(4.0)]);
    assert_eq!(scalar_to_color(s(1.0), &grey), [s(0.25), s(0.25), s(0.25)]);
    assert_eq!(scalar_to_color(s(-1.0), &grey), [s(0.0), s(0.0), s(0.0)]);
    let open = grey.with_clamp(false);
    assert_eq!(scalar_to_color(s(8.0), &open), [s(1.0), s(1.0), s(1.0)]);
    assert_eq!(color_with(s(1.0), &open, Some(Colormap::Magma)), Colormap::Magma.sample(s(0.25)));
    assert_eq!(color_with(s(1.0), &open, None), [s(0.25), s(0.25), s(0.25)]);
    // An empty or inverted range maps everything to the middle.
    let flat = ScalarMappedMaterial::new("f".to_string(), "plasma".to_string(), [s(3.0), s(3.0)]);
    assert_eq!(scalar_to_color(s(7.0), &flat), Colormap::Plasma.sample(s(0.5)));
    let inverted =
        ScalarMappedMaterial::new("i".to_string(), "plasma".to_string(), [s(3.0), s(1.0)]);
    assert_eq!(scalar_to_color(s(2.0), &inverted), Colormap::Plasma.sample(s(0.5)));

    let solid = Material::Solid(SolidMaterial::with_alpha(
        "s".to_string(),
        [s(0.1), s(0.2), s(0.3), s(0.4)],
    ));
    assert_eq!(get_solid_color(&solid), [s(0.1), s(0.2), s(0.3)]);
    assert_eq!(
        get_solid_color(&Material::ScalarMapped(material)),
        Colormap::Viridis.sample(s(0.5))
    );
}
