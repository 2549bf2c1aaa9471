//! Invariant checking for rendered figures.
//!
//! A fixed battery of rules in four categories (scene, camera, geometry,
//! render). Every rule only adds findings; checking never fails.

use crate::audit::{
    FindingsView, GeometryProbes, ImageMetrics, InvariantCategory, InvariantResults,
    PrimitiveCounts, RenderMetadata,
};
use crate::camera::Camera;
use crate::geometry::AxisBounds;
use crate::scalar::Scalar;
use crate::scene::{Bounds, Scene, SceneElement};
use crate::text::{decimal, push_decimal, push_scalar, scalar_text};
use vstd::prelude::*;
use vstd::string::StringExecFns;

verus! {

/// Vertex `v` of a flattened position list lies outside the bounds on some axis.
pub open spec fn vertex_outside(positions: Seq<Scalar>, bounds: Bounds, v: int) -> bool {
    ||| positions[3 * v].lt_spec(bounds.min[0])
    ||| bounds.max[0].lt_spec(positions[3 * v])
    ||| positions[3 * v + 1].lt_spec(bounds.min[1])
    ||| bounds.max[1].lt_spec(positions[3 * v + 1])
    ||| positions[3 * v + 2].lt_spec(bounds.min[2])
    ||| bounds.max[2].lt_spec(positions[3 * v + 2])
}

/// Vertex `v` of a flattened position list has a coordinate that is not finite.
pub open spec fn vertex_non_finite(positions: Seq<Scalar>, v: int) -> bool {
    !positions[3 * v].finite() || !positions[3 * v + 1].finite() || !positions[3 * v
        + 2].finite()
}

/// The first of the first `n` vertices that lies outside the bounds, if any.
pub open spec fn first_outside(positions: Seq<Scalar>, bounds: Bounds, n: nat) -> Option<int>
    decreases n,
{
    if n == 0 {
        None
    } else {
        match first_outside(positions, bounds, (n - 1) as nat) {
            Some(v) => Some(v),
            None => if vertex_outside(positions, bounds, n - 1) {
                Some(n - 1)
            } else {
                None
            },
        }
    }
}

/// Whether one of the first `n` vertices has a coordinate that is not finite.
pub open spec fn any_non_finite(positions: Seq<Scalar>, n: nat) -> bool
    decreases n,
{
    n > 0 && (any_non_finite(positions, (n - 1) as nat) || vertex_non_finite(positions, n - 1))
}

/// Text of the warning for a primitive with a vertex outside the world bounds.
pub open spec fn outside_message(kind: Seq<char>, i: nat, x: Scalar, y: Scalar, z: Scalar) -> Seq<
    char,
> {
    kind + " "@ + decimal(i) + " has vertex ("@ + scalar_text(x) + ", "@ + scalar_text(y) + ", "@
        + scalar_text(z) + ") outside world bounds"@
}

/// Text of the error for a primitive with a coordinate that is not finite.
pub open spec fn non_finite_message(kind: Seq<char>, i: nat, what: Seq<char>) -> Seq<char> {
    kind + " "@ + decimal(i) + " contains NaN or Inf "@ + what
}

/// Findings about one primitive given by its positions: a warning if a vertex
/// lies outside the world bounds, naming the first such vertex, and an error
/// if a coordinate is not finite. Coordinates beyond the last whole vertex
/// are not looked at.
pub open spec fn primitive_findings(
    kind: Seq<char>,
    what: Seq<char>,
    i: nat,
    positions: Seq<Scalar>,
    bounds: Bounds,
    acc: FindingsView,
) -> FindingsView {
    let n = positions.len() / 3;
    let warned = match first_outside(positions, bounds, n) {
        Some(v) => acc.with_warning(
            InvariantCategory::Scene,
            outside_message(kind, i, positions[3 * v], positions[3 * v + 1], positions[3 * v + 2]),
        ),
        None => acc,
    };
    if any_non_finite(positions, n) {
        warned.with_error(InvariantCategory::Scene, non_finite_message(kind, i, what))
    } else {
        warned
    }
}

/// The bounds are inverted on some axis.
pub open spec fn bounds_inverted(b: AxisBounds) -> bool {
    b.max[0].lt_spec(b.min[0]) || b.max[1].lt_spec(b.min[1]) || b.max[2].lt_spec(b.min[2])
}

/// The axis bounds reach beyond the world bounds on some side.
pub open spec fn bounds_exceed(b: AxisBounds, world: Bounds) -> bool {
    ||| b.min[0].lt_spec(world.min[0])
    ||| b.min[1].lt_spec(world.min[1])
    ||| b.min[2].lt_spec(world.min[2])
    ||| world.max[0].lt_spec(b.max[0])
    ||| world.max[1].lt_spec(b.max[1])
    ||| world.max[2].lt_spec(b.max[2])
}

/// Findings about one axis bundle: an error if its bounds are inverted, a
/// warning if they reach beyond the world bounds.
pub open spec fn axes_findings(i: nat, b: AxisBounds, world: Bounds, acc: FindingsView) -> FindingsView {
    let checked = if bounds_inverted(b) {
        acc.with_error(
            InvariantCategory::Scene,
            "Axes "@ + decimal(i) + " has degenerate bounds"@,
        )
    } else {
        acc
    };
    if bounds_exceed(b, world) {
        checked.with_warning(
            InvariantCategory::Scene,
            "Axes "@ + decimal(i) + " bounds exceed scene world bounds"@,
        )
    } else {
        checked
    }
}

/// Findings about element `i` of a scene.
pub open spec fn element_findings(
    element: SceneElement,
    i: nat,
    world: Bounds,
    acc: FindingsView,
) -> FindingsView {
    match element {
        SceneElement::Mesh(mesh) => primitive_findings(
            "Mesh"@,
            "vertex positions"@,
            i,
            mesh.positions@,
            world,
            acc,
        ),
        SceneElement::PointCloud(pc) => primitive_findings(
            "PointCloud"@,
            "positions"@,
            i,
            pc.positions@,
            world,
            acc,
        ),
        SceneElement::Polyline(line) => primitive_findings(
            "Polyline"@,
            "positions"@,
            i,
            line.positions@,
            world,
            acc,
        ),
        SceneElement::Axes(axes) => axes_findings(i, axes.bounds, world, acc),
    }
}

/// Findings about the first `n` elements of a scene, in element order.
pub open spec fn elements_findings(
    elements: Seq<SceneElement>,
    world: Bounds,
    n: nat,
    acc: FindingsView,
) -> FindingsView
    decreases n,
{
    if n == 0 {
        acc
    } else {
        element_findings(
            elements[n - 1],
            (n - 1) as nat,
            world,
            elements_findings(elements, world, (n - 1) as nat, acc),
        )
    }
}

/// Text of the note that sums up the primitives of a scene.
pub open spec fn summary_note(counts: PrimitiveCounts) -> Seq<char> {
    "Scene contains "@ + decimal(counts.meshes as nat) + " meshes ("@ + decimal(
        counts.total_triangles as nat,
    ) + " triangles), "@ + decimal(counts.point_clouds as nat) + " point clouds, "@ + decimal(
        counts.polylines as nat,
    ) + " polylines"@
}

/// Findings of the scene category: a warning for a scene without elements,
/// the findings about every element, and a note that sums up the primitives.
pub open spec fn scene_findings(
    scene: Scene,
    metadata: RenderMetadata,
    acc: FindingsView,
) -> FindingsView {
    let begun = if scene.elements@.len() == 0 {
        acc.with_warning(InvariantCategory::Scene, "Scene contains no geometry elements"@)
    } else {
        acc
    };
    elements_findings(scene.elements@, scene.bounds, scene.elements@.len(), begun).with_note(
        summary_note(metadata.primitive_counts),
    )
}

fn is_outside(positions: &Vec<Scalar>, bounds: &Bounds, v: usize) -> (r: bool)
    requires
        3 * v + 2 < positions@.len(),
    ensures
        r == vertex_outside(positions@, *bounds, v as int),
{
    let len = positions.len();
    let x = positions[3 * v];
    let y = positions[3 * v + 1];
    let z = positions[3 * v + 2];
    x.lt(bounds.min[0]) || x.gt(bounds.max[0]) || y.lt(bounds.min[1]) || y.gt(bounds.max[1])
        || z.lt(bounds.min[2]) || z.gt(bounds.max[2])
}

fn is_non_finite(positions: &Vec<Scalar>, v: usize) -> (r: bool)
    requires
        3 * v + 2 < positions@.len(),
    ensures
        r == vertex_non_finite(positions@, v as int),
{
    let len = positions.len();
    !positions[3 * v].is_finite() || !positions[3 * v + 1].is_finite() || !positions[3 * v
        + 2].is_finite()
}

fn outside_text(kind: &str, i: usize, x: Scalar, y: Scalar, z: Scalar) -> (r: String)
    ensures
        r@ == outside_message(kind@, i as nat, x, y, z),
{
    let mut m = String::from_str(kind);
    m.append(" ");
    push_decimal(&mut m, i as u64);
    m.append(" has vertex (");
    push_scalar(&mut m, x);
    m.append(", ");
    push_scalar(&mut m, y);
    m.append(", ");
    push_scalar(&mut m, z);
    m.append(") outside world bounds");
    m
}

fn non_finite_text(kind: &str, i: usize, what: &str) -> (r: String)
    ensures
        r@ == non_finite_message(kind@, i as nat, what@),
{
    let mut m = String::from_str(kind);
    m.append(" ");
    push_decimal(&mut m, i as u64);
    m.append(" contains NaN or Inf ");
    m.append(what);
    m
}

/// Checks the positions of one primitive against the world bounds and for
/// coordinates that are not finite.
fn check_primitive(
    kind: &str,
    what: &str,
    i: usize,
    positions: &Vec<Scalar>,
    bounds: &Bounds,
    results: &mut InvariantResults,
)
    ensures
        final(results)@ == primitive_findings(
            kind@,
            what@,
            i as nat,
            positions@,
            *bounds,
            old(results)@,
        ),
        old(results).wf() ==> final(results).wf(),
{
    let n = positions.len() / 3;
    let mut outside: Option<usize> = None;
    let mut bad = false;
    let mut v: usize = 0;
    while v < n
        invariant
            v <= n,
            n == positions@.len() / 3,
            match outside {
                Some(f) => first_outside(positions@, *bounds, v as nat) == Some(f as int) && f < v,
                None => first_outside(positions@, *bounds, v as nat) is None,
            },
            bad == any_non_finite(positions@, v as nat),
        decreases n - v,
    {
        if outside.is_none() && is_outside(positions, bounds, v) {
            outside = Some(v);
        }
        if is_non_finite(positions, v) {
            bad = true;
        }
        v = v + 1;
    }
    match outside {
        Some(f) => {
            let message = outside_text(
                kind,
                i,
                positions[3 * f],
                positions[3 * f + 1],
                positions[3 * f + 2],
            );
            results.warning(InvariantCategory::Scene, message);
        },
        None => {},
    }
    if bad {
        results.error(InvariantCategory::Scene, non_finite_text(kind, i, what));
    }
}

fn check_axes(i: usize, b: &AxisBounds, world: &Bounds, results: &mut InvariantResults)
    ensures
        final(results)@ == axes_findings(i as nat, *b, *world, old(results)@),
        old(results).wf() ==> final(results).wf(),
{
    if b.min[0].gt(b.max[0]) || b.min[1].gt(b.max[1]) || b.min[2].gt(b.max[2]) {
        let mut m = String::from_str("Axes ");
        push_decimal(&mut m, i as u64);
        m.append(" has degenerate bounds");
        results.error(InvariantCategory::Scene, m);
    }
    if b.min[0].lt(world.min[0]) || b.min[1].lt(world.min[1]) || b.min[2].lt(world.min[2])
        || b.max[0].gt(world.max[0]) || b.max[1].gt(world.max[1]) || b.max[2].gt(world.max[2]) {
        let mut m = String::from_str("Axes ");
        push_decimal(&mut m, i as u64);
        m.append(" bounds exceed scene world bounds");
        results.warning(InvariantCategory::Scene, m);
    }
}

fn summary_text(counts: &PrimitiveCounts) -> (r: String)
    ensures
        r@ == summary_note(*counts),
{
    let mut m = String::from_str("Scene contains ");
    push_decimal(&mut m, counts.meshes as u64);
    m.append(" meshes (");
    push_decimal(&mut m, counts.total_triangles as u64);
    m.append(" triangles), ");
    push_decimal(&mut m, counts.point_clouds as u64);
    m.append(" point clouds, ");
    push_decimal(&mut m, counts.polylines as u64);
    m.append(" polylines");
    m
}

/// Scene invariants: the scene has geometry, geometry lies within the world
/// bounds and is finite, axis bounds are in order.
pub fn check_scene_invariants(
    scene: &Scene,
    metadata: &RenderMetadata,
    results: &mut InvariantResults,
)
    ensures
        final(results)@ == scene_findings(*scene, *metadata, old(results)@),
        old(results).wf() ==> final(results).wf(),
{
    if scene.elements.len() == 0 {
        results.warning(
            InvariantCategory::Scene,
            String::from_str("Scene contains no geometry elements"),
        );
    }
    let ghost begun = results@;
    let mut i: usize = 0;
    while i < scene.elements.len()
        invariant
            i <= scene.elements@.len(),
            results@ == elements_findings(scene.elements@, scene.bounds, i as nat, begun),
            old(results).wf() ==> results.wf(),
        decreases scene.elements@.len() - i,
    {
        match &scene.elements[i] {
            SceneElement::Mesh(mesh) => {
                check_primitive(
                    "Mesh",
                    "vertex positions",
                    i,
                    &mesh.positions,
                    &scene.bounds,
                    results,
                );
            },
            SceneElement::PointCloud(pc) => {
                check_primitive("PointCloud", "positions", i, &pc.positions, &scene.bounds, results);
            },
            SceneElement::Polyline(line) => {
                check_primitive("Polyline", "positions", i, &line.positions, &scene.bounds, results);
            },
            SceneElement::Axes(axes) => {
                check_axes(i, &axes.bounds, &scene.bounds, results);
            },
        }
        i = i + 1;
    }
    results.note(summary_text(&metadata.primitive_counts));
}

/// Ninety-nine percent.
pub const NEARLY_ALL: i64 = 99_000_000;

/// One hundred percent.
pub const ALL: i64 = 100_000_000;

/// Edge density below which an image counts as flat: one thousandth.
pub const FLAT_EDGE_DENSITY: i64 = 1_000;

/// All three coordinates are finite.
pub open spec fn finite_point(p: [Scalar; 3]) -> bool {
    p[0].finite() && p[1].finite() && p[2].finite()
}

/// Square of the distance between two finite points, in squared units.
pub open spec fn squared_distance(p: [Scalar; 3], t: [Scalar; 3]) -> int {
    let dx = p[0]->Finite_0 - t[0]->Finite_0;
    let dy = p[1]->Finite_0 - t[1]->Finite_0;
    let dz = p[2]->Finite_0 - t[2]->Finite_0;
    dx * dx + dy * dy + dz * dz
}

/// The camera sits on its target: both are finite and less than one unit
/// (a millionth) apart.
pub open spec fn degenerate_view(camera: Camera) -> bool {
    finite_point(camera.position) && finite_point(camera.target) && squared_distance(
        camera.position,
        camera.target,
    ) < 1
}

/// Findings of the camera category.
pub open spec fn camera_findings(
    camera: Camera,
    geometry: GeometryProbes,
    acc: FindingsView,
) -> FindingsView {
    let a1 = if degenerate_view(camera) {
        acc.with_error(
            InvariantCategory::Camera,
            "Camera position equals target (degenerate view)"@,
        )
    } else {
        acc
    };
    let a2 = if camera.far.le_spec(camera.near) {
        a1.with_error(
            InvariantCategory::Camera,
            "Camera near ("@ + scalar_text(camera.near) + ") >= far ("@ + scalar_text(camera.far)
                + ")"@,
        )
    } else {
        a1
    };
    let a3 = if camera.near.le_spec(Scalar::Finite(0)) {
        a2.with_error(
            InvariantCategory::Camera,
            "Camera near plane ("@ + scalar_text(camera.near) + ") must be positive"@,
        )
    } else {
        a2
    };
    let a4 = if !geometry.geometry_visible {
        a3.with_warning(
            InvariantCategory::Camera,
            "No geometry visible in view frustum (everything clipped or outside view)"@,
        )
    } else {
        a3
    };
    let a5 = if geometry.has_invalid_values {
        a4.with_error(InvariantCategory::Camera, "NaN or Inf detected in projected coordinates"@)
    } else {
        a4
    };
    if Scalar::Finite(99_000_000).lt_spec(geometry.depth_stats.far_plane_percentage) {
        a5.with_warning(
            InvariantCategory::Camera,
            scalar_text(geometry.depth_stats.far_plane_percentage)
                + "% of pixels at far plane (scene may be empty or camera misaligned)"@,
        )
    } else {
        a5
    }
}

/// More than half of the triangles are clipped.
pub open spec fn mostly_clipped(clipped: u32, total: u32) -> bool {
    total > 0 && 2 * clipped > total
}

/// The clipped primitives as a percentage of all triangles.
pub open spec fn clipped_percentage(clipped: u32, total: u32) -> Scalar {
    Scalar::Finite((clipped as int * 100_000_000 / total as int) as i64)
}

/// Findings of the geometry category.
pub open spec fn geometry_findings(
    geometry: GeometryProbes,
    metadata: RenderMetadata,
    acc: FindingsView,
) -> FindingsView {
    let total = metadata.primitive_counts.total_triangles;
    let a1 = if geometry.degenerate_count > 0 {
        acc.with_warning(
            InvariantCategory::Geometry,
            decimal(geometry.degenerate_count as nat)
                + " degenerate primitives detected (zero-area triangles, etc.)"@,
        )
    } else {
        acc
    };
    let a2 = if geometry.clipped_count > 0 {
        if mostly_clipped(geometry.clipped_count, total) {
            a1.with_warning(
                InvariantCategory::Geometry,
                decimal(geometry.clipped_count as nat) + " primitives clipped ("@ + scalar_text(
                    clipped_percentage(geometry.clipped_count, total),
                ) + "% of total) - consider adjusting camera planes"@,
            )
        } else {
            a1.with_note(
                decimal(geometry.clipped_count as nat) + " primitives clipped by near/far planes"@,
            )
        }
    } else {
        a1
    };
    if geometry.backface_count > 0 {
        a2.with_note(decimal(geometry.backface_count as nat) + " back-facing triangles culled"@)
    } else {
        a2
    }
}

/// Findings of the render category.
pub open spec fn render_findings(
    image: ImageMetrics,
    metadata: RenderMetadata,
    acc: FindingsView,
) -> FindingsView {
    let a1 = if metadata.resolution[0] == 0 || metadata.resolution[1] == 0 {
        acc.with_error(
            InvariantCategory::Render,
            "Invalid resolution: "@ + decimal(metadata.resolution[0] as nat) + "x"@ + decimal(
                metadata.resolution[1] as nat,
            ),
        )
    } else {
        acc
    };
    let a2 = if Scalar::Finite(99_000_000).lt_spec(image.transparent_percentage) {
        a1.with_warning(
            InvariantCategory::Render,
            scalar_text(image.transparent_percentage)
                + "% transparent pixels - render may have failed"@,
        )
    } else {
        a1
    };
    let a3 = if Scalar::Finite(99_000_000).lt_spec(image.background_percentage) {
        a2.with_warning(
            InvariantCategory::Render,
            scalar_text(image.background_percentage)
                + "% of image is background color - scene may be empty or not visible"@,
        )
    } else {
        a2
    };
    let a4 = if image.edge_density.lt_spec(Scalar::Finite(1_000))
        && image.background_percentage.lt_spec(Scalar::Finite(100_000_000)) {
        a3.with_note("Very low edge density - image may be mostly flat colors"@)
    } else {
        a3
    };
    if image.connected_components > 0 {
        a4.with_note(
            decimal(image.connected_components as nat)
                + " distinct regions detected in rendered image"@,
        )
    } else {
        a4
    }
}

/// No findings at all.
pub open spec fn no_findings() -> FindingsView {
    FindingsView { errors: Seq::empty(), warnings: Seq::empty(), notes: Seq::empty() }
}

/// All findings about a render: scene, camera, geometry and render category,
/// in this order.
pub open spec fn all_findings(
    scene: Scene,
    metadata: RenderMetadata,
    geometry: GeometryProbes,
    image: ImageMetrics,
) -> FindingsView {
    render_findings(
        image,
        metadata,
        geometry_findings(
            geometry,
            metadata,
            camera_findings(scene.camera, geometry, scene_findings(scene, metadata, no_findings())),
        ),
    )
}

fn same_point(p: &[Scalar; 3], t: &[Scalar; 3]) -> (r: bool)
    ensures
        r == (finite_point(*p) && finite_point(*t) && squared_distance(*p, *t) < 1),
{
    match (p[0], p[1], p[2], t[0], t[1], t[2]) {
        (
            Scalar::Finite(px),
            Scalar::Finite(py),
            Scalar::Finite(pz),
            Scalar::Finite(tx),
            Scalar::Finite(ty),
            Scalar::Finite(tz),
        ) => {
            proof {
                let dx = px - tx;
                let dy = py - ty;
                let dz = pz - tz;
                assert(dx * dx >= 0 && (dx != 0 ==> dx * dx >= 1)) by (nonlinear_arith);
                assert(dy * dy >= 0 && (dy != 0 ==> dy * dy >= 1)) by (nonlinear_arith);
                assert(dz * dz >= 0 && (dz != 0 ==> dz * dz >= 1)) by (nonlinear_arith);
                assert(dx == 0 ==> dx * dx == 0) by (nonlinear_arith);
                assert(dy == 0 ==> dy * dy == 0) by (nonlinear_arith);
                assert(dz == 0 ==> dz * dz == 0) by (nonlinear_arith);
            }
            px == tx && py == ty && pz == tz
        },
        _ => false,
    }
}

/// Camera invariants: a proper view direction, clipping planes in order,
/// geometry in view, no invalid projection.
pub fn check_camera_invariants(
    scene: &Scene,
    geometry: &GeometryProbes,
    results: &mut InvariantResults,
)
    ensures
        final(results)@ == camera_findings(scene.camera, *geometry, old(results)@),
        old(results).wf() ==> final(results).wf(),
{
    let cam = &scene.camera;
    if same_point(&cam.position, &cam.target) {
        results.error(
            InvariantCategory::Camera,
            String::from_str("Camera position equals target (degenerate view)"),
        );
    }
    if cam.near.ge(cam.far) {
        let mut m = String::from_str("Camera near (");
        push_scalar(&mut m, cam.near);
        m.append(") >= far (");
        push_scalar(&mut m, cam.far);
        m.append(")");
        results.error(InvariantCategory::Camera, m);
    }
    if cam.near.le(Scalar::Finite(0)) {
        let mut m = String::from_str("Camera near plane (");
        push_scalar(&mut m, cam.near);
        m.append(") must be positive");
        results.error(InvariantCategory::Camera, m);
    }
    if !geometry.geometry_visible {
        results.warning(
            InvariantCategory::Camera,
            String::from_str(
                "No geometry visible in view frustum (everything clipped or outside view)",
            ),
        );
    }
    if geometry.has_invalid_values {
        results.error(
            InvariantCategory::Camera,
            String::from_str("NaN or Inf detected in projected coordinates"),
        );
    }
    if geometry.depth_stats.far_plane_percentage.gt(Scalar::Finite(NEARLY_ALL)) {
        let mut m = String::new();
        push_scalar(&mut m, geometry.depth_stats.far_plane_percentage);
        m.append("% of pixels at far plane (scene may be empty or camera misaligned)");
        assert(m@ =~= scalar_text(geometry.depth_stats.far_plane_percentage)
            + "% of pixels at far plane (scene may be empty or camera misaligned)"@);
        results.warning(InvariantCategory::Camera, m);
    }
}

/// Geometry invariants: degenerate, clipped and back-facing primitives.
pub fn check_geometry_invariants(
    geometry: &GeometryProbes,
    metadata: &RenderMetadata,
    results: &mut InvariantResults,
)
    ensures
        final(results)@ == geometry_findings(*geometry, *metadata, old(results)@),
        old(results).wf() ==> final(results).wf(),
{
    if geometry.degenerate_count > 0 {
        let mut m = String::new();
        push_decimal(&mut m, geometry.degenerate_count as u64);
        m.append(" degenerate primitives detected (zero-area triangles, etc.)");
        assert(m@ =~= decimal(geometry.degenerate_count as nat)
            + " degenerate primitives detected (zero-area triangles, etc.)"@);
        results.warning(InvariantCategory::Geometry, m);
    }
    if geometry.clipped_count > 0 {
        let total = metadata.primitive_counts.total_triangles;
        let clipped = geometry.clipped_count;
        if total > 0 && 2 * (clipped as u64) > total as u64 {
            let pct: u64 = (clipped as u64) * 100_000_000 / (total as u64);
            assert(pct <= clipped as int * 100_000_000) by (nonlinear_arith)
                requires
                    pct == (clipped as int * 100_000_000) / (total as int),
                    total > 0,
                    clipped >= 0,
            ;
            let mut m = String::new();
            push_decimal(&mut m, clipped as u64);
            m.append(" primitives clipped (");
            push_scalar(&mut m, Scalar::Finite(pct as i64));
            m.append("% of total) - consider adjusting camera planes");
            assert(m@ =~= decimal(clipped as nat) + " primitives clipped ("@ + scalar_text(
                clipped_percentage(clipped, total),
            ) + "% of total) - consider adjusting camera planes"@);
            results.warning(InvariantCategory::Geometry, m);
        } else {
            let mut m = String::new();
            push_decimal(&mut m, clipped as u64);
            m.append(" primitives clipped by near/far planes");
            assert(m@ =~= decimal(clipped as nat) + " primitives clipped by near/far planes"@);
            results.note(m);
        }
    }
    if geometry.backface_count > 0 {
        let mut m = String::new();
        push_decimal(&mut m, geometry.backface_count as u64);
        m.append(" back-facing triangles culled");
        assert(m@ =~= decimal(geometry.backface_count as nat) + " back-facing triangles culled"@);
        results.note(m);
    }
}

/// Render invariants: a proper resolution, and an image that is neither
/// empty nor flat.
pub fn check_render_invariants(
    image: &ImageMetrics,
    metadata: &RenderMetadata,
    results: &mut InvariantResults,
)
    ensures
        final(results)@ == render_findings(*image, *metadata, old(results)@),
        old(results).wf() ==> final(results).wf(),
{
    if metadata.resolution[0] == 0 || metadata.resolution[1] == 0 {
        let mut m = String::from_str("Invalid resolution: ");
        push_decimal(&mut m, metadata.resolution[0] as u64);
        m.append("x");
        push_decimal(&mut m, metadata.resolution[1] as u64);
        results.error(InvariantCategory::Render, m);
    }
    if image.transparent_percentage.gt(Scalar::Finite(NEARLY_ALL)) {
        let mut m = String::new();
        push_scalar(&mut m, image.transparent_percentage);
        m.append("% transparent pixels - render may have failed");
        assert(m@ =~= scalar_text(image.transparent_percentage)
            + "% transparent pixels - render may have failed"@);
        results.warning(InvariantCategory::Render, m);
    }
    if image.background_percentage.gt(Scalar::Finite(NEARLY_ALL)) {
        let mut m = String::new();
        push_scalar(&mut m, image.background_percentage);
        m.append("% of image is background color - scene may be empty or not visible");
        assert(m@ =~= scalar_text(image.background_percentage)
            + "% of image is background color - scene may be empty or not visible"@);
        results.warning(InvariantCategory::Render, m);
    }
    if image.edge_density.lt(Scalar::Finite(FLAT_EDGE_DENSITY)) && image.background_percentage.lt(
        Scalar::Finite(ALL),
    ) {
        results.note(String::from_str("Very low edge density - image may be mostly flat colors"));
    }
    if image.connected_components > 0 {
        let mut m = String::new();
        push_decimal(&mut m, image.connected_components as u64);
        m.append(" distinct regions detected in rendered image");
        assert(m@ =~= decimal(image.connected_components as nat)
            + " distinct regions detected in rendered image"@);
        results.note(m);
    }
}

/// Check all invariants for a rendered scene. The result holds the findings
/// of the four categories in order, and its status is a failure exactly when
/// there is an error, otherwise a qualified pass exactly when there is a
/// warning.
pub fn check_all_invariants(
    scene: &Scene,
    metadata: &RenderMetadata,
    geometry: &GeometryProbes,
    image: &ImageMetrics,
) -> (results: InvariantResults)
    ensures
        results@ == all_findings(*scene, *metadata, *geometry, *image),
        results.wf(),
        results.overall == results@.status(),
{
    let mut results = InvariantResults::new();
    assert(results@ == no_findings());
    check_scene_invariants(scene, metadata, &mut results);
    check_camera_invariants(scene, geometry, &mut results);
    check_geometry_invariants(geometry, metadata, &mut results);
    check_render_invariants(image, metadata, &mut results);
    results
}

} // verus!
