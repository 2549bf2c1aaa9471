//! Metadata about a render request.
//!
//! Structural facts that do not depend on the pixels: the resolution, a
//! summary of camera and world bounds, the number of primitives by kind and
//! a hash of the scene's encoding.

use crate::audit::{BoundsSummary, CameraSummary, PrimitiveCounts, RenderMetadata};
use crate::camera::{Camera, Projection};
use crate::geometry::{expanded_lines, line_views, Polyline, PolylineView};
use crate::scene::{Bounds, Scene, SceneElement};
use crate::text::{hex16, hex16_string};
use std::collections::hash_map::DefaultHasher;
use std::hash::Hasher;
use vstd::prelude::*;
use vstd::std_specs::hash::DefaultHasherAdditionalSpecFns;
use vstd::string::{StringExecFns, StringSliceAdditionalSpecFns};

verus! {

/// A count as it is stored: itself, or the largest storable count if it is
/// greater.
pub open spec fn capped(n: nat) -> u32 {
    if n > u32::MAX {
        u32::MAX
    } else {
        n as u32
    }
}

/// Number of line segments of a polyline with so many coordinates: one
/// fewer than its whole vertices, none for fewer than two.
pub open spec fn segments_in(coordinates: nat) -> nat {
    if coordinates / 3 > 1 {
        (coordinates / 3 - 1) as nat
    } else {
        0
    }
}

/// Line segments of the first `n` of a list of polylines.
pub open spec fn segments_of_lines(lines: Seq<PolylineView>, n: nat) -> nat
    decreases n,
{
    if n == 0 {
        0
    } else {
        segments_of_lines(lines, (n - 1) as nat) + segments_in(lines[n - 1].positions.len())
    }
}

/// What one element adds to the counts, before capping: meshes, triangles,
/// vertices, point clouds, points, polylines and line segments. Axes count
/// as the polylines they expand into.
pub open spec fn element_counts(e: SceneElement) -> (nat, nat, nat, nat, nat, nat, nat) {
    match e {
        SceneElement::Mesh(m) => (1, m.indices@.len() / 3, m.positions@.len() / 3, 0, 0, 0, 0),
        SceneElement::PointCloud(pc) => (0, 0, 0, 1, pc.positions@.len() / 3, 0, 0),
        SceneElement::Polyline(l) => (0, 0, 0, 0, 0, 1, segments_in(l.positions@.len())),
        SceneElement::Axes(a) => {
            let lines = expanded_lines(a, a.axes@.len());
            (0, 0, 0, 0, 0, lines.len(), segments_of_lines(lines, lines.len()))
        },
    }
}

/// The counts of the first `n` elements, before capping.
pub open spec fn scene_counts(elements: Seq<SceneElement>, n: nat) -> (
    nat,
    nat,
    nat,
    nat,
    nat,
    nat,
    nat,
)
    decreases n,
{
    if n == 0 {
        (0, 0, 0, 0, 0, 0, 0)
    } else {
        let before = scene_counts(elements, (n - 1) as nat);
        let e = element_counts(elements[n - 1]);
        (
            before.0 + e.0,
            before.1 + e.1,
            before.2 + e.2,
            before.3 + e.3,
            before.4 + e.4,
            before.5 + e.5,
            before.6 + e.6,
        )
    }
}

/// The stored counts of a list of elements: each count capped.
pub open spec fn counts_of(elements: Seq<SceneElement>, n: nat) -> PrimitiveCounts {
    let c = scene_counts(elements, n);
    PrimitiveCounts {
        meshes: capped(c.0),
        total_triangles: capped(c.1),
        total_vertices: capped(c.2),
        point_clouds: capped(c.3),
        total_points: capped(c.4),
        polylines: capped(c.5),
        total_line_segments: capped(c.6),
    }
}

/// Adds to a stored count, stopping at the largest storable count.
fn add_capped(count: u32, more: usize) -> (r: u32)
    ensures
        r == capped(count as nat + more as nat),
{
    let room: u32 = u32::MAX - count;
    if more >= room as usize {
        u32::MAX
    } else {
        count + more as u32
    }
}

fn segments(coordinates: usize) -> (r: usize)
    ensures
        r == segments_in(coordinates as nat),
{
    let vertices = coordinates / 3;
    if vertices > 1 {
        vertices - 1
    } else {
        0
    }
}

/// Counts the primitives of a scene by kind, in one pass over its elements.
pub fn count_primitives(scene: &Scene) -> (counts: PrimitiveCounts)
    ensures
        counts == counts_of(scene.elements@, scene.elements@.len()),
{
    let mut counts = PrimitiveCounts::default();
    let mut i: usize = 0;
    while i < scene.elements.len()
        invariant
            i <= scene.elements@.len(),
            counts == counts_of(scene.elements@, i as nat),
        decreases scene.elements@.len() - i,
    {
        let ghost before = scene_counts(scene.elements@, i as nat);
        match &scene.elements[i] {
            SceneElement::Mesh(mesh) => {
                counts.meshes = add_capped(counts.meshes, 1);
                counts.total_triangles = add_capped(counts.total_triangles, mesh.indices.len() / 3);
                counts.total_vertices = add_capped(counts.total_vertices, mesh.positions.len() / 3);
            },
            SceneElement::PointCloud(pc) => {
                counts.point_clouds = add_capped(counts.point_clouds, 1);
                counts.total_points = add_capped(counts.total_points, pc.positions.len() / 3);
            },
            SceneElement::Polyline(line) => {
                counts.polylines = add_capped(counts.polylines, 1);
                counts.total_line_segments = add_capped(
                    counts.total_line_segments,
                    segments(line.positions.len()),
                );
            },
            SceneElement::Axes(axes) => {
                let (polylines, _labels) = axes.expand();
                let ghost lines = line_views(polylines@);
                counts.polylines = add_capped(counts.polylines, polylines.len());
                let ghost base = before.6;
                let mut k: usize = 0;
                while k < polylines.len()
                    invariant
                        k <= polylines@.len(),
                        lines == line_views(polylines@),
                        counts.total_line_segments == capped(
                            base + segments_of_lines(lines, k as nat),
                        ),
                        counts.meshes == capped(before.0),
                        counts.total_triangles == capped(before.1),
                        counts.total_vertices == capped(before.2),
                        counts.point_clouds == capped(before.3),
                        counts.total_points == capped(before.4),
                        counts.polylines == capped(before.5 + lines.len()),
                    decreases polylines@.len() - k,
                {
                    assert(lines[k as int] == polylines@[k as int]@);
                    counts.total_line_segments = add_capped(
                        counts.total_line_segments,
                        segments(polylines[k].positions.len()),
                    );
                    k = k + 1;
                }
            },
        }
        i = i + 1;
    }
    counts
}

/// The summary of a box: its corners, the point halfway between them and
/// the difference between them.
pub open spec fn is_summary_of(s: BoundsSummary, b: Bounds) -> bool {
    &&& s.min == b.min
    &&& s.max == b.max
    &&& s.center@ == seq![
        b.min[0].midpoint_spec(b.max[0]),
        b.min[1].midpoint_spec(b.max[1]),
        b.min[2].midpoint_spec(b.max[2]),
    ]
    &&& s.extent@ == seq![
        b.max[0].minus(b.min[0]),
        b.max[1].minus(b.min[1]),
        b.max[2].minus(b.min[2]),
    ]
}

/// Summarizes a box with its centre and extent.
pub fn summarize_bounds(bounds: &Bounds) -> (s: BoundsSummary)
    ensures
        is_summary_of(s, *bounds),
{
    let center = [
        bounds.min[0].midpoint(bounds.max[0]),
        bounds.min[1].midpoint(bounds.max[1]),
        bounds.min[2].midpoint(bounds.max[2]),
    ];
    let extent = [
        bounds.max[0].sub(bounds.min[0]),
        bounds.max[1].sub(bounds.min[1]),
        bounds.max[2].sub(bounds.min[2]),
    ];
    assert(center@ =~= seq![
        bounds.min[0].midpoint_spec(bounds.max[0]),
        bounds.min[1].midpoint_spec(bounds.max[1]),
        bounds.min[2].midpoint_spec(bounds.max[2]),
    ]);
    assert(extent@ =~= seq![
        bounds.max[0].minus(bounds.min[0]),
        bounds.max[1].minus(bounds.min[1]),
        bounds.max[2].minus(bounds.min[2]),
    ]);
    BoundsSummary { min: bounds.min, max: bounds.max, center, extent }
}

/// Name of a projection kind.
pub open spec fn projection_name(p: Projection) -> Seq<char> {
    match p {
        Projection::Perspective => "perspective"@,
        Projection::Orthographic => "orthographic"@,
    }
}

/// The summary of a camera: its projection by name and its parameters.
pub open spec fn is_camera_summary(s: CameraSummary, c: Camera) -> bool {
    &&& s.projection@ == projection_name(c.projection)
    &&& s.position == c.position
    &&& s.target == c.target
    &&& s.near == c.near
    &&& s.far == c.far
    &&& s.fov_or_height == c.fov_or_height
}

/// Summarizes a camera.
pub fn summarize_camera(camera: &Camera) -> (s: CameraSummary)
    ensures
        is_camera_summary(s, *camera),
{
    CameraSummary {
        projection: match camera.projection {
            Projection::Perspective => String::from_str("perspective"),
            Projection::Orthographic => String::from_str("orthographic"),
        },
        position: camera.position,
        target: camera.target,
        near: camera.near,
        far: camera.far,
        fov_or_height: camera.fov_or_height,
    }
}

/// What is hashed of a scene encoding: its bytes, closed by one byte that no
/// encoding holds.
pub open spec fn hashed_input(encoding: Seq<u8>) -> Seq<Seq<u8>> {
    seq![encoding, seq![0xffu8]]
}

/// The hash of a scene encoding as text: sixteen hexadecimal digits. It
/// depends on the bytes of the encoding alone.
pub open spec fn scene_hash_text(encoding: Seq<u8>) -> Seq<char> {
    hex16(DefaultHasher::spec_finish(hashed_input(encoding)))
}

/// Hashes the canonical encoding of a scene.
pub fn scene_hash(encoding: &str) -> (r: String)
    ensures
        r@ == scene_hash_text(encoding.spec_bytes()),
{
    let mut hasher = DefaultHasher::new();
    hasher.write(encoding.as_bytes());
    let end: [u8; 1] = [0xff];
    hasher.write(end.as_slice());
    assert(end@ =~= seq![0xffu8]);
    assert(hasher@ =~= hashed_input(encoding.spec_bytes()));
    hex16_string(hasher.finish())
}

/// The schema that bundles are written in.
pub open spec fn schema_version() -> Seq<char> {
    "frustum/scene/v1"@
}

/// The metadata of a render request.
pub open spec fn is_metadata_of(
    m: RenderMetadata,
    scene: Scene,
    width: u32,
    height: u32,
    backend: Seq<char>,
    adapter: Seq<char>,
    renderer_version: Seq<char>,
    encoding: Seq<u8>,
) -> bool {
    &&& m.scene_hash@ == scene_hash_text(encoding)
    &&& m.schema_version@ == schema_version()
    &&& m.renderer_version@ == renderer_version
    &&& m.backend@ == backend
    &&& m.adapter@ == adapter
    &&& m.resolution@ == seq![width, height]
    &&& is_camera_summary(m.camera, scene.camera)
    &&& is_summary_of(m.world_bounds, scene.bounds)
    &&& m.primitive_counts == counts_of(scene.elements@, scene.elements@.len())
}

/// Assembles the metadata of a render request. `encoding` is the canonical
/// encoding of the scene, which the scene hash is taken of.
pub fn build_metadata(
    scene: &Scene,
    width: u32,
    height: u32,
    backend: String,
    adapter: String,
    renderer_version: String,
    encoding: &str,
) -> (m: RenderMetadata)
    ensures
        is_metadata_of(
            m,
            *scene,
            width,
            height,
            backend@,
            adapter@,
            renderer_version@,
            encoding.spec_bytes(),
        ),
{
    let resolution = [width, height];
    assert(resolution@ =~= seq![width, height]);
    RenderMetadata {
        scene_hash: scene_hash(encoding),
        schema_version: String::from_str("frustum/scene/v1"),
        renderer_version,
        backend,
        adapter,
        resolution,
        camera: summarize_camera(&scene.camera),
        world_bounds: summarize_bounds(&scene.bounds),
        primitive_counts: count_primitives(scene),
    }
}

} // verus!
