//! Assembly of the audit bundle of one render.
//!
//! The steps are strictly ordered: metadata, image metrics, invariant
//! checks, assembly. Nothing here touches the rendering device; the pixels
//! and the geometry probes come from the renderer.

use crate::audit::{AuditBundle, DepthStats, GeometryProbes};
use crate::invariants::{all_findings, check_all_invariants};
use crate::metadata::{build_metadata, is_metadata_of};
use crate::metrics::{compute_image_metrics, holds_image, metrics_of};
use crate::scalar::Scalar;
use crate::scene::Scene;
use vstd::prelude::*;
use vstd::string::StringSliceAdditionalSpecFns;

verus! {

/// Render configuration.
#[derive(Debug, Clone, Copy)]
pub struct RenderConfig {
    /// Output width in pixels.
    pub width: u32,
    /// Output height in pixels.
    pub height: u32,
    /// Background colour as red, green, blue and alpha, each a share of one.
    pub background: [Scalar; 4],
}

impl Default for RenderConfig {
    /// Eight hundred by six hundred pixels on opaque white.
    fn default() -> (c: Self)
        ensures
            c.width == 800,
            c.height == 600,
            c.background@ == seq![
                Scalar::Finite(1_000_000),
                Scalar::Finite(1_000_000),
                Scalar::Finite(1_000_000),
                Scalar::Finite(1_000_000),
            ],
    {
        let background = [
            Scalar::Finite(1_000_000),
            Scalar::Finite(1_000_000),
            Scalar::Finite(1_000_000),
            Scalar::Finite(1_000_000),
        ];
        assert(background@ =~= seq![
            Scalar::Finite(1_000_000),
            Scalar::Finite(1_000_000),
            Scalar::Finite(1_000_000),
            Scalar::Finite(1_000_000),
        ]);
        RenderConfig { width: 800, height: 600, background }
    }
}

impl GeometryProbes {
    /// The probes of a render whose projection was not measured: the whole
    /// depth range with its middle as mean, nothing at the far plane, no
    /// degenerate, clipped or back-facing primitive, no invalid value.
    pub open spec fn is_unmeasured(self, geometry_visible: bool) -> bool {
        &&& self.ndc_bounds is None
        &&& self.depth_stats.min == Scalar::Finite(0)
        &&& self.depth_stats.max == Scalar::Finite(1_000_000)
        &&& self.depth_stats.mean == Scalar::Finite(500_000)
        &&& self.depth_stats.far_plane_percentage == Scalar::Finite(0)
        &&& self.degenerate_count == 0
        &&& self.clipped_count == 0
        &&& self.backface_count == 0
        &&& self.geometry_visible == geometry_visible
        &&& !self.has_invalid_values
    }

    /// The probes of a render whose projection was not measured.
    pub fn unmeasured(geometry_visible: bool) -> (p: Self)
        ensures
            p.is_unmeasured(geometry_visible),
    {
        GeometryProbes {
            ndc_bounds: None,
            depth_stats: DepthStats {
                min: Scalar::Finite(0),
                max: Scalar::Finite(1_000_000),
                mean: Scalar::Finite(500_000),
                far_plane_percentage: Scalar::Finite(0),
            },
            degenerate_count: 0,
            clipped_count: 0,
            backface_count: 0,
            geometry_visible,
            has_invalid_values: false,
        }
    }
}

/// The audit bundle of a render: the metadata of the request, the probes as
/// given, the metrics of the pixels, and the findings of all checks on these.
pub open spec fn is_audit_of(
    bundle: AuditBundle,
    scene: Scene,
    config: RenderConfig,
    pixels: Seq<u8>,
    geometry: GeometryProbes,
    backend: Seq<char>,
    adapter: Seq<char>,
    renderer_version: Seq<char>,
    encoding: Seq<u8>,
) -> bool {
    &&& is_metadata_of(
        bundle.metadata,
        scene,
        config.width,
        config.height,
        backend,
        adapter,
        renderer_version,
        encoding,
    )
    &&& bundle.geometry == geometry
    &&& metrics_of(
        bundle.image_metrics,
        pixels,
        config.width as nat,
        config.height as nat,
        config.background,
    )
    &&& bundle.invariants@ == all_findings(
        scene,
        bundle.metadata,
        bundle.geometry,
        bundle.image_metrics,
    )
    &&& bundle.invariants.overall == bundle.invariants@.status()
}

/// Assembles the audit bundle of a finished render.
///
/// `pixels` holds exactly `width * height` RGBA pixels, row by row.
/// `encoding` is the canonical encoding of the scene.
pub fn audit_render(
    scene: &Scene,
    config: &RenderConfig,
    pixels: &[u8],
    geometry: GeometryProbes,
    backend: String,
    adapter: String,
    renderer_version: String,
    encoding: &str,
) -> (bundle: AuditBundle)
    requires
        holds_image(pixels@.len(), config.width, config.height),
    ensures
        is_audit_of(
            bundle,
            *scene,
            *config,
            pixels@,
            geometry,
            backend@,
            adapter@,
            renderer_version@,
            encoding.spec_bytes(),
        ),
{
    let metadata = build_metadata(
        scene,
        config.width,
        config.height,
        backend,
        adapter,
        renderer_version,
        encoding,
    );
    let image_metrics = compute_image_metrics(
        pixels,
        config.width,
        config.height,
        config.background,
    );
    let invariants = check_all_invariants(scene, &metadata, &geometry, &image_metrics);
    AuditBundle { metadata, geometry, image_metrics, invariants }
}

} // verus!
