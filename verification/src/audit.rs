//! The audit bundle: structured evidence recorded alongside a render.
//!
//! A bundle holds metadata about the request, numeric probes of the projected
//! geometry, metrics derived from the pixels, and the findings of the
//! invariant checks.

use crate::scalar::Scalar;
use vstd::prelude::*;
use vstd::string::StringExecFns;

verus! {

/// Complete audit bundle emitted alongside a render.
#[derive(Debug, Clone)]
pub struct AuditBundle {
    pub metadata: RenderMetadata,
    pub geometry: GeometryProbes,
    pub image_metrics: ImageMetrics,
    pub invariants: InvariantResults,
}

/// Structural metadata about the render.
#[derive(Debug, Clone)]
pub struct RenderMetadata {
    /// Hash of the canonical scene encoding.
    pub scene_hash: String,
    pub schema_version: String,
    pub renderer_version: String,
    /// Rendering backend; informational only.
    pub backend: String,
    /// Rendering device; informational only.
    pub adapter: String,
    /// Output resolution, width then height.
    pub resolution: [u32; 2],
    pub camera: CameraSummary,
    pub world_bounds: BoundsSummary,
    pub primitive_counts: PrimitiveCounts,
}

/// Camera parameters summary.
#[derive(Debug, Clone)]
pub struct CameraSummary {
    pub projection: String,
    pub position: [Scalar; 3],
    pub target: [Scalar; 3],
    pub near: Scalar,
    pub far: Scalar,
    pub fov_or_height: Scalar,
}

/// An axis-aligned box with its derived centre and extent.
#[derive(Debug, Clone, Copy)]
pub struct BoundsSummary {
    pub min: [Scalar; 3],
    pub max: [Scalar; 3],
    pub center: [Scalar; 3],
    pub extent: [Scalar; 3],
}

/// Primitive counts by type.
#[derive(Debug, Clone, Copy, PartialEq, Eq, Structural)]
pub struct PrimitiveCounts {
    pub meshes: u32,
    pub total_triangles: u32,
    pub total_vertices: u32,
    pub point_clouds: u32,
    pub total_points: u32,
    pub polylines: u32,
    pub total_line_segments: u32,
}

impl Default for PrimitiveCounts {
    fn default() -> (r: Self)
        ensures
            r == (PrimitiveCounts {
                meshes: 0,
                total_triangles: 0,
                total_vertices: 0,
                point_clouds: 0,
                total_points: 0,
                polylines: 0,
                total_line_segments: 0,
            }),
    {
        PrimitiveCounts {
            meshes: 0,
            total_triangles: 0,
            total_vertices: 0,
            point_clouds: 0,
            total_points: 0,
            polylines: 0,
            total_line_segments: 0,
        }
    }
}

/// Numeric geometry probes computed during rendering.
#[derive(Debug, Clone)]
pub struct GeometryProbes {
    /// Bounding box of rendered geometry in normalized device coordinates.
    pub ndc_bounds: Option<BoundsSummary>,
    pub depth_stats: DepthStats,
    /// Number of degenerate primitives (zero-area triangles and the like).
    pub degenerate_count: u32,
    /// Number of primitives clipped by the near or far plane.
    pub clipped_count: u32,
    /// Number of back-facing triangles.
    pub backface_count: u32,
    /// Whether any geometry intersects the view frustum.
    pub geometry_visible: bool,
    /// Whether any non-finite value was met while projecting.
    pub has_invalid_values: bool,
}

/// Depth buffer statistics.
#[derive(Debug, Clone, Copy)]
pub struct DepthStats {
    pub min: Scalar,
    pub max: Scalar,
    pub mean: Scalar,
    /// Percentage of pixels at the far plane (nothing rendered there).
    pub far_plane_percentage: Scalar,
}

/// Summary metrics computed from the rendered pixels.
#[derive(Debug, Clone)]
pub struct ImageMetrics {
    pub histogram: ColorHistogram,
    /// Share of interior pixels on an edge, between zero and one.
    pub edge_density: Scalar,
    /// Percentage of fully transparent pixels.
    pub transparent_percentage: Scalar,
    /// Percentage of pixels matching the background colour.
    pub background_percentage: Scalar,
    /// Number of distinct foreground regions on the coarse grid.
    pub connected_components: u32,
    /// Most frequent colours, most frequent first.
    pub dominant_colors: Vec<[u8; 3]>,
}

/// Colour histogram with 16 bins per channel.
#[derive(Debug, Clone, Copy)]
pub struct ColorHistogram {
    pub red: [u32; 16],
    pub green: [u32; 16],
    pub blue: [u32; 16],
    pub alpha: [u32; 16],
}

/// Overall status of invariant checking.
#[derive(Debug, Clone, Copy, PartialEq, Eq, Structural)]
pub enum OverallStatus {
    Pass,
    PassWithWarnings,
    Fail,
}

/// Categories of invariants: which part of the system a finding is about.
#[derive(Debug, Clone, Copy, PartialEq, Eq, Structural)]
pub enum InvariantCategory {
    Scene,
    Camera,
    Geometry,
    Material,
    Render,
    Stability,
}

/// A single invariant violation.
#[derive(Debug, Clone)]
pub struct InvariantViolation {
    pub category: InvariantCategory,
    pub message: String,
    pub details: Option<String>,
}

/// What a violation says, with its texts as character sequences.
pub struct ViolationView {
    pub category: InvariantCategory,
    pub message: Seq<char>,
    pub details: Option<Seq<char>>,
}

impl View for InvariantViolation {
    type V = ViolationView;

    open spec fn view(&self) -> ViolationView {
        ViolationView {
            category: self.category,
            message: self.message@,
            details: match self.details {
                Some(d) => Some(d@),
                None => None,
            },
        }
    }
}

/// Results of invariant checks.
#[derive(Debug, Clone)]
pub struct InvariantResults {
    pub errors: Vec<InvariantViolation>,
    pub warnings: Vec<InvariantViolation>,
    pub notes: Vec<String>,
    pub overall: OverallStatus,
}

/// The findings of a check as plain sequences.
pub struct FindingsView {
    pub errors: Seq<ViolationView>,
    pub warnings: Seq<ViolationView>,
    pub notes: Seq<Seq<char>>,
}

impl FindingsView {
    /// The findings with one more error, without details.
    pub open spec fn with_error(self, category: InvariantCategory, message: Seq<char>) -> Self {
        FindingsView {
            errors: self.errors.push(ViolationView { category, message, details: None }),
            warnings: self.warnings,
            notes: self.notes,
        }
    }

    /// The findings with one more warning.
    pub open spec fn with_warning(self, category: InvariantCategory, message: Seq<char>) -> Self {
        FindingsView {
            errors: self.errors,
            warnings: self.warnings.push(ViolationView { category, message, details: None }),
            notes: self.notes,
        }
    }

    /// The findings with one more note.
    pub open spec fn with_note(self, message: Seq<char>) -> Self {
        FindingsView {
            errors: self.errors,
            warnings: self.warnings,
            notes: self.notes.push(message),
        }
    }

    /// The status that the findings amount to.
    pub open spec fn status(self) -> OverallStatus {
        status_of(self.errors.len(), self.warnings.len())
    }
}

/// The status that a list of findings amounts to: failure as soon as there is
/// an error, otherwise a qualified pass as soon as there is a warning.
pub open spec fn status_of(errors: nat, warnings: nat) -> OverallStatus {
    if errors > 0 {
        OverallStatus::Fail
    } else if warnings > 0 {
        OverallStatus::PassWithWarnings
    } else {
        OverallStatus::Pass
    }
}

impl OverallStatus {
    /// Severity of a status: a pass is lowest, a failure highest.
    pub open spec fn severity(self) -> nat {
        match self {
            OverallStatus::Pass => 0,
            OverallStatus::PassWithWarnings => 1,
            OverallStatus::Fail => 2,
        }
    }
}

impl InvariantCategory {
    /// Name of the category as text.
    pub open spec fn name_spec(self) -> Seq<char> {
        match self {
            InvariantCategory::Scene => "Scene"@,
            InvariantCategory::Camera => "Camera"@,
            InvariantCategory::Geometry => "Geometry"@,
            InvariantCategory::Material => "Material"@,
            InvariantCategory::Render => "Render"@,
            InvariantCategory::Stability => "Stability"@,
        }
    }

    /// Name of the category as text.
    pub fn name(&self) -> (r: String)
        ensures
            r@ == self.name_spec(),
    {
        match self {
            InvariantCategory::Scene => String::from_str("Scene"),
            InvariantCategory::Camera => String::from_str("Camera"),
            InvariantCategory::Geometry => String::from_str("Geometry"),
            InvariantCategory::Material => String::from_str("Material"),
            InvariantCategory::Render => String::from_str("Render"),
            InvariantCategory::Stability => String::from_str("Stability"),
        }
    }
}

impl View for InvariantResults {
    type V = FindingsView;

    open spec fn view(&self) -> FindingsView {
        FindingsView {
            errors: self.errors@.map_values(|v: InvariantViolation| v@),
            warnings: self.warnings@.map_values(|v: InvariantViolation| v@),
            notes: self.notes@.map_values(|s: String| s@),
        }
    }
}

impl InvariantResults {
    /// The status agrees with the findings held.
    pub open spec fn wf(&self) -> bool {
        self.overall == status_of(self.errors@.len(), self.warnings@.len())
    }

    /// Create empty results (pass state).
    pub fn new() -> (r: Self)
        ensures
            r@.errors == Seq::<ViolationView>::empty(),
            r@.warnings == Seq::<ViolationView>::empty(),
            r@.notes == Seq::<Seq<char>>::empty(),
            r.overall == OverallStatus::Pass,
            r.wf(),
    {
        let r = InvariantResults {
            errors: Vec::new(),
            warnings: Vec::new(),
            notes: Vec::new(),
            overall: OverallStatus::Pass,
        };
        assert(r@.errors =~= Seq::<ViolationView>::empty());
        assert(r@.warnings =~= Seq::<ViolationView>::empty());
        assert(r@.notes =~= Seq::<Seq<char>>::empty());
        r
    }

    /// Add an error. The status becomes a failure.
    pub fn error(&mut self, category: InvariantCategory, message: String)
        ensures
            final(self)@.errors == old(self)@.errors.push(
                ViolationView { category, message: message@, details: None },
            ),
            final(self)@.warnings == old(self)@.warnings,
            final(self)@.notes == old(self)@.notes,
            final(self)@ == old(self)@.with_error(category, message@),
            final(self).overall == OverallStatus::Fail,
            final(self).wf(),
    {
        self.errors.push(InvariantViolation { category, message, details: None });
        self.overall = OverallStatus::Fail;
        assert(final(self)@.errors =~= old(self)@.errors.push(
            ViolationView { category, message: message@, details: None },
        ));
    }

    /// Add an error with details. The status becomes a failure.
    pub fn error_with_details(
        &mut self,
        category: InvariantCategory,
        message: String,
        details: String,
    )
        ensures
            final(self)@.errors == old(self)@.errors.push(
                ViolationView { category, message: message@, details: Some(details@) },
            ),
            final(self)@.warnings == old(self)@.warnings,
            final(self)@.notes == old(self)@.notes,
            final(self).overall == OverallStatus::Fail,
            final(self).wf(),
    {
        self.errors.push(InvariantViolation { category, message, details: Some(details) });
        self.overall = OverallStatus::Fail;
        assert(final(self)@.errors =~= old(self)@.errors.push(
            ViolationView { category, message: message@, details: Some(details@) },
        ));
    }

    /// Add a warning. A pass becomes a qualified pass; a failure stays one.
    pub fn warning(&mut self, category: InvariantCategory, message: String)
        ensures
            final(self)@.warnings == old(self)@.warnings.push(
                ViolationView { category, message: message@, details: None },
            ),
            final(self)@.errors == old(self)@.errors,
            final(self)@.notes == old(self)@.notes,
            final(self)@ == old(self)@.with_warning(category, message@),
            final(self).overall == (if old(self).overall == OverallStatus::Pass {
                OverallStatus::PassWithWarnings
            } else {
                old(self).overall
            }),
            old(self).wf() ==> final(self).wf(),
    {
        self.warnings.push(InvariantViolation { category, message, details: None });
        if self.overall == OverallStatus::Pass {
            self.overall = OverallStatus::PassWithWarnings;
        }
        assert(final(self)@.warnings =~= old(self)@.warnings.push(
            ViolationView { category, message: message@, details: None },
        ));
    }

    /// Add a note. Notes never change the status.
    pub fn note(&mut self, message: String)
        ensures
            final(self)@.notes == old(self)@.notes.push(message@),
            final(self)@.errors == old(self)@.errors,
            final(self)@.warnings == old(self)@.warnings,
            final(self)@ == old(self)@.with_note(message@),
            final(self).overall == old(self).overall,
            old(self).wf() ==> final(self).wf(),
    {
        self.notes.push(message);
        assert(final(self)@.notes =~= old(self)@.notes.push(message@));
    }
}

impl Default for InvariantResults {
    fn default() -> (r: Self)
        ensures
            r@.errors == Seq::<ViolationView>::empty(),
            r@.warnings == Seq::<ViolationView>::empty(),
            r@.notes == Seq::<Seq<char>>::empty(),
            r.overall == OverallStatus::Pass,
            r.wf(),
    {
        Self::new()
    }
}

/// The status of a list of findings is a failure exactly when there is an
/// error, a qualified pass exactly when there is a warning and no error, and a
/// pass otherwise. A further error or warning never lowers its severity, and a
/// warning never turns anything into a failure.
pub proof fn lemma_status_monotone(errors: nat, warnings: nat)
    ensures
        status_of(errors, warnings) == OverallStatus::Fail <==> errors > 0,
        status_of(errors, warnings) == OverallStatus::PassWithWarnings <==> errors == 0
            && warnings > 0,
        status_of(errors, warnings) == OverallStatus::Pass <==> errors == 0 && warnings == 0,
        status_of(errors + 1, warnings) == OverallStatus::Fail,
        status_of(errors, warnings).severity() <= status_of(errors, warnings + 1).severity(),
        status_of(errors, warnings + 1) == OverallStatus::Fail <==> status_of(errors, warnings)
            == OverallStatus::Fail,
{
}

} // verus!
