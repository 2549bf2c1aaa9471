//! Regression comparison of two audit bundles.
//!
//! A comparison lists what changed between a baseline and a current bundle.
//! Hard rules make the comparison fail; soft rules only leave a note.

use crate::audit::{AuditBundle, ColorHistogram};
use crate::scalar::{lemma_no_self_difference, Scalar};
use crate::text::{decimal, push_decimal, push_scalar, scalar_text};
use vstd::prelude::*;
use vstd::string::StringExecFns;

verus! {

/// Tolerance settings for regression comparison.
#[derive(Debug, Clone, Copy)]
pub struct RegressionTolerance {
    /// Largest accepted change of the mean depth.
    pub depth_tolerance: Scalar,
    /// Largest accepted histogram drift, as a share of the baseline counts.
    pub histogram_tolerance: Scalar,
    /// Change of the edge density above which a note is left.
    pub edge_density_tolerance: Scalar,
    /// Largest accepted change of the background percentage, in points.
    pub background_tolerance: Scalar,
}

/// The default tolerances: a hundredth for the mean depth, a twentieth for
/// the histogram drift, a tenth for the edge density and five points for the
/// background percentage.
pub open spec fn default_tolerance() -> RegressionTolerance {
    RegressionTolerance {
        depth_tolerance: Scalar::Finite(10_000),
        histogram_tolerance: Scalar::Finite(50_000),
        edge_density_tolerance: Scalar::Finite(100_000),
        background_tolerance: Scalar::Finite(5_000_000),
    }
}

impl Default for RegressionTolerance {
    fn default() -> (r: Self)
        ensures
            r == default_tolerance(),
    {
        RegressionTolerance {
            depth_tolerance: Scalar::Finite(10_000),
            histogram_tolerance: Scalar::Finite(50_000),
            edge_density_tolerance: Scalar::Finite(100_000),
            background_tolerance: Scalar::Finite(5_000_000),
        }
    }
}

/// Result of regression comparison.
#[derive(Debug, Clone)]
pub struct RegressionResult {
    /// Whether no hard rule was broken.
    pub matches: bool,
    /// What changed beyond a hard tolerance.
    pub differences: Vec<String>,
    /// What changed without breaking a hard rule.
    pub notes: Vec<String>,
}

/// A comparison result with its texts as character sequences.
pub struct ComparisonView {
    pub matches: bool,
    pub differences: Seq<Seq<char>>,
    pub notes: Seq<Seq<char>>,
}

impl View for RegressionResult {
    type V = ComparisonView;

    open spec fn view(&self) -> ComparisonView {
        ComparisonView {
            matches: self.matches,
            differences: self.differences@.map_values(|s: String| s@),
            notes: self.notes@.map_values(|s: String| s@),
        }
    }
}

/// Distance between two counts.
pub open spec fn count_distance(a: u32, b: u32) -> nat {
    if a >= b {
        (a - b) as nat
    } else {
        (b - a) as nat
    }
}

/// Over the first `n` bins, the summed distances between the red, green and
/// blue counts of two histograms.
pub open spec fn drift_sum(a: ColorHistogram, b: ColorHistogram, n: nat) -> nat
    decreases n,
{
    if n == 0 {
        0
    } else {
        drift_sum(a, b, (n - 1) as nat) + count_distance(a.red[n - 1], b.red[n - 1])
            + count_distance(a.green[n - 1], b.green[n - 1]) + count_distance(
            a.blue[n - 1],
            b.blue[n - 1],
        )
    }
}

/// Over the first `n` bins, the summed red, green and blue counts.
pub open spec fn count_sum(a: ColorHistogram, n: nat) -> nat
    decreases n,
{
    if n == 0 {
        0
    } else {
        count_sum(a, (n - 1) as nat) + a.red[n - 1] as nat + a.green[n - 1] as nat + a.blue[n
            - 1] as nat
    }
}

/// Whether the ratio `part / whole` is greater than the tolerance, taking the
/// ratio of nothing as zero. The comparison is exact.
pub open spec fn ratio_exceeds(part: nat, whole: nat, tolerance: Scalar) -> bool {
    match tolerance {
        Scalar::Nan => false,
        Scalar::PosInf => false,
        Scalar::NegInf => true,
        Scalar::Finite(t) => if whole == 0 {
            t < 0
        } else {
            part * 1_000_000 > t * whole
        },
    }
}

/// The ratio `part / whole` as a scalar, rounded down; zero of nothing.
pub open spec fn ratio_scalar(part: nat, whole: nat) -> Scalar {
    if whole == 0 {
        Scalar::Finite(0)
    } else {
        Scalar::Finite((part * 1_000_000 / whole) as i64)
    }
}

/// The triangle counts of the two bundles differ.
pub open spec fn triangles_differ(baseline: AuditBundle, current: AuditBundle) -> bool {
    baseline.metadata.primitive_counts.total_triangles
        != current.metadata.primitive_counts.total_triangles
}

/// The mean depth changed by more than the tolerance.
pub open spec fn depth_differs(
    baseline: AuditBundle,
    current: AuditBundle,
    tolerance: RegressionTolerance,
) -> bool {
    baseline.geometry.depth_stats.mean.differs_beyond(
        current.geometry.depth_stats.mean,
        tolerance.depth_tolerance,
    )
}

/// The histogram drift, the summed bin distances as a share of the baseline
/// counts, is greater than the tolerance.
pub open spec fn histogram_drifts(
    baseline: AuditBundle,
    current: AuditBundle,
    tolerance: RegressionTolerance,
) -> bool {
    ratio_exceeds(
        drift_sum(baseline.image_metrics.histogram, current.image_metrics.histogram, 16),
        count_sum(baseline.image_metrics.histogram, 16),
        tolerance.histogram_tolerance,
    )
}

/// The edge density changed by more than the tolerance.
pub open spec fn edges_differ(
    baseline: AuditBundle,
    current: AuditBundle,
    tolerance: RegressionTolerance,
) -> bool {
    baseline.image_metrics.edge_density.differs_beyond(
        current.image_metrics.edge_density,
        tolerance.edge_density_tolerance,
    )
}

/// The background percentage changed by more than the tolerance.
pub open spec fn background_differs(
    baseline: AuditBundle,
    current: AuditBundle,
    tolerance: RegressionTolerance,
) -> bool {
    baseline.image_metrics.background_percentage.differs_beyond(
        current.image_metrics.background_percentage,
        tolerance.background_tolerance,
    )
}

/// The two bundles name different backends.
pub open spec fn backends_differ(baseline: AuditBundle, current: AuditBundle) -> bool {
    baseline.metadata.backend@ != current.metadata.backend@
}

/// Text of the difference for a changed triangle count.
pub open spec fn triangle_message(baseline: AuditBundle, current: AuditBundle) -> Seq<char> {
    "Triangle count changed: "@ + decimal(
        baseline.metadata.primitive_counts.total_triangles as nat,
    ) + " -> "@ + decimal(current.metadata.primitive_counts.total_triangles as nat)
}

/// Text of the difference for a changed mean depth.
pub open spec fn depth_message(
    baseline: AuditBundle,
    current: AuditBundle,
    tolerance: RegressionTolerance,
) -> Seq<char> {
    let a = baseline.geometry.depth_stats.mean;
    let b = current.geometry.depth_stats.mean;
    "Mean depth changed beyond tolerance: "@ + scalar_text(a) + " -> "@ + scalar_text(b)
        + " (diff: "@ + scalar_text(a.minus(b).magnitude()) + ", tolerance: "@ + scalar_text(
        tolerance.depth_tolerance,
    ) + ")"@
}

/// Text of the difference for a drifted histogram.
pub open spec fn histogram_message(
    baseline: AuditBundle,
    current: AuditBundle,
    tolerance: RegressionTolerance,
) -> Seq<char> {
    "Color histogram drift: "@ + scalar_text(
        ratio_scalar(
            drift_sum(baseline.image_metrics.histogram, current.image_metrics.histogram, 16),
            count_sum(baseline.image_metrics.histogram, 16),
        ),
    ) + " (tolerance: "@ + scalar_text(tolerance.histogram_tolerance) + ")"@
}

/// Text of the note for a changed edge density.
pub open spec fn edge_message(baseline: AuditBundle, current: AuditBundle) -> Seq<char> {
    "Edge density changed: "@ + scalar_text(baseline.image_metrics.edge_density) + " -> "@
        + scalar_text(current.image_metrics.edge_density)
}

/// Text of the difference for a changed background percentage.
pub open spec fn background_message(baseline: AuditBundle, current: AuditBundle) -> Seq<char> {
    "Background percentage changed: "@ + scalar_text(baseline.image_metrics.background_percentage)
        + "% -> "@ + scalar_text(current.image_metrics.background_percentage) + "%"@
}

/// Text of the note for different backends.
pub open spec fn backend_message(baseline: AuditBundle, current: AuditBundle) -> Seq<char> {
    "Different GPU backend: "@ + baseline.metadata.backend@ + " vs "@ + current.metadata.backend@
}

/// `items` with `item` added if `condition` holds.
pub open spec fn push_if(items: Seq<Seq<char>>, condition: bool, item: Seq<char>) -> Seq<
    Seq<char>,
> {
    if condition {
        items.push(item)
    } else {
        items
    }
}

/// What comparing two bundles yields. The hard rules are the triangle count,
/// the mean depth, the histogram drift and the background percentage; each
/// broken one is listed as a difference, in this order. The edge density and
/// the backend only leave a note.
pub open spec fn comparison(
    baseline: AuditBundle,
    current: AuditBundle,
    tolerance: RegressionTolerance,
) -> ComparisonView {
    ComparisonView {
        matches: !triangles_differ(baseline, current) && !depth_differs(
            baseline,
            current,
            tolerance,
        ) && !histogram_drifts(baseline, current, tolerance) && !background_differs(
            baseline,
            current,
            tolerance,
        ),
        differences: push_if(
            push_if(
                push_if(
                    push_if(
                        Seq::empty(),
                        triangles_differ(baseline, current),
                        triangle_message(baseline, current),
                    ),
                    depth_differs(baseline, current, tolerance),
                    depth_message(baseline, current, tolerance),
                ),
                histogram_drifts(baseline, current, tolerance),
                histogram_message(baseline, current, tolerance),
            ),
            background_differs(baseline, current, tolerance),
            background_message(baseline, current),
        ),
        notes: push_if(
            push_if(
                Seq::empty(),
                edges_differ(baseline, current, tolerance),
                edge_message(baseline, current),
            ),
            backends_differ(baseline, current),
            backend_message(baseline, current),
        ),
    }
}

fn distance(a: u32, b: u32) -> (d: u64)
    ensures
        d == count_distance(a, b),
{
    if a >= b {
        (a - b) as u64
    } else {
        (b - a) as u64
    }
}

/// Sums, over all bins, the distances between the red, green and blue counts
/// of two histograms, and the counts of the first.
pub fn histogram_difference(a: &ColorHistogram, b: &ColorHistogram) -> (r: (u64, u64))
    ensures
        r.0 == drift_sum(*a, *b, 16),
        r.1 == count_sum(*a, 16),
        r.0 <= 48 * 0xffff_ffff,
        r.1 <= 48 * 0xffff_ffff,
{
    let mut total_diff: u64 = 0;
    let mut total_count: u64 = 0;
    let mut i: usize = 0;
    while i < 16
        invariant
            i <= 16,
            total_diff == drift_sum(*a, *b, i as nat),
            total_count == count_sum(*a, i as nat),
            total_diff <= 3 * i * 0xffff_ffff,
            total_count <= 3 * i * 0xffff_ffff,
        decreases 16 - i,
    {
        total_diff = total_diff + distance(a.red[i], b.red[i]) + distance(a.green[i], b.green[i])
            + distance(a.blue[i], b.blue[i]);
        total_count = total_count + a.red[i] as u64 + a.green[i] as u64 + a.blue[i] as u64;
        i = i + 1;
    }
    (total_diff, total_count)
}

/// Decides exactly whether `part / whole` is greater than the tolerance.
pub fn exceeds_ratio(part: u64, whole: u64, tolerance: Scalar) -> (r: bool)
    requires
        part <= 48 * 0xffff_ffff,
        whole <= 48 * 0xffff_ffff,
    ensures
        r == ratio_exceeds(part as nat, whole as nat, tolerance),
{
    match tolerance {
        Scalar::Nan => false,
        Scalar::PosInf => false,
        Scalar::NegInf => true,
        Scalar::Finite(t) => {
            if whole == 0 {
                t < 0
            } else {
                assert(-0x8000_0000_0000_0000 * (48 * 0xffff_ffff) <= t * whole
                    <= 0x8000_0000_0000_0000 * (48 * 0xffff_ffff)) by (nonlinear_arith)
                    requires
                        -0x8000_0000_0000_0000 <= t <= 0x8000_0000_0000_0000,
                        0 <= whole <= 48 * 0xffff_ffff,
                ;
                (part as i128) * 1_000_000 > (t as i128) * (whole as i128)
            }
        },
    }
}

fn ratio_value(part: u64, whole: u64) -> (r: Scalar)
    requires
        part <= 48 * 0xffff_ffff,
    ensures
        r == ratio_scalar(part as nat, whole as nat),
{
    if whole == 0 {
        Scalar::Finite(0)
    } else {
        let q: u64 = part * 1_000_000 / whole;
        assert(q <= part * 1_000_000) by (nonlinear_arith)
            requires
                q == (part * 1_000_000) as int / whole as int,
                whole > 0,
                part >= 0,
        ;
        Scalar::Finite(q as i64)
    }
}

/// Compare two audit bundles for regression testing.
pub fn compare_for_regression(
    baseline: &AuditBundle,
    current: &AuditBundle,
    tolerance: RegressionTolerance,
) -> (result: RegressionResult)
    ensures
        result@ == comparison(*baseline, *current, tolerance),
{
    let mut matches = true;
    let mut differences: Vec<String> = Vec::new();
    let mut notes: Vec<String> = Vec::new();
    let ghost mut listed: Seq<Seq<char>> = Seq::empty();
    let ghost mut noted: Seq<Seq<char>> = Seq::empty();
    assert(differences@.map_values(|s: String| s@) =~= listed);
    assert(notes@.map_values(|s: String| s@) =~= noted);

    let base_triangles = baseline.metadata.primitive_counts.total_triangles;
    let new_triangles = current.metadata.primitive_counts.total_triangles;
    if base_triangles != new_triangles {
        matches = false;
        let mut m = String::from_str("Triangle count changed: ");
        push_decimal(&mut m, base_triangles as u64);
        m.append(" -> ");
        push_decimal(&mut m, new_triangles as u64);
        proof {
            listed = listed.push(m@);
        }
        differences.push(m);
        assert(differences@.map_values(|s: String| s@) =~= listed);
    }
    let base_depth = baseline.geometry.depth_stats.mean;
    let new_depth = current.geometry.depth_stats.mean;
    if base_depth.exceeds(new_depth, tolerance.depth_tolerance) {
        matches = false;
        let mut m = String::from_str("Mean depth changed beyond tolerance: ");
        push_scalar(&mut m, base_depth);
        m.append(" -> ");
        push_scalar(&mut m, new_depth);
        m.append(" (diff: ");
        push_scalar(&mut m, base_depth.sub(new_depth).abs());
        m.append(", tolerance: ");
        push_scalar(&mut m, tolerance.depth_tolerance);
        m.append(")");
        proof {
            listed = listed.push(m@);
        }
        differences.push(m);
        assert(differences@.map_values(|s: String| s@) =~= listed);
    }
    let (total_diff, total_count) = histogram_difference(
        &baseline.image_metrics.histogram,
        &current.image_metrics.histogram,
    );
    if exceeds_ratio(total_diff, total_count, tolerance.histogram_tolerance) {
        matches = false;
        let mut m = String::from_str("Color histogram drift: ");
        push_scalar(&mut m, ratio_value(total_diff, total_count));
        m.append(" (tolerance: ");
        push_scalar(&mut m, tolerance.histogram_tolerance);
        m.append(")");
        proof {
            listed = listed.push(m@);
        }
        differences.push(m);
        assert(differences@.map_values(|s: String| s@) =~= listed);
    }
    let base_edges = baseline.image_metrics.edge_density;
    let new_edges = current.image_metrics.edge_density;
    if base_edges.exceeds(new_edges, tolerance.edge_density_tolerance) {
        let mut m = String::from_str("Edge density changed: ");
        push_scalar(&mut m, base_edges);
        m.append(" -> ");
        push_scalar(&mut m, new_edges);
        proof {
            noted = noted.push(m@);
        }
        notes.push(m);
        assert(notes@.map_values(|s: String| s@) =~= noted);
    }
    let base_background = baseline.image_metrics.background_percentage;
    let new_background = current.image_metrics.background_percentage;
    if base_background.exceeds(new_background, tolerance.background_tolerance) {
        matches = false;
        let mut m = String::from_str("Background percentage changed: ");
        push_scalar(&mut m, base_background);
        m.append("% -> ");
        push_scalar(&mut m, new_background);
        m.append("%");
        proof {
            listed = listed.push(m@);
        }
        differences.push(m);
        assert(differences@.map_values(|s: String| s@) =~= listed);
    }
    if !(baseline.metadata.backend == current.metadata.backend) {
        let mut m = String::from_str("Different GPU backend: ");
        m.append(baseline.metadata.backend.as_str());
        m.append(" vs ");
        m.append(current.metadata.backend.as_str());
        proof {
            noted = noted.push(m@);
        }
        notes.push(m);
        assert(notes@.map_values(|s: String| s@) =~= noted);
    }
    RegressionResult { matches, differences, notes }
}

/// A histogram does not drift from itself.
pub proof fn lemma_no_self_drift(a: ColorHistogram, n: nat)
    ensures
        drift_sum(a, a, n) == 0,
    decreases n,
{
    if n > 0 {
        lemma_no_self_drift(a, (n - 1) as nat);
    }
}

/// Comparing a bundle to itself with the default tolerances finds a match,
/// no difference and nothing to note.
pub proof fn lemma_compare_reflexive(bundle: AuditBundle)
    ensures
        comparison(bundle, bundle, default_tolerance()).matches,
        comparison(bundle, bundle, default_tolerance()).differences.len() == 0,
        comparison(bundle, bundle, default_tolerance()).notes.len() == 0,
{
    let t = default_tolerance();
    lemma_no_self_drift(bundle.image_metrics.histogram, 16);
    lemma_no_self_difference(bundle.geometry.depth_stats.mean, t.depth_tolerance);
    lemma_no_self_difference(bundle.image_metrics.edge_density, t.edge_density_tolerance);
    lemma_no_self_difference(bundle.image_metrics.background_percentage, t.background_tolerance);
    assert(!histogram_drifts(bundle, bundle, t)) by {
        let whole = count_sum(bundle.image_metrics.histogram, 16);
        assert(0 * 1_000_000 <= 50_000 * whole) by (nonlinear_arith)
            requires
                whole >= 0,
        ;
    }
}

/// Two bundles with different triangle counts never match, whatever the
/// tolerances and whatever else they hold.
pub proof fn lemma_triangle_mismatch(
    baseline: AuditBundle,
    current: AuditBundle,
    tolerance: RegressionTolerance,
)
    requires
        baseline.metadata.primitive_counts.total_triangles
            != current.metadata.primitive_counts.total_triangles,
    ensures
        !comparison(baseline, current, tolerance).matches,
        comparison(baseline, current, tolerance).differences.len() > 0,
        comparison(baseline, current, tolerance).differences[0] == triangle_message(
            baseline,
            current,
        ),
{
}

} // verus!
