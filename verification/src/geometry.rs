//! Geometry primitives: point clouds, polylines, triangle meshes and axes.
//!
//! Positions are flattened: three coordinates per vertex, x then y then z.

use crate::scalar::Scalar;
use crate::ticks::{format_tick_value, tick_text};
use vstd::prelude::*;

verus! {

/// A point cloud with per-point positions and optional scalar values.
#[derive(Debug, Clone)]
pub struct PointCloud {
    /// Flattened vertex positions.
    pub positions: Vec<Scalar>,
    /// Optional per-point scalar values for colormap mapping.
    pub scalars: Option<Vec<Scalar>>,
    /// Uniform point size in pixels.
    pub point_size: Scalar,
    /// Material reference.
    pub material_id: Option<String>,
}

impl PointCloud {
    /// Create a new point cloud from positions.
    pub fn new(positions: Vec<Scalar>, point_size: Scalar) -> (r: Self)
        ensures
            r.positions == positions,
            r.scalars is None,
            r.point_size == point_size,
            r.material_id is None,
    {
        PointCloud { positions, scalars: None, point_size, material_id: None }
    }

    /// Set scalar values for colormap mapping.
    pub fn with_scalars(self, scalars: Vec<Scalar>) -> (r: Self)
        ensures
            r.positions == self.positions,
            r.scalars == Some(scalars),
            r.point_size == self.point_size,
            r.material_id == self.material_id,
    {
        PointCloud {
            positions: self.positions,
            scalars: Some(scalars),
            point_size: self.point_size,
            material_id: self.material_id,
        }
    }

    /// Set the material reference.
    pub fn with_material(self, material_id: String) -> (r: Self)
        ensures
            r.positions == self.positions,
            r.scalars == self.scalars,
            r.point_size == self.point_size,
            r.material_id == Some(material_id),
    {
        PointCloud {
            positions: self.positions,
            scalars: self.scalars,
            point_size: self.point_size,
            material_id: Some(material_id),
        }
    }

    /// Number of points in the cloud.
    pub fn len(&self) -> (n: usize)
        ensures
            n == self.positions@.len() / 3,
    {
        self.positions.len() / 3
    }

    /// Check if the point cloud holds no coordinate at all.
    pub fn is_empty(&self) -> (r: bool)
        ensures
            r == (self.positions@.len() == 0),
    {
        self.positions.len() == 0
    }
}

/// A polyline defined by a sequence of vertices.
#[derive(Debug, Clone)]
pub struct Polyline {
    /// Flattened vertex positions.
    pub positions: Vec<Scalar>,
    /// Uniform line width in pixels.
    pub line_width: Scalar,
    /// Material reference.
    pub material_id: Option<String>,
}

impl Polyline {
    /// Create a new polyline from positions.
    pub fn new(positions: Vec<Scalar>, line_width: Scalar) -> (r: Self)
        ensures
            r.positions == positions,
            r.line_width == line_width,
            r.material_id is None,
    {
        Polyline { positions, line_width, material_id: None }
    }

    /// Set the material reference.
    pub fn with_material(self, material_id: String) -> (r: Self)
        ensures
            r.positions == self.positions,
            r.line_width == self.line_width,
            r.material_id == Some(material_id),
    {
        Polyline {
            positions: self.positions,
            line_width: self.line_width,
            material_id: Some(material_id),
        }
    }
}

/// An indexed triangle mesh with optional normals and scalar values.
#[derive(Debug, Clone)]
pub struct Mesh {
    /// Flattened vertex positions.
    pub positions: Vec<Scalar>,
    /// Triangle indices (three per triangle).
    pub indices: Vec<u32>,
    /// Optional per-vertex normals, flattened.
    pub normals: Option<Vec<Scalar>>,
    /// Optional per-vertex scalar values for colormap mapping.
    pub scalars: Option<Vec<Scalar>>,
    /// Material reference.
    pub material_id: Option<String>,
}

impl Mesh {
    /// Create a new mesh from positions and indices.
    pub fn new(positions: Vec<Scalar>, indices: Vec<u32>) -> (r: Self)
        ensures
            r.positions == positions,
            r.indices == indices,
            r.normals is None,
            r.scalars is None,
            r.material_id is None,
    {
        Mesh { positions, indices, normals: None, scalars: None, material_id: None }
    }

    /// Set vertex normals.
    pub fn with_normals(self, normals: Vec<Scalar>) -> (r: Self)
        ensures
            r.positions == self.positions,
            r.indices == self.indices,
            r.normals == Some(normals),
            r.scalars == self.scalars,
            r.material_id == self.material_id,
    {
        Mesh {
            positions: self.positions,
            indices: self.indices,
            normals: Some(normals),
            scalars: self.scalars,
            material_id: self.material_id,
        }
    }

    /// Set scalar values for colormap mapping.
    pub fn with_scalars(self, scalars: Vec<Scalar>) -> (r: Self)
        ensures
            r.positions == self.positions,
            r.indices == self.indices,
            r.normals == self.normals,
            r.scalars == Some(scalars),
            r.material_id == self.material_id,
    {
        Mesh {
            positions: self.positions,
            indices: self.indices,
            normals: self.normals,
            scalars: Some(scalars),
            material_id: self.material_id,
        }
    }

    /// Set the material reference.
    pub fn with_material(self, material_id: String) -> (r: Self)
        ensures
            r.positions == self.positions,
            r.indices == self.indices,
            r.normals == self.normals,
            r.scalars == self.scalars,
            r.material_id == Some(material_id),
    {
        Mesh {
            positions: self.positions,
            indices: self.indices,
            normals: self.normals,
            scalars: self.scalars,
            material_id: Some(material_id),
        }
    }

    /// Number of vertices in the mesh.
    pub fn vertex_count(&self) -> (n: usize)
        ensures
            n == self.positions@.len() / 3,
    {
        self.positions.len() / 3
    }

    /// Number of triangles in the mesh.
    pub fn triangle_count(&self) -> (n: usize)
        ensures
            n == self.indices@.len() / 3,
    {
        self.indices.len() / 3
    }
}

/// Which axis (X, Y, or Z).
#[derive(Debug, Clone, Copy, PartialEq, Eq, Structural)]
pub enum Axis {
    X,
    Y,
    Z,
}

/// Bounds for an axis bundle.
#[derive(Debug, Clone, Copy)]
pub struct AxisBounds {
    pub min: [Scalar; 3],
    pub max: [Scalar; 3],
}

/// Tick generation mode for axes.
#[derive(Debug, Clone)]
pub enum TickSpec {
    /// Fixed tick positions in world coordinates.
    Fixed { values: Vec<Scalar> },
    /// Evenly spaced ticks: `count` intervals between the bounds.
    Auto { count: u32 },
    /// No ticks.
    Off,
}

impl Default for TickSpec {
    fn default() -> (r: Self)
        ensures
            r == (TickSpec::Auto { count: 5 }),
    {
        TickSpec::Auto { count: 5 }
    }
}

/// Label specification for axis ticks.
#[derive(Debug, Clone)]
pub struct LabelSpec {
    /// Whether to generate label placeholders.
    pub show: bool,
    /// World-space offset added to every label position.
    pub offset: [Scalar; 3],
    /// Format for numeric labels, such as "%.2f".
    pub format: Option<String>,
}

impl Default for LabelSpec {
    fn default() -> (r: Self)
        ensures
            r.show,
            r.offset@ == seq![Scalar::Finite(0), Scalar::Finite(0), Scalar::Finite(0)],
            r.format is None,
    {
        let offset = [Scalar::Finite(0), Scalar::Finite(0), Scalar::Finite(0)];
        assert(offset@ =~= seq![Scalar::Finite(0), Scalar::Finite(0), Scalar::Finite(0)]);
        LabelSpec { show: true, offset, format: None }
    }
}

/// A label placeholder with position and text.
#[derive(Debug, Clone)]
pub struct Label {
    /// World-space position.
    pub position: [Scalar; 3],
    /// Label text.
    pub text: String,
}

/// Coordinate axes as explicit geometry: axes expand into polylines.
#[derive(Debug, Clone)]
pub struct AxisBundle {
    /// Unique identifier.
    pub id: String,
    /// Axis-aligned bounding box for the axes.
    pub bounds: AxisBounds,
    /// Which axes to render.
    pub axes: Vec<Axis>,
    /// Line width for axis lines and ticks.
    pub line_width: Scalar,
    /// Tick specification.
    pub ticks: TickSpec,
    /// Label specification.
    pub labels: LabelSpec,
}

impl AxisBundle {
    /// Create a new axis bundle showing all three axes, with line width one,
    /// five tick intervals and labels shown.
    pub fn new(id: String, bounds: AxisBounds) -> (r: Self)
        ensures
            r.id == id,
            r.bounds == bounds,
            r.axes@ == seq![Axis::X, Axis::Y, Axis::Z],
            r.line_width == Scalar::Finite(1_000_000),
            r.ticks == (TickSpec::Auto { count: 5 }),
            r.labels.show,
            r.labels.offset@ == seq![Scalar::Finite(0), Scalar::Finite(0), Scalar::Finite(0)],
            r.labels.format is None,
    {
        let mut axes: Vec<Axis> = Vec::new();
        axes.push(Axis::X);
        axes.push(Axis::Y);
        axes.push(Axis::Z);
        assert(axes@ =~= seq![Axis::X, Axis::Y, Axis::Z]);
        AxisBundle {
            id,
            bounds,
            axes,
            line_width: Scalar::Finite(1_000_000),
            ticks: TickSpec::default(),
            labels: LabelSpec::default(),
        }
    }

    /// Set which axes to display.
    pub fn with_axes(self, axes: Vec<Axis>) -> (r: Self)
        ensures
            r.id == self.id,
            r.bounds == self.bounds,
            r.axes == axes,
            r.line_width == self.line_width,
            r.ticks == self.ticks,
            r.labels == self.labels,
    {
        AxisBundle {
            id: self.id,
            bounds: self.bounds,
            axes,
            line_width: self.line_width,
            ticks: self.ticks,
            labels: self.labels,
        }
    }

    /// Set line width.
    pub fn with_line_width(self, width: Scalar) -> (r: Self)
        ensures
            r.id == self.id,
            r.bounds == self.bounds,
            r.axes == self.axes,
            r.line_width == width,
            r.ticks == self.ticks,
            r.labels == self.labels,
    {
        AxisBundle {
            id: self.id,
            bounds: self.bounds,
            axes: self.axes,
            line_width: width,
            ticks: self.ticks,
            labels: self.labels,
        }
    }

    /// Set tick specification.
    pub fn with_ticks(self, ticks: TickSpec) -> (r: Self)
        ensures
            r.id == self.id,
            r.bounds == self.bounds,
            r.axes == self.axes,
            r.line_width == self.line_width,
            r.ticks == ticks,
            r.labels == self.labels,
    {
        AxisBundle {
            id: self.id,
            bounds: self.bounds,
            axes: self.axes,
            line_width: self.line_width,
            ticks,
            labels: self.labels,
        }
    }
}

/// What a polyline holds, with its texts as character sequences.
pub struct PolylineView {
    pub positions: Seq<Scalar>,
    pub line_width: Scalar,
    pub material_id: Option<Seq<char>>,
}

impl View for Polyline {
    type V = PolylineView;

    open spec fn view(&self) -> PolylineView {
        PolylineView {
            positions: self.positions@,
            line_width: self.line_width,
            material_id: match self.material_id {
                Some(id) => Some(id@),
                None => None,
            },
        }
    }
}

/// What a label holds, with its text as a character sequence.
pub struct LabelView {
    pub position: Seq<Scalar>,
    pub text: Seq<char>,
}

impl View for Label {
    type V = LabelView;

    open spec fn view(&self) -> LabelView {
        LabelView { position: self.position@, text: self.text@ }
    }
}

/// The fixed tick values among the first `n` that lie within the range.
pub open spec fn ticks_within(values: Seq<Scalar>, min: Scalar, max: Scalar, n: nat) -> Seq<
    Scalar,
>
    decreases n,
{
    if n == 0 {
        Seq::empty()
    } else {
        let before = ticks_within(values, min, max, (n - 1) as nat);
        if min.le_spec(values[n - 1]) && values[n - 1].le_spec(max) {
            before.push(values[n - 1])
        } else {
            before
        }
    }
}

/// Tick `i` of `count` evenly spaced intervals from `min` to `max`.
pub open spec fn even_tick(min: Scalar, max: Scalar, count: u32, i: int) -> Scalar {
    min.plus(max.minus(min).scaled_spec(1, count as int).scaled_spec(i, 1))
}

/// The tick values of an axis that runs from `min` to `max`.
pub open spec fn tick_values(ticks: TickSpec, min: Scalar, max: Scalar) -> Seq<Scalar> {
    match ticks {
        TickSpec::Fixed { values } => ticks_within(values@, min, max, values@.len()),
        TickSpec::Auto { count } => if count == 0 {
            Seq::empty()
        } else {
            Seq::new((count + 1) as nat, |i: int| even_tick(min, max, count, i))
        },
        TickSpec::Off => Seq::empty(),
    }
}

/// Length of the tick marks: a fiftieth of the shortest side of the bounds.
pub open spec fn tick_size(b: AxisBounds) -> Scalar {
    b.max[0].minus(b.min[0]).lesser_spec(b.max[1].minus(b.min[1])).lesser_spec(
        b.max[2].minus(b.min[2]),
    ).scaled_spec(1, 50)
}

/// Index of the coordinate that an axis runs along.
pub open spec fn axis_index(axis: Axis) -> int {
    match axis {
        Axis::X => 0,
        Axis::Y => 1,
        Axis::Z => 2,
    }
}

/// The line of an axis: from the low corner of the bounds to the high end of
/// the axis.
pub open spec fn axis_line(b: AxisBounds, axis: Axis) -> Seq<Scalar> {
    match axis {
        Axis::X => seq![b.min[0], b.min[1], b.min[2], b.max[0], b.min[1], b.min[2]],
        Axis::Y => seq![b.min[0], b.min[1], b.min[2], b.min[0], b.max[1], b.min[2]],
        Axis::Z => seq![b.min[0], b.min[1], b.min[2], b.min[0], b.min[1], b.max[2]],
    }
}

/// The mark of a tick at `t`: from the axis outwards by the tick size, down
/// for the x axis and to the left for the others.
pub open spec fn tick_line(b: AxisBounds, axis: Axis, t: Scalar) -> Seq<Scalar> {
    let size = tick_size(b);
    match axis {
        Axis::X => seq![t, b.min[1], b.min[2], t, b.min[1].minus(size), b.min[2]],
        Axis::Y => seq![b.min[0], t, b.min[2], b.min[0].minus(size), t, b.min[2]],
        Axis::Z => seq![b.min[0], b.min[1], t, b.min[0].minus(size), b.min[1], t],
    }
}

/// Where the label of a tick at `t` stands: one and a half tick sizes beyond
/// the end of the mark, moved by the offset.
pub open spec fn label_position(
    b: AxisBounds,
    axis: Axis,
    offset: [Scalar; 3],
    t: Scalar,
) -> Seq<Scalar> {
    let size = tick_size(b);
    let beyond = size.scaled_spec(-3, 2);
    match axis {
        Axis::X => seq![
            t.plus(offset[0]),
            b.min[1].minus(size).plus(beyond).plus(offset[1]),
            b.min[2].plus(offset[2]),
        ],
        Axis::Y => seq![
            b.min[0].minus(size).plus(beyond).plus(offset[0]),
            t.plus(offset[1]),
            b.min[2].plus(offset[2]),
        ],
        Axis::Z => seq![
            b.min[0].minus(size).plus(beyond).plus(offset[0]),
            b.min[1].plus(offset[1]),
            t.plus(offset[2]),
        ],
    }
}

/// A polyline of the bundle's line width without material.
pub open spec fn bundle_line(bundle: AxisBundle, positions: Seq<Scalar>) -> PolylineView {
    PolylineView { positions, line_width: bundle.line_width, material_id: None }
}

/// The polylines of one axis: its line, then the marks of the first `n` ticks.
pub open spec fn axis_lines(bundle: AxisBundle, axis: Axis, n: nat) -> Seq<PolylineView>
    decreases n,
{
    if n == 0 {
        seq![bundle_line(bundle, axis_line(bundle.bounds, axis))]
    } else {
        axis_lines(bundle, axis, (n - 1) as nat).push(
            bundle_line(
                bundle,
                tick_line(bundle.bounds, axis, axis_ticks(bundle, axis)[n - 1]),
            ),
        )
    }
}

/// The tick values along one axis of the bundle.
pub open spec fn axis_ticks(bundle: AxisBundle, axis: Axis) -> Seq<Scalar> {
    tick_values(
        bundle.ticks,
        bundle.bounds.min[axis_index(axis)],
        bundle.bounds.max[axis_index(axis)],
    )
}

/// The format of the bundle's labels.
pub open spec fn label_format(bundle: AxisBundle) -> Option<Seq<char>> {
    match bundle.labels.format {
        Some(f) => Some(f@),
        None => None,
    }
}

/// The labels of the first `n` ticks of one axis; none if labels are not shown.
pub open spec fn axis_labels(bundle: AxisBundle, axis: Axis, n: nat) -> Seq<LabelView>
    decreases n,
{
    if n == 0 || !bundle.labels.show {
        Seq::empty()
    } else {
        let t = axis_ticks(bundle, axis)[n - 1];
        axis_labels(bundle, axis, (n - 1) as nat).push(
            LabelView {
                position: label_position(bundle.bounds, axis, bundle.labels.offset, t),
                text: tick_text(t, label_format(bundle)),
            },
        )
    }
}

/// The polylines of the first `n` axes of the bundle, axis by axis.
pub open spec fn expanded_lines(bundle: AxisBundle, n: nat) -> Seq<PolylineView>
    decreases n,
{
    if n == 0 {
        Seq::empty()
    } else {
        expanded_lines(bundle, (n - 1) as nat) + axis_lines(
            bundle,
            bundle.axes@[n - 1],
            axis_ticks(bundle, bundle.axes@[n - 1]).len(),
        )
    }
}

/// The labels of the first `n` axes of the bundle, axis by axis.
pub open spec fn expanded_labels(bundle: AxisBundle, n: nat) -> Seq<LabelView>
    decreases n,
{
    if n == 0 {
        Seq::empty()
    } else {
        expanded_labels(bundle, (n - 1) as nat) + axis_labels(
            bundle,
            bundle.axes@[n - 1],
            axis_ticks(bundle, bundle.axes@[n - 1]).len(),
        )
    }
}

/// The views of a list of polylines.
pub open spec fn line_views(lines: Seq<Polyline>) -> Seq<PolylineView> {
    lines.map_values(|p: Polyline| p@)
}

/// The views of a list of labels.
pub open spec fn label_views(labels: Seq<Label>) -> Seq<LabelView> {
    labels.map_values(|l: Label| l@)
}

fn segment(a: [Scalar; 3], b: [Scalar; 3], line_width: Scalar) -> (p: Polyline)
    ensures
        p@ == (PolylineView {
            positions: seq![a[0], a[1], a[2], b[0], b[1], b[2]],
            line_width,
            material_id: None,
        }),
{
    let mut positions: Vec<Scalar> = Vec::new();
    positions.push(a[0]);
    positions.push(a[1]);
    positions.push(a[2]);
    positions.push(b[0]);
    positions.push(b[1]);
    positions.push(b[2]);
    assert(positions@ =~= seq![a[0], a[1], a[2], b[0], b[1], b[2]]);
    Polyline::new(positions, line_width)
}

impl TickSpec {
    /// The tick values of an axis that runs from `min` to `max`.
    pub fn values_between(&self, min: Scalar, max: Scalar) -> (r: Vec<Scalar>)
        ensures
            r@ == tick_values(*self, min, max),
    {
        let mut out: Vec<Scalar> = Vec::new();
        match self {
            TickSpec::Fixed { values } => {
                let mut i: usize = 0;
                while i < values.len()
                    invariant
                        i <= values@.len(),
                        out@ == ticks_within(values@, min, max, i as nat),
                    decreases values@.len() - i,
                {
                    let v = values[i];
                    if v.ge(min) && v.le(max) {
                        out.push(v);
                    }
                    i = i + 1;
                }
            },
            TickSpec::Auto { count } => {
                if *count > 0 {
                    let step = max.sub(min).scaled(1, *count as i64);
                    let mut i: u64 = 0;
                    while i <= *count as u64
                        invariant
                            i <= *count + 1,
                            *count > 0,
                            step == max.minus(min).scaled_spec(1, *count as int),
                            out@ == Seq::new(i as nat, |k: int| even_tick(min, max, *count, k)),
                        decreases *count + 1 - i,
                    {
                        out.push(min.add(step.scaled(i as i64, 1)));
                        i = i + 1;
                        assert(out@ =~= Seq::new(
                            i as nat,
                            |k: int| even_tick(min, max, *count, k),
                        ));
                    }
                }
            },
            TickSpec::Off => {},
        }
        out
    }
}

impl AxisBundle {
    /// Adds the mark of one tick and, if labels are shown, its label.
    fn push_tick(
        &self,
        axis: Axis,
        t: Scalar,
        size: Scalar,
        beyond: Scalar,
        polylines: &mut Vec<Polyline>,
        labels: &mut Vec<Label>,
    )
        requires
            size == tick_size(self.bounds),
            beyond == size.scaled_spec(-3, 2),
        ensures
            line_views(final(polylines)@) == line_views(old(polylines)@).push(
                bundle_line(*self, tick_line(self.bounds, axis, t)),
            ),
            label_views(final(labels)@) == (if self.labels.show {
                label_views(old(labels)@).push(
                    LabelView {
                        position: label_position(self.bounds, axis, self.labels.offset, t),
                        text: tick_text(t, label_format(*self)),
                    },
                )
            } else {
                label_views(old(labels)@)
            }),
    {
        let b = &self.bounds;
        let (from, to) = match axis {
            Axis::X => ([t, b.min[1], b.min[2]], [t, b.min[1].sub(size), b.min[2]]),
            Axis::Y => ([b.min[0], t, b.min[2]], [b.min[0].sub(size), t, b.min[2]]),
            Axis::Z => ([b.min[0], b.min[1], t], [b.min[0].sub(size), b.min[1], t]),
        };
        polylines.push(segment(from, to, self.line_width));
        assert(line_views(final(polylines)@) =~= line_views(old(polylines)@).push(
            bundle_line(*self, tick_line(self.bounds, axis, t)),
        ));
        if self.labels.show {
            let off = &self.labels.offset;
            let position = match axis {
                Axis::X => [
                    t.add(off[0]),
                    b.min[1].sub(size).add(beyond).add(off[1]),
                    b.min[2].add(off[2]),
                ],
                Axis::Y => [
                    b.min[0].sub(size).add(beyond).add(off[0]),
                    t.add(off[1]),
                    b.min[2].add(off[2]),
                ],
                Axis::Z => [
                    b.min[0].sub(size).add(beyond).add(off[0]),
                    b.min[1].add(off[1]),
                    t.add(off[2]),
                ],
            };
            assert(position@ =~= label_position(self.bounds, axis, self.labels.offset, t));
            let text = format_tick_value(t, &self.labels.format);
            labels.push(Label { position, text });
            assert(label_views(final(labels)@) =~= label_views(old(labels)@).push(
                LabelView {
                    position: label_position(self.bounds, axis, self.labels.offset, t),
                    text: tick_text(t, label_format(*self)),
                },
            ));
        } else {
            assert(label_views(final(labels)@) =~= label_views(old(labels)@));
        }
    }

    /// Expand axes into polylines for rendering.
    ///
    /// Returns the polylines (for every axis its line and then its tick
    /// marks) and the labels (one per tick, if labels are shown).
    pub fn expand(&self) -> (r: (Vec<Polyline>, Vec<Label>))
        ensures
            line_views(r.0@) == expanded_lines(*self, self.axes@.len()),
            label_views(r.1@) == expanded_labels(*self, self.axes@.len()),
    {
        let mut polylines: Vec<Polyline> = Vec::new();
        let mut labels: Vec<Label> = Vec::new();
        let b = &self.bounds;
        let size = b.max[0].sub(b.min[0]).lesser(b.max[1].sub(b.min[1])).lesser(
            b.max[2].sub(b.min[2]),
        ).scaled(1, 50);
        let beyond = size.scaled(-3, 2);
        let low = [b.min[0], b.min[1], b.min[2]];
        let mut a: usize = 0;
        assert(line_views(polylines@) =~= expanded_lines(*self, 0));
        assert(label_views(labels@) =~= expanded_labels(*self, 0));
        while a < self.axes.len()
            invariant
                a <= self.axes@.len(),
                b == &self.bounds,
                size == tick_size(self.bounds),
                beyond == size.scaled_spec(-3, 2),
                low@ == seq![self.bounds.min[0], self.bounds.min[1], self.bounds.min[2]],
                line_views(polylines@) == expanded_lines(*self, a as nat),
                label_views(labels@) == expanded_labels(*self, a as nat),
            decreases self.axes@.len() - a,
        {
            let axis = self.axes[a];
            let ghost lines_before = line_views(polylines@);
            let ghost labels_before = label_views(labels@);
            let (min, max, high) = match axis {
                Axis::X => (b.min[0], b.max[0], [b.max[0], b.min[1], b.min[2]]),
                Axis::Y => (b.min[1], b.max[1], [b.min[0], b.max[1], b.min[2]]),
                Axis::Z => (b.min[2], b.max[2], [b.min[0], b.min[1], b.max[2]]),
            };
            polylines.push(segment(low, high, self.line_width));
            assert(line_views(polylines@) =~= lines_before + axis_lines(*self, axis, 0));
            let ticks = self.ticks.values_between(min, max);
            let mut k: usize = 0;
            assert(label_views(labels@) =~= labels_before + axis_labels(*self, axis, 0));
            while k < ticks.len()
                invariant
                    k <= ticks@.len(),
                    b == &self.bounds,
                    size == tick_size(self.bounds),
                    beyond == size.scaled_spec(-3, 2),
                    ticks@ == axis_ticks(*self, axis),
                    line_views(polylines@) == lines_before + axis_lines(*self, axis, k as nat),
                    label_views(labels@) == labels_before + axis_labels(*self, axis, k as nat),
                decreases ticks@.len() - k,
            {
                let t = ticks[k];
                self.push_tick(axis, t, size, beyond, &mut polylines, &mut labels);
                k = k + 1;
                assert(line_views(polylines@) =~= lines_before + axis_lines(
                    *self,
                    axis,
                    k as nat,
                ));
                assert(label_views(labels@) =~= labels_before + axis_labels(
                    *self,
                    axis,
                    k as nat,
                ));
            }
            a = a + 1;
        }
        (polylines, labels)
    }
}

} // verus!
