use frustum::geometry::{Axis, AxisBounds, AxisBundle, Label, LabelSpec, Polyline, TickSpec};
use frustum::scalar::Scalar;
use frustum::ticks::{
    format_by_size, format_fixed, format_plain, format_scientific, format_tick_value,
    format_trim_zeros,
};

fn s(x: f32) -> Scalar {
    if x.is_nan() {
        Scalar::Nan
    } else if x == f32::INFINITY {
        Scalar::PosInf
    } else if x == f32::NEG_INFINITY {
        Scalar::NegInf
    } else {
        Scalar::Finite((x as f64 * 1_000_000.0).round() as i64)
    }
}

fn point(p: [f32; 3]) -> [Scalar; 3] {
    [s(p[0]), s(p[1]), s(p[2])]
}

fn list(values: &[f32]) -> Vec<Scalar> {
    values.iter().map(|v| s(*v)).collect()
}

fn positions(lines: &[Polyline]) -> Vec<Vec<Scalar>> {
    lines.iter().map(|l| l.positions.clone()).collect()
}

fn texts(labels: &[Label]) -> Vec<String> {
    labels.iter().map(|l| l.text.clone()).collect()
}

fn tick(value: f32, format: Option<&str>) -> String {
    format_tick_value(s(value), &format.map(|f| f.to_string()))
}

#[test]
fn test_axes_expand_to_lines() {
    let axes = AxisBundle::new(
        "test_axes".to_string(),
        AxisBounds { min: point([0.0, 0.0, 0.0]), max: point([1.0, 1.0, 1.0]) },
    )
    .with_axes(vec![Axis::X])
    .with_ticks(TickSpec::Fixed { values: list(&[0.0, 0.5, 1.0]) });

    let (polylines, _labels) = axes.expand();

    // Axes should expand to polylines
    assert!(!polylines.is_empty(), "Axes should expand to at least one polyline");

    // The expansion should produce line geometry
    for line in &polylines {
        assert!(
            line.positions.len() >= 6,
            "Each line should have at least 2 points (6 floats)"
        );
    }
}

#[test]
fn new_axis_bundle_has_the_default_settings() {
    let bounds = AxisBounds { min: point([0.0, 0.0, 0.0]), max: point([1.0, 1.0, 1.0]) };
    let axes = AxisBundle::new("axes".to_string(), bounds);
    assert_eq!(axes.id, "axes");
    assert_eq!(axes.axes, vec![Axis::X, Axis::Y, Axis::Z]);
    assert_eq!(axes.line_width, s(1.0));
    assert!(matches!(axes.ticks, TickSpec::Auto { count: 5 }));
    assert!(matches!(TickSpec::default(), TickSpec::Auto { count: 5 }));
    assert!(axes.labels.show);
    assert_eq!(axes.labels.offset, point([0.0, 0.0, 0.0]));
    assert!(axes.labels.format.is_none());
    let label_spec = LabelSpec::default();
    assert!(label_spec.show && label_spec.format.is_none());
    let axes = axes.with_line_width(s(2.5)).with_ticks(TickSpec::Off).with_axes(vec![Axis::Z]);
    assert_eq!(axes.line_width, s(2.5));
    assert!(matches!(axes.ticks, TickSpec::Off));
    assert_eq!(axes.axes, vec![Axis::Z]);
    assert_eq!(axes.bounds.max, bounds.max);
}

#[test]
fn x_axis_with_fixed_ticks_expands_to_line_marks_and_labels() {
    let axes = AxisBundle::new(
        "a".to_string(),
        AxisBounds { min: point([0.0, 0.0, 0.0]), max: point([1.0, 2.0, 4.0]) },
    )
    .with_axes(vec![Axis::X])
    .with_line_width(s(2.0))
    .with_ticks(TickSpec::Fixed { values: list(&[-0.5, 0.0, 0.5, 1.0, 1.5]) });
    let (lines, labels) = axes.expand();
    // The tick size is a fiftieth of the shortest side: 0.02.
    assert_eq!(
        positions(&lines),
        vec![
            list(&[0.0, 0.0, 0.0, 1.0, 0.0, 0.0]),
            list(&[0.0, 0.0, 0.0, 0.0, -0.02, 0.0]),
            list(&[0.5, 0.0, 0.0, 0.5, -0.02, 0.0]),
            list(&[1.0, 0.0, 0.0, 1.0, -0.02, 0.0]),
        ]
    );
    for line in &lines {
        assert_eq!(line.line_width, s(2.0));
        assert!(line.material_id.is_none());
    }
    assert_eq!(texts(&labels), vec!["0", "0.5", "1.0"]);
    let places: Vec<[Scalar; 3]> = labels.iter().map(|l| l.position).collect();
    assert_eq!(
        places,
        vec![point([0.0, -0.05, 0.0]), point([0.5, -0.05, 0.0]), point([1.0, -0.05, 0.0])]
    );
}

#[test]
fn y_and_z_axes_with_even_ticks() {
    let mut axes = AxisBundle::new(
        "a".to_string(),
        AxisBounds { min: point([1.0, 0.0, -1.0]), max: point([2.0, 2.0, 0.0]) },
    )
    .with_axes(vec![Axis::Y, Axis::Z])
    .with_ticks(TickSpec::Auto { count: 2 });
    axes.labels.offset = point([0.5, 0.25, -1.0]);
    let (lines, labels) = axes.expand();
    // Sides 1, 2 and 1: the tick size is 0.02.
    assert_eq!(
        positions(&lines),
        vec![
            list(&[1.0, 0.0, -1.0, 1.0, 2.0, -1.0]),
            list(&[1.0, 0.0, -1.0, 0.98, 0.0, -1.0]),
            list(&[1.0, 1.0, -1.0, 0.98, 1.0, -1.0]),
            list(&[1.0, 2.0, -1.0, 0.98, 2.0, -1.0]),
            list(&[1.0, 0.0, -1.0, 1.0, 0.0, 0.0]),
            list(&[1.0, 0.0, -1.0, 0.98, 0.0, -1.0]),
            list(&[1.0, 0.0, -0.5, 0.98, 0.0, -0.5]),
            list(&[1.0, 0.0, 0.0, 0.98, 0.0, 0.0]),
        ]
    );
    assert_eq!(texts(&labels), vec!["0", "1.0", "2.0", "-1.0", "-0.5", "0"]);
    let places: Vec<[Scalar; 3]> = labels.iter().map(|l| l.position).collect();
    // One and a half tick sizes beyond the mark, then the offset.
    assert_eq!(
        places,
        vec![
            point([1.45, 0.25, -2.0]),
            point([1.45, 1.25, -2.0]),
            point([1.45, 2.25, -2.0]),
            point([1.45, 0.25, -2.0]),
            point([1.45, 0.25, -1.5]),
            point([1.45, 0.25, -1.0]),
        ]
    );
}

#[test]
fn labels_can_be_hidden_and_ticks_switched_off() {
    let bounds = AxisBounds { min: point([0.0, 0.0, 0.0]), max: point([1.0, 1.0, 1.0]) };
    let mut axes = AxisBundle::new("a".to_string(), bounds);
    axes.labels.show = false;
    let (lines, labels) = axes.expand();
    // Three axes, each with its line and six marks.
    assert_eq!(lines.len(), 21);
    assert!(labels.is_empty());

    let axes = AxisBundle::new("a".to_string(), bounds).with_ticks(TickSpec::Off);
    let (lines, labels) = axes.expand();
    assert_eq!(lines.len(), 3);
    assert!(labels.is_empty());

    let axes = AxisBundle::new("a".to_string(), bounds).with_ticks(TickSpec::Auto { count: 0 });
    let (lines, labels) = axes.expand();
    assert_eq!(lines.len(), 3);
    assert!(labels.is_empty());

    let axes = AxisBundle::new("a".to_string(), bounds).with_axes(vec![]);
    let (lines, labels) = axes.expand();
    assert!(lines.is_empty() && labels.is_empty());

    // An axis named twice is expanded twice.
    let axes = AxisBundle::new("a".to_string(), bounds)
        .with_axes(vec![Axis::X, Axis::X])
        .with_ticks(TickSpec::Auto { count: 1 });
    let (lines, labels) = axes.expand();
    assert_eq!(lines.len(), 6);
    assert_eq!(texts(&labels), vec!["0", "1.0", "0", "1.0"]);
}

#[test]
fn tick_values_of_each_kind() {
    let fixed = TickSpec::Fixed { values: list(&[3.0, f32::NAN, 1.0, 0.999999, 2.0, 2.000001]) };
    assert_eq!(fixed.values_between(s(1.0), s(2.0)), list(&[1.0, 2.0]));
    assert!(fixed.values_between(s(2.0), s(1.0)).is_empty());
    assert!(fixed.values_between(Scalar::Nan, s(5.0)).is_empty());
    let even = TickSpec::Auto { count: 4 };
    assert_eq!(even.values_between(s(-1.0), s(1.0)), list(&[-1.0, -0.5, 0.0, 0.5, 1.0]));
    // The step is cut to whole units: a third of one is 0.333333.
    let thirds = TickSpec::Auto { count: 3 };
    assert_eq!(
        thirds.values_between(s(0.0), s(1.0)),
        vec![
            Scalar::Finite(0),
            Scalar::Finite(333_333),
            Scalar::Finite(666_666),
            Scalar::Finite(999_999)
        ]
    );
    assert_eq!(
        TickSpec::Auto { count: 1 }.values_between(s(0.0), Scalar::PosInf),
        vec![Scalar::Nan, Scalar::PosInf]
    );
    assert!(TickSpec::Auto { count: 0 }.values_between(s(0.0), s(1.0)).is_empty());
    assert!(TickSpec::Off.values_between(s(0.0), s(1.0)).is_empty());
}

#[test]
fn tick_text_is_chosen_by_size() {
    assert_eq!(tick(0.0, None), "0");
    assert_eq!(tick(0.5, None), "0.5");
    assert_eq!(tick(1.0, None), "1.0");
    assert_eq!(tick(-0.5, None), "-0.5");
    assert_eq!(tick(5.25, None), "5.25");
    assert_eq!(tick(0.05, None), "0.05");
    assert_eq!(tick(0.001, None), "0.001");
    assert_eq!(tick(0.0125, None), "0.012");
    assert_eq!(tick(0.0135, None), "0.014");
    assert_eq!(tick(0.099, None), "0.099");
    assert_eq!(tick(0.1, None), "0.1");
    assert_eq!(tick(9.999, None), "10.0");
    assert_eq!(tick(10.0, None), "10.0");
    assert_eq!(tick(123.456, None), "123.5");
    assert_eq!(tick(9999.94, None), "9999.9");
    assert_eq!(tick(9999.99, None), "10000.0");
    assert_eq!(tick(0.0005, None), "5.0e-4");
    assert_eq!(tick(-0.000001, None), "-1.0e-6");
    assert_eq!(tick(0.000999, None), "1.0e-3");
    assert_eq!(tick(10000.0, None), "1.0e4");
    assert_eq!(tick(12345.0, None), "1.2e4");
    assert_eq!(tick(99999.0, None), "1.0e5");
    assert_eq!(tick(-250000.0, None), "-2.5e5");
    assert_eq!(tick(f32::NAN, None), "NaN");
    assert_eq!(tick(f32::INFINITY, None), "inf");
    assert_eq!(tick(f32::NEG_INFINITY, None), "-inf");
    // A format without a percent sign asks for nothing.
    assert_eq!(tick(0.5, Some("two decimals")), "0.5");
    assert_eq!(tick(0.5, Some("")), "0.5");
    assert_eq!(format_by_size(s(5.25)), "5.25");
}

#[test]
fn tick_text_follows_a_requested_precision() {
    assert_eq!(tick(1.5, Some("%.2f")), "1.50");
    assert_eq!(tick(1.5, Some("%.0f")), "2");
    assert_eq!(tick(2.5, Some("%.0f")), "2");
    assert_eq!(tick(3.5, Some("%.0f")), "4");
    assert_eq!(tick(0.125, Some("%.2f")), "0.12");
    assert_eq!(tick(0.135, Some("%.2f")), "0.14");
    assert_eq!(tick(-0.001, Some("%.2f")), "-0.00");
    assert_eq!(tick(-12.3456, Some("%.3f")), "-12.346");
    assert_eq!(tick(1.5, Some("%.6f")), "1.500000");
    assert_eq!(tick(1.5, Some("%.8f")), "1.50000000");
    assert_eq!(tick(1.5, Some("%.+3f")), "1.500");
    assert_eq!(tick(1.5, Some("%.003f")), "1.500");
    assert_eq!(tick(123456.0, Some("%.1f")), "123456.0");
    assert_eq!(tick(f32::NAN, Some("%.2f")), "NaN");
    assert_eq!(tick(f32::INFINITY, Some("%.2f")), "inf");
    assert_eq!(tick(f32::NEG_INFINITY, Some("%.2f")), "-inf");
}

#[test]
fn other_formats_with_a_percent_sign_give_the_shortest_form() {
    for format in ["%d", "%", "%.f", "%.", "%.2g", "%.-2f", "%.2 f", "%. 2f", "x%.2f", "%.2fx",
        "%.99999999999999999999999999f", "%.+f", "%.++1f", "100%"]
    {
        assert_eq!(tick(1.5, Some(format)), "1.5", "format {:?}", format);
    }
    assert_eq!(tick(2.0, Some("%d")), "2");
    assert_eq!(tick(-2.0, Some("%d")), "-2");
    assert_eq!(tick(0.0, Some("%d")), "0");
    assert_eq!(tick(0.000001, Some("%d")), "0.000001");
    assert_eq!(tick(1234567.125, Some("%d")), "1234567.125");
    assert_eq!(tick(f32::NAN, Some("%d")), "NaN");
    assert_eq!(format_plain(Scalar::Finite(-1_230_000)), "-1.23");
    assert_eq!(format_plain(Scalar::Finite(i64::MIN)), "-9223372036854.775808");
}

#[test]
fn fixed_and_trimmed_decimals() {
    assert_eq!(format_fixed(Scalar::Finite(1_005_000), 2), "1.00");
    assert_eq!(format_fixed(Scalar::Finite(1_015_000), 2), "1.02");
    assert_eq!(format_fixed(Scalar::Finite(999_999), 0), "1");
    assert_eq!(format_fixed(Scalar::Finite(999_999), 5), "1.00000");
    assert_eq!(format_fixed(Scalar::Finite(999_999), 6), "0.999999");
    assert_eq!(format_fixed(Scalar::Finite(999_999), 9), "0.999999000");
    assert_eq!(format_fixed(Scalar::Finite(i64::MAX), 1), "9223372036854.8");
    assert_eq!(format_trim_zeros(Scalar::Finite(2_500_000), 0), "2");
    assert_eq!(format_trim_zeros(Scalar::Finite(2_500_000), 1), "2.5");
    assert_eq!(format_trim_zeros(Scalar::Finite(2_500_000), 4), "2.5");
    assert_eq!(format_trim_zeros(Scalar::Finite(2_000_000), 4), "2.0");
    assert_eq!(format_trim_zeros(Scalar::Finite(1_999_999), 8), "1.999999");
    assert_eq!(format_trim_zeros(Scalar::Finite(-40_000), 1), "-0.0");
    assert_eq!(format_trim_zeros(Scalar::Finite(100_100_000), 3), "100.1");
    assert_eq!(format_trim_zeros(Scalar::Nan, 2), "NaN");
    assert_eq!(format_scientific(Scalar::Finite(0)), "0.0e0");
    assert_eq!(format_scientific(Scalar::Finite(1_000_000)), "1.0e0");
    assert_eq!(format_scientific(Scalar::Finite(1_250_000)), "1.2e0");
    assert_eq!(format_scientific(Scalar::Finite(1_350_000)), "1.4e0");
    assert_eq!(format_scientific(Scalar::Finite(99_500_000)), "1.0e2");
    assert_eq!(format_scientific(Scalar::Finite(7)), "7.0e-6");
    assert_eq!(format_scientific(Scalar::Finite(i64::MAX)), "9.2e12");
    assert_eq!(format_scientific(Scalar::Finite(i64::MIN)), "-9.2e12");
}
