use frustum::audit::ImageMetrics;
use frustum::metrics::{
    buffer_fits, channel_byte, compute_edge_density, compute_image_metrics, estimate_connected_components,
    find_dominant_colors, is_similar_color, ratio,
};
use frustum::regions::flood_fill;
use frustum::scalar::Scalar;

fn unit(x: f32) -> Scalar {
    Scalar::Finite((x as f64 * 1_000_000.0).round() as i64)
}

fn percent(s: Scalar) -> f32 {
    match s {
        Scalar::Finite(v) => (v as f64 / 1_000_000.0) as f32,
        _ => f32::NAN,
    }
}

fn color(background: [f32; 4]) -> [Scalar; 4] {
    [unit(background[0]), unit(background[1]), unit(background[2]), unit(background[3])]
}

fn solid(width: u32, height: u32, rgba: [u8; 4]) -> Vec<u8> {
    let mut pixels = Vec::new();
    for _ in 0..(width * height) {
        pixels.extend_from_slice(&rgba);
    }
    pixels
}

fn set_pixel(pixels: &mut [u8], width: u32, x: u32, y: u32, rgba: [u8; 4]) {
    let i = ((y * width + x) * 4) as usize;
    pixels[i..i + 4].copy_from_slice(&rgba);
}

fn metrics(pixels: &[u8], width: u32, height: u32, background: [f32; 4]) -> ImageMetrics {
    compute_image_metrics(pixels, width, height, color(background))
}

#[test]
fn test_compute_image_metrics_solid_color() {
    // Create 4x4 solid red image
    let mut pixels = vec![0u8; 4 * 4 * 4];
    for chunk in pixels.chunks_mut(4) {
        chunk[0] = 255; // R
        chunk[1] = 0; // G
        chunk[2] = 0; // B
        chunk[3] = 255; // A
    }

    let metrics = metrics(&pixels, 4, 4, [0.0, 0.0, 0.0, 1.0]);

    assert_eq!(percent(metrics.transparent_percentage), 0.0);
    assert_eq!(percent(metrics.background_percentage), 0.0);
    assert!(metrics.histogram.red[15] == 16); // All red values in highest bin
}

#[test]
fn test_compute_image_metrics_transparent() {
    // Create 4x4 fully transparent image
    let pixels = vec![0u8; 4 * 4 * 4];

    let metrics = metrics(&pixels, 4, 4, [0.0, 0.0, 0.0, 1.0]);

    assert_eq!(percent(metrics.transparent_percentage), 100.0);
}

#[test]
fn solid_red_image_in_exact_units() {
    let pixels = solid(4, 4, [255, 0, 0, 255]);
    let m = metrics(&pixels, 4, 4, [0.0, 0.0, 0.0, 1.0]);
    assert_eq!(m.transparent_percentage, Scalar::Finite(0));
    assert_eq!(m.background_percentage, Scalar::Finite(0));
    assert_eq!(m.histogram.red[15], 16);
    assert_eq!(m.histogram.green[0], 16);
    assert_eq!(m.histogram.blue[0], 16);
    assert_eq!(m.histogram.alpha[15], 16);
    assert_eq!(m.edge_density, Scalar::Finite(0));
    assert_eq!(m.dominant_colors, vec![[248u8, 8, 8]]);
    // A 4 by 4 image is one block, sampled at its last pixel: foreground.
    assert_eq!(m.connected_components, 1);
}

#[test]
fn histogram_channels_all_sum_to_the_pixel_count() {
    let width = 7u32;
    let height = 5u32;
    let mut pixels = Vec::new();
    for i in 0..(width * height) {
        pixels.push((i * 37 % 256) as u8);
        pixels.push((i * 91 % 256) as u8);
        pixels.push((255 - i * 5 % 256) as u8);
        pixels.push((i * 13 % 256) as u8);
    }
    let m = metrics(&pixels, width, height, [1.0, 1.0, 1.0, 1.0]);
    let total = width * height;
    assert_eq!(m.histogram.red.iter().sum::<u32>(), total);
    assert_eq!(m.histogram.green.iter().sum::<u32>(), total);
    assert_eq!(m.histogram.blue.iter().sum::<u32>(), total);
    assert_eq!(m.histogram.alpha.iter().sum::<u32>(), total);
}

#[test]
fn histogram_bins_are_sixteen_wide() {
    let mut pixels = solid(2, 2, [0, 0, 0, 0]);
    set_pixel(&mut pixels, 2, 0, 0, [15, 16, 31, 32]);
    set_pixel(&mut pixels, 2, 1, 0, [239, 240, 255, 128]);
    let m = metrics(&pixels, 2, 2, [0.0, 0.0, 0.0, 1.0]);
    assert_eq!(m.histogram.red[0], 3);
    assert_eq!(m.histogram.red[14], 1);
    assert_eq!(m.histogram.green[0], 2);
    assert_eq!(m.histogram.green[1], 1);
    assert_eq!(m.histogram.green[15], 1);
    assert_eq!(m.histogram.blue[1], 1);
    assert_eq!(m.histogram.blue[15], 1);
    assert_eq!(m.histogram.alpha[2], 1);
    assert_eq!(m.histogram.alpha[8], 1);
    assert_eq!(m.histogram.alpha[0], 2);
}

#[test]
fn transparent_percentage_is_exact() {
    // One of three pixels is fully transparent.
    let pixels = vec![1, 2, 3, 0, 1, 2, 3, 1, 1, 2, 3, 255];
    let m = metrics(&pixels, 3, 1, [1.0, 1.0, 1.0, 1.0]);
    assert_eq!(m.transparent_percentage, Scalar::Finite(33_333_333));
    assert_eq!(m.background_percentage, Scalar::Finite(0));
}

#[test]
fn uniform_background_image_is_all_background_without_components() {
    let pixels = solid(40, 24, [25, 25, 38, 255]);
    let m = metrics(&pixels, 40, 24, [0.1, 0.1, 0.15, 1.0]);
    assert_eq!(m.background_percentage, Scalar::Finite(100_000_000));
    assert_eq!(m.connected_components, 0);
    assert_eq!(m.transparent_percentage, Scalar::Finite(0));
    assert_eq!(m.edge_density, Scalar::Finite(0));
}

#[test]
fn background_tolerance_is_five_per_channel() {
    // Background 0.5 is byte 127.
    assert_eq!(channel_byte(unit(0.5)), 127);
    let mut pixels = solid(4, 1, [127, 127, 127, 255]);
    set_pixel(&mut pixels, 4, 0, 0, [132, 122, 127, 255]);
    set_pixel(&mut pixels, 4, 1, 0, [133, 127, 127, 255]);
    set_pixel(&mut pixels, 4, 2, 0, [127, 127, 121, 0]);
    let m = metrics(&pixels, 4, 1, [0.5, 0.5, 0.5, 1.0]);
    // Pixels 0 and 3 match; alpha is ignored, but pixel 2 is off by six.
    assert_eq!(m.background_percentage, Scalar::Finite(50_000_000));
    assert_eq!(m.transparent_percentage, Scalar::Finite(25_000_000));
}

#[test]
fn background_channels_are_cut_off_to_bytes() {
    assert_eq!(channel_byte(unit(0.0)), 0);
    assert_eq!(channel_byte(unit(1.0)), 255);
    assert_eq!(channel_byte(unit(0.1)), 25);
    assert_eq!(channel_byte(unit(0.15)), 38);
    assert_eq!(channel_byte(unit(-0.5)), 0);
    assert_eq!(channel_byte(unit(7.0)), 255);
    assert_eq!(channel_byte(Scalar::Finite(999_999)), 254);
    assert_eq!(channel_byte(Scalar::Nan), 0);
    assert_eq!(channel_byte(Scalar::PosInf), 255);
    assert_eq!(channel_byte(Scalar::NegInf), 0);
}

#[test]
fn similar_colors_within_tolerance() {
    assert!(is_similar_color(10, 20, 30, 10, 20, 30, 0));
    assert!(is_similar_color(10, 20, 30, 15, 15, 35, 5));
    assert!(!is_similar_color(10, 20, 30, 16, 20, 30, 5));
    assert!(!is_similar_color(10, 20, 30, 10, 14, 30, 5));
    assert!(!is_similar_color(10, 20, 30, 10, 20, 36, 5));
    assert!(is_similar_color(0, 0, 0, 255, 255, 255, 255));
    assert!(!is_similar_color(0, 0, 0, 255, 255, 255, 254));
}

#[test]
fn ratio_rounds_down() {
    assert_eq!(ratio(1, 3, 1_000_000), Scalar::Finite(333_333));
    assert_eq!(ratio(2, 3, 100_000_000), Scalar::Finite(66_666_666));
    assert_eq!(ratio(0, 3, 100_000_000), Scalar::Finite(0));
    assert_eq!(ratio(3, 3, 100_000_000), Scalar::Finite(100_000_000));
    assert_eq!(ratio(0, 0, 100_000_000), Scalar::Nan);
    assert_eq!(
        ratio(u32::MAX, u32::MAX, 100_000_000),
        Scalar::Finite(100_000_000)
    );
}

#[test]
fn edge_density_is_zero_below_three_by_three() {
    let pixels = solid(2, 9, [200, 0, 0, 255]);
    assert_eq!(compute_edge_density(&pixels, 2, 9), Scalar::Finite(0));
    let pixels = solid(9, 2, [200, 0, 0, 255]);
    assert_eq!(compute_edge_density(&pixels, 9, 2), Scalar::Finite(0));
    assert_eq!(compute_edge_density(&[], 0, 0), Scalar::Finite(0));
}

#[test]
fn edge_density_counts_interior_pixels_over_the_threshold() {
    // 4 by 3: the interior is the pixels (1, 1) and (2, 1).
    let mut pixels = solid(4, 3, [0, 0, 0, 255]);
    // Left neighbour of (1, 1) is black, right neighbour (2, 1) is white.
    set_pixel(&mut pixels, 4, 2, 1, [255, 255, 255, 255]);
    // (1, 1): |255 - 0| + 0 = 255, an edge. (2, 1): neighbours (1, 1) and
    // (3, 1) are both black, above and below too: no edge.
    assert_eq!(compute_edge_density(&pixels, 4, 3), Scalar::Finite(500_000));
    let m = metrics(&pixels, 4, 3, [0.0, 0.0, 0.0, 1.0]);
    assert_eq!(m.edge_density, Scalar::Finite(500_000));
}

#[test]
fn edge_threshold_is_thirty() {
    // 3 by 3 with one interior pixel; the luminance is the mean of R, G, B.
    let mut pixels = solid(3, 3, [0, 0, 0, 255]);
    set_pixel(&mut pixels, 3, 2, 1, [30, 30, 30, 255]);
    assert_eq!(compute_edge_density(&pixels, 3, 3), Scalar::Finite(0));
    set_pixel(&mut pixels, 3, 2, 1, [31, 31, 31, 255]);
    assert_eq!(compute_edge_density(&pixels, 3, 3), Scalar::Finite(1_000_000));
    // Horizontal and vertical differences add up: 16 + 15 = 31.
    set_pixel(&mut pixels, 3, 2, 1, [16, 16, 16, 255]);
    set_pixel(&mut pixels, 3, 1, 0, [15, 15, 15, 255]);
    assert_eq!(compute_edge_density(&pixels, 3, 3), Scalar::Finite(1_000_000));
    set_pixel(&mut pixels, 3, 1, 0, [14, 14, 14, 255]);
    assert_eq!(compute_edge_density(&pixels, 3, 3), Scalar::Finite(0));
    // The mean is unweighted and rounded down: (92 + 0 + 0) / 3 = 30.
    set_pixel(&mut pixels, 3, 1, 0, [0, 0, 0, 255]);
    set_pixel(&mut pixels, 3, 2, 1, [92, 0, 0, 255]);
    assert_eq!(compute_edge_density(&pixels, 3, 3), Scalar::Finite(0));
    set_pixel(&mut pixels, 3, 2, 1, [93, 0, 0, 255]);
    assert_eq!(compute_edge_density(&pixels, 3, 3), Scalar::Finite(1_000_000));
}

#[test]
fn dominant_colors_are_ranked_by_count_then_by_first_encounter() {
    let mut pixels = Vec::new();
    let blue = [0u8, 0, 255, 255];
    let green = [0u8, 255, 0, 255];
    let red = [255u8, 0, 0, 255];
    // Hardly opaque pixels do not count: alpha must be above 128.
    pixels.extend_from_slice(&[255, 255, 255, 128]);
    pixels.extend_from_slice(&[255, 255, 255, 0]);
    for c in [green, red, blue, red, blue, green, red] {
        pixels.extend_from_slice(&c);
    }
    let colors = find_dominant_colors(&pixels);
    // Red three times; green and blue twice, green met first.
    assert_eq!(colors, vec![[248, 8, 8], [8, 248, 8], [8, 8, 248]]);
}

#[test]
fn dominant_colors_quantize_to_bin_centers() {
    let pixels = vec![17, 33, 49, 129, 31, 47, 63, 255, 0, 15, 16, 200];
    let colors = find_dominant_colors(&pixels);
    // The first two pixels fall in the same bins (1, 2, 3).
    assert_eq!(colors, vec![[24, 40, 56], [8, 8, 24]]);
}

#[test]
fn dominant_colors_are_at_most_five() {
    let mut pixels = Vec::new();
    // Seven colours; colour k occurs k + 1 times.
    for k in 0..7u8 {
        for _ in 0..=k {
            pixels.extend_from_slice(&[k * 16, 0, 0, 255]);
        }
    }
    let colors = find_dominant_colors(&pixels);
    assert_eq!(
        colors,
        vec![[104, 8, 8], [88, 8, 8], [72, 8, 8], [56, 8, 8], [40, 8, 8]]
    );
    assert!(find_dominant_colors(&[]).is_empty());
    assert!(find_dominant_colors(&[9, 9, 9, 128]).is_empty());
}

#[test]
fn connected_components_on_a_row_of_blocks() {
    // 32 by 8 pixels: four blocks in a row, sampled at x = 4, 12, 20, 28, y = 4.
    let white = [255u8, 255, 255, 255];
    let mut pixels = solid(32, 8, [0, 0, 0, 255]);
    assert_eq!(estimate_connected_components(&pixels, 32, 8, 0, 0, 0), 0);
    set_pixel(&mut pixels, 32, 4, 4, white);
    assert_eq!(estimate_connected_components(&pixels, 32, 8, 0, 0, 0), 1);
    set_pixel(&mut pixels, 32, 20, 4, white);
    assert_eq!(estimate_connected_components(&pixels, 32, 8, 0, 0, 0), 2);
    set_pixel(&mut pixels, 32, 28, 4, white);
    assert_eq!(estimate_connected_components(&pixels, 32, 8, 0, 0, 0), 2);
    set_pixel(&mut pixels, 32, 12, 4, white);
    assert_eq!(estimate_connected_components(&pixels, 32, 8, 0, 0, 0), 1);
    // Pixels that are not sampled do not matter.
    set_pixel(&mut pixels, 32, 4, 4, [0, 0, 0, 255]);
    set_pixel(&mut pixels, 32, 5, 4, white);
    assert_eq!(estimate_connected_components(&pixels, 32, 8, 0, 0, 0), 1);
    set_pixel(&mut pixels, 32, 20, 4, [0, 0, 0, 255]);
    assert_eq!(estimate_connected_components(&pixels, 32, 8, 0, 0, 0), 2);
}

#[test]
fn connected_components_do_not_join_diagonally() {
    // 16 by 16 pixels: two by two blocks, sampled at (4, 4), (12, 4), (4, 12), (12, 12).
    let white = [255u8, 255, 255, 255];
    let mut pixels = solid(16, 16, [0, 0, 0, 255]);
    set_pixel(&mut pixels, 16, 4, 4, white);
    set_pixel(&mut pixels, 16, 12, 12, white);
    assert_eq!(estimate_connected_components(&pixels, 16, 16, 0, 0, 0), 2);
    set_pixel(&mut pixels, 16, 12, 4, white);
    assert_eq!(estimate_connected_components(&pixels, 16, 16, 0, 0, 0), 1);
}

#[test]
fn connected_components_tolerance_is_ten() {
    let mut pixels = solid(8, 8, [100, 100, 100, 255]);
    set_pixel(&mut pixels, 8, 4, 4, [110, 90, 100, 255]);
    assert_eq!(estimate_connected_components(&pixels, 8, 8, 100, 100, 100), 0);
    set_pixel(&mut pixels, 8, 4, 4, [111, 100, 100, 255]);
    assert_eq!(estimate_connected_components(&pixels, 8, 8, 100, 100, 100), 1);
}

#[test]
fn small_images_are_one_block_sampled_inside() {
    // 3 by 2: the block centre (4, 4) is cut back to the last pixel (2, 1).
    let mut pixels = solid(3, 2, [0, 0, 0, 255]);
    assert_eq!(estimate_connected_components(&pixels, 3, 2, 0, 0, 0), 0);
    set_pixel(&mut pixels, 3, 2, 1, [200, 0, 0, 255]);
    assert_eq!(estimate_connected_components(&pixels, 3, 2, 0, 0, 0), 1);
}

#[test]
fn image_without_pixels_has_no_metrics_to_speak_of() {
    let m = metrics(&[], 0, 0, [0.0, 0.0, 0.0, 1.0]);
    assert_eq!(m.histogram.red.iter().sum::<u32>(), 0);
    assert_eq!(m.transparent_percentage, Scalar::Nan);
    assert_eq!(m.background_percentage, Scalar::Nan);
    assert_eq!(m.edge_density, Scalar::Finite(0));
    assert_eq!(m.connected_components, 0);
    assert!(m.dominant_colors.is_empty());
    let m = metrics(&[], 0, 7, [0.0, 0.0, 0.0, 1.0]);
    assert_eq!(m.connected_components, 0);
}

#[test]
fn flood_fill_covers_exactly_the_region_of_the_start() {
    // . X X .
    // X . X .
    // X . . X
    let mask = vec![
        false, true, true, false, //
        true, false, true, false, //
        true, false, false, true,
    ];
    let mut visited = vec![false; 12];
    flood_fill(&mask, &mut visited, 4, 3, 1);
    let mut expected = vec![false; 12];
    expected[1] = true;
    expected[2] = true;
    expected[6] = true;
    assert_eq!(visited, expected);
    flood_fill(&mask, &mut visited, 4, 3, 4);
    expected[4] = true;
    expected[8] = true;
    assert_eq!(visited, expected);
    // Starting on a clear cell, a covered cell or off the grid changes nothing.
    flood_fill(&mask, &mut visited, 4, 3, 0);
    flood_fill(&mask, &mut visited, 4, 3, 1);
    flood_fill(&mask, &mut visited, 4, 3, 99);
    assert_eq!(visited, expected);
    flood_fill(&mask, &mut visited, 4, 3, 11);
    expected[11] = true;
    assert_eq!(visited, expected);
}

#[test]
fn flood_fill_stops_at_covered_cells() {
    let mask = vec![true; 5];
    let mut visited = vec![false, false, true, false, false];
    flood_fill(&mask, &mut visited, 5, 1, 0);
    assert_eq!(visited, vec![true, true, true, false, false]);
}

#[test]
fn flood_fill_does_not_wrap_around_row_ends() {
    // . X
    // X .
    // The two set cells follow each other in memory but are no neighbours.
    let mask = vec![false, true, true, false];
    let mut visited = vec![false; 4];
    flood_fill(&mask, &mut visited, 2, 2, 1);
    assert_eq!(visited, vec![false, true, false, false]);
    flood_fill(&mask, &mut visited, 2, 2, 2);
    assert_eq!(visited, vec![false, true, true, false]);
}

#[test]
fn buffers_must_hold_exactly_the_pixels_of_the_image() {
    assert!(buffer_fits(0, 0, 0));
    assert!(buffer_fits(0, 0, 9));
    assert!(buffer_fits(48, 4, 3));
    assert!(!buffer_fits(47, 4, 3));
    assert!(!buffer_fits(49, 4, 3));
    assert!(!buffer_fits(12, 4, 3));
    assert!(buffer_fits(4 * 65_535 * 65_537, 65_535, 65_537));
    // More pixels than a count can hold.
    assert!(!buffer_fits(4 * 65_536 * 65_536, 65_536, 65_536));
    assert!(!buffer_fits(0, u32::MAX, u32::MAX));
}
