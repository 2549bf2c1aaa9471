//! Metrics derived from rendered pixels.
//!
//! The pixel buffer is row-major RGBA with four bytes per pixel and no
//! padding. All metrics are pure functions of the buffer.

use crate::audit::{ColorHistogram, ImageMetrics};
use crate::regions::{
    covers_earlier, flood_fill, lemma_cover_filled, lemma_cover_initial, lemma_cover_unchanged,
    lemma_region_count_bound, lemma_start_iff_uncovered, region_count,
};
use crate::scalar::Scalar;
use vstd::prelude::*;

verus! {

/// Per-channel tolerance when counting background pixels.
pub const BACKGROUND_TOLERANCE: u8 = 5;

/// Fixed-point units in one hundred percent.
pub const FULL_PERCENTAGE: u64 = 100_000_000;

/// Distance between two channel values.
pub open spec fn channel_distance(a: u8, b: u8) -> int {
    if a >= b {
        a - b
    } else {
        b - a
    }
}

/// Two colours are similar when every channel differs by at most the tolerance.
pub open spec fn similar(r1: u8, g1: u8, b1: u8, r2: u8, g2: u8, b2: u8, tolerance: u8) -> bool {
    channel_distance(r1, r2) <= tolerance && channel_distance(g1, g2) <= tolerance
        && channel_distance(b1, b2) <= tolerance
}

/// Check if two colours are similar within tolerance.
pub fn is_similar_color(r1: u8, g1: u8, b1: u8, r2: u8, g2: u8, b2: u8, tolerance: u8) -> (r: bool)
    ensures
        r == similar(r1, g1, b1, r2, g2, b2, tolerance),
{
    let dr: u8 = if r1 >= r2 { r1 - r2 } else { r2 - r1 };
    let dg: u8 = if g1 >= g2 { g1 - g2 } else { g2 - g1 };
    let db: u8 = if b1 >= b2 { b1 - b2 } else { b2 - b1 };
    dr <= tolerance && dg <= tolerance && db <= tolerance
}

/// Among the first `n` pixels, how many have the given channel in `bin`.
pub open spec fn bin_count(pixels: Seq<u8>, channel: int, bin: int, n: nat) -> nat
    decreases n,
{
    if n == 0 {
        0
    } else {
        bin_count(pixels, channel, bin, (n - 1) as nat) + if pixels[4 * (n - 1) + channel] / 16
            == bin {
            1nat
        } else {
            0nat
        }
    }
}

/// Among the first `n` pixels, how many are fully transparent.
pub open spec fn transparent_count(pixels: Seq<u8>, n: nat) -> nat
    decreases n,
{
    if n == 0 {
        0
    } else {
        transparent_count(pixels, (n - 1) as nat) + if pixels[4 * (n - 1) + 3] == 0 {
            1nat
        } else {
            0nat
        }
    }
}

/// Among the first `n` pixels, how many are within `tolerance` of a colour.
pub open spec fn similar_count(
    pixels: Seq<u8>,
    r: u8,
    g: u8,
    b: u8,
    tolerance: u8,
    n: nat,
) -> nat
    decreases n,
{
    if n == 0 {
        0
    } else {
        similar_count(pixels, r, g, b, tolerance, (n - 1) as nat) + if similar(
            pixels[4 * (n - 1)],
            pixels[4 * (n - 1) + 1],
            pixels[4 * (n - 1) + 2],
            r,
            g,
            b,
            tolerance,
        ) {
            1nat
        } else {
            0nat
        }
    }
}

/// Sum of the sixteen bins of one channel.
pub open spec fn bin_total(bins: [u32; 16]) -> int {
    bins[0] + bins[1] + bins[2] + bins[3] + bins[4] + bins[5] + bins[6] + bins[7] + bins[8]
        + bins[9] + bins[10] + bins[11] + bins[12] + bins[13] + bins[14] + bins[15]
}

/// A channel's bins hold the bin counts of the first `n` pixels.
pub open spec fn bins_match(bins: [u32; 16], pixels: Seq<u8>, channel: int, n: nat) -> bool {
    forall|b: int| 0 <= b < 16 ==> bins[b] == #[trigger] bin_count(pixels, channel, b, n)
}

/// `count` out of `total` as a percentage; undefined (`Nan`) of nothing.
pub open spec fn percentage(count: nat, total: nat) -> Scalar {
    if total == 0 {
        Scalar::Nan
    } else {
        Scalar::Finite((count * 100_000_000 / total) as i64)
    }
}

/// `count` out of `total` as a share of one; undefined (`Nan`) of nothing.
pub open spec fn share(count: nat, total: nat) -> Scalar {
    if total == 0 {
        Scalar::Nan
    } else {
        Scalar::Finite((count * 1_000_000 / total) as i64)
    }
}

/// A colour channel given as a share of one, as a byte: scaled to 255 and cut
/// off, with everything below zero at 0 and everything above one at 255.
pub open spec fn unit_to_byte(s: Scalar) -> u8 {
    match s {
        Scalar::Nan => 0,
        Scalar::NegInf => 0,
        Scalar::PosInf => 255,
        Scalar::Finite(v) => if v <= 0 {
            0
        } else if v >= 1_000_000 {
            255
        } else {
            (v * 255 / 1_000_000) as u8
        },
    }
}

/// Converts a colour channel from a share of one to a byte.
pub fn channel_byte(s: Scalar) -> (r: u8)
    ensures
        r == unit_to_byte(s),
{
    match s {
        Scalar::Nan => 0,
        Scalar::NegInf => 0,
        Scalar::PosInf => 255,
        Scalar::Finite(v) => if v <= 0 {
            0
        } else if v >= 1_000_000 {
            255
        } else {
            let scaled: u64 = (v as u64) * 255 / 1_000_000;
            scaled as u8
        },
    }
}

/// Computes `count * scale / total` as a scalar; `Nan` when `total` is zero.
pub fn ratio(count: u32, total: u32, scale: u64) -> (r: Scalar)
    requires
        count <= total,
        scale <= 100_000_000,
    ensures
        r == (if total == 0 {
            Scalar::Nan
        } else {
            Scalar::Finite((count as nat * scale as nat / total as nat) as i64)
        }),
        total > 0 ==> r is Finite && 0 <= r->Finite_0 <= scale,
        count == total && total > 0 ==> r == Scalar::Finite(scale as i64),
        count == 0 && total > 0 ==> r == Scalar::Finite(0),
{
    if total == 0 {
        Scalar::Nan
    } else {
        assert(count as nat * scale as nat <= total as nat * scale as nat) by (nonlinear_arith)
            requires
                count <= total,
        ;
        assert(total as nat * scale as nat <= 0xffff_ffff * 100_000_000) by (nonlinear_arith)
            requires
                total <= 0xffff_ffff,
                scale <= 100_000_000,
        ;
        let product: u64 = (count as u64) * scale;
        let q: u64 = product / (total as u64);
        assert(q <= scale) by (nonlinear_arith)
            requires
                q == product / (total as u64),
                product <= total as u64 * scale,
                total > 0,
        ;
        assert(count == total ==> q == scale) by (nonlinear_arith)
            requires
                q == product / (total as u64),
                product == count as u64 * scale,
                total > 0,
        ;
        Scalar::Finite(q as i64)
    }
}

/// Sum of absolute luminance differences above which a pixel is on an edge.
pub const EDGE_THRESHOLD: u16 = 30;

/// Luminance of the pixel at column `x`, row `y`: the unweighted mean of its
/// red, green and blue.
pub open spec fn luminance(pixels: Seq<u8>, width: int, x: int, y: int) -> int {
    let i = (y * width + x) * 4;
    (pixels[i] + pixels[i + 1] + pixels[i + 2]) / 3
}

/// Whether the pixel at (`x`, `y`) lies on an edge: the luminance differences
/// between its left and right and between its upper and lower neighbours sum
/// to more than the threshold.
pub open spec fn is_edge(pixels: Seq<u8>, width: int, x: int, y: int) -> bool {
    let gx = luminance(pixels, width, x + 1, y) - luminance(pixels, width, x - 1, y);
    let gy = luminance(pixels, width, x, y + 1) - luminance(pixels, width, x, y - 1);
    (if gx < 0 { -gx } else { gx }) + (if gy < 0 { -gy } else { gy }) > 30
}

/// Edge pixels of row `y` in columns `1..x_end`.
pub open spec fn edges_in_row(pixels: Seq<u8>, width: int, y: int, x_end: int) -> nat
    decreases x_end,
{
    if x_end <= 1 {
        0
    } else {
        edges_in_row(pixels, width, y, x_end - 1) + if is_edge(pixels, width, x_end - 1, y) {
            1nat
        } else {
            0nat
        }
    }
}

/// Edge pixels of rows `1..y_end`, each taken over its interior columns.
pub open spec fn edges_in_rows(pixels: Seq<u8>, width: int, y_end: int) -> nat
    decreases y_end,
{
    if y_end <= 1 {
        0
    } else {
        edges_in_rows(pixels, width, y_end - 1) + edges_in_row(
            pixels,
            width,
            y_end - 1,
            width - 1,
        )
    }
}

/// Share of interior pixels that lie on an edge; zero for images with no
/// interior.
pub open spec fn edge_density(pixels: Seq<u8>, width: nat, height: nat) -> Scalar {
    if width < 3 || height < 3 {
        Scalar::Finite(0)
    } else {
        share(
            edges_in_rows(pixels, width as int, height - 1),
            ((width - 2) * (height - 2)) as nat,
        )
    }
}

/// A pixel inside a `w` by `h` image starts inside the buffer.
pub proof fn lemma_pixel_in_buffer(w: int, h: int, x: int, y: int)
    requires
        0 <= x < w,
        0 <= y < h,
    ensures
        0 <= y * w,
        0 <= y * w + x < w * h,
        0 <= (y * w + x) * 4,
        (y * w + x) * 4 + 3 < w * h * 4,
{
    assert(0 <= y * w) by (nonlinear_arith)
        requires
            0 <= x < w,
            0 <= y < h,
    ;
    assert(y * w + x < w * h) by (nonlinear_arith)
        requires
            0 <= x < w,
            0 <= y < h,
    ;
    assert(0 <= y * w + x) by (nonlinear_arith)
        requires
            0 <= x < w,
            0 <= y < h,
    ;
}

fn luminance_at(pixels: &[u8], w: usize, h: usize, x: usize, y: usize) -> (r: u16)
    requires
        pixels@.len() == w * h * 4,
        x < w,
        y < h,
    ensures
        r == luminance(pixels@, w as int, x as int, y as int),
        r <= 255,
{
    let len: usize = pixels.len();
    proof {
        lemma_pixel_in_buffer(w as int, h as int, x as int, y as int);
        assert((y * w + x) * 4 + 3 < len);
    }
    let i: usize = (y * w + x) * 4;
    (pixels[i] as u16 + pixels[i + 1] as u16 + pixels[i + 2] as u16) / 3
}

/// Compute edge density using a simple gradient magnitude approach.
pub fn compute_edge_density(pixels: &[u8], width: u32, height: u32) -> (r: Scalar)
    requires
        pixels@.len() == width * height * 4,
        width * height <= u32::MAX,
    ensures
        r == edge_density(pixels@, width as nat, height as nat),
        r is Finite,
        0 <= r->Finite_0 <= 1_000_000,
{
    if width < 3 || height < 3 {
        return Scalar::Finite(0);
    }
    let w: usize = width as usize;
    let h: usize = height as usize;
    let mut edge_count: u32 = 0;
    let mut y: usize = 1;
    assert((w - 2) * (h - 2) <= w * h) by (nonlinear_arith)
        requires
            w >= 3,
            h >= 3,
    ;
    assert((w - 2) * (h - 2) > 0) by (nonlinear_arith)
        requires
            w >= 3,
            h >= 3,
    ;
    while y < h - 1
        invariant
            1 <= y <= h - 1,
            w == width,
            h == height,
            w >= 3,
            h >= 3,
            pixels@.len() == w * h * 4,
            w * h <= u32::MAX,
            (w - 2) * (h - 2) <= w * h,
            edge_count == edges_in_rows(pixels@, w as int, y as int),
            edge_count <= (y - 1) * (w - 2),
        decreases h - y,
    {
        let mut x: usize = 1;
        let ghost before = edge_count;
        assert((y - 1) * (w - 2) + (w - 2) == y * (w - 2)) by (nonlinear_arith);
        assert(y * (w - 2) <= (h - 2) * (w - 2)) by (nonlinear_arith)
            requires
                y <= h - 2,
                w >= 3,
        ;
        assert((h - 2) * (w - 2) == (w - 2) * (h - 2)) by (nonlinear_arith);
        while x < w - 1
            invariant
                1 <= x <= w - 1,
                1 <= y < h - 1,
                w >= 3,
                h >= 3,
                pixels@.len() == w * h * 4,
                w * h <= u32::MAX,
                (y - 1) * (w - 2) + (w - 2) <= w * h,
                before <= (y - 1) * (w - 2),
                edge_count == before + edges_in_row(pixels@, w as int, y as int, x as int),
                edge_count <= before + (x - 1),
            decreases w - x,
        {
            let right = luminance_at(pixels, w, h, x + 1, y);
            let left = luminance_at(pixels, w, h, x - 1, y);
            let down = luminance_at(pixels, w, h, x, y + 1);
            let up = luminance_at(pixels, w, h, x, y - 1);
            let gx: u16 = if right >= left { right - left } else { left - right };
            let gy: u16 = if down >= up { down - up } else { up - down };
            if gx + gy > EDGE_THRESHOLD {
                edge_count = edge_count + 1;
            }
            x = x + 1;
        }
        y = y + 1;
    }
    let interior: u32 = ((w - 2) * (h - 2)) as u32;
    assert((h - 2) * (w - 2) == (w - 2) * (h - 2)) by (nonlinear_arith);
    ratio(edge_count, interior, 1_000_000)
}

/// Number of quantized colours: sixteen levels in each of three channels.
pub const COLOR_KEYS: usize = 4096;

/// At most this many dominant colours are reported.
pub const MAX_DOMINANT: usize = 5;

/// Whether pixel `p` is opaque enough to count towards the dominant colours.
pub open spec fn opaque_enough(pixels: Seq<u8>, p: int) -> bool {
    pixels[4 * p + 3] > 128
}

/// The quantized colour of pixel `p`: sixteen levels per channel, red in the
/// highest place.
pub open spec fn pixel_key(pixels: Seq<u8>, p: int) -> int {
    (pixels[4 * p] / 16) * 256 + (pixels[4 * p + 1] / 16) * 16 + pixels[4 * p + 2] / 16
}

/// Among the first `n` pixels, how many are opaque enough and quantize to `key`.
pub open spec fn key_count(pixels: Seq<u8>, key: int, n: nat) -> nat
    decreases n,
{
    if n == 0 {
        0
    } else {
        key_count(pixels, key, (n - 1) as nat) + if opaque_enough(pixels, n - 1) && pixel_key(
            pixels,
            n - 1,
        ) == key {
            1nat
        } else {
            0nat
        }
    }
}

/// Among the first `n` pixels, the index of the first that is opaque enough
/// and quantizes to `key`; `n` if there is none.
pub open spec fn key_first(pixels: Seq<u8>, key: int, n: nat) -> nat
    decreases n,
{
    if n == 0 {
        0
    } else {
        let before = key_first(pixels, key, (n - 1) as nat);
        if before < n - 1 {
            before
        } else if opaque_enough(pixels, n - 1) && pixel_key(pixels, n - 1) == key {
            (n - 1) as nat
        } else {
            n
        }
    }
}

/// Colour `a` ranks before colour `b`: it is more frequent, or as frequent
/// and met earlier.
pub open spec fn ranks_before(pixels: Seq<u8>, a: int, b: int) -> bool {
    let n = pixels.len() / 4;
    key_count(pixels, a, n) > key_count(pixels, b, n) || (key_count(pixels, a, n) == key_count(
        pixels,
        b,
        n,
    ) && key_first(pixels, a, n) < key_first(pixels, b, n))
}

/// `keys` are the most dominant quantized colours of the buffer, in rank
/// order: at most five, each present, each ranking before the next, and every
/// present colour that is left out ranks after the last of five.
pub open spec fn dominant_keys(pixels: Seq<u8>, keys: Seq<int>) -> bool {
    let n = pixels.len() / 4;
    &&& keys.len() <= 5
    &&& forall|i: int|
        0 <= i < keys.len() ==> 0 <= #[trigger] keys[i] < 4096 && key_count(pixels, keys[i], n) > 0
    &&& forall|i: int, j: int|
        0 <= i < j < keys.len() ==> ranks_before(pixels, #[trigger] keys[i], #[trigger] keys[j])
    &&& forall|k: int|
        0 <= k < 4096 && #[trigger] key_count(pixels, k, n) > 0 && !keys.contains(k) ==> keys.len()
            == 5 && ranks_before(pixels, keys[4], k)
}

/// The quantized colour that a reported colour stands for.
pub open spec fn color_key(c: [u8; 3]) -> int {
    (c[0] / 16) * 256 + (c[1] / 16) * 16 + c[2] / 16
}

/// A reported colour sits at the centre of its bin in every channel.
pub open spec fn bin_centered(c: [u8; 3]) -> bool {
    c[0] % 16 == 8 && c[1] % 16 == 8 && c[2] % 16 == 8
}

/// The reported colours are the dominant colours of the buffer.
pub open spec fn dominant_colors(pixels: Seq<u8>, colors: Seq<[u8; 3]>) -> bool {
    &&& dominant_keys(pixels, colors.map_values(|c: [u8; 3]| color_key(c)))
    &&& forall|i: int| 0 <= i < colors.len() ==> bin_centered(#[trigger] colors[i])
}

/// A colour is present exactly when it has a first occurrence, which then is
/// a pixel of that colour.
pub proof fn lemma_key_first(pixels: Seq<u8>, key: int, n: nat)
    ensures
        key_first(pixels, key, n) <= n,
        key_count(pixels, key, n) <= n,
        key_count(pixels, key, n) > 0 <==> key_first(pixels, key, n) < n,
        key_first(pixels, key, n) < n ==> opaque_enough(pixels, key_first(pixels, key, n) as int)
            && pixel_key(pixels, key_first(pixels, key, n) as int) == key,
    decreases n,
{
    if n > 0 {
        lemma_key_first(pixels, key, (n - 1) as nat);
    }
}

/// Two different colours that are both present are ranked one way or the other.
pub proof fn lemma_rank_total(pixels: Seq<u8>, a: int, b: int)
    requires
        a != b,
        key_count(pixels, a, pixels.len() / 4) > 0,
        key_count(pixels, b, pixels.len() / 4) > 0,
    ensures
        ranks_before(pixels, a, b) || ranks_before(pixels, b, a),
        !(ranks_before(pixels, a, b) && ranks_before(pixels, b, a)),
{
    lemma_key_first(pixels, a, pixels.len() / 4);
    lemma_key_first(pixels, b, pixels.len() / 4);
}

/// Ranking is transitive.
pub proof fn lemma_rank_transitive(pixels: Seq<u8>, a: int, b: int, c: int)
    requires
        ranks_before(pixels, a, b),
        ranks_before(pixels, b, c),
    ensures
        ranks_before(pixels, a, c),
{
}

/// Compares two present colours by their tallies.
fn tally_ranks_before(counts: &Vec<usize>, firsts: &Vec<usize>, a: usize, b: usize) -> (r: bool)
    requires
        counts.len() == 4096,
        firsts.len() == 4096,
        a < 4096,
        b < 4096,
    ensures
        r == (counts[a as int] > counts[b as int] || (counts[a as int] == counts[b as int]
            && firsts[a as int] < firsts[b as int])),
{
    counts[a] > counts[b] || (counts[a] == counts[b] && firsts[a] < firsts[b])
}

/// The tallies hold, for every colour, its count and (if present) its first
/// occurrence among the first `n` pixels.
pub open spec fn tallied(pixels: Seq<u8>, counts: Seq<usize>, firsts: Seq<usize>, n: nat) -> bool {
    &&& counts.len() == 4096
    &&& firsts.len() == 4096
    &&& forall|k: int|
        0 <= k < 4096 ==> #[trigger] counts[k] == key_count(pixels, k, n) && (counts[k] > 0
            ==> firsts[k] == key_first(pixels, k, n))
}

/// Counts every quantized colour among the opaque-enough pixels and records
/// where each is first met.
fn tally_colors(pixels: &[u8]) -> (r: (Vec<usize>, Vec<usize>))
    requires
        pixels@.len() % 4 == 0,
    ensures
        tallied(pixels@, r.0@, r.1@, pixels@.len() / 4),
{
    let len: usize = pixels.len();
    let n: usize = len / 4;
    let mut counts: Vec<usize> = Vec::new();
    let mut firsts: Vec<usize> = Vec::new();
    let mut k: usize = 0;
    while k < COLOR_KEYS
        invariant
            k <= 4096,
            counts.len() == k,
            firsts.len() == k,
            forall|j: int| 0 <= j < k ==> counts[j] == 0,
        decreases 4096 - k,
    {
        counts.push(0);
        firsts.push(0);
        k = k + 1;
    }
    let mut i: usize = 0;
    while i < n
        invariant
            i <= n,
            len == pixels@.len(),
            n == len / 4,
            tallied(pixels@, counts@, firsts@, i as nat),
        decreases n - i,
    {
        let r = pixels[4 * i];
        let g = pixels[4 * i + 1];
        let b = pixels[4 * i + 2];
        let a = pixels[4 * i + 3];
        let ghost old_counts = counts@;
        let ghost old_firsts = firsts@;
        if a > 128 {
            let key: usize = (r / 16) as usize * 256 + (g / 16) as usize * 16 + (b / 16) as usize;
            proof {
                lemma_key_first(pixels@, key as int, i as nat);
            }
            if counts[key] == 0 {
                firsts.set(key, i);
            }
            let c = counts[key];
            counts.set(key, c + 1);
        }
        proof {
            assert forall|k: int| 0 <= k < 4096 implies #[trigger] counts@[k] == key_count(
                pixels@,
                k,
                (i + 1) as nat,
            ) && (counts@[k] > 0 ==> firsts@[k] == key_first(pixels@, k, (i + 1) as nat)) by {
                lemma_key_first(pixels@, k, i as nat);
                assert(old_counts[k] == key_count(pixels@, k, i as nat));
            }
        }
        i = i + 1;
    }
    (counts, firsts)
}

/// Where two rankings agree before place `i`, the colour of the one at place
/// `i` does not rank before that of the other.
proof fn lemma_dominant_place(pixels: Seq<u8>, a: Seq<int>, b: Seq<int>, i: int)
    requires
        dominant_keys(pixels, a),
        dominant_keys(pixels, b),
        0 <= i < a.len(),
        i < b.len(),
        forall|j: int| 0 <= j < i ==> a[j] == b[j],
    ensures
        !ranks_before(pixels, a[i], b[i]),
{
    if !ranks_before(pixels, a[i], b[i]) {
    } else if b.contains(a[i]) {
        let j = choose|j: int| 0 <= j < b.len() && b[j] == a[i];
        if j < i {
            assert(a[j] == b[j]);
            assert(ranks_before(pixels, a[j], a[i]));
        } else if j > i {
            assert(ranks_before(pixels, b[i], b[j]));
        }
    } else {
        assert(key_count(pixels, a[i], pixels.len() / 4) > 0);
        assert(ranks_before(pixels, b[4], a[i]));
        if i < 4 {
            assert(ranks_before(pixels, b[i], b[4]));
            lemma_rank_transitive(pixels, b[i], b[4], a[i]);
        }
    }
}

/// The dominant colours of a buffer are determined: two rankings of the
/// same buffer are the same.
pub proof fn lemma_dominant_unique(pixels: Seq<u8>, a: Seq<int>, b: Seq<int>)
    requires
        dominant_keys(pixels, a),
        dominant_keys(pixels, b),
    ensures
        a == b,
{
    lemma_dominant_agree(pixels, a, b, if a.len() <= b.len() { a.len() } else { b.len() });
    if a.len() <= b.len() {
        lemma_dominant_longer(pixels, a, b);
    } else {
        assert forall|j: int| 0 <= j < b.len() implies b[j] == a[j] by {}
        lemma_dominant_longer(pixels, b, a);
    }
    assert(a =~= b);
}

/// Two rankings of the same buffer agree in their first `n` places.
proof fn lemma_dominant_agree(pixels: Seq<u8>, a: Seq<int>, b: Seq<int>, n: nat)
    requires
        dominant_keys(pixels, a),
        dominant_keys(pixels, b),
        n <= a.len(),
        n <= b.len(),
    ensures
        forall|j: int| 0 <= j < n ==> a[j] == b[j],
    decreases n,
{
    if n > 0 {
        lemma_dominant_agree(pixels, a, b, (n - 1) as nat);
        let i = n - 1;
        if a[i] != b[i] {
            assert(key_count(pixels, a[i], pixels.len() / 4) > 0);
            assert(key_count(pixels, b[i], pixels.len() / 4) > 0);
            lemma_rank_total(pixels, a[i], b[i]);
            lemma_dominant_place(pixels, a, b, i);
            assert forall|j: int| 0 <= j < i implies b[j] == a[j] by {}
            lemma_dominant_place(pixels, b, a, i);
        }
    }
}

/// A ranking that begins with all of another ranking is no longer than it.
proof fn lemma_dominant_longer(pixels: Seq<u8>, a: Seq<int>, b: Seq<int>)
    requires
        dominant_keys(pixels, a),
        dominant_keys(pixels, b),
        a.len() <= b.len(),
        forall|j: int| 0 <= j < a.len() ==> a[j] == b[j],
    ensures
        a.len() == b.len(),
{
    if a.len() < b.len() {
        let n = a.len() as int;
        let extra = b[n];
        assert(key_count(pixels, extra, pixels.len() / 4) > 0);
        if a.contains(extra) {
            let j = choose|j: int| 0 <= j < a.len() && a[j] == extra;
            assert(b[j] == a[j]);
            assert(ranks_before(pixels, b[j], b[n]));
        }
    }
}

/// A colour is still to be reported: it is present and ranks after the one
/// reported last, if any.
pub open spec fn awaits_report(pixels: Seq<u8>, last: Option<usize>, k: int) -> bool {
    &&& 0 <= k < 4096
    &&& key_count(pixels, k, pixels.len() / 4) > 0
    &&& match last {
        None => true,
        Some(p) => ranks_before(pixels, p as int, k),
    }
}

/// `keys` are the first colours of the ranking: each present, each ranking
/// before the next, and every present colour that is left out ranks after
/// the last.
pub open spec fn ranking_prefix(pixels: Seq<u8>, keys: Seq<int>) -> bool {
    let n = pixels.len() / 4;
    &&& forall|i: int|
        0 <= i < keys.len() ==> 0 <= #[trigger] keys[i] < 4096 && key_count(pixels, keys[i], n) > 0
    &&& forall|i: int, j: int|
        0 <= i < j < keys.len() ==> ranks_before(pixels, #[trigger] keys[i], #[trigger] keys[j])
    &&& forall|k: int|
        0 <= k < 4096 && #[trigger] key_count(pixels, k, n) > 0 && !keys.contains(k) ==> keys.len()
            == 0 || ranks_before(pixels, keys.last(), k)
}

/// The colour reported last, if any.
pub open spec fn last_key(keys: Seq<int>) -> Option<usize> {
    if keys.len() == 0 {
        None
    } else {
        Some(keys.last() as usize)
    }
}

/// The best colour still to be reported extends the ranking.
pub proof fn lemma_extend_ranking(pixels: Seq<u8>, keys: Seq<int>, b: int)
    requires
        ranking_prefix(pixels, keys),
        awaits_report(pixels, last_key(keys), b),
        forall|c: int|
            #[trigger] awaits_report(pixels, last_key(keys), c) && c != b ==> ranks_before(
                pixels,
                b,
                c,
            ),
    ensures
        ranking_prefix(pixels, keys.push(b)),
        !keys.contains(b),
{
    let n = pixels.len() / 4;
    let longer = keys.push(b);
    assert forall|i: int| 0 <= i < keys.len() implies ranks_before(
        pixels,
        #[trigger] keys[i],
        b,
    ) by {
        if i < keys.len() - 1 {
            lemma_rank_transitive(pixels, keys[i], keys.last(), b);
        }
    }
    assert(!keys.contains(b));
    assert forall|i: int, j: int| 0 <= i < j < longer.len() implies ranks_before(
        pixels,
        #[trigger] longer[i],
        #[trigger] longer[j],
    ) by {
        assert(longer[i] == keys[i]);
        if j < keys.len() {
            assert(longer[j] == keys[j]);
        }
    }
    assert forall|k: int|
        0 <= k < 4096 && #[trigger] key_count(pixels, k, n) > 0 && !longer.contains(
            k,
        ) implies ranks_before(pixels, longer.last(), k) by {
        assert(longer[keys.len() as int] == b);
        assert(k != b);
        if keys.contains(k) {
            let i = choose|i: int| 0 <= i < keys.len() && keys[i] == k;
            assert(longer[i] == k);
        }
        assert(awaits_report(pixels, last_key(keys), k));
    }
}

/// When no colour is left to report, the ranking holds every present colour.
pub proof fn lemma_ranking_complete(pixels: Seq<u8>, keys: Seq<int>)
    requires
        ranking_prefix(pixels, keys),
        forall|c: int| !#[trigger] awaits_report(pixels, last_key(keys), c),
    ensures
        forall|k: int|
            0 <= k < 4096 && #[trigger] key_count(pixels, k, pixels.len() / 4) > 0
                ==> keys.contains(k),
{
    assert forall|k: int|
        0 <= k < 4096 && #[trigger] key_count(
            pixels,
            k,
            pixels.len() / 4,
        ) > 0 implies keys.contains(k) by {
        if !keys.contains(k) {
            assert(awaits_report(pixels, last_key(keys), k));
        }
    }
}

/// Finds the best-ranked colour still to be reported, if there is one.
fn best_awaiting(
    pixels: &[u8],
    counts: &Vec<usize>,
    firsts: &Vec<usize>,
    last: Option<usize>,
) -> (best: Option<usize>)
    requires
        tallied(pixels@, counts@, firsts@, pixels@.len() / 4),
        match last {
            Some(p) => p < 4096 && key_count(pixels@, p as int, pixels@.len() / 4) > 0,
            None => true,
        },
    ensures
        match best {
            Some(b) => awaits_report(pixels@, last, b as int) && forall|c: int|
                #[trigger] awaits_report(pixels@, last, c) && c != b ==> ranks_before(
                    pixels@,
                    b as int,
                    c,
                ),
            None => forall|c: int| !#[trigger] awaits_report(pixels@, last, c),
        },
{
    let mut best: Option<usize> = None;
    let mut k: usize = 0;
    while k < COLOR_KEYS
        invariant
            k <= 4096,
            tallied(pixels@, counts@, firsts@, pixels@.len() / 4),
            match last {
                Some(p) => p < 4096 && key_count(pixels@, p as int, pixels@.len() / 4) > 0,
                None => true,
            },
            match best {
                Some(b) => b < k && awaits_report(pixels@, last, b as int) && forall|c: int|
                    0 <= c < k && #[trigger] awaits_report(pixels@, last, c) && c != b
                        ==> ranks_before(pixels@, b as int, c),
                None => forall|c: int| 0 <= c < k ==> !#[trigger] awaits_report(pixels@, last, c),
            },
        decreases 4096 - k,
    {
        let after_last = match last {
            None => true,
            Some(p) => tally_ranks_before(counts, firsts, p, k),
        };
        if counts[k] > 0 && after_last {
            assert(awaits_report(pixels@, last, k as int));
            match best {
                None => {
                    best = Some(k);
                },
                Some(b) => {
                    if tally_ranks_before(counts, firsts, k, b) {
                        proof {
                            assert forall|c: int|
                                0 <= c < k + 1 && #[trigger] awaits_report(pixels@, last, c) && c
                                    != k implies ranks_before(pixels@, k as int, c) by {
                                if c != b {
                                    lemma_rank_transitive(pixels@, k as int, b as int, c);
                                }
                            }
                        }
                        best = Some(k);
                    } else {
                        proof {
                            lemma_rank_total(pixels@, k as int, b as int);
                        }
                    }
                },
            }
        } else {
            assert(!awaits_report(pixels@, last, k as int));
        }
        k = k + 1;
    }
    best
}

/// Find the dominant colours: the most frequent quantized colours among the
/// opaque-enough pixels, at most five, most frequent first and, among equally
/// frequent ones, the one met first.
pub fn find_dominant_colors(pixels: &[u8]) -> (out: Vec<[u8; 3]>)
    requires
        pixels@.len() % 4 == 0,
    ensures
        dominant_colors(pixels@, out@),
{
    let (counts, firsts) = tally_colors(pixels);
    let mut out: Vec<[u8; 3]> = Vec::new();
    let ghost mut keys: Seq<int> = Seq::empty();
    let mut last: Option<usize> = None;
    let mut done: bool = false;
    let mut round: usize = 0;
    while round < MAX_DOMINANT && !done
        invariant
            round <= 5,
            tallied(pixels@, counts@, firsts@, pixels@.len() / 4),
            keys.len() == out.len(),
            keys.len() <= round,
            !done ==> keys.len() == round,
            out@.map_values(|c: [u8; 3]| color_key(c)) =~= keys,
            forall|i: int| 0 <= i < out.len() ==> bin_centered(#[trigger] out[i]),
            ranking_prefix(pixels@, keys),
            last == last_key(keys),
            done ==> forall|k: int|
                0 <= k < 4096 && #[trigger] key_count(pixels@, k, pixels@.len() / 4) > 0
                    ==> keys.contains(k),
        decreases 5 - round + (if done { 0int } else { 1int }),
    {
        proof {
            if keys.len() > 0 {
                assert(keys[keys.len() - 1] == keys.last());
            }
        }
        let best = best_awaiting(pixels, &counts, &firsts, last);
        match best {
            None => {
                proof {
                    lemma_ranking_complete(pixels@, keys);
                }
                done = true;
            },
            Some(b) => {
                let level_r: u8 = (b / 256) as u8;
                let level_g: u8 = ((b / 16) % 16) as u8;
                let level_b: u8 = (b % 16) as u8;
                let color: [u8; 3] = [level_r * 16 + 8, level_g * 16 + 8, level_b * 16 + 8];
                assert(color_key(color) == b);
                assert(bin_centered(color));
                proof {
                    lemma_extend_ranking(pixels@, keys, b as int);
                    keys = keys.push(b as int);
                }
                out.push(color);
                last = Some(b);
                assert(out@.map_values(|c: [u8; 3]| color_key(c)) =~= keys);
            },
        }
        round = round + 1;
    }
    proof {
        assert(out@.map_values(|c: [u8; 3]| color_key(c)) =~= keys);
    }
    out
}

/// Side of the square blocks that the image is sampled in.
pub const BLOCK_SIZE: usize = 8;

/// Per-channel tolerance when telling foreground from background blocks.
pub const REGION_TOLERANCE: u8 = 10;

/// Number of blocks along an image side: one per eight pixels, at least one.
pub open spec fn grid_extent(extent: nat) -> nat {
    if extent / 8 >= 1 {
        extent / 8
    } else {
        1
    }
}

/// The pixel coordinate sampled for a block: its centre, kept inside the image.
pub open spec fn sample_at(block: int, extent: int) -> int {
    if block * 8 + 4 < extent - 1 {
        block * 8 + 4
    } else {
        extent - 1
    }
}

/// Whether a block is foreground: the pixel at its centre is not within the
/// tolerance of the background colour. An image without pixels has none.
pub open spec fn block_foreground(
    pixels: Seq<u8>,
    width: nat,
    height: nat,
    r: u8,
    g: u8,
    b: u8,
    block: int,
) -> bool {
    let gw = grid_extent(width) as int;
    let x = sample_at(block % gw, width as int);
    let y = sample_at(block / gw, height as int);
    let i = (y * width + x) * 4;
    width > 0 && height > 0 && !similar(pixels[i], pixels[i + 1], pixels[i + 2], r, g, b, 10)
}

/// The foreground mask of the image on its grid of blocks, row by row.
pub open spec fn foreground_mask(
    pixels: Seq<u8>,
    width: nat,
    height: nat,
    r: u8,
    g: u8,
    b: u8,
) -> Seq<bool> {
    Seq::new(
        grid_extent(width) * grid_extent(height),
        |block: int| block_foreground(pixels, width, height, r, g, b, block),
    )
}

/// Number of connected foreground regions on the grid of blocks.
pub open spec fn component_count(
    pixels: Seq<u8>,
    width: nat,
    height: nat,
    r: u8,
    g: u8,
    b: u8,
) -> nat {
    let mask = foreground_mask(pixels, width, height, r, g, b);
    region_count(mask, grid_extent(width) as int, grid_extent(height) as int, mask.len())
}

/// Estimate connected components using flood fill on the downsampled image.
pub fn estimate_connected_components(
    pixels: &[u8],
    width: u32,
    height: u32,
    bg_r: u8,
    bg_g: u8,
    bg_b: u8,
) -> (r: u32)
    requires
        pixels@.len() == width * height * 4,
        width * height <= u32::MAX,
    ensures
        r == component_count(pixels@, width as nat, height as nat, bg_r, bg_g, bg_b),
{
    let w: usize = width as usize;
    let h: usize = height as usize;
    let small_w: usize = if w / BLOCK_SIZE >= 1 { w / BLOCK_SIZE } else { 1 };
    let small_h: usize = if h / BLOCK_SIZE >= 1 { h / BLOCK_SIZE } else { 1 };
    assert(small_w * small_h <= u32::MAX) by (nonlinear_arith)
        requires
            w * h <= u32::MAX,
            w <= u32::MAX,
            h <= u32::MAX,
            small_w == (if w / 8 >= 1 { w / 8 } else { 1 }),
            small_h == (if h / 8 >= 1 { h / 8 } else { 1 }),
    ;
    let n: usize = small_w * small_h;
    let ghost spec_mask = foreground_mask(pixels@, w as nat, h as nat, bg_r, bg_g, bg_b);
    let mut mask: Vec<bool> = Vec::new();
    let mut block: usize = 0;
    while block < n
        invariant
            block <= n,
            n == small_w * small_h,
            small_w == grid_extent(w as nat),
            small_h == grid_extent(h as nat),
            w == width,
            h == height,
            pixels@.len() == w * h * 4,
            mask.len() == block,
            forall|k: int|
                0 <= k < block ==> mask[k] == block_foreground(
                    pixels@,
                    w as nat,
                    h as nat,
                    bg_r,
                    bg_g,
                    bg_b,
                    k,
                ),
        decreases n - block,
    {
        let sx = block % small_w;
        let sy = block / small_w;
        assert(sy < small_h) by (nonlinear_arith)
            requires
                block < small_w * small_h,
                small_w > 0,
                sy == block / small_w,
        ;
        let mut foreground = false;
        if w > 0 && h > 0 {
            let x = if sx * BLOCK_SIZE + BLOCK_SIZE / 2 < w - 1 {
                sx * BLOCK_SIZE + BLOCK_SIZE / 2
            } else {
                w - 1
            };
            let y = if sy * BLOCK_SIZE + BLOCK_SIZE / 2 < h - 1 {
                sy * BLOCK_SIZE + BLOCK_SIZE / 2
            } else {
                h - 1
            };
            let len = pixels.len();
            proof {
                lemma_pixel_in_buffer(w as int, h as int, x as int, y as int);
                assert((y * w + x) * 4 + 3 < len);
            }
            let i: usize = (y * w + x) * 4;
            foreground = !is_similar_color(
                pixels[i],
                pixels[i + 1],
                pixels[i + 2],
                bg_r,
                bg_g,
                bg_b,
                REGION_TOLERANCE,
            );
        }
        mask.push(foreground);
        block = block + 1;
    }
    assert(mask@ =~= spec_mask);
    let mut visited: Vec<bool> = Vec::new();
    let mut k: usize = 0;
    while k < n
        invariant
            k <= n,
            visited.len() == k,
            forall|j: int| 0 <= j < k ==> !visited[j],
        decreases n - k,
    {
        visited.push(false);
        k = k + 1;
    }
    let mut components: u32 = 0;
    let mut i: usize = 0;
    proof {
        lemma_cover_initial(mask@, small_w as int, small_h as int, visited@);
    }
    while i < n
        invariant
            i <= n,
            n == small_w * small_h,
            n <= u32::MAX,
            small_w > 0,
            mask.len() == n,
            visited.len() == n,
            covers_earlier(mask@, small_w as int, small_h as int, visited@, i as int),
            components == region_count(mask@, small_w as int, small_h as int, i as nat),
        decreases n - i,
    {
        proof {
            lemma_start_iff_uncovered(mask@, small_w as int, small_h as int, visited@, i as int);
            lemma_region_count_bound(mask@, small_w as int, small_h as int, i as nat);
        }
        if mask[i] && !visited[i] {
            let ghost covered = visited@;
            flood_fill(&mask, &mut visited, small_w, small_h, i);
            proof {
                lemma_cover_filled(
                    mask@,
                    small_w as int,
                    small_h as int,
                    covered,
                    visited@,
                    i as int,
                );
            }
            components = components + 1;
        } else {
            proof {
                lemma_cover_unchanged(mask@, small_w as int, small_h as int, visited@, i as int);
            }
        }
        i = i + 1;
    }
    components
}

/// A buffer of `len` bytes holds exactly the RGBA pixels of a `width` by
/// `height` image, and their number fits a count.
pub open spec fn holds_image(len: nat, width: u32, height: u32) -> bool {
    len == width * height * 4 && width * height <= u32::MAX
}

/// Whether a buffer of `len` bytes holds exactly the pixels of an image of
/// the given size.
pub fn buffer_fits(len: usize, width: u32, height: u32) -> (r: bool)
    ensures
        r == holds_image(len as nat, width, height),
{
    assert(width * height <= 0xffff_ffff * 0xffff_ffff) by (nonlinear_arith)
        requires
            0 <= width <= 0xffff_ffff,
            0 <= height <= 0xffff_ffff,
    ;
    let count: u64 = width as u64 * height as u64;
    count <= u32::MAX as u64 && len as u64 == count * 4
}

/// What the metrics of an image are: the histogram of every channel, the
/// transparent and background percentages, the edge density, the dominant
/// colours and the number of connected foreground regions.
pub open spec fn metrics_of(
    m: ImageMetrics,
    pixels: Seq<u8>,
    width: nat,
    height: nat,
    background: [Scalar; 4],
) -> bool {
    let n = width * height;
    let r = unit_to_byte(background[0]);
    let g = unit_to_byte(background[1]);
    let b = unit_to_byte(background[2]);
    &&& bins_match(m.histogram.red, pixels, 0, n)
    &&& bins_match(m.histogram.green, pixels, 1, n)
    &&& bins_match(m.histogram.blue, pixels, 2, n)
    &&& bins_match(m.histogram.alpha, pixels, 3, n)
    &&& m.transparent_percentage == percentage(transparent_count(pixels, n), n)
    &&& m.background_percentage == percentage(similar_count(pixels, r, g, b, 5, n), n)
    &&& m.edge_density == edge_density(pixels, width, height)
    &&& m.connected_components == component_count(pixels, width, height, r, g, b)
    &&& dominant_colors(pixels, m.dominant_colors@)
}

/// Counts one channel of pixel `i` into the bin it falls in.
fn count_into(bins: &mut [u32; 16], pixels: &[u8], channel: usize, i: usize)
    requires
        channel < 4,
        4 * i + 3 < pixels@.len(),
        i < u32::MAX,
        bins_match(*old(bins), pixels@, channel as int, i as nat),
        bin_total(*old(bins)) == i,
    ensures
        bins_match(*final(bins), pixels@, channel as int, (i + 1) as nat),
        bin_total(*final(bins)) == i + 1,
{
    let len = pixels.len();
    let value = pixels[4 * i + channel];
    let bin = (value / 16) as usize;
    let ghost before = *bins;
    let count = bins[bin];
    bins[bin] = count + 1;
    proof {
        assert forall|b: int| 0 <= b < 16 implies bins[b] == #[trigger] bin_count(
            pixels@,
            channel as int,
            b,
            (i + 1) as nat,
        ) by {
            assert(before[b] == bin_count(pixels@, channel as int, b, i as nat));
        }
    }
}

/// Compute image metrics from RGBA pixel data.
///
/// The buffer holds exactly `width * height` pixels. The background colour is
/// given as red, green, blue and alpha, each a share of one.
pub fn compute_image_metrics(
    pixels: &[u8],
    width: u32,
    height: u32,
    background: [Scalar; 4],
) -> (m: ImageMetrics)
    requires
        holds_image(pixels@.len(), width, height),
    ensures
        metrics_of(m, pixels@, width as nat, height as nat, background),
        bin_total(m.histogram.red) == width * height,
        bin_total(m.histogram.green) == width * height,
        bin_total(m.histogram.blue) == width * height,
        bin_total(m.histogram.alpha) == width * height,
        width * height > 0 ==> m.transparent_percentage is Finite && 0
            <= m.transparent_percentage->Finite_0 <= 100_000_000,
        width * height > 0 ==> m.background_percentage is Finite && 0
            <= m.background_percentage->Finite_0 <= 100_000_000,
        m.edge_density is Finite && 0 <= m.edge_density->Finite_0 <= 1_000_000,
        m.dominant_colors@.len() <= 5,
{
    let len: usize = pixels.len();
    let n: usize = len / 4;
    assert(n == width * height);
    let bg_r = channel_byte(background[0]);
    let bg_g = channel_byte(background[1]);
    let bg_b = channel_byte(background[2]);
    let mut red: [u32; 16] = [0u32; 16];
    let mut green: [u32; 16] = [0u32; 16];
    let mut blue: [u32; 16] = [0u32; 16];
    let mut alpha: [u32; 16] = [0u32; 16];
    let mut transparent: u32 = 0;
    let mut matching: u32 = 0;
    let mut i: usize = 0;
    while i < n
        invariant
            i <= n,
            len == pixels@.len(),
            len == n * 4,
            n <= u32::MAX,
            bins_match(red, pixels@, 0, i as nat),
            bins_match(green, pixels@, 1, i as nat),
            bins_match(blue, pixels@, 2, i as nat),
            bins_match(alpha, pixels@, 3, i as nat),
            bin_total(red) == i,
            bin_total(green) == i,
            bin_total(blue) == i,
            bin_total(alpha) == i,
            transparent == transparent_count(pixels@, i as nat),
            matching == similar_count(pixels@, bg_r, bg_g, bg_b, 5, i as nat),
            transparent <= i,
            matching <= i,
        decreases n - i,
    {
        let r = pixels[4 * i];
        let g = pixels[4 * i + 1];
        let b = pixels[4 * i + 2];
        let a = pixels[4 * i + 3];
        count_into(&mut red, pixels, 0, i);
        count_into(&mut green, pixels, 1, i);
        count_into(&mut blue, pixels, 2, i);
        count_into(&mut alpha, pixels, 3, i);
        if a == 0 {
            transparent = transparent + 1;
        }
        if is_similar_color(r, g, b, bg_r, bg_g, bg_b, BACKGROUND_TOLERANCE) {
            matching = matching + 1;
        }
        i = i + 1;
    }
    let edge = compute_edge_density(pixels, width, height);
    let dominant = find_dominant_colors(pixels);
    let connected_components = estimate_connected_components(
        pixels,
        width,
        height,
        bg_r,
        bg_g,
        bg_b,
    );
    ImageMetrics {
        histogram: ColorHistogram { red, green, blue, alpha },
        edge_density: edge,
        transparent_percentage: ratio(transparent, n as u32, FULL_PERCENTAGE),
        background_percentage: ratio(matching, n as u32, FULL_PERCENTAGE),
        connected_components,
        dominant_colors: dominant,
    }
}

/// Every pixel counts as transparent when every alpha is zero.
pub proof fn lemma_all_transparent(pixels: Seq<u8>, n: nat)
    requires
        forall|p: int| 0 <= p < n ==> #[trigger] pixels[4 * p + 3] == 0,
    ensures
        transparent_count(pixels, n) == n,
    decreases n,
{
    if n > 0 {
        lemma_all_transparent(pixels, (n - 1) as nat);
    }
}

/// Every pixel counts as similar when every pixel is within the tolerance.
pub proof fn lemma_all_similar(pixels: Seq<u8>, r: u8, g: u8, b: u8, tolerance: u8, n: nat)
    requires
        forall|p: int|
            0 <= p < n ==> similar(
                #[trigger] pixels[4 * p],
                pixels[4 * p + 1],
                pixels[4 * p + 2],
                r,
                g,
                b,
                tolerance,
            ),
    ensures
        similar_count(pixels, r, g, b, tolerance, n) == n,
    decreases n,
{
    if n > 0 {
        lemma_all_similar(pixels, r, g, b, tolerance, (n - 1) as nat);
    }
}

/// The whole of a non-empty total is one hundred percent.
pub proof fn lemma_full_percentage(n: nat)
    requires
        n > 0,
    ensures
        percentage(n, n) == Scalar::Finite(100_000_000),
{
    assert(n * 100_000_000 / n == 100_000_000) by (nonlinear_arith)
        requires
            n > 0,
    ;
}

/// A fully transparent image of at least one pixel is one hundred percent
/// transparent.
pub proof fn lemma_transparent_image(
    m: ImageMetrics,
    pixels: Seq<u8>,
    width: nat,
    height: nat,
    background: [Scalar; 4],
)
    requires
        metrics_of(m, pixels, width, height, background),
        width * height > 0,
        forall|p: int| 0 <= p < width * height ==> #[trigger] pixels[4 * p + 3] == 0,
    ensures
        m.transparent_percentage == Scalar::Finite(100_000_000),
{
    lemma_all_transparent(pixels, width * height);
    lemma_full_percentage(width * height);
}

/// An image of at least one pixel whose every pixel is within the background
/// tolerance of the background colour is one hundred percent background and
/// has no connected component. This holds in particular of an image of the
/// background colour alone.
pub proof fn lemma_background_image(
    m: ImageMetrics,
    pixels: Seq<u8>,
    width: nat,
    height: nat,
    background: [Scalar; 4],
)
    requires
        metrics_of(m, pixels, width, height, background),
        width * height > 0,
        forall|p: int|
            0 <= p < width * height ==> similar(
                #[trigger] pixels[4 * p],
                pixels[4 * p + 1],
                pixels[4 * p + 2],
                unit_to_byte(background[0]),
                unit_to_byte(background[1]),
                unit_to_byte(background[2]),
                5,
            ),
    ensures
        m.background_percentage == Scalar::Finite(100_000_000),
        m.connected_components == 0,
{
    let r = unit_to_byte(background[0]);
    let g = unit_to_byte(background[1]);
    let b = unit_to_byte(background[2]);
    lemma_all_similar(pixels, r, g, b, 5, width * height);
    lemma_full_percentage(width * height);
    let mask = foreground_mask(pixels, width, height, r, g, b);
    let gw = grid_extent(width) as int;
    let gh = grid_extent(height) as int;
    assert(width > 0 && height > 0) by (nonlinear_arith)
        requires
            width * height > 0,
    ;
    assert forall|c: int| 0 <= c < mask.len() implies !mask[c] by {
        let x = sample_at(c % gw, width as int);
        let y = sample_at(c / gw, height as int);
        assert(0 <= c / gw) by (nonlinear_arith)
            requires
                0 <= c,
                gw > 0,
        ;
        assert(0 <= x < width);
        assert(0 <= y < height);
        lemma_pixel_in_buffer(width as int, height as int, x, y);
        let p = y * width + x;
        assert(similar(pixels[4 * p], pixels[4 * p + 1], pixels[4 * p + 2], r, g, b, 5));
        assert((y * width + x) * 4 == 4 * p);
    }
    crate::regions::lemma_no_cells_no_regions(mask, gw, gh, mask.len());
}

} // verus!
