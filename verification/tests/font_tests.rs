use frustum::font::{
    char_uvs, generate_atlas, ATLAS_HEIGHT, ATLAS_WIDTH, CHAR_COUNT, CHAR_WIDTH, CHAR_HEIGHT,
    FONT_DATA,
};
use frustum::scalar::Scalar;

fn value(s: Scalar) -> f32 {
    match s {
        Scalar::Finite(v) => v as f32 / 1_000_000.0,
        Scalar::PosInf => f32::INFINITY,
        Scalar::NegInf => f32::NEG_INFINITY,
        Scalar::Nan => f32::NAN,
    }
}

#[test]
fn test_char_uvs() {
    // Space should be at (0, 0)
    let uvs = char_uvs(' ');
    assert_eq!(value(uvs[0]), 0.0);
    assert_eq!(value(uvs[1]), 0.0);

    // 'A' is at index 33 (0x41 - 0x20)
    // col = 33 % 16 = 1, row = 33 / 16 = 2
    let uvs = char_uvs('A');
    assert!((value(uvs[0]) - 1.0 / 16.0).abs() < 0.001);
    assert!((value(uvs[1]) - 2.0 / 8.0).abs() < 0.001);
}

#[test]
fn test_generate_atlas() {
    let atlas = generate_atlas();
    assert_eq!(atlas.len(), (ATLAS_WIDTH * ATLAS_HEIGHT * 4) as usize);

    // Check that 'A' has some non-zero pixels
    // 'A' is at index 33, col=1, row=2
    let base_x = 1 * CHAR_WIDTH;
    let base_y = 2 * CHAR_HEIGHT;
    // At least some pixel in 'A' should be non-zero
    let mut has_pixel = false;
    for dy in 0..8 {
        for dx in 0..8 {
            let px = base_x + dx;
            let py = base_y + dy;
            let i = ((py * ATLAS_WIDTH + px) * 4) as usize;
            if atlas[i + 3] > 0 {
                has_pixel = true;
                break;
            }
        }
    }
    assert!(has_pixel, "'A' should have visible pixels");
}

#[test]
fn test_unknown_char_fallback() {
    // Non-ASCII should fall back to '?'
    let uvs_unknown = char_uvs('\u{00FF}');
    let uvs_question = char_uvs('?');
    assert_eq!(uvs_unknown, uvs_question);
}

#[test]
fn char_uvs_are_exact_cell_edges() {
    // 'A': column 1, row 2 of a 16 by 8 grid of cells.
    let uvs = char_uvs('A');
    assert_eq!(uvs[0], Scalar::Finite(62_500));
    assert_eq!(uvs[1], Scalar::Finite(250_000));
    assert_eq!(uvs[2], Scalar::Finite(125_000));
    assert_eq!(uvs[3], Scalar::Finite(375_000));
    // Tilde is the last character: index 94, column 14, row 5.
    let uvs = char_uvs('~');
    assert_eq!(uvs[0], Scalar::Finite(875_000));
    assert_eq!(uvs[1], Scalar::Finite(625_000));
    // Control characters fall back as well.
    assert_eq!(char_uvs('\n'), char_uvs('?'));
}

#[test]
fn atlas_matches_every_glyph_bit() {
    let atlas = generate_atlas();
    assert_eq!(CHAR_COUNT, 95);
    for (index, bitmap) in FONT_DATA.iter().enumerate() {
        let col = index as u32 % 16;
        let row = index as u32 / 16;
        for y in 0..8u32 {
            for x in 0..8u32 {
                let bit = (bitmap >> (63 - (y * 8 + x))) & 1;
                let px = col * 8 + x;
                let py = row * 8 + y;
                let i = ((py * 128 + px) * 4) as usize;
                let expected = if bit == 1 { 255 } else { 0 };
                for k in 0..4 {
                    assert_eq!(atlas[i + k], expected, "glyph {} pixel ({}, {})", index, x, y);
                }
            }
        }
    }
}

#[test]
fn atlas_is_blank_outside_the_font() {
    let atlas = generate_atlas();
    // Space has no pixel.
    for y in 0..8usize {
        for x in 0..8usize {
            assert_eq!(atlas[(y * 128 + x) * 4 + 3], 0);
        }
    }
    // Cells 95 to 127 hold no character: the last cell of row 5 and rows 6, 7.
    for py in 40..64usize {
        for px in 0..128usize {
            let cell = (py / 8) * 16 + px / 8;
            if cell >= 95 {
                for k in 0..4 {
                    assert_eq!(atlas[(py * 128 + px) * 4 + k], 0);
                }
            }
        }
    }
    // The exclamation mark (cell 1) has its top row 0x18: pixels 3 and 4.
    assert_eq!(atlas[(0 * 128 + 8 + 3) * 4], 255);
    assert_eq!(atlas[(0 * 128 + 8 + 4) * 4 + 3], 255);
    assert_eq!(atlas[(0 * 128 + 8 + 2) * 4], 0);
}
