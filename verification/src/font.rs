//! Embedded bitmap font.
//!
//! A single monospace font of 8 by 8 pixel glyphs for the printable ASCII
//! characters, laid out in an atlas of 16 glyphs per row.

use crate::scalar::Scalar;
use vstd::prelude::*;

verus! {

/// Font atlas width in pixels.
pub const ATLAS_WIDTH: u32 = 128;

/// Font atlas height in pixels.
pub const ATLAS_HEIGHT: u32 = 64;

/// Width of a character cell in the atlas.
pub const CHAR_WIDTH: u32 = 8;

/// Height of a character cell in the atlas.
pub const CHAR_HEIGHT: u32 = 8;

/// Characters per row in the atlas.
pub const CHARS_PER_ROW: u32 = 16;

/// First printable ASCII character (space).
pub const FIRST_CHAR: u8 = 0x20;

/// Last printable ASCII character (tilde).
pub const LAST_CHAR: u8 = 0x7e;

/// Number of characters in the font.
pub const CHAR_COUNT: u32 = 95;

/// The glyphs from space to tilde. Each glyph is eight rows of eight pixels,
/// the top row in the highest byte and the leftmost pixel in the highest bit.
pub const FONT_DATA: [u64; 95] = [
    0x0000000000000000, 0x183c3c1818001800, 0x6c6c6c0000000000, 0x6c6cfe6cfe6c6c00,
    0x187ec07c06fc1800, 0x00c6cc183066c600, 0x386c3876dccc7600, 0x1818300000000000,
    0x0c18303030180c00, 0x30180c0c0c183000, 0x006c38fe386c0000, 0x0018187e18180000,
    0x0000000000181830, 0x0000007e00000000, 0x0000000000181800, 0x060c183060c08000,
    0x7cc6cedef6e67c00, 0x1838781818187e00, 0x7cc60c3860c6fe00, 0x7cc6063c06c67c00,
    0x1c3c6cccfe0c1e00, 0xfec0fc0606c67c00, 0x3c60c0fcc6c67c00, 0xfec6060c18181800,
    0x7cc6c67cc6c67c00, 0x7cc6c67e06067c00, 0x0018180018180000, 0x0018180018183000,
    0x0c18306030180c00, 0x00007e007e000000, 0x6030180c18306000, 0x7cc60c1818001800,
    0x7cc6dededcc07e00, 0x386cc6fec6c6c600, 0xfcc6c6fcc6c6fc00, 0x3c66c0c0c0663c00,
    0xf8ccc6c6c6ccf800, 0xfec0c0fcc0c0fe00, 0xfec0c0fcc0c0c000, 0x3c66c0cec6663e00,
    0xc6c6c6fec6c6c600, 0x7e18181818187e00, 0x1e06060606c67c00, 0xc6ccd8f0d8ccc600,
    0xc0c0c0c0c0c0fe00, 0xc6eefed6c6c6c600, 0xc6e6f6decec6c600, 0x7cc6c6c6c6c67c00,
    0xfcc6c6fcc0c0c000, 0x7cc6c6c6d6de7c06, 0xfcc6c6fcd8ccc600, 0x7cc6c07c06c67c00,
    0x7e18181818181800, 0xc6c6c6c6c6c67c00, 0xc6c6c6c66c381000, 0xc6c6c6d6feeec600,
    0xc6c66c386cc6c600, 0x6666663c18181800, 0xfe060c1830c0fe00, 0x3c30303030303c00,
    0xc06030180c060200, 0x3c0c0c0c0c0c3c00, 0x10386cc600000000, 0x00000000000000ff,
    0x30180c0000000000, 0x00007c067ec67e00, 0xc0c0fcc6c6c6fc00, 0x00007cc6c0c67c00,
    0x06067ec6c6c67e00, 0x00007cc6fec07c00, 0x1c3630fc30303000, 0x00007ec6c67e067c,
    0xc0c0fcc6c6c6c600, 0x1800381818183c00, 0x0c000c0c0c0ccc78, 0xc0c0c6ccd8ccc600,
    0x3818181818183c00, 0x0000ecfed6d6c600, 0x0000fcc6c6c6c600, 0x00007cc6c6c67c00,
    0x0000fcc6c6fcc0c0, 0x00007ec6c67e0606, 0x0000dec0c0c0c000, 0x00007cc07c067c00,
    0x3030fc3030301c00, 0x0000c6c6c6c67e00, 0x0000c6c6c66c3800, 0x0000c6d6d6fe6c00,
    0x0000c66c386cc600, 0x0000c6c6c67e0678, 0x0000fe0c3860fe00, 0x0e18187018180e00,
    0x1818181818181800, 0x7018180e18187000, 0x76dc000000000000,
];

/// The cell of a character in the atlas; unknown characters share the cell
/// of the question mark.
pub open spec fn cell_of(c: char) -> int {
    if 0x20 <= c as u32 <= 0x7e {
        c as u32 - 0x20
    } else {
        0x3f - 0x20
    }
}

/// The texture coordinates of a character's cell: left, top, right and
/// bottom edge, each a share of the atlas side.
pub open spec fn cell_uvs(c: char) -> Seq<Scalar> {
    let col = cell_of(c) % 16;
    let row = cell_of(c) / 16;
    seq![
        Scalar::Finite((col * 62_500) as i64),
        Scalar::Finite((row * 125_000) as i64),
        Scalar::Finite(((col + 1) * 62_500) as i64),
        Scalar::Finite(((row + 1) * 125_000) as i64),
    ]
}

/// Get the texture coordinates of a character.
pub fn char_uvs(c: char) -> (uvs: [Scalar; 4])
    ensures
        uvs@ == cell_uvs(c),
{
    let code = c as u32;
    let index: u32 = if code >= 0x20 && code <= 0x7e {
        code - 0x20
    } else {
        0x3f - 0x20
    };
    let col = (index % CHARS_PER_ROW) as i64;
    let row = (index / CHARS_PER_ROW) as i64;
    let uvs = [
        Scalar::Finite(col * 62_500),
        Scalar::Finite(row * 125_000),
        Scalar::Finite((col + 1) * 62_500),
        Scalar::Finite((row + 1) * 125_000),
    ];
    assert(uvs@ =~= cell_uvs(c));
    uvs
}

/// Whether the pixel in column `x` and row `y` of a glyph is set.
#[verifier::opaque]
pub open spec fn glyph_pixel(bitmap: u64, x: u32, y: u32) -> bool {
    (((bitmap >> ((56 - y * 8) as u64)) & 0xff) >> ((7 - x) as u64)) & 1 == 1
}

/// Whether the atlas pixel in column `px` and row `py` is lit: it lies in
/// the cell of a character of the font, on a set pixel of its glyph.
pub open spec fn atlas_lit(px: int, py: int) -> bool {
    let cell = (py / 8) * 16 + px / 8;
    cell < 95 && glyph_pixel(FONT_DATA[cell], (px % 8) as u32, (py % 8) as u32)
}

/// Whether an atlas pixel is drawn once the glyphs before `cell` are done,
/// and of `cell` the rows before `y` and of row `y` the pixels before `x`.
pub open spec fn drawn_before(cell: int, y: int, x: int, px: int, py: int) -> bool {
    let at = (py / 8) * 16 + px / 8;
    at < cell || (at == cell && (py % 8 < y || (py % 8 == y && px % 8 < x)))
}

/// The value of byte `j` of the atlas when it is drawn so far: white and
/// opaque on lit pixels that are drawn, zero elsewhere.
pub open spec fn atlas_byte(cell: int, y: int, x: int, j: int) -> u8 {
    let px = (j / 4) % 128;
    let py = (j / 4) / 128;
    if drawn_before(cell, y, x, px, py) && atlas_lit(px, py) {
        255
    } else {
        0
    }
}

/// The atlas is drawn as far as the given glyph, row and pixel.
pub open spec fn atlas_drawn(pixels: Seq<u8>, cell: int, y: int, x: int) -> bool {
    &&& pixels.len() == 32768
    &&& forall|j: int| 0 <= j < 32768 ==> #[trigger] pixels[j] == atlas_byte(cell, y, x, j)
}

/// The finished atlas: every lit pixel white and opaque, every other pixel
/// transparent black.
pub open spec fn is_atlas(pixels: Seq<u8>) -> bool {
    &&& pixels.len() == 32768
    &&& forall|j: int|
        0 <= j < 32768 ==> #[trigger] pixels[j] == (if atlas_lit((j / 4) % 128, (j / 4) / 128) {
            255u8
        } else {
            0u8
        })
}

/// Reads one pixel of a glyph of the font.
fn glyph_bit(cell: u32, x: u32, y: u32) -> (r: bool)
    requires
        cell < 95,
        x < 8,
        y < 8,
    ensures
        r == glyph_pixel(FONT_DATA[cell as int], x, y),
{
    reveal(glyph_pixel);
    let bitmap = FONT_DATA[cell as usize];
    let row_bits = (bitmap >> ((56 - y * 8) as u64)) & 0xff;
    let bit = (row_bits >> ((7 - x) as u64)) & 1;
    bit == 1
}

/// Drawing pixel `x` of row `y` of glyph `cell` touches the four bytes of
/// that atlas pixel and no other, and it is the next pixel in drawing order.
pub proof fn lemma_pixel_step(cell: int, y: int, x: int, j: int)
    requires
        0 <= cell < 95,
        0 <= y < 8,
        0 <= x < 8,
        0 <= j < 32768,
    ensures
        ({
            let px = (j / 4) % 128;
            let py = (j / 4) / 128;
            let tx = (cell % 16) * 8 + x;
            let ty = (cell / 16) * 8 + y;
            let idx = (ty * 128 + tx) * 4;
            &&& 0 <= idx && idx + 3 < 32768
            &&& (idx <= j < idx + 4) == (px == tx && py == ty)
            &&& (px == tx && py == ty) ==> (py / 8) * 16 + px / 8 == cell && px % 8 == x && py % 8
                == y
            &&& (px == tx && py == ty) ==> drawn_before(cell, y, x + 1, px, py) && !drawn_before(
                cell,
                y,
                x,
                px,
                py,
            )
            &&& !(px == tx && py == ty) ==> drawn_before(cell, y, x + 1, px, py) == drawn_before(
                cell,
                y,
                x,
                px,
                py,
            )
        }),
{
    let q = j / 4;
    let px = q % 128;
    let py = q / 128;
    let c = cell % 16;
    let r = cell / 16;
    let tx = c * 8 + x;
    let ty = r * 8 + y;
    assert(j == 4 * q + j % 4 && 0 <= j % 4 < 4);
    assert(q == 128 * py + px && 0 <= px < 128 && 0 <= py < 64);
    assert(cell == 16 * r + c && 0 <= c < 16 && 0 <= r < 6);
    assert(tx / 8 == c && tx % 8 == x);
    assert(ty / 8 == r && ty % 8 == y);
    if px == tx && py == ty {
        assert((py / 8) * 16 + px / 8 == cell);
    } else {
        assert(q != ty * 128 + tx);
    }
}

/// Draws one pixel of a glyph into the atlas.
fn draw_pixel(pixels: &mut Vec<u8>, cell: u32, y: u32, x: u32)
    requires
        cell < 95,
        y < 8,
        x < 8,
        atlas_drawn(old(pixels)@, cell as int, y as int, x as int),
    ensures
        atlas_drawn(final(pixels)@, cell as int, y as int, x + 1),
{
    let lit = glyph_bit(cell, x, y);
    let col = cell % CHARS_PER_ROW;
    let row = cell / CHARS_PER_ROW;
    let px = col * CHAR_WIDTH + x;
    let py = row * CHAR_HEIGHT + y;
    let idx = ((py * ATLAS_WIDTH + px) * 4) as usize;
    let value: u8 = if lit { 255 } else { 0 };
    proof {
        lemma_pixel_step(cell as int, y as int, x as int, 0);
    }
    pixels.set(idx, value);
    pixels.set(idx + 1, value);
    pixels.set(idx + 2, value);
    pixels.set(idx + 3, value);
    proof {
        assert forall|j: int| 0 <= j < 32768 implies #[trigger] pixels@[j] == atlas_byte(
            cell as int,
            y as int,
            x + 1,
            j,
        ) by {
            lemma_pixel_step(cell as int, y as int, x as int, j);
            assert(old(pixels)@[j] == atlas_byte(cell as int, y as int, x as int, j));
        }
    }
}

/// Generate the font atlas as RGBA pixels, row by row.
pub fn generate_atlas() -> (pixels: Vec<u8>)
    ensures
        is_atlas(pixels@),
{
    let mut pixels: Vec<u8> = Vec::new();
    let mut n: usize = 0;
    while n < 32768
        invariant
            n <= 32768,
            pixels.len() == n,
            forall|j: int| 0 <= j < n ==> pixels[j] == 0,
        decreases 32768 - n,
    {
        pixels.push(0);
        n = n + 1;
    }
    assert(atlas_drawn(pixels@, 0, 0, 0));
    let mut cell: u32 = 0;
    while cell < CHAR_COUNT
        invariant
            cell <= 95,
            atlas_drawn(pixels@, cell as int, 0, 0),
        decreases 95 - cell,
    {
        let mut y: u32 = 0;
        while y < 8
            invariant
                cell < 95,
                y <= 8,
                atlas_drawn(pixels@, cell as int, y as int, 0),
            decreases 8 - y,
        {
            let mut x: u32 = 0;
            while x < 8
                invariant
                    cell < 95,
                    y < 8,
                    x <= 8,
                    atlas_drawn(pixels@, cell as int, y as int, x as int),
                decreases 8 - x,
            {
                draw_pixel(&mut pixels, cell, y, x);
                x = x + 1;
            }
            assert(atlas_drawn(pixels@, cell as int, y + 1, 0)) by {
                assert forall|j: int| 0 <= j < 32768 implies #[trigger] pixels@[j] == atlas_byte(
                    cell as int,
                    y + 1,
                    0,
                    j,
                ) by {
                    assert(pixels@[j] == atlas_byte(cell as int, y as int, 8, j));
                }
            }
            y = y + 1;
        }
        assert(atlas_drawn(pixels@, cell + 1, 0, 0)) by {
            assert forall|j: int| 0 <= j < 32768 implies #[trigger] pixels@[j] == atlas_byte(
                cell + 1,
                0,
                0,
                j,
            ) by {
                assert(pixels@[j] == atlas_byte(cell as int, 8, 0, j));
            }
        }
        cell = cell + 1;
    }
    assert forall|j: int| 0 <= j < 32768 implies #[trigger] pixels@[j] == (if atlas_lit(
        (j / 4) % 128,
        (j / 4) / 128,
    ) {
        255u8
    } else {
        0u8
    }) by {
        assert(pixels@[j] == atlas_byte(95, 0, 0, j));
    }
    pixels
}

} // verus!
