//! Material system for visual appearance.
//!
//! Materials control how geometry looks, never what it is. Geometry refers
//! to materials by identifier.

use crate::scalar::Scalar;
use vstd::prelude::*;
use vstd::string::StringExecFns;

verus! {

/// A material that can be referenced by geometry primitives.
#[derive(Debug, Clone)]
pub enum Material {
    /// Uniform solid colour.
    Solid(SolidMaterial),
    /// Scalar-to-colour mapping via a colormap.
    ScalarMapped(ScalarMappedMaterial),
}

/// A material with uniform solid colour.
#[derive(Debug, Clone)]
pub struct SolidMaterial {
    /// Unique identifier.
    pub id: String,
    /// RGBA colour, each channel a share of one.
    pub color: [Scalar; 4],
}

/// A material that maps scalar values to colours via a colormap.
#[derive(Debug, Clone)]
pub struct ScalarMappedMaterial {
    /// Unique identifier.
    pub id: String,
    /// Colormap identifier (such as "viridis" or "plasma").
    pub colormap: String,
    /// Scalar range, lowest then highest, for normalization.
    pub range: [Scalar; 2],
    /// Whether to clamp values outside the range.
    pub clamp: bool,
    /// Colour for missing values (RGBA).
    pub missing_color: [Scalar; 4],
}

/// Whether values outside the range are clamped when a description does not say.
pub fn default_clamp() -> (r: bool)
    ensures
        r,
{
    true
}

/// Mid grey, fully opaque.
pub open spec fn is_missing_gray(c: [Scalar; 4]) -> bool {
    c@ == seq![
        Scalar::Finite(500_000),
        Scalar::Finite(500_000),
        Scalar::Finite(500_000),
        Scalar::Finite(1_000_000),
    ]
}

/// Colour for missing values when a description does not say.
pub fn default_missing_color() -> (c: [Scalar; 4])
    ensures
        is_missing_gray(c),
{
    let c = [
        Scalar::Finite(500_000),
        Scalar::Finite(500_000),
        Scalar::Finite(500_000),
        Scalar::Finite(1_000_000),
    ];
    assert(c@ =~= seq![
        Scalar::Finite(500_000),
        Scalar::Finite(500_000),
        Scalar::Finite(500_000),
        Scalar::Finite(1_000_000),
    ]);
    c
}

impl Material {
    /// The material's identifier.
    pub open spec fn id_spec(self) -> Seq<char> {
        match self {
            Material::Solid(m) => m.id@,
            Material::ScalarMapped(m) => m.id@,
        }
    }

    /// Get the material's identifier.
    pub fn id(&self) -> (r: &str)
        ensures
            r@ == self.id_spec(),
    {
        match self {
            Material::Solid(m) => m.id.as_str(),
            Material::ScalarMapped(m) => m.id.as_str(),
        }
    }
}

impl SolidMaterial {
    /// Create a new solid material with RGB colour, fully opaque.
    pub fn new(id: String, rgb: [Scalar; 3]) -> (m: Self)
        ensures
            m.id@ == id@,
            m.color@ == seq![rgb[0], rgb[1], rgb[2], Scalar::Finite(1_000_000)],
    {
        let color = [rgb[0], rgb[1], rgb[2], Scalar::Finite(1_000_000)];
        assert(color@ =~= seq![rgb[0], rgb[1], rgb[2], Scalar::Finite(1_000_000)]);
        SolidMaterial { id, color }
    }

    /// Create a new solid material with RGBA colour.
    pub fn with_alpha(id: String, rgba: [Scalar; 4]) -> (m: Self)
        ensures
            m.id@ == id@,
            m.color == rgba,
    {
        SolidMaterial { id, color: rgba }
    }
}

impl ScalarMappedMaterial {
    /// Create a new scalar-mapped material that clamps and shows missing
    /// values in mid grey.
    pub fn new(id: String, colormap: String, range: [Scalar; 2]) -> (m: Self)
        ensures
            m.id@ == id@,
            m.colormap@ == colormap@,
            m.range == range,
            m.clamp,
            is_missing_gray(m.missing_color),
    {
        ScalarMappedMaterial {
            id,
            colormap,
            range,
            clamp: true,
            missing_color: default_missing_color(),
        }
    }

    /// Set whether to clamp values outside the range.
    pub fn with_clamp(self, clamp: bool) -> (m: Self)
        ensures
            m.id@ == self.id@,
            m.colormap@ == self.colormap@,
            m.range == self.range,
            m.clamp == clamp,
            m.missing_color == self.missing_color,
    {
        ScalarMappedMaterial {
            id: self.id,
            colormap: self.colormap,
            range: self.range,
            clamp,
            missing_color: self.missing_color,
        }
    }

    /// Set the colour for missing values.
    pub fn with_missing_color(self, color: [Scalar; 4]) -> (m: Self)
        ensures
            m.id@ == self.id@,
            m.colormap@ == self.colormap@,
            m.range == self.range,
            m.clamp == self.clamp,
            m.missing_color == color,
    {
        ScalarMappedMaterial {
            id: self.id,
            colormap: self.colormap,
            range: self.range,
            clamp: self.clamp,
            missing_color: color,
        }
    }
}

/// The lowercase form of a text, as the standard library's `str::to_lowercase`
/// gives it.
pub uninterp spec fn lowercase(s: Seq<char>) -> Seq<char>;

/// Calls `str::to_lowercase`, which returns the lowercase equivalent of the
/// string slice as a new string. The result depends on the characters of
/// the slice alone; nothing else is claimed of it.
#[verifier::external_body]
fn to_lowercase(s: &str) -> (r: String)
    ensures
        r@ == lowercase(s@),
{
    s.to_lowercase()
}

/// The colormap that a lowercase name stands for.
pub open spec fn colormap_named(name: Seq<char>) -> Option<Colormap> {
    if name == "viridis"@ {
        Some(Colormap::Viridis)
    } else if name == "plasma"@ {
        Some(Colormap::Plasma)
    } else if name == "inferno"@ {
        Some(Colormap::Inferno)
    } else if name == "magma"@ {
        Some(Colormap::Magma)
    } else if name == "cividis"@ {
        Some(Colormap::Cividis)
    } else {
        None
    }
}

/// Available colormap identifiers.
#[derive(Debug, Clone, Copy, PartialEq, Eq, Structural)]
pub enum Colormap {
    Viridis,
    Plasma,
    Inferno,
    Magma,
    Cividis,
}

impl Colormap {
    /// The colormap's name.
    pub open spec fn name_spec(self) -> Seq<char> {
        match self {
            Colormap::Viridis => "viridis"@,
            Colormap::Plasma => "plasma"@,
            Colormap::Inferno => "inferno"@,
            Colormap::Magma => "magma"@,
            Colormap::Cividis => "cividis"@,
        }
    }

    /// Get the colormap name as a string.
    pub fn name(&self) -> (r: &'static str)
        ensures
            r@ == self.name_spec(),
    {
        match self {
            Colormap::Viridis => "viridis",
            Colormap::Plasma => "plasma",
            Colormap::Inferno => "inferno",
            Colormap::Magma => "magma",
            Colormap::Cividis => "cividis",
        }
    }

    /// Parse a colormap name, whatever its case.
    pub fn from_name(name: &str) -> (r: Option<Self>)
        ensures
            r == colormap_named(lowercase(name@)),
    {
        let lowered = to_lowercase(name);
        Colormap::from_lowercase_name(lowered.as_str())
    }

    /// Parse a colormap name that is written in lowercase.
    pub fn from_lowercase_name(name: &str) -> (r: Option<Self>)
        ensures
            r == colormap_named(name@),
    {
        let wanted = name.to_owned();
        if wanted == String::from_str("viridis") {
            Some(Colormap::Viridis)
        } else if wanted == String::from_str("plasma") {
            Some(Colormap::Plasma)
        } else if wanted == String::from_str("inferno") {
            Some(Colormap::Inferno)
        } else if wanted == String::from_str("magma") {
            Some(Colormap::Magma)
        } else if wanted == String::from_str("cividis") {
            Some(Colormap::Cividis)
        } else {
            None
        }
    }
}

/// Coefficients of the red channel of viridis, lowest power first.
pub const VIRIDIS_RED: [i64; 6] = [267_004, 282_327, -78_908, 2_772_570, -3_263_024, 1_228_522];

/// Coefficients of the green channel of viridis, lowest power first.
pub const VIRIDIS_GREEN: [i64; 6] = [4_874, 1_260_580, -221_097, -766_924, 1_442_251, -714_853];

/// Coefficients of the blue channel of viridis, lowest power first.
pub const VIRIDIS_BLUE: [i64; 6] = [329_415, 1_701_596, -5_413_392, 10_519_490, -8_923_144, 2_786_102];

/// Coefficients of the red channel of plasma, lowest power first.
pub const PLASMA_RED: [i64; 6] = [50_383, 2_023_000, -1_294_560, -795_670, 1_974_810, -958_000];

/// Coefficients of the green channel of plasma, lowest power first.
pub const PLASMA_GREEN: [i64; 6] = [29_803, -221_780, 1_735_400, -719_190, -551_390, 727_600];

/// Coefficients of the blue channel of plasma, lowest power first.
pub const PLASMA_BLUE: [i64; 6] = [527_975, 1_573_200, -4_576_600, 6_762_040, -4_665_700, 1_379_000];

/// Coefficients of the red channel of inferno, lowest power first.
pub const INFERNO_RED: [i64; 6] = [1_462, 1_265_980, 835_940, -2_371_800, 3_010_950, -1_735_700];

/// Coefficients of the green channel of inferno, lowest power first.
pub const INFERNO_GREEN: [i64; 6] = [466, -55_530, 1_827_670, -2_178_070, 1_911_960, -505_430];

/// Coefficients of the blue channel of inferno, lowest power first.
pub const INFERNO_BLUE: [i64; 6] = [13_866, 2_066_870, -4_865_040, 5_696_400, -3_285_300, 398_620];

/// Coefficients of the red channel of magma, lowest power first.
pub const MAGMA_RED: [i64; 6] = [1_462, 1_032_690, 958_610, -1_681_100, 2_341_200, -1_654_800];

/// Coefficients of the green channel of magma, lowest power first.
pub const MAGMA_GREEN: [i64; 6] = [466, -267_510, 1_912_500, -1_795_950, 1_512_450, -361_250];

/// Coefficients of the blue channel of magma, lowest power first.
pub const MAGMA_BLUE: [i64; 6] = [13_866, 2_377_680, -5_298_660, 5_932_700, -3_114_900, 116_820];

/// Coefficients of the red channel of cividis, lowest power first.
pub const CIVIDIS_RED: [i64; 6] = [-46_889, 1_573_410, -1_259_290, 984_680, -253_910, 3_180];

/// Coefficients of the green channel of cividis, lowest power first.
pub const CIVIDIS_GREEN: [i64; 6] = [135_112, 654_420, 117_460, -37_870, 114_390, 16_420];

/// Coefficients of the blue channel of cividis, lowest power first.
pub const CIVIDIS_BLUE: [i64; 6] = [311_950, 579_930, -1_507_500, 1_556_530, -735_880, 114_020];

/// The value of a polynomial at `t`, from coefficient `k` on: the
/// coefficients are taken in nested form, lowest power outermost.
pub open spec fn nested(c: [i64; 6], t: Scalar, k: int) -> Scalar
    decreases 5 - k,
{
    if k >= 5 {
        Scalar::Finite(c[5])
    } else {
        Scalar::Finite(c[k]).plus(t.product(nested(c, t, k + 1)))
    }
}

/// A colour channel at `t`: the polynomial of the coefficients, kept
/// between zero and one.
pub open spec fn channel_at(c: [i64; 6], t: Scalar) -> Scalar {
    nested(c, t, 0).clamped_to_unit()
}

/// The colour of a colormap at `t`, which is first kept between zero and one.
pub open spec fn sampled(map: Colormap, t: Scalar) -> Seq<Scalar> {
    let u = t.clamped_to_unit();
    match map {
        Colormap::Viridis => seq![
            channel_at(VIRIDIS_RED, u),
            channel_at(VIRIDIS_GREEN, u),
            channel_at(VIRIDIS_BLUE, u),
        ],
        Colormap::Plasma => seq![
            channel_at(PLASMA_RED, u),
            channel_at(PLASMA_GREEN, u),
            channel_at(PLASMA_BLUE, u),
        ],
        Colormap::Inferno => seq![
            channel_at(INFERNO_RED, u),
            channel_at(INFERNO_GREEN, u),
            channel_at(INFERNO_BLUE, u),
        ],
        Colormap::Magma => seq![
            channel_at(MAGMA_RED, u),
            channel_at(MAGMA_GREEN, u),
            channel_at(MAGMA_BLUE, u),
        ],
        Colormap::Cividis => seq![
            channel_at(CIVIDIS_RED, u),
            channel_at(CIVIDIS_GREEN, u),
            channel_at(CIVIDIS_BLUE, u),
        ],
    }
}

fn evaluate(c: &[i64; 6], t: Scalar) -> (r: Scalar)
    ensures
        r == channel_at(*c, t),
{
    let mut value = Scalar::Finite(c[5]);
    let mut k: usize = 5;
    while k > 0
        invariant
            k <= 5,
            value == nested(*c, t, k as int),
        decreases k,
    {
        k = k - 1;
        value = Scalar::Finite(c[k]).add(t.mul(value));
    }
    value.clamp_to_unit()
}

fn sample_with(red: &[i64; 6], green: &[i64; 6], blue: &[i64; 6], t: Scalar) -> (r: [Scalar; 3])
    ensures
        r@ == seq![channel_at(*red, t), channel_at(*green, t), channel_at(*blue, t)],
{
    let r = [evaluate(red, t), evaluate(green, t), evaluate(blue, t)];
    assert(r@ =~= seq![channel_at(*red, t), channel_at(*green, t), channel_at(*blue, t)]);
    r
}

impl Colormap {
    /// Sample the colormap at a normalized value. Returns red, green and
    /// blue, each between zero and one.
    pub fn sample(&self, t: Scalar) -> (r: [Scalar; 3])
        ensures
            r@ == sampled(*self, t),
    {
        let u = t.clamp_to_unit();
        match self {
            Colormap::Viridis => sample_with(&VIRIDIS_RED, &VIRIDIS_GREEN, &VIRIDIS_BLUE, u),
            Colormap::Plasma => sample_with(&PLASMA_RED, &PLASMA_GREEN, &PLASMA_BLUE, u),
            Colormap::Inferno => sample_with(&INFERNO_RED, &INFERNO_GREEN, &INFERNO_BLUE, u),
            Colormap::Magma => sample_with(&MAGMA_RED, &MAGMA_GREEN, &MAGMA_BLUE, u),
            Colormap::Cividis => sample_with(&CIVIDIS_RED, &CIVIDIS_GREEN, &CIVIDIS_BLUE, u),
        }
    }
}

/// Where a scalar lies in a material's range, as a share of the range; a
/// half if the range is empty or inverted. Kept between zero and one if the
/// material clamps.
pub open spec fn range_share(scalar: Scalar, material: ScalarMappedMaterial) -> Scalar {
    let min = material.range[0];
    let max = material.range[1];
    let t = if min.lt_spec(max) {
        scalar.minus(min).quotient(max.minus(min))
    } else {
        Scalar::Finite(500_000)
    };
    if material.clamp {
        t.clamped_to_unit()
    } else {
        t
    }
}

/// The colour that a material gives a scalar, with the material's colormap
/// as found by its name: the missing colour for scalars that are not finite,
/// otherwise the colormap at the scalar's share of the range, or a grey of
/// that share if no colormap is found.
pub open spec fn mapped_color(
    scalar: Scalar,
    material: ScalarMappedMaterial,
    map: Option<Colormap>,
) -> Seq<Scalar> {
    if !scalar.finite() {
        seq![material.missing_color[0], material.missing_color[1], material.missing_color[2]]
    } else {
        let t = range_share(scalar, material);
        match map {
            Some(m) => sampled(m, t),
            None => seq![t.clamped_to_unit(), t.clamped_to_unit(), t.clamped_to_unit()],
        }
    }
}

/// Get the colour for a scalar value, given the material's colormap.
pub fn color_with(scalar: Scalar, material: &ScalarMappedMaterial, map: Option<Colormap>) -> (r:
    [Scalar; 3])
    ensures
        r@ == mapped_color(scalar, *material, map),
{
    if !scalar.is_finite() {
        let r = [material.missing_color[0], material.missing_color[1], material.missing_color[2]];
        assert(r@ =~= mapped_color(scalar, *material, map));
        return r;
    }
    let min = material.range[0];
    let max = material.range[1];
    let t = if max.gt(min) {
        scalar.sub(min).div(max.sub(min))
    } else {
        Scalar::Finite(500_000)
    };
    let t = if material.clamp { t.clamp_to_unit() } else { t };
    match map {
        Some(m) => m.sample(t),
        None => {
            let v = t.clamp_to_unit();
            let r = [v, v, v];
            assert(r@ =~= mapped_color(scalar, *material, map));
            r
        },
    }
}

/// Get the colour for a scalar value using a material's colormap.
pub fn scalar_to_color(scalar: Scalar, material: &ScalarMappedMaterial) -> (r: [Scalar; 3])
    ensures
        r@ == mapped_color(scalar, *material, colormap_named(lowercase(material.colormap@))),
{
    let map = Colormap::from_name(material.colormap.as_str());
    color_with(scalar, material, map)
}

/// The colour of a material without a scalar: the solid colour, or the
/// mapped colour of the middle of the range.
pub open spec fn solid_color(material: Material) -> Seq<Scalar> {
    match material {
        Material::Solid(m) => seq![m.color[0], m.color[1], m.color[2]],
        Material::ScalarMapped(m) => mapped_color(
            m.range[0].plus(m.range[1]).scaled_spec(1, 2),
            m,
            colormap_named(lowercase(m.colormap@)),
        ),
    }
}

/// Get solid colour from a material (red, green, blue).
pub fn get_solid_color(material: &Material) -> (r: [Scalar; 3])
    ensures
        r@ == solid_color(*material),
{
    match material {
        Material::Solid(m) => {
            let r = [m.color[0], m.color[1], m.color[2]];
            assert(r@ =~= solid_color(*material));
            r
        },
        Material::ScalarMapped(m) => scalar_to_color(m.range[0].add(m.range[1]).scaled(1, 2), m),
    }
}

/// Every colormap is found again by its own name.
pub proof fn lemma_name_round_trip(c: Colormap)
    ensures
        colormap_named(c.name_spec()) == Some(c),
{
    reveal_strlit("viridis");
    reveal_strlit("plasma");
    reveal_strlit("inferno");
    reveal_strlit("magma");
    reveal_strlit("cividis");
    assert("viridis"@.len() == 7 && "plasma"@.len() == 6 && "inferno"@.len() == 7);
    assert("magma"@.len() == 5 && "cividis"@.len() == 7);
    assert("viridis"@[0] == 'v' && "inferno"@[0] == 'i' && "cividis"@[0] == 'c');
}

} // verus!
