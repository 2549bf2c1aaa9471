//! Lighting model: a single directional light.

use crate::scalar::{narrow, saturate, Scalar};
use crate::text::{decimal, push_decimal};
use crate::ticks::{format_plain, plain};
use vstd::prelude::*;
use vstd::string::StringExecFns;

verus! {

/// A directional light. The direction points toward the light source.
#[derive(Debug, Clone, Copy)]
pub struct Light {
    /// Direction toward the light source (world space).
    pub direction: [Scalar; 3],
    /// Light intensity; multiplies the diffuse term.
    pub intensity: Scalar,
    /// Whether lighting is applied. If false, meshes render flat.
    pub enabled: bool,
}

/// Whether a light is applied when a description does not say.
pub fn default_enabled() -> (r: bool)
    ensures
        r,
{
    true
}

impl Light {
    /// The same light with the given enabled state.
    pub fn with_enabled(self, enabled: bool) -> (r: Self)
        ensures
            r.direction == self.direction,
            r.intensity == self.intensity,
            r.enabled == enabled,
    {
        Light { direction: self.direction, intensity: self.intensity, enabled }
    }
}

/// `r` is the whole part of the square root of `n`.
pub open spec fn is_root(n: nat, r: nat) -> bool {
    r * r <= n < (r + 1) * (r + 1)
}

/// The whole part of the square root of `n`.
pub open spec fn root(n: nat) -> nat {
    choose|r: nat| is_root(n, r)
}

/// A number has one whole root only.
pub proof fn lemma_root_unique(n: nat, a: nat, b: nat)
    requires
        is_root(n, a),
        is_root(n, b),
    ensures
        a == b,
{
    if a < b {
        assert((a + 1) * (a + 1) <= b * b) by (nonlinear_arith)
            requires
                a + 1 <= b,
        ;
    } else if b < a {
        assert((b + 1) * (b + 1) <= a * a) by (nonlinear_arith)
            requires
                b + 1 <= a,
        ;
    }
}

/// Computes the whole part of a square root.
pub fn whole_root(n: u128) -> (r: u64)
    ensures
        is_root(n as nat, r as nat),
        r == root(n as nat),
{
    let mut lo: u128 = 0;
    let mut hi: u128 = 0xffff_ffff_ffff_ffff;
    assert(0x1_0000_0000_0000_0000 * 0x1_0000_0000_0000_0000
        == 0x1_0000_0000_0000_0000_0000_0000_0000_0000int) by (nonlinear_arith);
    while lo < hi
        invariant
            lo <= hi <= 0xffff_ffff_ffff_ffff,
            lo * lo <= n,
            n < (hi + 1) * (hi + 1),
        decreases hi - lo,
    {
        let mid: u128 = lo + (hi - lo + 1) / 2;
        assert(mid * mid <= 0xffff_ffff_ffff_ffff * 0xffff_ffff_ffff_ffff) by (nonlinear_arith)
            requires
                0 <= mid <= 0xffff_ffff_ffff_ffff,
        ;
        assert(0xffff_ffff_ffff_ffff * 0xffff_ffff_ffff_ffff
            < 0x1_0000_0000_0000_0000_0000_0000_0000_0000int) by (nonlinear_arith);
        if mid * mid <= n {
            lo = mid;
        } else {
            hi = mid - 1;
        }
    }
    proof {
        lemma_root_unique(n as nat, lo as nat, root(n as nat));
    }
    lo as u64
}

/// Sum of the squares of three finite coordinates, in squared units.
pub open spec fn squared_length(d: [Scalar; 3]) -> nat {
    let x = d[0]->Finite_0 as int;
    let y = d[1]->Finite_0 as int;
    let z = d[2]->Finite_0 as int;
    (x * x + y * y + z * z) as nat
}

/// Length of a direction: the whole root of the squared length; infinite if
/// a coordinate is, and `Nan` if a coordinate is.
pub open spec fn length(d: [Scalar; 3]) -> Scalar {
    if d[0] is Nan || d[1] is Nan || d[2] is Nan {
        Scalar::Nan
    } else if !d[0].finite() || !d[1].finite() || !d[2].finite() {
        Scalar::PosInf
    } else {
        saturate(root(squared_length(d)) as int)
    }
}

/// Computes the length of a direction.
pub fn direction_length(d: &[Scalar; 3]) -> (r: Scalar)
    ensures
        r == length(*d),
{
    match (d[0], d[1], d[2]) {
        (Scalar::Finite(x), Scalar::Finite(y), Scalar::Finite(z)) => {
            let sum = sum_of_squares(x, y, z);
            narrow(whole_root(sum) as i128)
        },
        (Scalar::Nan, _, _) => Scalar::Nan,
        (_, Scalar::Nan, _) => Scalar::Nan,
        (_, _, Scalar::Nan) => Scalar::Nan,
        _ => Scalar::PosInf,
    }
}

fn sum_of_squares(x: i64, y: i64, z: i64) -> (r: u128)
    ensures
        r == x * x + y * y + z * z,
{
    assert(0 <= x * x <= 0x4000_0000_0000_0000_0000_0000_0000_0000) by (nonlinear_arith)
        requires
            -0x8000_0000_0000_0000 <= x <= 0x8000_0000_0000_0000,
    ;
    assert(0 <= y * y <= 0x4000_0000_0000_0000_0000_0000_0000_0000) by (nonlinear_arith)
        requires
            -0x8000_0000_0000_0000 <= y <= 0x8000_0000_0000_0000,
    ;
    assert(0 <= z * z <= 0x4000_0000_0000_0000_0000_0000_0000_0000) by (nonlinear_arith)
        requires
            -0x8000_0000_0000_0000 <= z <= 0x8000_0000_0000_0000,
    ;
    let xx: i128 = (x as i128) * (x as i128);
    let yy: i128 = (y as i128) * (y as i128);
    let zz: i128 = (z as i128) * (z as i128);
    xx as u128 + yy as u128 + zz as u128
}

/// A direction can be normalized: no coordinate is `Nan`, and it is longer
/// than one unit (a millionth).
pub open spec fn has_direction(d: [Scalar; 3]) -> bool {
    &&& !(d[0] is Nan || d[1] is Nan || d[2] is Nan)
    &&& (d[0].finite() && d[1].finite() && d[2].finite() ==> squared_length(d) > 1)
}

/// Whether a direction can be normalized.
pub fn can_normalize(d: &[Scalar; 3]) -> (r: bool)
    ensures
        r == has_direction(*d),
{
    match (d[0], d[1], d[2]) {
        (Scalar::Finite(x), Scalar::Finite(y), Scalar::Finite(z)) => sum_of_squares(x, y, z) > 1,
        (Scalar::Nan, _, _) => false,
        (_, Scalar::Nan, _) => false,
        (_, _, Scalar::Nan) => false,
        _ => true,
    }
}

/// The direction scaled to length one: every coordinate divided by the length.
pub open spec fn normalized(d: [Scalar; 3]) -> Seq<Scalar> {
    seq![
        d[0].quotient(length(d)),
        d[1].quotient(length(d)),
        d[2].quotient(length(d)),
    ]
}

/// The squared length of a direction is within a hundredth of one in length.
pub open spec fn nearly_unit(d: [Scalar; 3]) -> bool {
    990_000 * 990_000 <= squared_length(d) <= 1_010_000 * 1_010_000
}

/// What is wrong with a light, if anything: the first of a direction
/// coordinate that is not finite, a direction that is not of length one
/// within a hundredth, an intensity that is not finite, a negative intensity.
pub open spec fn light_fault(light: Light) -> Option<Seq<char>> {
    let d = light.direction;
    if !d[0].finite() {
        Some("Light direction[0] is not finite: "@ + plain(d[0]))
    } else if !d[1].finite() {
        Some("Light direction[1] is not finite: "@ + plain(d[1]))
    } else if !d[2].finite() {
        Some("Light direction[2] is not finite: "@ + plain(d[2]))
    } else if !nearly_unit(d) {
        Some("Light direction is not normalized: length = "@ + plain(length(d)))
    } else if !light.intensity.finite() {
        Some("Light intensity is not finite: "@ + plain(light.intensity))
    } else if light.intensity.lt_spec(Scalar::Finite(0)) {
        Some("Light intensity must be non-negative: "@ + plain(light.intensity))
    } else {
        None
    }
}

impl Light {
    /// Create a new directional light. The direction is normalized.
    ///
    /// The direction must be longer than a millionth and the intensity
    /// finite and not negative.
    pub fn new(direction: [Scalar; 3], intensity: Scalar) -> (light: Self)
        requires
            has_direction(direction),
            intensity.finite(),
            !intensity.lt_spec(Scalar::Finite(0)),
        ensures
            light.direction@ == normalized(direction),
            light.intensity == intensity,
            light.enabled,
    {
        let len = direction_length(&direction);
        let normal = [direction[0].div(len), direction[1].div(len), direction[2].div(len)];
        assert(normal@ =~= normalized(direction));
        Light { direction: normal, intensity, enabled: true }
    }

    /// Scientific flat lighting: overhead light, moderate intensity.
    pub fn scientific_flat() -> (light: Self)
        ensures
            light.direction@ == normalized(
                [Scalar::Finite(0), Scalar::Finite(1_000_000), Scalar::Finite(300_000)],
            ),
            light.intensity == Scalar::Finite(800_000),
            light.enabled,
    {
        Light::preset(0, 1_000_000, 300_000, 800_000)
    }

    /// Studio soft lighting: front-top-right, balanced intensity.
    pub fn studio_soft() -> (light: Self)
        ensures
            light.direction@ == normalized(
                [Scalar::Finite(500_000), Scalar::Finite(700_000), Scalar::Finite(500_000)],
            ),
            light.intensity == Scalar::Finite(1_000_000),
            light.enabled,
    {
        Light::preset(500_000, 700_000, 500_000, 1_000_000)
    }

    /// Rim highlight lighting: back-top light for edge emphasis.
    pub fn rim_highlight() -> (light: Self)
        ensures
            light.direction@ == normalized(
                [Scalar::Finite(-300_000i64), Scalar::Finite(500_000), Scalar::Finite(-800_000i64)],
            ),
            light.intensity == Scalar::Finite(1_200_000),
            light.enabled,
    {
        Light::preset(-300_000, 500_000, -800_000, 1_200_000)
    }

    /// Depth emphasis lighting: steep top-down angle.
    pub fn depth_emphasis() -> (light: Self)
        ensures
            light.direction@ == normalized(
                [Scalar::Finite(100_000), Scalar::Finite(950_000), Scalar::Finite(100_000)],
            ),
            light.intensity == Scalar::Finite(1_000_000),
            light.enabled,
    {
        Light::preset(100_000, 950_000, 100_000, 1_000_000)
    }

    /// Side lighting: strong lateral illumination.
    pub fn side_light() -> (light: Self)
        ensures
            light.direction@ == normalized(
                [Scalar::Finite(1_000_000), Scalar::Finite(300_000), Scalar::Finite(200_000)],
            ),
            light.intensity == Scalar::Finite(1_000_000),
            light.enabled,
    {
        Light::preset(1_000_000, 300_000, 200_000, 1_000_000)
    }

    /// Three-quarter view lighting: the classic setup at equal angles.
    pub fn three_quarter() -> (light: Self)
        ensures
            light.direction@ == normalized(
                [Scalar::Finite(577_000), Scalar::Finite(577_000), Scalar::Finite(577_000)],
            ),
            light.intensity == Scalar::Finite(1_000_000),
            light.enabled,
    {
        Light::preset(577_000, 577_000, 577_000, 1_000_000)
    }

    /// A light from a direction with a coordinate of at least a tenth.
    fn preset(x: i64, y: i64, z: i64, intensity: i64) -> (light: Self)
        requires
            100_000 <= y <= 1_000_000,
            -1_000_000 <= x <= 1_000_000,
            -1_000_000 <= z <= 1_000_000,
            intensity >= 0,
        ensures
            light.direction@ == normalized([Scalar::Finite(x), Scalar::Finite(y), Scalar::Finite(z)]),
            light.intensity == Scalar::Finite(intensity),
            light.enabled,
    {
        let direction = [Scalar::Finite(x), Scalar::Finite(y), Scalar::Finite(z)];
        assert(x * x >= 0 && z * z >= 0 && y * y >= 10_000_000_000) by (nonlinear_arith)
            requires
                100_000 <= y,
        ;
        assert(squared_length(direction) > 1);
        Light::new(direction, Scalar::Finite(intensity))
    }

    /// Validate the light configuration. Returns what is wrong, if anything.
    pub fn validate(&self) -> (r: Option<String>)
        ensures
            match light_fault(*self) {
                Some(message) => r is Some && r->Some_0@ == message,
                None => r is None,
            },
    {
        let mut i: usize = 0;
        while i < 3
            invariant
                i <= 3,
                forall|k: int| 0 <= k < i ==> self.direction[k].finite(),
            decreases 3 - i,
        {
            let v = self.direction[i];
            if !v.is_finite() {
                let mut m = String::from_str("Light direction[");
                push_decimal(&mut m, i as u64);
                m.append("] is not finite: ");
                m.append(format_plain(v).as_str());
                proof {
                    lemma_index_text(i as nat);
                    assert(m@ =~= "Light direction["@ + decimal(i as nat) + "] is not finite: "@
                        + plain(v));
                }
                return Some(m);
            }
            i = i + 1;
        }
        let (x, y, z) = match (self.direction[0], self.direction[1], self.direction[2]) {
            (Scalar::Finite(x), Scalar::Finite(y), Scalar::Finite(z)) => (x, y, z),
            _ => (0, 0, 0),
        };
        let sum = sum_of_squares(x, y, z);
        if sum < 990_000 * 990_000 || sum > 1_010_000 * 1_010_000 {
            let mut m = String::from_str("Light direction is not normalized: length = ");
            m.append(format_plain(direction_length(&self.direction)).as_str());
            return Some(m);
        }
        if !self.intensity.is_finite() {
            let mut m = String::from_str("Light intensity is not finite: ");
            m.append(format_plain(self.intensity).as_str());
            return Some(m);
        }
        if self.intensity.lt(Scalar::Finite(0)) {
            let mut m = String::from_str("Light intensity must be non-negative: ");
            m.append(format_plain(self.intensity).as_str());
            return Some(m);
        }
        None
    }
}

/// The text that names coordinate `i` of a direction.
pub proof fn lemma_index_text(i: nat)
    requires
        i < 3,
    ensures
        "Light direction["@ + decimal(i) + "] is not finite: "@ == (if i == 0 {
            "Light direction[0] is not finite: "@
        } else if i == 1 {
            "Light direction[1] is not finite: "@
        } else {
            "Light direction[2] is not finite: "@
        }),
{
    reveal_strlit("Light direction[");
    reveal_strlit("] is not finite: ");
    reveal_strlit("Light direction[0] is not finite: ");
    reveal_strlit("Light direction[1] is not finite: ");
    reveal_strlit("Light direction[2] is not finite: ");
    assert(decimal(i) =~= seq![crate::text::digit_char(i)]);
    assert("Light direction["@ + decimal(i) + "] is not finite: "@ =~= (if i == 0 {
        "Light direction[0] is not finite: "@
    } else if i == 1 {
        "Light direction[1] is not finite: "@
    } else {
        "Light direction[2] is not finite: "@
    }));
}

} // verus!
