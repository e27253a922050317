//! The kinematic solver: from the commanded orientation to the height of
//! each actuator and of the plate above it.
//!
//! The model is linear in the tilt angles. An actuator stands on the base
//! plane at `(x, z) = (r * cos, r * sin)`; pitch tilts the plate about the x
//! axis and roll about the z axis, so the plate above that point is raised
//! by `(z * radians(pitch) + x * radians(roll)) / 2`.
//!
//! Sines, cosines and pi are held to twelve decimals and the product is
//! rounded to the nearest count, so that a height is within one count of
//! what the formula gives in real numbers.

use vstd::prelude::*;
use crate::fixed::{
    div_round, div_trunc, lemma_div_round_error, lemma_div_round_monotonic,
    lemma_div_round_negated, lemma_div_round_whole, lemma_div_round_within,
    lemma_product_negated, lemma_product_within, magnitude, mul_fraction, round_div, scaled,
    within, FINE,
};
use crate::gimbal::GimbalState;

verus! {

/// Pi, at the scale `FINE`: pi rounded to twelve decimals.
pub const PI_FINE: i64 = 3_141_592_653_590;

/// What the tilt numerator `(z * pitch + x * roll) * PI_FINE` is divided by,
/// with `z` and `x` in millionths of a count: 180 for degrees to radians, 2
/// for the tilt gain of one half, a million for the angle, a million for
/// the finer `z` and `x`, and `FINE` for pi.
pub const TILT_DIVISOR: i128 = 360_000_000_000_000_000_000_000_000;

/// Largest radius of a layout: ten metres.
pub const RADIUS_LIMIT: i64 = 10_000_000_000;

/// Resting height of every actuator when the demand is zero: 15 mm.
pub const BASE_NOMINAL: i64 = 15_000_000;

/// An actuator more than this far above its nominal height counts as
/// extended, one more than this far below as retracted: 3 mm.
pub const BAND: i64 = 3_000_000;

/// Bound on the magnitude of any tilt offset.
pub const TILT_LIMIT: i64 = 200_000_000_000;

/// Bound on the magnitude of any actuator height.
pub const HEIGHT_LIMIT: i64 = 2_000_000_000_000;

/// An angular position about the gimbal's axis, held as its cosine and sine
/// at the scale `FINE`.
#[derive(Clone, Copy, Debug, PartialEq, Eq, Structural)]
pub struct Bearing {
    pub cos: i64,
    pub sin: i64,
}

impl Bearing {
    /// The bearing lies on the unit circle, as nearly as rounding lets it:
    /// neither part exceeds one, and the sum of their squares is within two
    /// units in the last place of one.
    pub open spec fn valid(&self) -> bool {
        &&& within(self.cos as int, FINE as int)
        &&& within(self.sin as int, FINE as int)
        &&& within(
            self.cos * self.cos + self.sin * self.sin - 1_000_000_000_000_000_000_000_000,
            2 * FINE,
        )
    }

    /// Tests `valid`.
    pub fn is_valid(&self) -> (b: bool)
        ensures
            b == self.valid(),
    {
        if self.cos < -FINE || self.cos > FINE || self.sin < -FINE || self.sin > FINE {
            return false;
        }
        proof {
            lemma_product_within(
                self.cos as int,
                self.cos as int,
                1_000_000_000_000,
                1_000_000_000_000,
            );
            lemma_product_within(
                self.sin as int,
                self.sin as int,
                1_000_000_000_000,
                1_000_000_000_000,
            );
        }
        let cos: i128 = self.cos as i128;
        let sin: i128 = self.sin as i128;
        let excess: i128 = cos * cos + sin * sin - 1_000_000_000_000_000_000_000_000;
        -2_000_000_000_000 <= excess && excess <= 2_000_000_000_000
    }
}

/// Why a layout was refused.
#[derive(Clone, Copy, Debug, PartialEq, Eq, Structural)]
pub enum LayoutError {
    /// Fewer than three actuators cannot carry a plate.
    TooFewActuators,
    /// The radius is not positive, or exceeds `RADIUS_LIMIT`.
    RadiusOutOfRange,
    /// Some bearing does not lie on the unit circle.
    BearingOutOfRange,
}

/// The first fault found in the parts of a layout, if there is one.
pub open spec fn layout_fault(bearings: Seq<Bearing>, radius: int) -> Option<LayoutError> {
    if bearings.len() < 3 {
        Some(LayoutError::TooFewActuators)
    } else if radius <= 0 || radius > RADIUS_LIMIT {
        Some(LayoutError::RadiusOutOfRange)
    } else if exists|i: int| 0 <= i < bearings.len() && !(#[trigger] bearings[i]).valid() {
        Some(LayoutError::BearingOutOfRange)
    } else {
        None
    }
}

/// Points on a circle about the gimbal's axis, in order: the actuators'
/// mounting points, or the samples of a plate's outline.
#[derive(Debug)]
pub struct ActuatorLayout {
    bearings: Vec<Bearing>,
    radius: i64,
}

impl ActuatorLayout {
    /// The angular positions, in order.
    pub closed spec fn bearings(&self) -> Seq<Bearing> {
        self.bearings@
    }

    /// The shared radius.
    pub closed spec fn spec_radius(&self) -> i64 {
        self.radius
    }

    /// What every layout satisfies: at least three valid bearings and a
    /// positive radius of at most `RADIUS_LIMIT`.
    pub open spec fn wf(&self) -> bool {
        layout_fault(self.bearings(), self.radius() as int) is None
    }

    #[verifier::type_invariant]
    spec fn well_formed(&self) -> bool {
        self.wf()
    }

    /// x coordinate on the base plane of point `i`.
    pub open spec fn base_x(&self, i: int) -> int {
        scaled(self.radius() as int, self.bearings()[i].cos as int)
    }

    /// z coordinate on the base plane of point `i`.
    pub open spec fn base_z(&self, i: int) -> int {
        scaled(self.radius() as int, self.bearings()[i].sin as int)
    }

    /// How far the plate tilted by `demand` stands from its reference
    /// height over point `i`.
    pub open spec fn tilt(&self, demand: GimbalState, i: int) -> int {
        spec_tilt(demand, self.radius() as int, self.bearings()[i])
    }

    /// Builds a layout, or reports the first fault in its parts.
    pub fn new(bearings: Vec<Bearing>, radius: i64) -> (r: Result<ActuatorLayout, LayoutError>)
        ensures
            match r {
                Ok(layout) => {
                    &&& layout_fault(bearings@, radius as int) is None
                    &&& layout.bearings() == bearings@
                    &&& layout.radius() == radius
                    &&& layout.wf()
                },
                Err(e) => layout_fault(bearings@, radius as int) == Some(e),
            },
    {
        if bearings.len() < 3 {
            return Err(LayoutError::TooFewActuators);
        }
        if radius <= 0 || radius > RADIUS_LIMIT {
            return Err(LayoutError::RadiusOutOfRange);
        }
        let mut i: usize = 0;
        while i < bearings.len()
            invariant
                3 <= bearings.len(),
                0 < radius <= RADIUS_LIMIT,
                i <= bearings.len(),
                forall|j: int| 0 <= j < i ==> (#[trigger] bearings@[j]).valid(),
            decreases bearings.len() - i,
        {
            if !bearings[i].is_valid() {
                return Err(LayoutError::BearingOutOfRange);
            }
            i += 1;
        }
        Ok(ActuatorLayout { bearings, radius })
    }

    /// Three actuators a third of a turn apart, the first on the x axis.
    pub fn triangular(radius: i64) -> (r: Result<ActuatorLayout, LayoutError>)
        ensures
            match r {
                Ok(layout) => {
                    &&& 0 < radius <= RADIUS_LIMIT
                    &&& layout.bearings() == triangular_bearings()
                    &&& layout.radius() == radius
                    &&& layout.wf()
                },
                Err(e) => e == LayoutError::RadiusOutOfRange && !(0 < radius <= RADIUS_LIMIT),
            },
    {
        let mut bearings: Vec<Bearing> = Vec::new();
        bearings.push(Bearing { cos: 1_000_000_000_000, sin: 0 });
        bearings.push(Bearing { cos: -500_000_000_000, sin: 866_025_403_784 });
        bearings.push(Bearing { cos: -500_000_000_000, sin: -866_025_403_784 });
        proof {
            lemma_table_bearings_valid();
            assert(bearings@ =~= triangular_bearings());
        }
        ActuatorLayout::new(bearings, radius)
    }

    /// Six actuators a sixth of a turn apart, the first on the x axis.
    pub fn hexagonal(radius: i64) -> (r: Result<ActuatorLayout, LayoutError>)
        ensures
            match r {
                Ok(layout) => {
                    &&& 0 < radius <= RADIUS_LIMIT
                    &&& layout.bearings() == hexagonal_bearings()
                    &&& layout.radius() == radius
                    &&& layout.wf()
                },
                Err(e) => e == LayoutError::RadiusOutOfRange && !(0 < radius <= RADIUS_LIMIT),
            },
    {
        let mut bearings: Vec<Bearing> = Vec::new();
        bearings.push(Bearing { cos: 1_000_000_000_000, sin: 0 });
        bearings.push(Bearing { cos: 500_000_000_000, sin: 866_025_403_784 });
        bearings.push(Bearing { cos: -500_000_000_000, sin: 866_025_403_784 });
        bearings.push(Bearing { cos: -1_000_000_000_000, sin: 0 });
        bearings.push(Bearing { cos: -500_000_000_000, sin: -866_025_403_784 });
        bearings.push(Bearing { cos: 500_000_000_000, sin: -866_025_403_784 });
        proof {
            lemma_table_bearings_valid();
            assert(bearings@ =~= hexagonal_bearings());
        }
        ActuatorLayout::new(bearings, radius)
    }

    /// The number of points.
    pub fn count(&self) -> (n: usize)
        ensures
            n == self.bearings().len(),
            n >= 3,
    {
        proof {
            use_type_invariant(self);
        }
        self.bearings.len()
    }

    /// The shared radius.
    #[verifier::when_used_as_spec(spec_radius)]
    pub fn radius(&self) -> (r: i64)
        ensures
            r == self.radius(),
            0 < r <= RADIUS_LIMIT,
    {
        proof {
            use_type_invariant(self);
        }
        self.radius
    }

    /// The angular position of point `i`.
    pub fn bearing(&self, i: usize) -> (b: Bearing)
        requires
            i < self.bearings().len(),
        ensures
            b == self.bearings()[i as int],
            b.valid(),
    {
        proof {
            use_type_invariant(self);
        }
        self.bearings[i]
    }
}

/// Every bearing of the two tables lies on the unit circle as nearly as
/// rounding lets it.
pub proof fn lemma_table_bearings_valid()
    ensures
        forall|i: int| 0 <= i < 3 ==> (#[trigger] triangular_bearings()[i]).valid(),
        forall|i: int| 0 <= i < 6 ==> (#[trigger] hexagonal_bearings()[i]).valid(),
{
    let s: int = 866_025_403_784;
    let c: int = 500_000_000_000;
    let u: int = 1_000_000_000_000;
    assert(s * s == 749999999999240241518656 && (-s) * (-s) == 749999999999240241518656) by (nonlinear_arith)
        requires
            s == 866_025_403_784,
    ;
    assert(c * c == 250_000_000_000_000_000_000_000 && (-c) * (-c)
        == 250_000_000_000_000_000_000_000) by (nonlinear_arith)
        requires
            c == 500_000_000_000,
    ;
    assert(u * u == 1_000_000_000_000_000_000_000_000 && (-u) * (-u)
        == 1_000_000_000_000_000_000_000_000 && 0int * 0int == 0) by (nonlinear_arith)
        requires
            u == 1_000_000_000_000,
    ;
}

/// Bearings at 0, 120 and 240 degrees.
pub open spec fn triangular_bearings() -> Seq<Bearing> {
    seq![
        Bearing { cos: 1_000_000_000_000i64, sin: 0i64 },
        Bearing { cos: -500_000_000_000i64, sin: 866_025_403_784i64 },
        Bearing { cos: -500_000_000_000i64, sin: -866_025_403_784i64 },
    ]
}

/// Bearings at 0, 60, 120, 180, 240 and 300 degrees.
pub open spec fn hexagonal_bearings() -> Seq<Bearing> {
    seq![
        Bearing { cos: 1_000_000_000_000i64, sin: 0i64 },
        Bearing { cos: 500_000_000_000i64, sin: 866_025_403_784i64 },
        Bearing { cos: -500_000_000_000i64, sin: 866_025_403_784i64 },
        Bearing { cos: -1_000_000_000_000i64, sin: 0i64 },
        Bearing { cos: -500_000_000_000i64, sin: -866_025_403_784i64 },
        Bearing { cos: 500_000_000_000i64, sin: -866_025_403_784i64 },
    ]
}

/// How far a point of a circle of the given radius lies from the axis along
/// one ground axis, in millionths of a count: the radius times the sine or
/// the cosine of the point's bearing.
pub open spec fn fine_reach(radius: int, part: int) -> int {
    div_round(radius * part, 1_000_000)
}

/// The numerator of the tilt: `(z * pitch + x * roll) * pi`, with `z` and
/// `x` in millionths of a count and pi at the scale `FINE`.
pub open spec fn tilt_numerator(demand: GimbalState, radius: int, bearing: Bearing) -> int {
    (fine_reach(radius, bearing.sin as int) * demand.pitch + fine_reach(
        radius,
        bearing.cos as int,
    ) * demand.roll) * PI_FINE
}

/// How far the tilted plate stands above or below its reference height over
/// the point at `bearing` on the circle of the given radius.
pub open spec fn spec_tilt(demand: GimbalState, radius: int, bearing: Bearing) -> int {
    div_round(tilt_numerator(demand, radius, bearing), TILT_DIVISOR as int)
}

/// Computes `fine_reach`.
fn reach(radius: i64, part: i64) -> (r: i64)
    requires
        0 < radius <= RADIUS_LIMIT,
        within(part as int, FINE as int),
    ensures
        r == fine_reach(radius as int, part as int),
        within(r as int, 10_000_000_000_000_000),
{
    proof {
        lemma_product_within(radius as int, part as int, 10_000_000_000, 1_000_000_000_000);
    }
    let product: i128 = (radius as i128) * (part as i128);
    let quotient: i128 = round_div(product, 1_000_000);
    quotient as i64
}

/// Computes `spec_tilt`.
pub fn tilt_offset(demand: &GimbalState, radius: i64, bearing: Bearing) -> (t: i64)
    requires
        demand.in_range(),
        0 < radius <= RADIUS_LIMIT,
        bearing.valid(),
    ensures
        t == spec_tilt(*demand, radius as int, bearing),
        within(t as int, TILT_LIMIT as int),
{
    let z: i64 = reach(radius, bearing.sin);
    let x: i64 = reach(radius, bearing.cos);
    proof {
        lemma_product_within(z as int, demand.pitch as int, 10_000_000_000_000_000, 1_000_000_000);
        lemma_product_within(x as int, demand.roll as int, 10_000_000_000_000_000, 1_000_000_000);
    }
    let by_pitch: i128 = (z as i128) * (demand.pitch as i128);
    let by_roll: i128 = (x as i128) * (demand.roll as i128);
    let pi: i128 = PI_FINE as i128;
    let numerator: i128 = (by_pitch + by_roll) * pi;
    let quotient: i128 = round_div(numerator, TILT_DIVISOR);
    quotient as i64
}

/// The tilt offset is the quotient of `tilt_numerator` by `TILT_DIVISOR`
/// rounded to the nearest count: it is at most half a count from it.
pub proof fn lemma_tilt_rounding(demand: GimbalState, radius: int, bearing: Bearing)
    ensures
        2 * magnitude(
            spec_tilt(demand, radius, bearing) * TILT_DIVISOR - tilt_numerator(
                demand,
                radius,
                bearing,
            ),
        ) <= TILT_DIVISOR,
{
    lemma_div_round_error(tilt_numerator(demand, radius, bearing), TILT_DIVISOR as int);
}

/// What a rounded factor carries into a product: if `e` is what `a` over
/// `k` differs by from `b` over `g`, multiplied out, then it is what their
/// products with `x` differ by.
proof fn lemma_rounded_factor(a: int, b: int, e: int, g: int, k: int, x: int)
    by (nonlinear_arith)
    requires
        e == a * g - b * k,
    ensures
        (a * x) * g == (b * x) * k + e * x,
        g * (a * x) == k * (b * x) + e * x,
        g * (a * x) == k * (b * x) + x * e,
{
}

/// A sum times a factor.
proof fn lemma_sum_times(a: int, b: int, x: int)
    by (nonlinear_arith)
    ensures
        (a + b) * x == a * x + b * x,
{
}

/// A factor times a sum of products.
proof fn lemma_times_sum(r: int, a: int, x: int, b: int, y: int)
    by (nonlinear_arith)
    ensures
        r * (a * x + b * y) == (r * a) * x + (r * b) * y,
        r * (a * x + b * y) == x * (r * a) + y * (r * b),
{
}

/// A multiple of a product, however it is bracketed.
proof fn lemma_multiple_times(k: int, a: int, x: int)
    by (nonlinear_arith)
    ensures
        (k * a) * x == k * (a * x),
        (a * k) * x == k * (a * x),
        x * (k * a) == k * (a * x),
        a * x == x * a,
{
}

/// A product times a square.
proof fn lemma_twice_times(r: int, y: int, g: int)
    by (nonlinear_arith)
    ensures
        (r * y) * (g * g) == (r * (y * g)) * g,
{
}

/// The tilt is within one count of the formula
/// `r * (sin * pitch + cos * roll) * pi / 360` worked in exact arithmetic.
///
/// The sine, the cosine and pi of the formula are given as numerators
/// `sine`, `cosine` and `pi` over a common denominator `g`, as fine as one
/// likes. All that is asked of them is that the library's own twelve
/// decimals are their roundings: each differs from its counterpart by at
/// most half a unit of the twelfth decimal. Real sines, cosines and pi are
/// the limits of such fractions, and the bound, holding along the way, holds
/// in the limit.
///
/// In counts the formula's value is
/// `radius * (sine * pitch + cosine * roll) * pi / (360_000_000 * g * g)`;
/// the bound is stated multiplied out.
pub proof fn lemma_tilt_true_to_formula(
    demand: GimbalState,
    radius: int,
    bearing: Bearing,
    g: int,
    sine: int,
    cosine: int,
    pi: int,
)
    requires
        demand.in_range(),
        0 < radius <= RADIUS_LIMIT,
        0 < g,
        within(sine, g),
        within(cosine, g),
        within(2 * (bearing.sin * g - sine * FINE), g),
        within(2 * (bearing.cos * g - cosine * FINE), g),
        within(2 * (PI_FINE * g - pi * FINE), g),
    ensures
        within(
            spec_tilt(demand, radius, bearing) * (360_000_000 * (g * g)) - radius * (sine
                * demand.pitch + cosine * demand.roll) * pi,
            360_000_000 * (g * g),
        ),
{
    let p = demand.pitch as int;
    let q = demand.roll as int;
    let r = radius;
    let s = bearing.sin as int;
    let c = bearing.cos as int;
    let g2 = g * g;
    let t = spec_tilt(demand, r, bearing);
    let zf = fine_reach(r, s);
    let xf = fine_reach(r, c);
    let w = zf * p + xf * q;
    // What each rounding lost.
    let dz = zf * 1_000_000 - r * s;
    let dx = xf * 1_000_000 - r * c;
    let dt = t * TILT_DIVISOR - w * PI_FINE;
    let es = s * g - sine * FINE;
    let ec = c * g - cosine * FINE;
    let ep = PI_FINE * g - pi * FINE;
    lemma_div_round_error(r * s, 1_000_000);
    lemma_div_round_error(r * c, 1_000_000);
    lemma_tilt_rounding(demand, r, bearing);
    assert(within(2 * dz, 1_000_000) && within(2 * dx, 1_000_000));
    assert(within(2 * dt, TILT_DIVISOR as int));
    // The sums the formula is made of.
    let u = sine * p + cosine * q;
    let v = es * p + ec * q;
    let lost = dz * p + dx * q;
    let y = s * p + c * q;
    lemma_rounded_factor(s, sine, es, g, FINE as int, p);
    lemma_rounded_factor(c, cosine, ec, g, FINE as int, q);
    lemma_sum_times(s * p, c * q, g);
    assert(y * g == u * FINE + v);
    lemma_rounded_factor(zf, r * s, dz, 1_000_000, 1, p);
    lemma_rounded_factor(xf, r * c, dx, 1_000_000, 1, q);
    lemma_times_sum(r, s, p, c, q);
    assert(w * 1_000_000 == r * y + lost);
    // The products that remain once the constants are taken out.
    let ru = r * u;
    let rv = r * v;
    let whole = ru * pi;
    let by_pi = ru * ep;
    let by_bearing = rv * g;
    let by_reach = lost * g2;
    let by_tilt = dt * g2;
    let tg = t * g2;
    let wg = w * g2;
    let ryg = (r * y) * g2;
    let rug = ru * g;
    lemma_rounded_factor(t, w, dt, TILT_DIVISOR as int, PI_FINE as int, g2);
    assert(TILT_DIVISOR * tg == PI_FINE * wg + by_tilt);
    lemma_sum_times(r * y, lost, g2);
    lemma_multiple_times(1_000_000, w, g2);
    assert(1_000_000 * wg == ryg + by_reach);
    lemma_times_sum(r, u, FINE as int, v, 1);
    assert(r * (u * FINE + v) == FINE * ru + rv);
    lemma_twice_times(r, y, g);
    assert(ryg == (FINE * ru + rv) * g);
    lemma_sum_times(FINE * ru, rv, g);
    lemma_multiple_times(FINE as int, ru, g);
    assert(ryg == FINE * rug + by_bearing);
    lemma_rounded_factor(PI_FINE as int, pi, ep, g, FINE as int, ru);
    lemma_multiple_times(PI_FINE as int, ru, g);
    lemma_multiple_times(1, pi, ru);
    lemma_multiple_times(1, ep, ru);
    assert(PI_FINE * rug == FINE * whole + by_pi);
    // How large each of them can be.
    lemma_product_within(sine, p, g, 1_000_000_000);
    lemma_product_within(cosine, q, g, 1_000_000_000);
    assert(within(u, 2_000_000_000 * g));
    lemma_product_within(r, u, 10_000_000_000, 2_000_000_000 * g);
    assert(within(ru, 20_000_000_000_000_000_000 * g));
    lemma_product_within(ru, 2 * ep, 20_000_000_000_000_000_000 * g, g);
    assert(ru * (2 * ep) == 2 * by_pi) by (nonlinear_arith)
        requires
            by_pi == ru * ep,
    ;
    assert((20_000_000_000_000_000_000 * g) * g == 20_000_000_000_000_000_000 * g2)
        by (nonlinear_arith)
        requires
            g2 == g * g,
    ;
    assert(within(by_pi, 10_000_000_000_000_000_000 * g2));
    lemma_product_within(2 * es, p, g, 1_000_000_000);
    lemma_product_within(2 * ec, q, g, 1_000_000_000);
    assert((2 * es) * p + (2 * ec) * q == 2 * v) by (nonlinear_arith)
        requires
            v == es * p + ec * q,
    ;
    assert(within(v, 1_000_000_000 * g));
    lemma_product_within(r, v, 10_000_000_000, 1_000_000_000 * g);
    assert(within(rv, 10_000_000_000_000_000_000 * g));
    lemma_product_within(rv, g, 10_000_000_000_000_000_000 * g, g);
    assert((10_000_000_000_000_000_000 * g) * g == 10_000_000_000_000_000_000 * g2)
        by (nonlinear_arith)
        requires
            g2 == g * g,
    ;
    assert(within(by_bearing, 10_000_000_000_000_000_000 * g2));
    lemma_product_within(2 * dz, p, 1_000_000, 1_000_000_000);
    lemma_product_within(2 * dx, q, 1_000_000, 1_000_000_000);
    assert((2 * dz) * p + (2 * dx) * q == 2 * lost) by (nonlinear_arith)
        requires
            lost == dz * p + dx * q,
    ;
    assert(within(lost, 1_000_000_000_000_000));
    assert(g2 > 0) by (nonlinear_arith)
        requires
            g > 0,
            g2 == g * g,
    ;
    lemma_product_within(lost, g2, 1_000_000_000_000_000, g2);
    assert(within(by_reach, 1_000_000_000_000_000 * g2));
    lemma_product_within(2 * dt, g2, TILT_DIVISOR as int, g2);
    assert((2 * dt) * g2 == 2 * by_tilt) by (nonlinear_arith)
        requires
            by_tilt == dt * g2,
    ;
    assert(within(2 * by_tilt, TILT_DIVISOR * g2));
    // Together.
    let apart = 360_000_000 * tg - whole;
    assert(1_000_000_000_000_000_000_000_000 * apart == FINE * by_pi + PI_FINE * by_bearing
        + PI_FINE * by_reach + 1_000_000 * by_tilt);
    assert(within(apart, 360_000_000 * g2));
    assert(t * (360_000_000 * g2) == 360_000_000 * tg) by (nonlinear_arith)
        requires
            tg == t * g2,
    ;
    assert(r * u * pi == whole);
}

/// A small change of demand moves the plate by little, and never by a jump:
/// over any point, two demands give heights that differ by no more than the
/// share of the change in their angles, `|z * dpitch + x * droll| * pi / 360`,
/// and one count.
pub proof fn lemma_tilt_steady(first: GimbalState, second: GimbalState, radius: int, bearing: Bearing)
    ensures
        TILT_DIVISOR * magnitude(
            spec_tilt(first, radius, bearing) - spec_tilt(second, radius, bearing),
        ) <= magnitude(
            fine_reach(radius, bearing.sin as int) * (first.pitch - second.pitch) + fine_reach(
                radius,
                bearing.cos as int,
            ) * (first.roll - second.roll),
        ) * PI_FINE + TILT_DIVISOR,
{
    let z = fine_reach(radius, bearing.sin as int);
    let x = fine_reach(radius, bearing.cos as int);
    let a = z * first.pitch + x * first.roll;
    let b = z * second.pitch + x * second.roll;
    assert(a - b == z * (first.pitch - second.pitch) + x * (first.roll - second.roll))
        by (nonlinear_arith)
        requires
            a == z * first.pitch + x * first.roll,
            b == z * second.pitch + x * second.roll,
    ;
    lemma_tilt_rounding(first, radius, bearing);
    lemma_tilt_rounding(second, radius, bearing);
}

/// Over a point on the positive z side, more pitch never lowers the plate;
/// over a point on the positive x side, more roll never lowers it.
pub proof fn lemma_tilt_monotonic(lower: GimbalState, higher: GimbalState, radius: int, bearing: Bearing)
    requires
        0 < radius,
        0 <= bearing.cos,
        0 <= bearing.sin,
        lower.pitch <= higher.pitch,
        lower.roll <= higher.roll,
    ensures
        spec_tilt(lower, radius, bearing) <= spec_tilt(higher, radius, bearing),
{
    let z = fine_reach(radius, bearing.sin as int);
    let x = fine_reach(radius, bearing.cos as int);
    assert(radius * bearing.sin >= 0 && radius * bearing.cos >= 0) by (nonlinear_arith)
        requires
            0 < radius,
            0 <= bearing.cos,
            0 <= bearing.sin,
    ;
    lemma_div_round_monotonic(0, radius * bearing.sin, 1_000_000);
    lemma_div_round_monotonic(0, radius * bearing.cos, 1_000_000);
    assert(z * lower.pitch <= z * higher.pitch) by (nonlinear_arith)
        requires
            0 <= z,
            lower.pitch <= higher.pitch,
    ;
    assert(x * lower.roll <= x * higher.roll) by (nonlinear_arith)
        requires
            0 <= x,
            lower.roll <= higher.roll,
    ;
    let below = z * lower.pitch + x * lower.roll;
    let above = z * higher.pitch + x * higher.roll;
    assert(below * PI_FINE <= above * PI_FINE) by (nonlinear_arith)
        requires
            below <= above,
            PI_FINE > 0,
    ;
    lemma_div_round_monotonic(
        tilt_numerator(lower, radius, bearing),
        tilt_numerator(higher, radius, bearing),
        TILT_DIVISOR as int,
    );
}

/// A point of the upper plate.
#[derive(Clone, Copy, Debug, PartialEq, Eq, Structural)]
pub struct PlateVertex {
    pub x: i64,
    pub height: i64,
    pub z: i64,
}

impl PlateVertex {
    /// The vertex lies where the solver can put one: within `RADIUS_LIMIT`
    /// of the axis on the ground, and within twice `HEIGHT_LIMIT` of the
    /// base.
    pub open spec fn bounded(&self) -> bool {
        &&& within(self.x as int, RADIUS_LIMIT as int)
        &&& within(self.z as int, RADIUS_LIMIT as int)
        &&& within(self.height as int, 2 * HEIGHT_LIMIT)
    }
}

/// How far an actuator stands from its nominal height, as shown to a user.
#[derive(Clone, Copy, Debug, PartialEq, Eq, Structural)]
pub enum Band {
    Extended,
    Neutral,
    Retracted,
}

/// One actuator at one instant: where it stands on the base plane, how high
/// it reaches, and how far that is from the nominal height.
#[derive(Clone, Copy, Debug, PartialEq, Eq, Structural)]
pub struct ActuatorState {
    pub base_x: i64,
    pub base_z: i64,
    pub height: i64,
    pub extension: i64,
}

impl ActuatorState {
    /// The band the extension falls in: beyond `BAND` either way the
    /// actuator is extended or retracted, within it neutral.
    pub open spec fn spec_band(&self) -> Band {
        if self.extension > BAND {
            Band::Extended
        } else if self.extension < -BAND {
            Band::Retracted
        } else {
            Band::Neutral
        }
    }

    /// Computes `spec_band`.
    pub fn band(&self) -> (b: Band)
        ensures
            b == self.spec_band(),
    {
        if self.extension > BAND {
            Band::Extended
        } else if self.extension < -BAND {
            Band::Retracted
        } else {
            Band::Neutral
        }
    }

    /// The top of the actuator, where it meets the plate.
    pub open spec fn spec_top(&self) -> PlateVertex {
        PlateVertex { x: self.base_x, height: self.height, z: self.base_z }
    }

    /// Computes `spec_top`.
    pub fn top(&self) -> (v: PlateVertex)
        ensures
            v == self.spec_top(),
    {
        PlateVertex { x: self.base_x, height: self.height, z: self.base_z }
    }
}

/// The height at which the actuators rest under `demand` before any tilt.
pub open spec fn spec_nominal(demand: GimbalState) -> int {
    BASE_NOMINAL + demand.lift
}

/// The plate over point `i` of `outline`, for a plate whose untilted height
/// is `reference`.
pub open spec fn spec_plate_vertex(
    demand: GimbalState,
    reference: int,
    outline: ActuatorLayout,
    i: int,
) -> PlateVertex {
    PlateVertex {
        x: outline.base_x(i) as i64,
        height: (reference + outline.tilt(demand, i)) as i64,
        z: outline.base_z(i) as i64,
    }
}

/// Actuator `i` of `layout` under `demand`.
pub open spec fn spec_actuator(demand: GimbalState, layout: ActuatorLayout, i: int) -> ActuatorState {
    let extension = layout.tilt(demand, i);
    ActuatorState {
        base_x: layout.base_x(i) as i64,
        base_z: layout.base_z(i) as i64,
        height: (spec_nominal(demand) + extension) as i64,
        extension: extension as i64,
    }
}

/// Every actuator of `layout` under `demand`, in the layout's order.
pub open spec fn spec_states(demand: GimbalState, layout: ActuatorLayout) -> Seq<ActuatorState> {
    Seq::new(layout.bearings().len(), |i: int| spec_actuator(demand, layout, i))
}

/// The plate over every point of `outline`, in the outline's order.
pub open spec fn spec_perimeter(demand: GimbalState, reference: int, outline: ActuatorLayout) -> Seq<
    PlateVertex,
> {
    Seq::new(outline.bearings().len(), |i: int| spec_plate_vertex(demand, reference, outline, i))
}

/// Where the values computed for point `i` lie, and that none of them is cut
/// short by its type.
pub proof fn lemma_point_in_range(demand: GimbalState, outline: ActuatorLayout, i: int)
    requires
        demand.in_range(),
        outline.wf(),
        0 <= i < outline.bearings().len(),
    ensures
        within(outline.base_x(i), outline.radius() as int),
        within(outline.base_z(i), outline.radius() as int),
        within(outline.tilt(demand, i), TILT_LIMIT as int),
{
    let b = outline.bearings()[i];
    let r = outline.radius() as int;
    assert(b.valid());
    lemma_product_within(r, b.cos as int, r, 1_000_000_000_000);
    lemma_product_within(r, b.sin as int, r, 1_000_000_000_000);
    lemma_product_within(r, b.cos as int, 10_000_000_000, 1_000_000_000_000);
    lemma_product_within(r, b.sin as int, 10_000_000_000, 1_000_000_000_000);
    let x = fine_reach(r, b.cos as int);
    let z = fine_reach(r, b.sin as int);
    lemma_div_round_within(r * b.cos, 1_000_000, 10_000_000_000_000_000);
    lemma_div_round_within(r * b.sin, 1_000_000, 10_000_000_000_000_000);
    lemma_div_round_within(r * b.cos, 1_000_000_000_000, r);
    lemma_div_round_within(r * b.sin, 1_000_000_000_000, r);
    lemma_product_within(z, demand.pitch as int, 10_000_000_000_000_000, 1_000_000_000);
    lemma_product_within(x, demand.roll as int, 10_000_000_000_000_000, 1_000_000_000);
    let w = z * demand.pitch + x * demand.roll;
    lemma_product_within(w, PI_FINE as int, 20_000_000_000_000_000_000_000_000, 3_141_592_653_590);
    lemma_div_round_within(
        tilt_numerator(demand, r, b),
        TILT_DIVISOR as int,
        TILT_LIMIT as int,
    );
}

/// The plate over one point of `outline`.
pub fn plate_vertex(demand: &GimbalState, reference: i64, outline: &ActuatorLayout, i: usize) -> (v:
    PlateVertex)
    requires
        demand.in_range(),
        within(reference as int, HEIGHT_LIMIT as int),
        i < outline.bearings().len(),
    ensures
        v == spec_plate_vertex(*demand, reference as int, *outline, i as int),
        v.x == outline.base_x(i as int),
        v.z == outline.base_z(i as int),
        v.height == reference + outline.tilt(*demand, i as int),
        within(v.height - reference, TILT_LIMIT as int),
        v.bounded(),
{
    let bearing = outline.bearing(i);
    let radius = outline.radius();
    let x = mul_fraction(radius, bearing.cos);
    let z = mul_fraction(radius, bearing.sin);
    let tilt = tilt_offset(demand, radius, bearing);
    PlateVertex { x, height: reference + tilt, z }
}

/// Samples the plate over every point of `outline`, in the outline's order,
/// for a plate whose untilted height is `reference`.
pub fn perimeter(demand: &GimbalState, reference: i64, outline: &ActuatorLayout) -> (vertices: Vec<
    PlateVertex,
>)
    requires
        demand.in_range(),
        within(reference as int, HEIGHT_LIMIT as int),
    ensures
        vertices@ == spec_perimeter(*demand, reference as int, *outline),
        forall|i: int| 0 <= i < vertices@.len() ==> (#[trigger] vertices@[i]).bounded(),
{
    let n = outline.count();
    let mut vertices: Vec<PlateVertex> = Vec::new();
    let mut i: usize = 0;
    while i < n
        invariant
            demand.in_range(),
            within(reference as int, HEIGHT_LIMIT as int),
            n == outline.bearings().len(),
            i <= n,
            vertices@.len() == i,
            forall|j: int|
                0 <= j < i ==> vertices@[j] == spec_plate_vertex(
                    *demand,
                    reference as int,
                    *outline,
                    j,
                ),
            forall|j: int| 0 <= j < i ==> (#[trigger] vertices@[j]).bounded(),
        decreases n - i,
    {
        let v = plate_vertex(demand, reference, outline, i);
        vertices.push(v);
        i += 1;
    }
    vertices
}

/// Solves the gimbal: the state of every actuator of `layout` under
/// `demand`, and the plate vertices at their tops, both in the layout's
/// order.
pub fn solve(demand: &GimbalState, layout: &ActuatorLayout) -> (solution: (
    Vec<ActuatorState>,
    Vec<PlateVertex>,
))
    requires
        demand.in_range(),
    ensures
        is_solution(*demand, *layout, (solution.0@, solution.1@)),
        heights_between(solution.0@, -HEIGHT_LIMIT, HEIGHT_LIMIT as int),
        forall|i: int| 0 <= i < solution.1@.len() ==> (#[trigger] solution.1@[i]).bounded(),
{
    let n = layout.count();
    let nominal: i64 = BASE_NOMINAL + demand.lift;
    let mut states: Vec<ActuatorState> = Vec::new();
    let mut vertices: Vec<PlateVertex> = Vec::new();
    let mut i: usize = 0;
    while i < n
        invariant
            demand.in_range(),
            nominal == spec_nominal(*demand),
            n == layout.bearings().len(),
            i <= n,
            states@.len() == i,
            vertices@.len() == i,
            forall|j: int| 0 <= j < i ==> states@[j] == spec_actuator(*demand, *layout, j),
            forall|j: int|
                0 <= j < i ==> -HEIGHT_LIMIT <= (#[trigger] states@[j]).height <= HEIGHT_LIMIT,
            forall|j: int| 0 <= j < i ==> (#[trigger] vertices@[j]).bounded(),
            forall|j: int|
                0 <= j < i ==> vertices@[j] == spec_plate_vertex(
                    *demand,
                    nominal as int,
                    *layout,
                    j,
                ),
        decreases n - i,
    {
        let v = plate_vertex(demand, nominal, layout, i);
        states.push(
            ActuatorState {
                base_x: v.x,
                base_z: v.z,
                height: v.height,
                extension: v.height - nominal,
            },
        );
        vertices.push(v);
        i += 1;
    }
    assert(states@ =~= spec_states(*demand, *layout));
    assert(vertices@ =~= spec_perimeter(*demand, spec_nominal(*demand), *layout));
    (states, vertices)
}

/// The sum of the actuators' heights.
pub open spec fn height_sum(states: Seq<ActuatorState>) -> int
    decreases states.len(),
{
    if states.len() == 0 {
        0
    } else {
        height_sum(states.drop_last()) + states.last().height
    }
}

/// The mean of the actuators' heights, rounded toward zero.
pub open spec fn spec_average_height(states: Seq<ActuatorState>) -> int {
    div_trunc(height_sum(states), states.len() as int)
}

/// Every height lies in `[lo, hi]`.
pub open spec fn heights_between(states: Seq<ActuatorState>, lo: int, hi: int) -> bool {
    forall|i: int| 0 <= i < states.len() ==> lo <= (#[trigger] states[i]).height <= hi
}

/// A sum of heights that all lie in `[lo, hi]` lies between `lo` and `hi`
/// times their number.
pub proof fn lemma_height_sum_between(states: Seq<ActuatorState>, lo: int, hi: int)
    requires
        heights_between(states, lo, hi),
    ensures
        lo * states.len() <= height_sum(states) <= hi * states.len(),
    decreases states.len(),
{
    if states.len() > 0 {
        let rest = states.drop_last();
        assert(heights_between(rest, lo, hi));
        lemma_height_sum_between(rest, lo, hi);
        assert(lo * states.len() == lo * rest.len() + lo) by (nonlinear_arith)
            requires
                states.len() == rest.len() + 1,
        ;
        assert(hi * states.len() == hi * rest.len() + hi) by (nonlinear_arith)
            requires
                states.len() == rest.len() + 1,
        ;
    } else {
        assert(lo * states.len() == 0 && hi * states.len() == 0) by (nonlinear_arith)
            requires
                states.len() == 0,
        ;
    }
}

/// The mean of heights that all lie in `[lo, hi]` lies there too.
pub proof fn lemma_average_between(states: Seq<ActuatorState>, lo: int, hi: int)
    requires
        states.len() > 0,
        lo <= 0 <= hi,
        heights_between(states, lo, hi),
    ensures
        lo <= spec_average_height(states) <= hi,
{
    lemma_height_sum_between(states, lo, hi);
    let n = states.len() as int;
    let sum = height_sum(states);
    if sum >= 0 {
        assert(0 <= sum / n <= hi) by (nonlinear_arith)
            requires
                n > 0,
                0 <= sum <= hi * n,
        ;
    } else {
        lemma_product_negated(lo, n);
        assert(0 <= (-sum) / n <= -lo) by (nonlinear_arith)
            requires
                n > 0,
                0 <= -sum <= (-lo) * n,
        ;
    }
}

/// The mean height of the actuators, the reference height of a plate outline
/// drawn through them.
pub fn average_height(states: &Vec<ActuatorState>) -> (average: i64)
    requires
        states@.len() > 0,
    ensures
        average == spec_average_height(states@),
        heights_between(states@, -HEIGHT_LIMIT, HEIGHT_LIMIT as int) ==> within(
            average as int,
            HEIGHT_LIMIT as int,
        ),
{
    let n = states.len();
    let mut sum: i128 = 0;
    let mut i: usize = 0;
    while i < n
        invariant
            n == states@.len(),
            i <= n,
            sum == height_sum(states@.take(i as int)),
            i64::MIN * i <= sum <= i64::MAX * i,
        decreases n - i,
    {
        assert(states@.take(i as int) =~= states@.take((i + 1) as int).drop_last());
        sum = sum + states[i].height as i128;
        i += 1;
    }
    assert(states@.take(n as int) =~= states@);
    proof {
        lemma_average_between(states@, i64::MIN as int, i64::MAX as int);
        if heights_between(states@, -HEIGHT_LIMIT, HEIGHT_LIMIT as int) {
            lemma_average_between(states@, -HEIGHT_LIMIT, HEIGHT_LIMIT as int);
        }
    }
    let mean: i128 = sum / (n as i128);
    mean as i64
}

/// With no tilt commanded, every actuator stands at the nominal height:
/// at `BASE_NOMINAL` when no lift is commanded either.
pub proof fn lemma_level_plate(demand: GimbalState, layout: ActuatorLayout, i: int)
    requires
        demand.in_range(),
        demand.pitch == 0,
        demand.roll == 0,
        layout.wf(),
        0 <= i < layout.bearings().len(),
    ensures
        spec_states(demand, layout)[i].extension == 0,
        spec_states(demand, layout)[i].height == BASE_NOMINAL + demand.lift,
        demand.lift == 0 ==> spec_states(demand, layout)[i].height == BASE_NOMINAL,
{
    let b = layout.bearings()[i];
    let x = fine_reach(layout.radius() as int, b.cos as int);
    let z = fine_reach(layout.radius() as int, b.sin as int);
    assert((z * 0 + x * 0) * PI_FINE == 0) by (nonlinear_arith);
    lemma_div_round_within(0, TILT_DIVISOR as int, 0);
}

/// Lift moves every actuator by the same amount and leaves the extensions
/// as they were.
pub proof fn lemma_lift_shifts_heights(demand: GimbalState, lifted: GimbalState, layout: ActuatorLayout, i: int)
    requires
        demand.in_range(),
        lifted.in_range(),
        lifted.pitch == demand.pitch,
        lifted.roll == demand.roll,
        layout.wf(),
        0 <= i < layout.bearings().len(),
    ensures
        spec_states(lifted, layout)[i].extension == spec_states(demand, layout)[i].extension,
        spec_states(lifted, layout)[i].height - spec_states(demand, layout)[i].height
            == lifted.lift - demand.lift,
{
    lemma_point_in_range(demand, layout, i);
    lemma_point_in_range(lifted, layout, i);
}

/// Under pure pitch, of any two actuators the one with the larger sine
/// stands higher when the pitch is positive and lower when it is negative,
/// and both stand alike when there is no pitch. The difference is strict
/// once the tilt between the two amounts to a whole count, which is when
/// the difference of their `z`, in millionths of a count, times `|pitch|`
/// times `PI_FINE` reaches `TILT_DIVISOR`.
pub proof fn lemma_pitch_differential(demand: GimbalState, layout: ActuatorLayout, i: int, j: int)
    requires
        demand.in_range(),
        demand.roll == 0,
        layout.wf(),
        0 <= i < layout.bearings().len(),
        0 <= j < layout.bearings().len(),
        layout.bearings()[i].sin >= layout.bearings()[j].sin,
    ensures
        demand.pitch >= 0 ==> spec_states(demand, layout)[i].height >= spec_states(
            demand,
            layout,
        )[j].height,
        demand.pitch <= 0 ==> spec_states(demand, layout)[i].height <= spec_states(
            demand,
            layout,
        )[j].height,
        ({
            let r = layout.radius() as int;
            let apart = fine_reach(r, layout.bearings()[i].sin as int) - fine_reach(
                r,
                layout.bearings()[j].sin as int,
            );
            &&& apart * demand.pitch * PI_FINE >= TILT_DIVISOR ==> spec_states(
                demand,
                layout,
            )[i].height > spec_states(demand, layout)[j].height
            &&& apart * demand.pitch * PI_FINE <= -TILT_DIVISOR ==> spec_states(
                demand,
                layout,
            )[i].height < spec_states(demand, layout)[j].height
        }),
{
    let r = layout.radius() as int;
    let p = demand.pitch as int;
    let bi = layout.bearings()[i];
    let bj = layout.bearings()[j];
    lemma_point_in_range(demand, layout, i);
    lemma_point_in_range(demand, layout, j);
    assert(r * bi.sin >= r * bj.sin) by (nonlinear_arith)
        requires
            r > 0,
            bi.sin >= bj.sin,
    ;
    let zi = fine_reach(r, bi.sin as int);
    let zj = fine_reach(r, bj.sin as int);
    let xi = fine_reach(r, bi.cos as int);
    let xj = fine_reach(r, bj.cos as int);
    lemma_div_round_monotonic(r * bj.sin, r * bi.sin, 1_000_000);
    assert(zi >= zj);
    assert(xi * 0 == 0 && xj * 0 == 0) by (nonlinear_arith);
    let ni = tilt_numerator(demand, r, bi);
    let nj = tilt_numerator(demand, r, bj);
    assert(ni == zi * p * PI_FINE && nj == zj * p * PI_FINE);
    assert(ni - nj == (zi - zj) * p * PI_FINE) by (nonlinear_arith)
        requires
            ni == zi * p * PI_FINE,
            nj == zj * p * PI_FINE,
    ;
    assert(p >= 0 ==> (zi - zj) * p >= 0) by (nonlinear_arith)
        requires
            zi >= zj,
    ;
    assert(p <= 0 ==> (zi - zj) * p <= 0) by (nonlinear_arith)
        requires
            zi >= zj,
    ;
    assert(p >= 0 ==> ni >= nj) by (nonlinear_arith)
        requires
            ni - nj == (zi - zj) * p * PI_FINE,
            p >= 0 ==> (zi - zj) * p >= 0,
            PI_FINE > 0,
    ;
    assert(p <= 0 ==> ni <= nj) by (nonlinear_arith)
        requires
            ni - nj == (zi - zj) * p * PI_FINE,
            p <= 0 ==> (zi - zj) * p <= 0,
            PI_FINE > 0,
    ;
    if p >= 0 {
        lemma_div_round_monotonic(nj, ni, TILT_DIVISOR as int);
    }
    if p <= 0 {
        lemma_div_round_monotonic(ni, nj, TILT_DIVISOR as int);
    }
    lemma_tilt_rounding(demand, r, bi);
    lemma_tilt_rounding(demand, r, bj);
}

/// Under pure pitch, reversing the pitch reverses every extension, and so
/// the difference in height of any two actuators.
pub proof fn lemma_pitch_reversed(demand: GimbalState, reversed: GimbalState, layout: ActuatorLayout, i: int)
    requires
        demand.in_range(),
        demand.roll == 0,
        reversed.roll == 0,
        reversed.pitch == -demand.pitch,
        reversed.lift == demand.lift,
        layout.wf(),
        0 <= i < layout.bearings().len(),
    ensures
        spec_states(reversed, layout)[i].extension == -spec_states(demand, layout)[i].extension,
{
    let r = layout.radius() as int;
    let b = layout.bearings()[i];
    lemma_point_in_range(demand, layout, i);
    lemma_point_in_range(reversed, layout, i);
    let z = fine_reach(r, b.sin as int);
    let x = fine_reach(r, b.cos as int);
    assert(x * 0 == 0) by (nonlinear_arith);
    lemma_product_negated(z, demand.pitch as int);
    lemma_product_negated(z * demand.pitch, PI_FINE as int);
    lemma_div_round_negated(tilt_numerator(demand, r, b), TILT_DIVISOR as int);
}

/// Over the point opposite a point, the plate stands as far below its
/// reference height as it stands above it over the point itself.
pub proof fn lemma_opposite_tilt(demand: GimbalState, radius: int, bearing: Bearing, opposite: Bearing)
    requires
        opposite.cos == -bearing.cos,
        opposite.sin == -bearing.sin,
    ensures
        spec_tilt(demand, radius, opposite) == -spec_tilt(demand, radius, bearing),
{
    let z = fine_reach(radius, bearing.sin as int);
    let x = fine_reach(radius, bearing.cos as int);
    lemma_product_negated(radius, bearing.sin as int);
    lemma_product_negated(radius, bearing.cos as int);
    lemma_div_round_negated(radius * bearing.sin, 1_000_000);
    lemma_div_round_negated(radius * bearing.cos, 1_000_000);
    assert(fine_reach(radius, opposite.sin as int) == -z);
    assert(fine_reach(radius, opposite.cos as int) == -x);
    let w = z * demand.pitch + x * demand.roll;
    assert((-z) * demand.pitch + (-x) * demand.roll == -w) by (nonlinear_arith)
        requires
            w == z * demand.pitch + x * demand.roll,
    ;
    lemma_product_negated(w, PI_FINE as int);
    lemma_div_round_negated(tilt_numerator(demand, radius, bearing), TILT_DIVISOR as int);
}

/// The sum of three heights.
proof fn lemma_height_sum_three(states: Seq<ActuatorState>)
    requires
        states.len() == 3,
    ensures
        height_sum(states) == states[0].height + states[1].height + states[2].height,
{
    let two = states.drop_last();
    let one = two.drop_last();
    let none = one.drop_last();
    assert(height_sum(none) == 0);
    assert(height_sum(one) == height_sum(none) + one.last().height);
    assert(height_sum(two) == height_sum(one) + two.last().height);
    assert(height_sum(states) == height_sum(two) + states.last().height);
}

/// The sum of six heights.
proof fn lemma_height_sum_six(states: Seq<ActuatorState>)
    requires
        states.len() == 6,
    ensures
        height_sum(states) == states[0].height + states[1].height + states[2].height
            + states[3].height + states[4].height + states[5].height,
{
    let five = states.drop_last();
    let four = five.drop_last();
    let three = four.drop_last();
    lemma_height_sum_three(three);
    assert(height_sum(four) == height_sum(three) + four.last().height);
    assert(height_sum(five) == height_sum(four) + five.last().height);
    assert(height_sum(states) == height_sum(five) + states.last().height);
}

/// On the triangular layout the plate tilts about its own middle: the three
/// tilts cancel but for their rounding, so the mean height of the actuators
/// is the nominal height to within one count, whatever the demand.
pub proof fn lemma_triangular_mean(demand: GimbalState, layout: ActuatorLayout)
    requires
        demand.in_range(),
        layout.wf(),
        layout.bearings() == triangular_bearings(),
    ensures
        within(spec_average_height(spec_states(demand, layout)) - spec_nominal(demand), 1),
{
    let r = layout.radius() as int;
    let p = demand.pitch as int;
    let q = demand.roll as int;
    let states = spec_states(demand, layout);
    let b0 = layout.bearings()[0];
    let b1 = layout.bearings()[1];
    let b2 = layout.bearings()[2];
    lemma_point_in_range(demand, layout, 0);
    lemma_point_in_range(demand, layout, 1);
    lemma_point_in_range(demand, layout, 2);
    lemma_height_sum_three(states);
    // The three points: x0 = r, x1 = x2 = -r / 2, z0 = 0, z2 = -z1.
    let z1 = fine_reach(r, b1.sin as int);
    let x1 = fine_reach(r, b1.cos as int);
    assert(r * 0 == 0) by (nonlinear_arith);
    lemma_div_round_within(0, 1_000_000, 0);
    assert(fine_reach(r, b0.sin as int) == 0);
    assert(r * 1_000_000_000_000 == (r * 1_000_000) * 1_000_000) by (nonlinear_arith);
    lemma_div_round_whole(r * 1_000_000, 1_000_000);
    assert(fine_reach(r, b0.cos as int) == r * 1_000_000);
    assert(r * (-500_000_000_000) == (r * (-500_000)) * 1_000_000) by (nonlinear_arith);
    lemma_div_round_whole(r * (-500_000), 1_000_000);
    assert(x1 == r * (-500_000));
    lemma_product_negated(r, b1.sin as int);
    lemma_div_round_negated(r * b1.sin, 1_000_000);
    assert(fine_reach(r, b2.sin as int) == -z1);
    assert(fine_reach(r, b2.cos as int) == x1);
    // The three numerators cancel.
    let n0 = tilt_numerator(demand, r, b0);
    let n1 = tilt_numerator(demand, r, b1);
    let n2 = tilt_numerator(demand, r, b2);
    let x0 = r * 1_000_000;
    assert(n0 + n1 + n2 == 0) by (nonlinear_arith)
        requires
            n0 == (0 * p + x0 * q) * PI_FINE,
            n1 == (z1 * p + x1 * q) * PI_FINE,
            n2 == ((-z1) * p + x1 * q) * PI_FINE,
            x0 + 2 * x1 == 0,
    ;
    lemma_tilt_rounding(demand, r, b0);
    lemma_tilt_rounding(demand, r, b1);
    lemma_tilt_rounding(demand, r, b2);
    let t0 = spec_tilt(demand, r, b0);
    let t1 = spec_tilt(demand, r, b1);
    let t2 = spec_tilt(demand, r, b2);
    assert(within(t0 + t1 + t2, 1));
    assert(height_sum(states) == 3 * spec_nominal(demand) + (t0 + t1 + t2));
}

/// On the hexagonal layout every actuator stands opposite another, whose
/// tilt is the reverse of its own: the mean height of the actuators is the
/// nominal height exactly, whatever the demand.
pub proof fn lemma_hexagonal_mean(demand: GimbalState, layout: ActuatorLayout)
    requires
        demand.in_range(),
        layout.wf(),
        layout.bearings() == hexagonal_bearings(),
    ensures
        spec_average_height(spec_states(demand, layout)) == spec_nominal(demand),
{
    let r = layout.radius() as int;
    let states = spec_states(demand, layout);
    let b = layout.bearings();
    lemma_point_in_range(demand, layout, 0);
    lemma_point_in_range(demand, layout, 1);
    lemma_point_in_range(demand, layout, 2);
    lemma_point_in_range(demand, layout, 3);
    lemma_point_in_range(demand, layout, 4);
    lemma_point_in_range(demand, layout, 5);
    lemma_height_sum_six(states);
    lemma_opposite_tilt(demand, r, b[0], b[3]);
    lemma_opposite_tilt(demand, r, b[1], b[4]);
    lemma_opposite_tilt(demand, r, b[2], b[5]);
    assert(height_sum(states) == 6 * spec_nominal(demand));
}

/// `solution` is what `solve` returns for `demand` on `layout`.
pub open spec fn is_solution(
    demand: GimbalState,
    layout: ActuatorLayout,
    solution: (Seq<ActuatorState>, Seq<PlateVertex>),
) -> bool {
    &&& solution.0 == spec_states(demand, layout)
    &&& solution.1 == spec_perimeter(demand, spec_nominal(demand), layout)
}

/// Solving twice gives the same answer: whatever two calls of `solve` with
/// one demand and one layout return is equal, element for element.
pub proof fn lemma_solve_repeatable(
    demand: GimbalState,
    layout: ActuatorLayout,
    first: (Seq<ActuatorState>, Seq<PlateVertex>),
    second: (Seq<ActuatorState>, Seq<PlateVertex>),
)
    requires
        is_solution(demand, layout, first),
        is_solution(demand, layout, second),
    ensures
        first == second,
{
}

/// The vertices that `solve` returns are the tops of the actuators it
/// returns, in the same order.
pub proof fn lemma_vertices_are_tops(demand: GimbalState, layout: ActuatorLayout, i: int)
    requires
        0 <= i < layout.bearings().len(),
    ensures
        spec_perimeter(demand, spec_nominal(demand), layout)[i] == spec_states(
            demand,
            layout,
        )[i].spec_top(),
{
}

} // verus!
