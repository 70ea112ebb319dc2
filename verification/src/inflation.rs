//! The total payout of an era in nominated proof-of-stake.
//!
//! `staker-payout = yearly_inflation(npos_token_staked / total_tokens) * total_tokens / eras_per_year`,
//! split two thirds to validators and the rest to guardians;
//! `maximum-payout = max_yearly_inflation * total_tokens / eras_per_year`.
use vstd::prelude::*;

verus! {

/// The number of parts that make one whole in a `Perbill`.
pub const PERBILL_ONE: u32 = 1_000_000_000;

/// Milliseconds in a Julian year (365.25 days).
pub const MILLISECONDS_PER_YEAR: u64 = 1000 * 3600 * 24 * 36525 / 100;

/// The parts per billion of `p / q`, rounded down; a whole when `q` is zero or `p > q`.
pub open spec fn rational_parts(p: int, q: int) -> int {
    if q == 0 || p > q {
        PERBILL_ONE as int
    } else {
        PERBILL_ONE * p / q
    }
}

/// `parts` billionths of `x`, rounded to the nearest integer, halves rounded down.
pub open spec fn perbill_of(parts: int, x: int) -> int {
    x * parts / PERBILL_ONE as int + if (x * parts) % (PERBILL_ONE as int) > 500_000_000 {
        1int
    } else {
        0int
    }
}

/// What `PiecewiseLinear::calculate_for_fraction_times_denominator` returns for a curve
/// with the given points (abscissa and ordinate in parts per billion) on `n` and `d`,
/// computed in an unsigned type whose largest value is `bound`.
pub uninterp spec fn curve_times_denominator(
    points: Seq<(u32, u32)>,
    n: int,
    d: int,
    bound: int,
) -> int;

/// `Perbill::from_rational(p, q).deconstruct()`: the parts per billion of `p / q`, rounded
/// down, or a whole when `q` is zero or `p > q`.
#[verifier::external_body]
fn perbill_from_rational(p: u64, q: u64) -> (r: u32)
    ensures
        r == rational_parts(p as int, q as int),
{
    sp_runtime::Perbill::from_rational(p, q).deconstruct()
}

/// `Perbill::from_parts(parts) * x`: `parts` billionths of `x`, rounded to the nearest
/// integer with halves rounded down.
#[verifier::external_body]
fn perbill_mul(parts: u32, x: u128) -> (r: u128)
    requires
        parts <= PERBILL_ONE,
    ensures
        r == perbill_of(parts as int, x as int),
{
    sp_runtime::Perbill::from_parts(parts) * x
}

/// A piecewise linear function from [0, 1] to [0, 1] given by its points, and the
/// largest value that it may give; all in parts per billion.
pub struct InflationCurve {
    points: Vec<(u32, u32)>,
    maximum: u32,
}

/// Every coordinate of every point lies in [0, 1].
pub open spec fn points_in_unit(points: Seq<(u32, u32)>) -> bool {
    forall|i: int| 0 <= i < points.len() ==> points[i].0 <= PERBILL_ONE && points[i].1 <= PERBILL_ONE
}

/// The points are in order from the lowest abscissa to the highest.
pub open spec fn points_ordered(points: Seq<(u32, u32)>) -> bool {
    forall|i: int| 0 <= i < points.len() - 1 ==> #[trigger] points[i].0 <= points[i + 1].0
}

impl InflationCurve {
    #[verifier::type_invariant]
    closed spec fn in_unit(self) -> bool {
        &&& points_in_unit(self.points@)
        &&& points_ordered(self.points@)
        &&& self.maximum <= PERBILL_ONE
    }

    /// The points of the curve, abscissas from lowest to highest.
    pub closed spec fn points_view(self) -> Seq<(u32, u32)> {
        self.points@
    }

    /// The largest value of the curve, in parts per billion.
    pub closed spec fn maximum_parts(self) -> u32 {
        self.maximum
    }

    /// Builds a curve; `None` when a coordinate or the maximum exceeds one whole, or when the
    /// points are not in order of their abscissas.
    pub fn new(points: Vec<(u32, u32)>, maximum: u32) -> (r: Option<Self>)
        ensures
            r is Some <==> (points_in_unit(points@) && points_ordered(points@) && maximum <= PERBILL_ONE),
            r matches Some(c) ==> c.points_view() == points@ && c.maximum_parts() == maximum,
    {
        if maximum > PERBILL_ONE {
            return None;
        }
        let mut i: usize = 0;
        while i < points.len()
            invariant
                0 <= i <= points@.len(),
                forall|j: int| 0 <= j < i ==> points@[j].0 <= PERBILL_ONE && points@[j].1 <= PERBILL_ONE,
                forall|j: int| 0 <= j < i - 1 ==> #[trigger] points@[j].0 <= points@[j + 1].0,
            decreases points@.len() - i,
        {
            if points[i].0 > PERBILL_ONE || points[i].1 > PERBILL_ONE {
                return None;
            }
            if i > 0 && points[i - 1].0 > points[i].0 {
                proof {
                    assert(points@[i - 1].0 > points@[(i - 1) + 1].0);
                }
                return None;
            }
            i = i + 1;
        }
        Some(InflationCurve { points, maximum })
    }

    /// The points of the curve.
    pub fn points(&self) -> (r: &Vec<(u32, u32)>)
        ensures
            r@ == self.points_view(),
    {
        &self.points
    }

    /// The largest value of the curve, in parts per billion.
    pub fn maximum(&self) -> (r: u32)
        ensures
            r == self.maximum_parts(),
            r <= PERBILL_ONE,
    {
        proof {
            use_type_invariant(self);
        }
        self.maximum
    }
}

/// `PiecewiseLinear::calculate_for_fraction_times_denominator(n, d)` on the curve's points.
#[verifier::external_body]
fn curve_value_u64(curve: &InflationCurve, n: u64, d: u64) -> (r: u64)
    ensures
        r == curve_times_denominator(curve.points_view(), n as int, d as int, u64::MAX as int),
{
    let points: Vec<(sp_runtime::Perbill, sp_runtime::Perbill)> = curve.points.iter().map(
        |p| (sp_runtime::Perbill::from_parts(p.0), sp_runtime::Perbill::from_parts(p.1)),
    ).collect();
    let linear = sp_runtime::curve::PiecewiseLinear {
        points: &points,
        maximum: sp_runtime::Perbill::from_parts(curve.maximum),
    };
    linear.calculate_for_fraction_times_denominator(n, d)
}


/// `PiecewiseLinear::calculate_for_fraction_times_denominator(n, d)` on the curve's points,
/// computed in `u128`.
#[verifier::external_body]
fn curve_value_u128(curve: &InflationCurve, n: u128, d: u128) -> (r: u128)
    ensures
        r == curve_times_denominator(curve.points_view(), n as int, d as int, u128::MAX as int),
{
    let points: Vec<(sp_runtime::Perbill, sp_runtime::Perbill)> = curve.points.iter().map(
        |p| (sp_runtime::Perbill::from_parts(p.0), sp_runtime::Perbill::from_parts(p.1)),
    ).collect();
    let linear = sp_runtime::curve::PiecewiseLinear {
        points: &points,
        maximum: sp_runtime::Perbill::from_parts(curve.maximum),
    };
    linear.calculate_for_fraction_times_denominator(n, d)
}

/// An unsigned balance type in which payouts are computed.
pub trait PayoutBalance: Sized + Copy {
    /// The number that a value stands for.
    spec fn amount(self) -> int;

    /// The largest value of the type.
    spec fn upper() -> int;

    /// Every value lies between zero and the largest one, which fits in `u128`.
    proof fn lemma_range(x: Self)
        ensures
            0 <= x.amount() <= Self::upper(),
            Self::upper() <= u128::MAX,
    ;

    /// The value as a `u128`.
    fn to_u128(self) -> (r: u128)
        ensures
            r == self.amount(),
    ;

    /// The value that stands for `v`.
    fn from_u128(v: u128) -> (r: Self)
        requires
            v <= Self::upper(),
        ensures
            r.amount() == v,
    ;

    /// The curve's value at `n / d` times `d`, computed in this type.
    fn curve_value(curve: &InflationCurve, n: Self, d: Self) -> (r: Self)
        ensures
            r.amount() == curve_times_denominator(
                curve.points_view(),
                n.amount(),
                d.amount(),
                Self::upper(),
            ),
    ;
}

impl PayoutBalance for u64 {
    open spec fn amount(self) -> int {
        self as int
    }

    open spec fn upper() -> int {
        u64::MAX as int
    }

    proof fn lemma_range(x: Self) {
    }

    fn to_u128(self) -> (r: u128) {
        self as u128
    }

    fn from_u128(v: u128) -> (r: Self) {
        v as u64
    }

    fn curve_value(curve: &InflationCurve, n: Self, d: Self) -> (r: Self) {
        curve_value_u64(curve, n, d)
    }
}

impl PayoutBalance for u128 {
    open spec fn amount(self) -> int {
        self as int
    }

    open spec fn upper() -> int {
        u128::MAX as int
    }

    proof fn lemma_range(x: Self) {
    }

    fn to_u128(self) -> (r: u128) {
        self
    }

    fn from_u128(v: u128) -> (r: Self) {
        v
    }

    fn curve_value(curve: &InflationCurve, n: Self, d: Self) -> (r: Self) {
        curve_value_u128(curve, n, d)
    }
}

/// `parts` billionths of `x` never exceed `x`.
pub proof fn lemma_perbill_of_bounded(parts: int, x: int)
    requires
        0 <= parts <= PERBILL_ONE,
        0 <= x,
    ensures
        0 <= perbill_of(parts, x) <= x,
{
    let d = PERBILL_ONE as int;
    assert(0 <= x * parts <= x * d) by (nonlinear_arith)
        requires
            0 <= parts <= d,
            0 <= x,
    ;
    assert(x * parts / d <= x) by (nonlinear_arith)
        requires
            0 <= x * parts <= x * d,
            d > 0,
    ;
    if x * parts / d == x {
        assert(x * parts == x * d) by (nonlinear_arith)
            requires
                x * parts / d == x,
                0 <= x * parts <= x * d,
                d > 0,
        ;
        assert((x * parts) % d == 0) by (nonlinear_arith)
            requires
                x * parts == x * d,
                d > 0,
        ;
    }
    assert(0 <= x * parts / d) by (nonlinear_arith)
        requires
            0 <= x * parts,
            d > 0,
    ;
}


/// The part of a year that an era of `era_duration` milliseconds lasts, in parts per
/// billion; a whole year at most.
pub open spec fn era_portion(era_duration: int) -> int {
    rational_parts(era_duration, MILLISECONDS_PER_YEAR as int)
}

/// The payout to all stakers of an era, given the curve's yearly value.
pub open spec fn staker_payout(yearly_value: int, era_duration: int) -> int {
    perbill_of(era_portion(era_duration), yearly_value)
}

/// The validators' two thirds of a payout, rounded down.
pub open spec fn validator_share(payout: int) -> int {
    payout * 2 / 3
}

/// The most that an era may pay out: the curve's maximum of the total, for the era's portion
/// of a year.
pub open spec fn maximum_payout(maximum_parts: int, total_tokens: int, era_duration: int) -> int {
    perbill_of(era_portion(era_duration), perbill_of(maximum_parts, total_tokens))
}

/// Two thirds of `x`, rounded down, computed without overflow.
fn two_thirds(x: u128) -> (r: u128)
    ensures
        r == validator_share(x as int),
        r <= x,
{
    let r: u128 = x / 3 * 2 + x % 3 * 2 / 3;
    assert(r == x * 2 / 3 && x / 3 * 2 + x % 3 * 2 / 3 <= x) by (nonlinear_arith)
        requires
            r == x / 3 * 2 + x % 3 * 2 / 3,
            x >= 0,
    ;
    r
}

/// The validators' payout, the guardians' payout and the maximum payout of an era, given
/// the value `yearly_value` that the curve yields for the staking rate.
pub fn era_payout_from_curve<N: PayoutBalance>(
    yearly_inflation: &InflationCurve,
    yearly_value: N,
    total_tokens: N,
    era_duration: u64,
) -> (r: (N, N, N))
    ensures
        r.0.amount() == validator_share(staker_payout(yearly_value.amount(), era_duration as int)),
        r.1.amount() == staker_payout(yearly_value.amount(), era_duration as int) - validator_share(
            staker_payout(yearly_value.amount(), era_duration as int),
        ),
        r.2.amount() == maximum_payout(
            yearly_inflation.maximum_parts() as int,
            total_tokens.amount(),
            era_duration as int,
        ),
{
    proof {
        N::lemma_range(yearly_value);
        N::lemma_range(total_tokens);
    }
    let portion: u32 = perbill_from_rational(era_duration, MILLISECONDS_PER_YEAR);
    assert(portion <= PERBILL_ONE) by (nonlinear_arith)
        requires
            portion == rational_parts(era_duration as int, MILLISECONDS_PER_YEAR as int),
    ;
    let value: u128 = yearly_value.to_u128();
    let payout: u128 = perbill_mul(portion, value);
    proof {
        lemma_perbill_of_bounded(portion as int, value as int);
    }
    let validator: u128 = two_thirds(payout);
    let guardian: u128 = payout - validator;
    let max_parts: u32 = yearly_inflation.maximum();
    let total: u128 = total_tokens.to_u128();
    let of_total: u128 = perbill_mul(max_parts, total);
    proof {
        lemma_perbill_of_bounded(max_parts as int, total as int);
    }
    let maximum: u128 = perbill_mul(portion, of_total);
    proof {
        lemma_perbill_of_bounded(portion as int, of_total as int);
    }
    (N::from_u128(validator), N::from_u128(guardian), N::from_u128(maximum))
}

/// The validators' payout, the guardians' payout and the maximum payout of an era lasting
/// `era_duration` milliseconds, when `npos_token_staked` of `total_tokens` are staked.
///
/// The stakers are paid the curve's value at the staking rate, times the total, for the
/// era's portion of a year; validators take two thirds of it, rounded down, and guardians
/// the rest.
pub fn compute_total_payout<N: PayoutBalance>(
    yearly_inflation: &InflationCurve,
    npos_token_staked: N,
    total_tokens: N,
    era_duration: u64,
) -> (r: (N, N, N))
    ensures
        ({
            let payout = staker_payout(
                curve_times_denominator(
                    yearly_inflation.points_view(),
                    npos_token_staked.amount(),
                    total_tokens.amount(),
                    N::upper(),
                ),
                era_duration as int,
            );
            &&& r.0.amount() == validator_share(payout)
            &&& r.1.amount() == payout - validator_share(payout)
        }),
        r.2.amount() == maximum_payout(
            yearly_inflation.maximum_parts() as int,
            total_tokens.amount(),
            era_duration as int,
        ),
{
    let yearly_value = N::curve_value(yearly_inflation, npos_token_staked, total_tokens);
    era_payout_from_curve(yearly_inflation, yearly_value, total_tokens, era_duration)
}

} // verus!
