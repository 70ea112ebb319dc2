use guard_session::inflation::{compute_total_payout, era_payout_from_curve, InflationCurve};

const MILLION: u32 = 1_000_000;

fn pow2(n: u32) -> u32 {
    1_u32 << n
}

// The k-th per-million Taylor term of log2.
fn taylor_term(k: u32, y_num: u128, y_den: u128) -> u32 {
    let two_div_ln_2: u128 = 2_885_390u128;
    if k == 0 {
        (two_div_ln_2 * y_num / y_den).try_into().unwrap()
    } else {
        let mut res = two_div_ln_2 * y_num.pow(3) / y_den.pow(3);
        for _ in 1..k {
            res = res * y_num.pow(2) / y_den.pow(2);
        }
        res /= 2 * k as u128 + 1;
        res.try_into().unwrap()
    }
}

// Per-million log2 of p / q, for q <= p <= 1_000_000.
fn log2(p: u32, q: u32) -> u32 {
    if p == q {
        return 0;
    }
    let mut n = 0u32;
    while (p < pow2(n) * q) || (p >= pow2(n + 1) * q) {
        n += 1;
    }
    let y_num: u32 = p - pow2(n) * q;
    let y_den: u32 = p + pow2(n) * q;
    let mut res = n * 1_000_000u32;
    let mut k = 0;
    loop {
        let term = taylor_term(k, y_num.into(), y_den.into());
        if term == 0 {
            break;
        }
        res += term;
        k += 1;
    }
    res
}

// The points of the reward curve with the given parameters, in parts per million, as the
// staking reward curve builder computes them.
fn compute_points(
    min_inflation: u32,
    max_inflation: u32,
    ideal_stake: u32,
    falloff: u32,
    max_piece_count: u32,
) -> Vec<(u32, u32)> {
    let i_0 = min_inflation;
    let i_ideal_times_x_ideal = max_inflation;
    let x_ideal = ideal_stake;
    let d = falloff;
    let opposite = |y: u32| -> u32 {
        if y == i_0 {
            return u32::MAX;
        }
        let log = log2(i_ideal_times_x_ideal - i_0, y - i_0);
        let term: u32 = ((d as u64 * log as u64) / 1_000_000).try_into().unwrap();
        x_ideal + term
    };

    let mut points = vec![(0, i_0), (x_ideal, i_ideal_times_x_ideal)];
    let max_length = (max_inflation - min_inflation + 1_000_000 - x_ideal) / (max_piece_count - 1);
    let mut delta_y = max_length;
    let mut y = max_inflation;
    while delta_y != 0 {
        let next_y = y - delta_y;
        if next_y <= min_inflation {
            delta_y = delta_y.saturating_sub(1);
            continue;
        }
        let next_x = opposite(next_y);
        if (next_x - points.last().unwrap().0) > max_length {
            delta_y = delta_y.saturating_sub(1);
            continue;
        }
        if next_x >= 1_000_000 {
            let prev = points.last().unwrap();
            let delta_y: u32 = ((next_x - 1_000_000) as u64 * (prev.1 - next_y) as u64
                / (next_x - prev.0) as u64)
                .try_into()
                .unwrap();
            let y = next_y + delta_y;
            points.push((1_000_000, y));
            return points;
        }
        points.push((next_x, next_y));
        y = next_y;
    }
    points.push((1_000_000, i_0));
    points
}

// The yearly inflation curve: 2.5% at least, 10% at most, ideal stake 50%, falloff 5%,
// at most 40 pieces.
fn i_npos() -> InflationCurve {
    let points = compute_points(0_025_000, 0_100_000, 0_500_000, 0_050_000, 40);
    let maximum = points.iter().map(|&(_, y)| y).max().unwrap_or(0).checked_mul(1_000).unwrap_or(1_000_000_000);
    let points = points.into_iter().map(|(x, y)| (x * 1_000, y * 1_000)).collect();
    assert!(MILLION * 1_000 == 1_000_000_000);
    InflationCurve::new(points, maximum).unwrap()
}

#[test]
fn npos_curve_is_sensible() {
    let i_npos = i_npos();
    const YEAR: u64 = 365 * 24 * 60 * 60 * 1000;

    // check maximum inflation.
    // not 10_000 due to rounding error.
    assert_eq!(compute_total_payout(&i_npos, 0, 100_000u64, YEAR).2, 9_993);

    assert_eq!(compute_total_payout(&i_npos, 0, 150_000u64, YEAR).0, 2_498);
    assert_eq!(compute_total_payout(&i_npos, 7_500, 150_000u64, YEAR).0, 3_248);
    assert_eq!(compute_total_payout(&i_npos, 37_500, 150_000u64, YEAR).0, 6_246);
    assert_eq!(compute_total_payout(&i_npos, 60_000, 150_000u64, YEAR).0, 8_494);
    assert_eq!(compute_total_payout(&i_npos, 75_000, 150_000u64, YEAR).0, 9_993);
    assert_eq!(compute_total_payout(&i_npos, 90_000, 150_000u64, YEAR).0, 4_380);
    assert_eq!(compute_total_payout(&i_npos, 112_500, 150_000u64, YEAR).0, 2_733);
    assert_eq!(compute_total_payout(&i_npos, 142_500, 150_000u64, YEAR).0, 2_513);
    assert_eq!(compute_total_payout(&i_npos, 150_000, 150_000u64, YEAR).0, 2_505);

    const DAY: u64 = 24 * 60 * 60 * 1000;
    assert_eq!(compute_total_payout(&i_npos, 37_500, 150_000u64, DAY).0, 17);
    assert_eq!(compute_total_payout(&i_npos, 75_000, 150_000u64, DAY).0, 27);
    assert_eq!(compute_total_payout(&i_npos, 112_500, 150_000u64, DAY).0, 7);

    const SIX_HOURS: u64 = 6 * 60 * 60 * 1000;
    assert_eq!(compute_total_payout(&i_npos, 37_500, 150_000u64, SIX_HOURS).0, 4);
    assert_eq!(compute_total_payout(&i_npos, 75_000, 150_000u64, SIX_HOURS).0, 6);
    assert_eq!(compute_total_payout(&i_npos, 112_500, 150_000u64, SIX_HOURS).0, 2);

    const HOUR: u64 = 60 * 60 * 1000;
    assert_eq!(
        compute_total_payout(
            &i_npos,
            3_750_000_000_000_000_000_000_000_000u128,
            7_500_000_000_000_000_000_000_000_000u128,
            HOUR
        )
        .0,
        57_038_500_000_000_000_000_000
    );
}

#[test]
fn payout_parts_add_up_to_staker_payout() {
    let i_npos = i_npos();
    const YEAR: u64 = 365 * 24 * 60 * 60 * 1000;
    for staked in [0u64, 7_500, 37_500, 75_000, 112_500, 150_000] {
        let (validators, guardians, _) = compute_total_payout(&i_npos, staked, 150_000u64, YEAR);
        let (v2, g2, _) = era_payout_from_curve(&i_npos, validators + guardians, 0u64, 31_557_600_000);
        assert_eq!(v2 + g2, validators + guardians);
        assert!(guardians <= validators + 1);
    }
}

#[test]
fn era_payout_from_curve_exact_values() {
    let curve = InflationCurve::new(vec![(0, 500_000_000), (1_000_000_000, 500_000_000)], 400_000_000).unwrap();
    // A whole Julian year: the whole value, split 2/3 and 1/3; maximum is 40% of the total.
    assert_eq!(era_payout_from_curve(&curve, 300u64, 1_000u64, 31_557_600_000), (200, 100, 400));
    // Longer than a year pays as a year.
    assert_eq!(era_payout_from_curve(&curve, 300u64, 1_000u64, 40_000_000_000), (200, 100, 400));
    // Half a year: half the value (rounded down to parts per billion, then to the nearest unit).
    assert_eq!(era_payout_from_curve(&curve, 300u64, 1_000u64, 15_778_800_000), (100, 50, 200));
    // A payout of one unit goes to the guardians.
    assert_eq!(era_payout_from_curve(&curve, 1u64, 0u64, 31_557_600_000), (0, 1, 0));
    // Nothing for an era of no time.
    assert_eq!(era_payout_from_curve(&curve, 300u128, 1_000u128, 0), (0, 0, 0));
    // 2/3 of the largest u128 is computed without overflow.
    let (v, g, _) = era_payout_from_curve(&curve, u128::MAX, 0u128, 31_557_600_000);
    assert_eq!(v, u128::MAX / 3 * 2);
    assert_eq!(v + g, u128::MAX);
}

#[test]
fn curve_value_goes_through_the_points() {
    // f(x) = 1/2 + x on [0, 1/2], then 2 - 2x on [1/2, 1].
    let curve = InflationCurve::new(
        vec![(0, 500_000_000), (500_000_000, 1_000_000_000), (1_000_000_000, 0)],
        1_000_000_000,
    )
    .unwrap();
    const YEAR: u64 = 31_557_600_000;
    // f(1/4) * 1000 = 750; 2/3 of it is 500.
    assert_eq!(compute_total_payout(&curve, 250u64, 1_000u64, YEAR), (500, 250, 1_000));
    // f(3/4) * 1000 = 500.
    assert_eq!(compute_total_payout(&curve, 750u128, 1_000u128, YEAR), (333, 167, 1_000));
    // More staked than issued counts as all of it: f(1) = 0.
    assert_eq!(compute_total_payout(&curve, 2_000u64, 1_000u64, YEAR), (0, 0, 1_000));
}

#[test]
fn curve_rejects_points_out_of_unit() {
    assert!(InflationCurve::new(vec![(0, 1_000_000_001)], 0).is_none());
    assert!(InflationCurve::new(vec![(1_000_000_001, 0)], 0).is_none());
    assert!(InflationCurve::new(vec![(0, 0)], 1_000_000_001).is_none());
    // Abscissas out of order.
    assert!(InflationCurve::new(vec![(500, 0), (400, 0)], 0).is_none());
    assert!(InflationCurve::new(vec![(400, 0), (400, 1), (500, 0)], 0).is_some());
    let c = InflationCurve::new(vec![(0, 1_000_000_000)], 1_000_000_000).unwrap();
    assert_eq!(c.maximum(), 1_000_000_000);
    assert_eq!(c.points(), &vec![(0, 1_000_000_000)]);
}
