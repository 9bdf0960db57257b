//! Synthetic gas-market data: seven features drawn uniformly from fixed
//! ranges, and a label computed by a fixed pricing formula plus noise.
//!
//! All values are fixed-point micro-units (see `fixed`): `20.0` gwei is
//! stored as `20_000_000`.

use vstd::prelude::*;

verus! {

use crate::fixed::{bounded, tdiv, SCALE};
use crate::rng::draw_range;

/// Number of features per sample, in this fixed order: base fee, pending
/// transaction count, average gas used, block utilization, hour of day,
/// high-priority transaction count, weekend flag.
pub const N_FEATURES: usize = 7;

pub const BASE_FEE_MIN: i64 = 20_000_000;

pub const BASE_FEE_MAX: i64 = 200_000_000;

pub const PENDING_TX_MIN: i64 = 50_000_000;

pub const PENDING_TX_MAX: i64 = 1_000_000_000;

pub const AVG_GAS_MIN: i64 = 300_000;

pub const AVG_GAS_MAX: i64 = 950_000;

pub const BLOCK_UTIL_MIN: i64 = 200_000;

pub const BLOCK_UTIL_MAX: i64 = 1_000_000;

pub const HOUR_MAX: i64 = 24_000_000;

pub const HIGH_PRIORITY_MAX: i64 = 300_000_000;

pub const NOISE_MIN: i64 = -5_000_000;

pub const NOISE_MAX: i64 = 5_000_000;

/// Labels are clamped to `[15.0, 300.0]` gwei.
pub const PRICE_MIN: i64 = 15_000_000;

pub const PRICE_MAX: i64 = 300_000_000;

/// The pricing formula: a weighted sum of the seven features plus noise,
/// clamped to `[PRICE_MIN, PRICE_MAX]`. In real terms:
/// `1.1*base + 50*(pending/1000) + 40*avg_gas + 30*util
///  + (15 if 9 <= hour <= 17 else -5) + 25*(high_priority/300)
///  + (-10 if weekend else 5) + noise`.
pub open spec fn price_formula_spec(
    base_fee: int,
    pending_tx: int,
    avg_gas_used: int,
    block_util: int,
    hour: int,
    high_priority: int,
    weekend: int,
    noise: int,
) -> int {
    let raw = tdiv(base_fee * 11, 10) + tdiv(pending_tx, 20) + avg_gas_used * 40 + block_util * 30
        + (if 9_000_000 <= hour <= 17_000_000 {
            15_000_000int
        } else {
            -5_000_000int
        }) + tdiv(high_priority, 12) + (if weekend == SCALE as int {
            -10_000_000int
        } else {
            5_000_000int
        }) + noise;
    if raw < PRICE_MIN as int {
        PRICE_MIN as int
    } else if raw > PRICE_MAX as int {
        PRICE_MAX as int
    } else {
        raw
    }
}

/// The pricing formula applied to row `i` of a flattened feature matrix.
pub open spec fn price_formula_row_spec(f: Seq<i64>, i: int, noise: int) -> int {
    price_formula_spec(
        f[7 * i] as int,
        f[7 * i + 1] as int,
        f[7 * i + 2] as int,
        f[7 * i + 3] as int,
        f[7 * i + 4] as int,
        f[7 * i + 5] as int,
        f[7 * i + 6] as int,
        noise,
    )
}

/// Label `i` is the pricing formula applied to feature row `i` and some
/// noise value from the declared noise range.
pub open spec fn label_matches_row(f: Seq<i64>, l: Seq<i64>, i: int) -> bool {
    exists|ns: int|
        NOISE_MIN <= ns < NOISE_MAX && l[i] as int == #[trigger] price_formula_row_spec(f, i, ns)
}

/// Row `i` of a flattened feature matrix lies in the declared ranges.
pub open spec fn feature_row_ok(f: Seq<i64>, i: int) -> bool {
    &&& BASE_FEE_MIN <= f[7 * i] < BASE_FEE_MAX
    &&& PENDING_TX_MIN <= f[7 * i + 1] < PENDING_TX_MAX
    &&& AVG_GAS_MIN <= f[7 * i + 2] < AVG_GAS_MAX
    &&& BLOCK_UTIL_MIN <= f[7 * i + 3] < BLOCK_UTIL_MAX
    &&& 0 <= f[7 * i + 4] < HOUR_MAX
    &&& 0 <= f[7 * i + 5] < HIGH_PRIORITY_MAX
    &&& (f[7 * i + 6] == 0 || f[7 * i + 6] == SCALE)
}

/// Compute the label for one drawn sample. This is the deterministic part
/// of the synthesizer: given the draws, the price is pinned exactly.
pub fn gas_price_formula(
    base_fee: i64,
    pending_tx: i64,
    avg_gas_used: i64,
    block_util: i64,
    hour: i64,
    high_priority: i64,
    weekend: i64,
    noise: i64,
) -> (r: i64)
    requires
        BASE_FEE_MIN <= base_fee < BASE_FEE_MAX,
        PENDING_TX_MIN <= pending_tx < PENDING_TX_MAX,
        AVG_GAS_MIN <= avg_gas_used < AVG_GAS_MAX,
        BLOCK_UTIL_MIN <= block_util < BLOCK_UTIL_MAX,
        0 <= hour < HOUR_MAX,
        0 <= high_priority < HIGH_PRIORITY_MAX,
        weekend == 0 || weekend == SCALE,
        NOISE_MIN <= noise < NOISE_MAX,
    ensures
        r as int == price_formula_spec(
            base_fee as int,
            pending_tx as int,
            avg_gas_used as int,
            block_util as int,
            hour as int,
            high_priority as int,
            weekend as int,
            noise as int,
        ),
        PRICE_MIN <= r <= PRICE_MAX,
{
    let base_term: i64 = ((base_fee as u64 * 11) / 10) as i64;
    let pending_term: i64 = (pending_tx as u64 / 20) as i64;
    let avg_term: i64 = avg_gas_used * 40;
    let util_term: i64 = block_util * 30;
    let hour_term: i64 = if hour >= 9_000_000 && hour <= 17_000_000 {
        15_000_000
    } else {
        -5_000_000
    };
    let prio_term: i64 = (high_priority as u64 / 12) as i64;
    let weekend_term: i64 = if weekend == SCALE {
        -10_000_000
    } else {
        5_000_000
    };
    let raw: i64 = base_term + pending_term + avg_term + util_term + hour_term + prio_term
        + weekend_term + noise;
    if raw < PRICE_MIN {
        PRICE_MIN
    } else if raw > PRICE_MAX {
        PRICE_MAX
    } else {
        raw
    }
}

/// Generate `n_samples` labeled samples: a flattened `[n_samples, 7]`
/// feature matrix and an `[n_samples]` label vector. Each feature is
/// drawn uniformly from its declared range; each label is the pricing
/// formula applied to the drawn row plus a noise draw, so every label
/// lies in `[PRICE_MIN, PRICE_MAX]`. `n_samples == 0` yields two empty
/// vectors.
pub fn generate_gas_data(rng: &mut rand::rngs::StdRng, n_samples: usize) -> (r: (Vec<i64>, Vec<
    i64,
>))
    requires
        n_samples * 7 <= usize::MAX,
    ensures
        r.0@.len() == n_samples * 7,
        r.1@.len() == n_samples,
        forall|i: int| 0 <= i < n_samples ==> #[trigger] feature_row_ok(r.0@, i),
        forall|i: int| 0 <= i < n_samples ==> PRICE_MIN <= #[trigger] r.1@[i] <= PRICE_MAX,
        forall|i: int| 0 <= i < n_samples ==> #[trigger] label_matches_row(r.0@, r.1@, i),
{
    let mut features: Vec<i64> = Vec::new();
    let mut labels: Vec<i64> = Vec::new();
    let mut s: usize = 0;
    while s < n_samples
        invariant
            s <= n_samples,
            n_samples * 7 <= usize::MAX,
            features@.len() == s * 7,
            labels@.len() == s,
            forall|i: int| 0 <= i < s ==> #[trigger] feature_row_ok(features@, i),
            forall|i: int| 0 <= i < s ==> PRICE_MIN <= #[trigger] labels@[i] <= PRICE_MAX,
            forall|i: int| 0 <= i < s ==> #[trigger] label_matches_row(features@, labels@, i),
        decreases n_samples - s,
    {
        proof {
            assert((s + 1) * 7 <= n_samples * 7) by (nonlinear_arith)
                requires
                    s < n_samples,
            ;
            assert(s * 7 + 7 == (s + 1) * 7) by (nonlinear_arith);
        }
        let base_fee = draw_range(rng, BASE_FEE_MIN, BASE_FEE_MAX);
        let pending_tx = draw_range(rng, PENDING_TX_MIN, PENDING_TX_MAX);
        let avg_gas_used = draw_range(rng, AVG_GAS_MIN, AVG_GAS_MAX);
        let block_util = draw_range(rng, BLOCK_UTIL_MIN, BLOCK_UTIL_MAX);
        let hour = draw_range(rng, 0, HOUR_MAX);
        let high_priority = draw_range(rng, 0, HIGH_PRIORITY_MAX);
        let weekend: i64 = if draw_range(rng, 0, 7) < 2 {
            SCALE
        } else {
            0
        };
        let noise = draw_range(rng, NOISE_MIN, NOISE_MAX);
        let price = gas_price_formula(
            base_fee,
            pending_tx,
            avg_gas_used,
            block_util,
            hour,
            high_priority,
            weekend,
            noise,
        );
        let ghost old_features = features@;
        let ghost old_labels = labels@;
        features.push(base_fee);
        features.push(pending_tx);
        features.push(avg_gas_used);
        features.push(block_util);
        features.push(hour);
        features.push(high_priority);
        features.push(weekend);
        labels.push(price);
        proof {
            assert(features@.len() == s * 7 + 7);
            assert forall|i: int| 0 <= i < s + 1 implies #[trigger] feature_row_ok(
                features@,
                i,
            ) by {
                if i < s {
                    assert(feature_row_ok(old_features, i));
                    assert(7 * i + 6 < s * 7) by (nonlinear_arith)
                        requires
                            0 <= i < s,
                    ;
                } else {
                    assert(7 * i == s * 7) by (nonlinear_arith)
                        requires
                            i == s,
                    ;
                }
            }
            assert(forall|j: int| 0 <= j < s * 7 ==> features@[j] == old_features[j]);
            assert forall|i: int| 0 <= i < s + 1 implies #[trigger] label_matches_row(
                features@,
                labels@,
                i,
            ) by {
                if i < s {
                    assert(label_matches_row(old_features, old_labels, i));
                    let ns0 = choose|ns: int|
                        NOISE_MIN <= ns < NOISE_MAX && old_labels[i] as int
                            == #[trigger] price_formula_row_spec(old_features, i, ns);
                    assert(7 * i + 6 < s * 7) by (nonlinear_arith)
                        requires
                            0 <= i < s,
                    ;
                    assert(labels@[i] as int == price_formula_row_spec(features@, i, ns0));
                } else {
                    assert(7 * i == s * 7) by (nonlinear_arith)
                        requires
                            i == s,
                    ;
                    assert(labels@[i] as int == price_formula_row_spec(
                        features@,
                        i,
                        noise as int,
                    ));
                }
            }
        }
        s = s + 1;
    }
    (features, labels)
}

/// All drawn feature values are bounded fixed-point values; lets callers
/// feed generated features straight into the network.
pub proof fn lemma_features_bounded(f: Seq<i64>, n: int)
    requires
        f.len() == n * 7,
        forall|i: int| 0 <= i < n ==> #[trigger] feature_row_ok(f, i),
    ensures
        forall|k: int| 0 <= k < f.len() ==> bounded(#[trigger] f[k] as int),
{
    assert forall|k: int| 0 <= k < f.len() implies bounded(#[trigger] f[k] as int) by {
        let i = k / 7;
        let j = k % 7;
        assert(k == 7 * i + j && 0 <= i < n && 0 <= j < 7) by (nonlinear_arith)
            requires
                i == k / 7,
                j == k % 7,
                0 <= k < n * 7,
        ;
        assert(feature_row_ok(f, i));
    }
}

} // verus!
