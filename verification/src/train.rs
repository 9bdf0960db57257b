//! Training: mean-squared-error loss, exact backward-pass gradients of
//! the two-layer network, an Adam-style optimizer (per-parameter first
//! and second moment estimates with bias correction), and the one-batch
//! training step. Every step is pinned exactly by a spec mirror, so a
//! whole training run is a deterministic function of the initial
//! parameters and the data.

use vstd::prelude::*;

verus! {

use crate::fixed::{
    bounded, copy_slice, fp_add, fp_add_spec, fp_div, fp_div_spec, fp_mul, fp_mul_spec, fp_sqrt, fp_sqrt_spec,
    fp_sub, fp_sub_spec, lemma_fp_div_nonneg, lemma_fp_mul_nonneg, lemma_fp_sq_nonneg, tdiv, BOUND,
    SCALE,
};
use crate::model::{all_bounded, hidden_spec, net_wf, output_spec, GasPriceNet, NetG};

/// Samples per gradient update; a final partial batch is dropped.
pub const BATCH_SIZE: usize = 32;

/// Full passes over the training set in a standard run.
pub const N_EPOCHS: usize = 100;

/// Validation runs every this many epochs.
pub const VAL_EVERY: usize = 10;

/// Learning rate, 0.001 in micro-units.
pub const LR: i64 = 1_000;

/// First-moment decay coefficient, 0.9.
pub const BETA1: i64 = 900_000;

/// Second-moment decay coefficient, 0.999.
pub const BETA2: i64 = 999_000;

/// Denominator fudge term of the optimizer update, one micro-unit.
pub const ADAM_EPS: i64 = 1;

/// Every value of a sequence is nonnegative.
pub open spec fn all_nonneg(s: Seq<i64>) -> bool {
    forall|i: int| 0 <= i < s.len() ==> #[trigger] s[i] >= 0
}

/// Squared error of one prediction.
pub open spec fn sq_err_spec(p: int, l: int) -> int {
    fp_mul_spec(fp_sub_spec(p, l), fp_sub_spec(p, l))
}

/// Partial sum of squared errors over the first `i` rows.
pub open spec fn mse_sum_spec(preds: Seq<i64>, labels: Seq<i64>, i: int) -> int
    decreases i,
{
    if i <= 0 {
        0
    } else {
        fp_add_spec(
            mse_sum_spec(preds, labels, i - 1),
            sq_err_spec(preds[i - 1] as int, labels[i - 1] as int),
        )
    }
}

/// Mean squared error of a prediction vector against its labels.
pub open spec fn mse_spec(preds: Seq<i64>, labels: Seq<i64>) -> int {
    tdiv(mse_sum_spec(preds, labels, preds.len() as int), preds.len() as int)
}

/// Partial sum of squared errors of the network itself on rows of `x`.
pub open spec fn loss_sum_spec(n: NetG, x: Seq<i64>, y: Seq<i64>, i: int) -> int
    decreases i,
{
    if i <= 0 {
        0
    } else {
        fp_add_spec(
            loss_sum_spec(n, x, y, i - 1),
            sq_err_spec(output_spec(n, x, i - 1), y[i - 1] as int),
        )
    }
}

/// Mean squared error of the network on a whole batch: the loss that one
/// training step minimizes, and also the validation loss.
pub open spec fn batch_loss_spec(n: NetG, x: Seq<i64>, y: Seq<i64>) -> int {
    tdiv(loss_sum_spec(n, x, y, y.len() as int), y.len() as int)
}

/// A materialized prediction vector pinned to the network's outputs has
/// the network's own loss.
pub proof fn lemma_mse_matches(n: NetG, x: Seq<i64>, y: Seq<i64>, preds: Seq<i64>, i: int)
    requires
        i <= preds.len(),
        forall|r: int| 0 <= r < preds.len() ==> preds[r] as int == #[trigger] output_spec(n, x, r),
    ensures
        mse_sum_spec(preds, y, i) == loss_sum_spec(n, x, y, i),
    decreases i,
{
    if i > 0 {
        lemma_mse_matches(n, x, y, preds, i - 1);
    }
}

/// Mean squared error between a prediction vector and a label vector.
pub fn mse_loss(preds: &Vec<i64>, labels: &Vec<i64>) -> (r: i64)
    requires
        preds@.len() == labels@.len(),
        preds@.len() > 0,
        all_bounded(preds@),
        all_bounded(labels@),
    ensures
        r as int == mse_spec(preds@, labels@),
        0 <= r <= BOUND,
{
    let n = preds.len();
    let mut acc: i64 = 0;
    let mut i: usize = 0;
    while i < n
        invariant
            i <= n,
            n == preds@.len(),
            preds@.len() == labels@.len(),
            all_bounded(preds@),
            all_bounded(labels@),
            acc as int == mse_sum_spec(preds@, labels@, i as int),
            0 <= acc <= BOUND,
        decreases n - i,
    {
        let d = fp_sub(preds[i], labels[i]);
        let sq = fp_mul(d, d);
        proof {
            lemma_fp_sq_nonneg(d as int);
        }
        acc = fp_add(acc, sq);
        i = i + 1;
    }
    let q: u64 = (acc as u64) / (n as u64);
    proof {
        vstd::arithmetic::div_mod::lemma_div_nonincreasing(acc as int, n as int);
        vstd::arithmetic::div_mod::lemma_div_pos_is_pos(acc as int, n as int);
    }
    q as i64
}

/// Derivative of the mean part of the loss at row `r`: twice the error of
/// the network's prediction (the `1/B` factor is applied when averaging).
pub open spec fn d_out_spec(n: NetG, x: Seq<i64>, y: Seq<i64>, r: int) -> int {
    let e = fp_sub_spec(output_spec(n, x, r), y[r] as int);
    fp_add_spec(e, e)
}

/// Backpropagated derivative at hidden unit `j` of row `r`: zero where
/// the relu was inactive.
pub open spec fn d_h_spec(n: NetG, x: Seq<i64>, y: Seq<i64>, r: int, j: int) -> int {
    if hidden_spec(n, x, r, j) > 0 {
        fp_mul_spec(d_out_spec(n, x, y, r), n.w2[j] as int)
    } else {
        0
    }
}

/// Partial sum over rows of the layer-2 bias gradient.
pub open spec fn gb2_sum_spec(n: NetG, x: Seq<i64>, y: Seq<i64>, i: int) -> int
    decreases i,
{
    if i <= 0 {
        0
    } else {
        fp_add_spec(gb2_sum_spec(n, x, y, i - 1), d_out_spec(n, x, y, i - 1))
    }
}

/// Gradient of the loss in the layer-2 bias: the batch mean of `d_out`.
pub open spec fn gb2_spec(n: NetG, x: Seq<i64>, y: Seq<i64>) -> int {
    tdiv(gb2_sum_spec(n, x, y, y.len() as int), y.len() as int)
}

/// Partial sum over rows of the layer-2 weight gradient at unit `j`.
pub open spec fn gw2_sum_spec(n: NetG, x: Seq<i64>, y: Seq<i64>, j: int, i: int) -> int
    decreases i,
{
    if i <= 0 {
        0
    } else {
        fp_add_spec(
            gw2_sum_spec(n, x, y, j, i - 1),
            fp_mul_spec(hidden_spec(n, x, i - 1, j), d_out_spec(n, x, y, i - 1)),
        )
    }
}

/// Gradient of the loss in layer-2 weight `j`.
pub open spec fn gw2_spec(n: NetG, x: Seq<i64>, y: Seq<i64>, j: int) -> int {
    tdiv(gw2_sum_spec(n, x, y, j, y.len() as int), y.len() as int)
}

/// Partial sum over rows of the layer-1 bias gradient at unit `j`.
pub open spec fn gb1_sum_spec(n: NetG, x: Seq<i64>, y: Seq<i64>, j: int, i: int) -> int
    decreases i,
{
    if i <= 0 {
        0
    } else {
        fp_add_spec(gb1_sum_spec(n, x, y, j, i - 1), d_h_spec(n, x, y, i - 1, j))
    }
}

/// Gradient of the loss in layer-1 bias `j`.
pub open spec fn gb1_spec(n: NetG, x: Seq<i64>, y: Seq<i64>, j: int) -> int {
    tdiv(gb1_sum_spec(n, x, y, j, y.len() as int), y.len() as int)
}

/// Partial sum over rows of the layer-1 weight gradient at `(j, k)`.
pub open spec fn gw1_sum_spec(n: NetG, x: Seq<i64>, y: Seq<i64>, j: int, k: int, i: int) -> int
    decreases i,
{
    if i <= 0 {
        0
    } else {
        fp_add_spec(
            gw1_sum_spec(n, x, y, j, k, i - 1),
            fp_mul_spec(d_h_spec(n, x, y, i - 1, j), x[7 * (i - 1) + k] as int),
        )
    }
}

/// Gradient of the loss in layer-1 weight `(j, k)`.
pub open spec fn gw1_spec(n: NetG, x: Seq<i64>, y: Seq<i64>, j: int, k: int) -> int {
    tdiv(gw1_sum_spec(n, x, y, j, k, y.len() as int), y.len() as int)
}

/// The layer-1 weight gradient at flat index `idx` of the `[64, 7]`
/// matrix.
pub open spec fn gw1_flat_spec(n: NetG, x: Seq<i64>, y: Seq<i64>, idx: int) -> int {
    gw1_spec(n, x, y, idx / 7, idx % 7)
}

/// The gradients of one batch, one tensor per parameter tensor.
pub struct Grads {
    pub w1: Vec<i64>,
    pub b1: Vec<i64>,
    pub w2: Vec<i64>,
    pub b2: Vec<i64>,
}

/// Backward pass: the exact batch-mean gradients of the mean-squared
/// error in every parameter, given the activations of the forward pass.
pub fn compute_gradients(
    net: &GasPriceNet,
    x: &Vec<i64>,
    y: &Vec<i64>,
    h: &Vec<i64>,
    preds: &Vec<i64>,
) -> (g: Grads)
    requires
        net_wf(net@),
        y@.len() > 0,
        y@.len() * 64 <= usize::MAX,
        x@.len() == y@.len() * 7,
        all_bounded(x@),
        all_bounded(y@),
        h@.len() == y@.len() * 64,
        preds@.len() == y@.len(),
        forall|r: int, j: int|
            0 <= r < y@.len() && 0 <= j < 64 ==> h@[64 * r + j] as int == #[trigger] hidden_spec(
                net@,
                x@,
                r,
                j,
            ),
        forall|r: int| 0 <= r < y@.len() ==> preds@[r] as int == #[trigger] output_spec(net@, x@, r),
        all_bounded(h@),
        all_bounded(preds@),
    ensures
        g.w1@.len() == 448,
        g.b1@.len() == 64,
        g.w2@.len() == 64,
        g.b2@.len() == 1,
        forall|i: int|
            0 <= i < 448 ==> g.w1@[i] as int == #[trigger] gw1_flat_spec(net@, x@, y@, i),
        forall|j: int| 0 <= j < 64 ==> g.b1@[j] as int == #[trigger] gb1_spec(net@, x@, y@, j),
        forall|j: int| 0 <= j < 64 ==> g.w2@[j] as int == #[trigger] gw2_spec(net@, x@, y@, j),
        g.b2@[0] as int == gb2_spec(net@, x@, y@),
        all_bounded(g.w1@),
        all_bounded(g.b1@),
        all_bounded(g.w2@),
        all_bounded(g.b2@),
{
    let bsz = y.len();
    // Doubled prediction errors, one per row.
    let mut dd: Vec<i64> = Vec::new();
    let mut r: usize = 0;
    while r < bsz
        invariant
            r <= bsz,
            bsz == y@.len(),
            0 < bsz,
            preds@.len() == bsz,
            all_bounded(preds@),
            all_bounded(y@),
            forall|r0: int|
                0 <= r0 < bsz ==> preds@[r0] as int == #[trigger] output_spec(net@, x@, r0),
            dd@.len() == r,
            forall|r0: int| 0 <= r0 < r ==> dd@[r0] as int == #[trigger] d_out_spec(net@, x@, y@, r0),
            all_bounded(dd@),
        decreases bsz - r,
    {
        let e = fp_sub(preds[r], y[r]);
        let v = fp_add(e, e);
        dd.push(v);
        r = r + 1;
    }
    // Backpropagated derivatives at the hidden layer, flattened [bsz, 64].
    let mut dh: Vec<i64> = Vec::new();
    let mut r2: usize = 0;
    while r2 < bsz
        invariant
            r2 <= bsz,
            bsz == y@.len(),
            0 < bsz,
            bsz * 64 <= usize::MAX,
            net_wf(net@),
            h@.len() == bsz * 64,
            all_bounded(h@),
            dd@.len() == bsz,
            all_bounded(dd@),
            forall|r0: int| 0 <= r0 < bsz ==> dd@[r0] as int == #[trigger] d_out_spec(net@, x@, y@, r0),
            forall|r0: int, j: int|
                0 <= r0 < bsz && 0 <= j < 64 ==> h@[64 * r0 + j] as int == #[trigger] hidden_spec(
                    net@,
                    x@,
                    r0,
                    j,
                ),
            dh@.len() == r2 * 64,
            forall|r0: int, j: int|
                0 <= r0 < r2 && 0 <= j < 64 ==> dh@[64 * r0 + j] as int == #[trigger] d_h_spec(
                    net@,
                    x@,
                    y@,
                    r0,
                    j,
                ),
            all_bounded(dh@),
        decreases bsz - r2,
    {
        proof {
            assert(r2 * 64 + 64 <= bsz * 64) by (nonlinear_arith)
                requires
                    r2 < bsz,
            ;
        }
        let ghost old_dh = dh@;
        let mut j: usize = 0;
        while j < 64
            invariant
                j <= 64,
                r2 < bsz,
                bsz == y@.len(),
            0 < bsz,
                net_wf(net@),
                h@.len() == bsz * 64,
                bsz * 64 <= usize::MAX,
                r2 * 64 + 64 <= bsz * 64,
                all_bounded(h@),
                dd@.len() == bsz,
                all_bounded(dd@),
                forall|r0: int|
                    0 <= r0 < bsz ==> dd@[r0] as int == #[trigger] d_out_spec(net@, x@, y@, r0),
                forall|r0: int, j0: int|
                    0 <= r0 < bsz && 0 <= j0 < 64 ==> h@[64 * r0 + j0] as int
                        == #[trigger] hidden_spec(net@, x@, r0, j0),
                dh@.len() == old_dh.len() + j,
                old_dh.len() == r2 * 64,
                forall|i: int| 0 <= i < old_dh.len() ==> dh@[i] == old_dh[i],
                forall|j0: int|
                    0 <= j0 < j ==> dh@[r2 * 64 + j0] as int == #[trigger] d_h_spec(
                        net@,
                        x@,
                        y@,
                        r2 as int,
                        j0,
                    ),
                all_bounded(dh@),
            decreases 64 - j,
        {
            let hv = h[64 * r2 + j];
            let v: i64 = if hv > 0 {
                fp_mul(dd[r2], net.w2[j])
            } else {
                0
            };
            assert(v as int == d_h_spec(net@, x@, y@, r2 as int, j as int));
            dh.push(v);
            j = j + 1;
        }
        proof {
            assert forall|r0: int, j0: int| 0 <= r0 < r2 + 1 && 0 <= j0 < 64 implies dh@[64 * r0
                + j0] as int == #[trigger] d_h_spec(net@, x@, y@, r0, j0) by {
                if r0 < r2 {
                    assert(64 * r0 + j0 < 64 * r2) by (nonlinear_arith)
                        requires
                            0 <= r0 < r2,
                            0 <= j0 < 64,
                    ;
                    assert(dh@[64 * r0 + j0] == old_dh[64 * r0 + j0]);
                } else {
                    assert(64 * r0 == r2 * 64) by (nonlinear_arith)
                        requires
                            r0 == r2,
                    ;
                }
            }
        }
        r2 = r2 + 1;
    }
    // Layer-2 bias gradient.
    let mut acc: i64 = 0;
    let mut i: usize = 0;
    while i < bsz
        invariant
            i <= bsz,
            bsz == y@.len(),
            0 < bsz,
            dd@.len() == bsz,
            all_bounded(dd@),
            forall|r0: int| 0 <= r0 < bsz ==> dd@[r0] as int == #[trigger] d_out_spec(net@, x@, y@, r0),
            acc as int == gb2_sum_spec(net@, x@, y@, i as int),
            bounded(acc as int),
        decreases bsz - i,
    {
        acc = fp_add(acc, dd[i]);
        i = i + 1;
    }
    let mut b2g: Vec<i64> = Vec::new();
    b2g.push(crate::fixed::div_count(acc, bsz as u64));
    // Layer-2 weight gradients.
    let mut w2g: Vec<i64> = Vec::new();
    let mut j: usize = 0;
    while j < 64
        invariant
            j <= 64,
            bsz == y@.len(),
            0 < bsz,
            bsz * 64 <= usize::MAX,
            net_wf(net@),
            h@.len() == bsz * 64,
            all_bounded(h@),
            dd@.len() == bsz,
            all_bounded(dd@),
            forall|r0: int| 0 <= r0 < bsz ==> dd@[r0] as int == #[trigger] d_out_spec(net@, x@, y@, r0),
            forall|r0: int, j0: int|
                0 <= r0 < bsz && 0 <= j0 < 64 ==> h@[64 * r0 + j0] as int == #[trigger] hidden_spec(
                    net@,
                    x@,
                    r0,
                    j0,
                ),
            w2g@.len() == j,
            forall|j0: int| 0 <= j0 < j ==> w2g@[j0] as int == #[trigger] gw2_spec(net@, x@, y@, j0),
            all_bounded(w2g@),
        decreases 64 - j,
    {
        let mut acc2: i64 = 0;
        let mut i2: usize = 0;
        while i2 < bsz
            invariant
                i2 <= bsz,
                j < 64,
                bsz == y@.len(),
            0 < bsz,
                bsz * 64 <= usize::MAX,
                net_wf(net@),
                h@.len() == bsz * 64,
                all_bounded(h@),
                dd@.len() == bsz,
                all_bounded(dd@),
                forall|r0: int|
                    0 <= r0 < bsz ==> dd@[r0] as int == #[trigger] d_out_spec(net@, x@, y@, r0),
                forall|r0: int, j0: int|
                    0 <= r0 < bsz && 0 <= j0 < 64 ==> h@[64 * r0 + j0] as int
                        == #[trigger] hidden_spec(net@, x@, r0, j0),
                acc2 as int == gw2_sum_spec(net@, x@, y@, j as int, i2 as int),
                bounded(acc2 as int),
            decreases bsz - i2,
        {
            proof {
                assert(64 * i2 + j < bsz * 64) by (nonlinear_arith)
                    requires
                        i2 < bsz,
                        j < 64,
                ;
            }
            let t = fp_mul(h[64 * i2 + j], dd[i2]);
            acc2 = fp_add(acc2, t);
            i2 = i2 + 1;
        }
        w2g.push(crate::fixed::div_count(acc2, bsz as u64));
        j = j + 1;
    }
    // Layer-1 bias gradients.
    let mut b1g: Vec<i64> = Vec::new();
    let mut j3: usize = 0;
    while j3 < 64
        invariant
            j3 <= 64,
            bsz == y@.len(),
            0 < bsz,
            bsz * 64 <= usize::MAX,
            dh@.len() == bsz * 64,
            all_bounded(dh@),
            forall|r0: int, j0: int|
                0 <= r0 < bsz && 0 <= j0 < 64 ==> dh@[64 * r0 + j0] as int == #[trigger] d_h_spec(
                    net@,
                    x@,
                    y@,
                    r0,
                    j0,
                ),
            b1g@.len() == j3,
            forall|j0: int| 0 <= j0 < j3 ==> b1g@[j0] as int == #[trigger] gb1_spec(net@, x@, y@, j0),
            all_bounded(b1g@),
        decreases 64 - j3,
    {
        let mut acc3: i64 = 0;
        let mut i3: usize = 0;
        while i3 < bsz
            invariant
                i3 <= bsz,
                j3 < 64,
                bsz == y@.len(),
            0 < bsz,
                bsz * 64 <= usize::MAX,
                dh@.len() == bsz * 64,
                all_bounded(dh@),
                forall|r0: int, j0: int|
                    0 <= r0 < bsz && 0 <= j0 < 64 ==> dh@[64 * r0 + j0] as int
                        == #[trigger] d_h_spec(net@, x@, y@, r0, j0),
                acc3 as int == gb1_sum_spec(net@, x@, y@, j3 as int, i3 as int),
                bounded(acc3 as int),
            decreases bsz - i3,
        {
            proof {
                assert(64 * i3 + j3 < bsz * 64) by (nonlinear_arith)
                    requires
                        i3 < bsz,
                        j3 < 64,
                ;
            }
            acc3 = fp_add(acc3, dh[64 * i3 + j3]);
            i3 = i3 + 1;
        }
        b1g.push(crate::fixed::div_count(acc3, bsz as u64));
        j3 = j3 + 1;
    }
    // Layer-1 weight gradients, flattened [64, 7].
    let mut w1g: Vec<i64> = Vec::new();
    let mut j4: usize = 0;
    while j4 < 64
        invariant
            j4 <= 64,
            bsz == y@.len(),
            0 < bsz,
            bsz * 64 <= usize::MAX,
            x@.len() == bsz * 7,
            all_bounded(x@),
            dh@.len() == bsz * 64,
            all_bounded(dh@),
            forall|r0: int, j0: int|
                0 <= r0 < bsz && 0 <= j0 < 64 ==> dh@[64 * r0 + j0] as int == #[trigger] d_h_spec(
                    net@,
                    x@,
                    y@,
                    r0,
                    j0,
                ),
            w1g@.len() == j4 * 7,
            forall|i0: int|
                0 <= i0 < w1g@.len() ==> w1g@[i0] as int == #[trigger] gw1_flat_spec(
                    net@,
                    x@,
                    y@,
                    i0,
                ),
            all_bounded(w1g@),
        decreases 64 - j4,
    {
        proof {
            assert(j4 * 7 + 7 <= 64 * 7) by (nonlinear_arith)
                requires
                    j4 < 64,
            ;
        }
        let mut k: usize = 0;
        while k < 7
            invariant
                k <= 7,
                j4 < 64,
                bsz == y@.len(),
            0 < bsz,
                bsz * 64 <= usize::MAX,
                x@.len() == bsz * 7,
                all_bounded(x@),
                dh@.len() == bsz * 64,
                all_bounded(dh@),
                forall|r0: int, j0: int|
                    0 <= r0 < bsz && 0 <= j0 < 64 ==> dh@[64 * r0 + j0] as int
                        == #[trigger] d_h_spec(net@, x@, y@, r0, j0),
                w1g@.len() == j4 * 7 + k,
                forall|i0: int|
                    0 <= i0 < w1g@.len() ==> w1g@[i0] as int == #[trigger] gw1_flat_spec(
                        net@,
                        x@,
                        y@,
                        i0,
                    ),
                all_bounded(w1g@),
            decreases 7 - k,
        {
            let mut acc4: i64 = 0;
            let mut i4: usize = 0;
            while i4 < bsz
                invariant
                    i4 <= bsz,
                    j4 < 64,
                    k < 7,
                    bsz == y@.len(),
            0 < bsz,
                    bsz * 64 <= usize::MAX,
                    x@.len() == bsz * 7,
                    all_bounded(x@),
                    dh@.len() == bsz * 64,
                    all_bounded(dh@),
                    forall|r0: int, j0: int|
                        0 <= r0 < bsz && 0 <= j0 < 64 ==> dh@[64 * r0 + j0] as int
                            == #[trigger] d_h_spec(net@, x@, y@, r0, j0),
                    acc4 as int == gw1_sum_spec(net@, x@, y@, j4 as int, k as int, i4 as int),
                    bounded(acc4 as int),
                decreases bsz - i4,
            {
                proof {
                    assert(64 * i4 + j4 < bsz * 64 && 7 * i4 + k < bsz * 7) by (nonlinear_arith)
                        requires
                            i4 < bsz,
                            j4 < 64,
                            k < 7,
                    ;
                }
                let t = fp_mul(dh[64 * i4 + j4], x[7 * i4 + k]);
                acc4 = fp_add(acc4, t);
                i4 = i4 + 1;
            }
            let gv = crate::fixed::div_count(acc4, bsz as u64);
            proof {
                assert((j4 as int * 7 + k as int) / 7 == j4 as int && (j4 as int * 7 + k as int) % 7
                    == k as int) by (nonlinear_arith)
                    requires
                        0 <= k < 7,
                        0 <= j4,
                ;
                assert(gv as int == gw1_flat_spec(net@, x@, y@, j4 as int * 7 + k as int));
            }
            w1g.push(gv);
            k = k + 1;
        }
        j4 = j4 + 1;
    }
    Grads { w1: w1g, b1: b1g, w2: w2g, b2: b2g }
}

/// The optimizer state: first (`m_*`) and second (`v_*`) moment estimate
/// per parameter, and the running decay powers `pow1 = BETA1^t`,
/// `pow2 = BETA2^t` used for bias correction.
pub struct AdamOpt {
    pub m_w1: Vec<i64>,
    pub v_w1: Vec<i64>,
    pub m_b1: Vec<i64>,
    pub v_b1: Vec<i64>,
    pub m_w2: Vec<i64>,
    pub v_w2: Vec<i64>,
    pub m_b2: Vec<i64>,
    pub v_b2: Vec<i64>,
    pub pow1: i64,
    pub pow2: i64,
}

/// The mathematical model of the optimizer state.
pub struct AdamG {
    pub m_w1: Seq<i64>,
    pub v_w1: Seq<i64>,
    pub m_b1: Seq<i64>,
    pub v_b1: Seq<i64>,
    pub m_w2: Seq<i64>,
    pub v_w2: Seq<i64>,
    pub m_b2: Seq<i64>,
    pub v_b2: Seq<i64>,
    pub pow1: i64,
    pub pow2: i64,
}

impl View for AdamOpt {
    type V = AdamG;

    open spec fn view(&self) -> AdamG {
        AdamG {
            m_w1: self.m_w1@,
            v_w1: self.v_w1@,
            m_b1: self.m_b1@,
            v_b1: self.v_b1@,
            m_w2: self.m_w2@,
            v_w2: self.v_w2@,
            m_b2: self.m_b2@,
            v_b2: self.v_b2@,
            pow1: self.pow1,
            pow2: self.pow2,
        }
    }
}

/// Moment shapes match the architecture, second moments are nonnegative,
/// and the decay powers lie in `[0, 1]`.
pub open spec fn opt_wf(o: AdamG) -> bool {
    &&& o.m_w1.len() == 448
    &&& o.v_w1.len() == 448
    &&& o.m_b1.len() == 64
    &&& o.v_b1.len() == 64
    &&& o.m_w2.len() == 64
    &&& o.v_w2.len() == 64
    &&& o.m_b2.len() == 1
    &&& o.v_b2.len() == 1
    &&& all_bounded(o.m_w1)
    &&& all_bounded(o.v_w1)
    &&& all_bounded(o.m_b1)
    &&& all_bounded(o.v_b1)
    &&& all_bounded(o.m_w2)
    &&& all_bounded(o.v_w2)
    &&& all_bounded(o.m_b2)
    &&& all_bounded(o.v_b2)
    &&& all_nonneg(o.v_w1)
    &&& all_nonneg(o.v_b1)
    &&& all_nonneg(o.v_w2)
    &&& all_nonneg(o.v_b2)
    &&& 0 <= o.pow1 <= SCALE
    &&& 0 <= o.pow2 <= SCALE
}

/// The fresh optimizer state: zero moments, decay powers at one.
pub open spec fn adam_init_spec() -> AdamG {
    AdamG {
        m_w1: Seq::new(448, |i: int| 0i64),
        v_w1: Seq::new(448, |i: int| 0i64),
        m_b1: Seq::new(64, |i: int| 0i64),
        v_b1: Seq::new(64, |i: int| 0i64),
        m_w2: Seq::new(64, |i: int| 0i64),
        v_w2: Seq::new(64, |i: int| 0i64),
        m_b2: Seq::new(1, |i: int| 0i64),
        v_b2: Seq::new(1, |i: int| 0i64),
        pow1: SCALE,
        pow2: SCALE,
    }
}

/// New first moment: exponential decay toward the gradient.
pub open spec fn adam_m_spec(m: int, g: int) -> int {
    fp_add_spec(fp_mul_spec(BETA1 as int, m), fp_mul_spec((SCALE - BETA1) as int, g))
}

/// New second moment: exponential decay toward the squared gradient.
pub open spec fn adam_v_spec(v: int, g: int) -> int {
    fp_add_spec(fp_mul_spec(BETA2 as int, v), fp_mul_spec((SCALE - BETA2) as int, fp_mul_spec(g, g)))
}

/// The parameter update: learning rate times the bias-corrected first
/// moment over the square root of the bias-corrected second moment.
/// `c1 = 1 - BETA1^t` and `c2 = 1 - BETA2^t` are the correction divisors.
pub open spec fn adam_delta_spec(m2: int, v2: int, c1: int, c2: int) -> int {
    let mhat = fp_div_spec(m2, c1);
    let vhat = fp_div_spec(v2, c2);
    fp_mul_spec(LR as int, fp_div_spec(mhat, fp_add_spec(fp_sqrt_spec(vhat), ADAM_EPS as int)))
}

/// The new value of one parameter after an optimizer step.
pub open spec fn adam_p_spec(p: int, g: int, m: int, v: int, c1: int, c2: int) -> int {
    fp_sub_spec(p, adam_delta_spec(adam_m_spec(m, g), adam_v_spec(v, g), c1, c2))
}

impl AdamOpt {
    /// Fresh optimizer state for the declared architecture.
    pub fn new() -> (o: AdamOpt)
        ensures
            o@ == adam_init_spec(),
            opt_wf(o@),
    {
        let o = AdamOpt {
            m_w1: zeros(448),
            v_w1: zeros(448),
            m_b1: zeros(64),
            v_b1: zeros(64),
            m_w2: zeros(64),
            v_w2: zeros(64),
            m_b2: zeros(1),
            v_b2: zeros(1),
            pow1: SCALE,
            pow2: SCALE,
        };
        proof {
            assert(o@.m_w1 =~= adam_init_spec().m_w1);
            assert(o@.v_w1 =~= adam_init_spec().v_w1);
            assert(o@.m_b1 =~= adam_init_spec().m_b1);
            assert(o@.v_b1 =~= adam_init_spec().v_b1);
            assert(o@.m_w2 =~= adam_init_spec().m_w2);
            assert(o@.v_w2 =~= adam_init_spec().v_w2);
            assert(o@.m_b2 =~= adam_init_spec().m_b2);
            assert(o@.v_b2 =~= adam_init_spec().v_b2);
        }
        o
    }
}

/// A vector of `n` zeros.
fn zeros(n: usize) -> (r: Vec<i64>)
    ensures
        r@.len() == n,
        forall|i: int| 0 <= i < n ==> r@[i] == 0i64,
{
    let mut r: Vec<i64> = Vec::new();
    let mut i: usize = 0;
    while i < n
        invariant
            i <= n,
            r@.len() == i,
            forall|k: int| 0 <= k < i ==> r@[k] == 0i64,
        decreases n - i,
    {
        r.push(0);
        i = i + 1;
    }
    r
}

/// One optimizer step on one parameter tensor: updates the moments from
/// the gradient and moves each parameter by its Adam delta.
fn adam_update_vec(p: &mut Vec<i64>, m: &mut Vec<i64>, v: &mut Vec<i64>, g: &Vec<i64>, c1: i64, c2: i64)
    requires
        old(p)@.len() == g@.len(),
        old(m)@.len() == g@.len(),
        old(v)@.len() == g@.len(),
        all_bounded(old(p)@),
        all_bounded(old(m)@),
        all_bounded(old(v)@),
        all_bounded(g@),
        all_nonneg(old(v)@),
        0 < c1 <= SCALE,
        0 < c2 <= SCALE,
    ensures
        final(p)@.len() == g@.len(),
        final(m)@.len() == g@.len(),
        final(v)@.len() == g@.len(),
        forall|i: int|
            0 <= i < g@.len() ==> final(p)@[i] as int == #[trigger] adam_p_spec(
                old(p)@[i] as int,
                g@[i] as int,
                old(m)@[i] as int,
                old(v)@[i] as int,
                c1 as int,
                c2 as int,
            ),
        forall|i: int|
            0 <= i < g@.len() ==> final(m)@[i] as int == #[trigger] adam_m_spec(
                old(m)@[i] as int,
                g@[i] as int,
            ),
        forall|i: int|
            0 <= i < g@.len() ==> final(v)@[i] as int == #[trigger] adam_v_spec(
                old(v)@[i] as int,
                g@[i] as int,
            ),
        all_bounded(final(p)@),
        all_bounded(final(m)@),
        all_bounded(final(v)@),
        all_nonneg(final(v)@),
{
    let ghost p0 = old(p)@;
    let ghost m0 = old(m)@;
    let ghost v0 = old(v)@;
    let n = g.len();
    let mut i: usize = 0;
    while i < n
        invariant
            i <= n,
            n == g@.len(),
            p@.len() == n,
            m@.len() == n,
            v@.len() == n,
            p0.len() == n,
            m0.len() == n,
            v0.len() == n,
            all_bounded(p0),
            all_bounded(m0),
            all_bounded(v0),
            all_bounded(g@),
            all_nonneg(v0),
            0 < c1 <= SCALE,
            0 < c2 <= SCALE,
            forall|k: int| i <= k < n ==> p@[k] == p0[k],
            forall|k: int| i <= k < n ==> m@[k] == m0[k],
            forall|k: int| i <= k < n ==> v@[k] == v0[k],
            forall|k: int|
                0 <= k < i ==> p@[k] as int == #[trigger] adam_p_spec(
                    p0[k] as int,
                    g@[k] as int,
                    m0[k] as int,
                    v0[k] as int,
                    c1 as int,
                    c2 as int,
                ),
            forall|k: int|
                0 <= k < i ==> m@[k] as int == #[trigger] adam_m_spec(m0[k] as int, g@[k] as int),
            forall|k: int|
                0 <= k < i ==> v@[k] as int == #[trigger] adam_v_spec(v0[k] as int, g@[k] as int),
            all_bounded(p@),
            all_bounded(m@),
            all_bounded(v@),
            all_nonneg(v@),
        decreases n - i,
    {
        let gi = g[i];
        let pi = p[i];
        let mi = m[i];
        let vi = v[i];
        let m_new = fp_add(fp_mul(BETA1, mi), fp_mul(SCALE - BETA1, gi));
        let g2 = fp_mul(gi, gi);
        proof {
            lemma_fp_sq_nonneg(gi as int);
            lemma_fp_mul_nonneg(BETA2 as int, vi as int);
            lemma_fp_mul_nonneg((SCALE - BETA2) as int, g2 as int);
        }
        let v_new = fp_add(fp_mul(BETA2, vi), fp_mul(SCALE - BETA2, g2));
        let mhat = fp_div(m_new, c1);
        proof {
            lemma_fp_div_nonneg(v_new as int, c2 as int);
        }
        let vhat = fp_div(v_new, c2);
        let sq = fp_sqrt(vhat);
        let denom = fp_add(sq, ADAM_EPS);
        let delta = fp_mul(LR, fp_div(mhat, denom));
        let p_new = fp_sub(pi, delta);
        p.set(i, p_new);
        m.set(i, m_new);
        v.set(i, v_new);
        proof {
            assert(p@[i as int] as int == adam_p_spec(
                p0[i as int] as int,
                g@[i as int] as int,
                m0[i as int] as int,
                v0[i as int] as int,
                c1 as int,
                c2 as int,
            ));
        }
        i = i + 1;
    }
}

/// The whole optimizer step as a value: the new parameters and optimizer
/// state after training on one batch.
pub open spec fn train_step_spec(n: NetG, o: AdamG, x: Seq<i64>, y: Seq<i64>) -> (NetG, AdamG) {
    let pow1 = fp_mul_spec(o.pow1 as int, BETA1 as int);
    let pow2 = fp_mul_spec(o.pow2 as int, BETA2 as int);
    let c1 = SCALE as int - pow1;
    let c2 = SCALE as int - pow2;
    let n2 = NetG {
        w1: Seq::new(
            448,
            |i: int|
                adam_p_spec(
                    n.w1[i] as int,
                    gw1_flat_spec(n, x, y, i),
                    o.m_w1[i] as int,
                    o.v_w1[i] as int,
                    c1,
                    c2,
                ) as i64,
        ),
        b1: Seq::new(
            64,
            |i: int|
                adam_p_spec(
                    n.b1[i] as int,
                    gb1_spec(n, x, y, i),
                    o.m_b1[i] as int,
                    o.v_b1[i] as int,
                    c1,
                    c2,
                ) as i64,
        ),
        w2: Seq::new(
            64,
            |i: int|
                adam_p_spec(
                    n.w2[i] as int,
                    gw2_spec(n, x, y, i),
                    o.m_w2[i] as int,
                    o.v_w2[i] as int,
                    c1,
                    c2,
                ) as i64,
        ),
        b2: Seq::new(
            1,
            |i: int|
                adam_p_spec(
                    n.b2[i] as int,
                    gb2_spec(n, x, y),
                    o.m_b2[i] as int,
                    o.v_b2[i] as int,
                    c1,
                    c2,
                ) as i64,
        ),
    };
    let o2 = AdamG {
        m_w1: Seq::new(448, |i: int| adam_m_spec(o.m_w1[i] as int, gw1_flat_spec(n, x, y, i)) as i64),
        v_w1: Seq::new(448, |i: int| adam_v_spec(o.v_w1[i] as int, gw1_flat_spec(n, x, y, i)) as i64),
        m_b1: Seq::new(64, |i: int| adam_m_spec(o.m_b1[i] as int, gb1_spec(n, x, y, i)) as i64),
        v_b1: Seq::new(64, |i: int| adam_v_spec(o.v_b1[i] as int, gb1_spec(n, x, y, i)) as i64),
        m_w2: Seq::new(64, |i: int| adam_m_spec(o.m_w2[i] as int, gw2_spec(n, x, y, i)) as i64),
        v_w2: Seq::new(64, |i: int| adam_v_spec(o.v_w2[i] as int, gw2_spec(n, x, y, i)) as i64),
        m_b2: Seq::new(1, |i: int| adam_m_spec(o.m_b2[i] as int, gb2_spec(n, x, y)) as i64),
        v_b2: Seq::new(1, |i: int| adam_v_spec(o.v_b2[i] as int, gb2_spec(n, x, y)) as i64),
        pow1: pow1 as i64,
        pow2: pow2 as i64,
    };
    (n2, o2)
}

/// One training step on one batch: forward pass, mean-squared-error
/// loss, backward pass, optimizer step mutating the parameters in place.
/// Returns the batch loss measured before the update.
pub fn train_step(net: &mut GasPriceNet, opt: &mut AdamOpt, x: &Vec<i64>, y: &Vec<i64>) -> (loss:
    i64)
    requires
        net_wf(old(net)@),
        opt_wf(old(opt)@),
        y@.len() > 0,
        y@.len() * 64 <= usize::MAX,
        x@.len() == y@.len() * 7,
        all_bounded(x@),
        all_bounded(y@),
    ensures
        net_wf(final(net)@),
        opt_wf(final(opt)@),
        final(net)@ == train_step_spec(old(net)@, old(opt)@, x@, y@).0,
        final(opt)@ == train_step_spec(old(net)@, old(opt)@, x@, y@).1,
        loss as int == batch_loss_spec(old(net)@, x@, y@),
        0 <= loss <= BOUND,
{
    let ghost n0 = old(net)@;
    let ghost o0 = old(opt)@;
    let bsz = y.len();
    let fw = net.forward_with_hidden(x, bsz);
    let h = fw.0;
    let preds = fw.1;
    let loss = mse_loss(&preds, y);
    proof {
        lemma_mse_matches(net@, x@, y@, preds@, bsz as int);
    }
    let g = compute_gradients(net, x, y, &h, &preds);
    let pw1 = fp_mul(opt.pow1, BETA1);
    let pw2 = fp_mul(opt.pow2, BETA2);
    proof {
        lemma_fp_mul_nonneg(opt.pow1 as int, BETA1 as int);
        lemma_fp_mul_nonneg(opt.pow2 as int, BETA2 as int);
        lemma_pow_decay(opt.pow1 as int, BETA1 as int);
        lemma_pow_decay(opt.pow2 as int, BETA2 as int);
    }
    opt.pow1 = pw1;
    opt.pow2 = pw2;
    let c1 = SCALE - opt.pow1;
    let c2 = SCALE - opt.pow2;
    adam_update_vec(&mut net.w1, &mut opt.m_w1, &mut opt.v_w1, &g.w1, c1, c2);
    adam_update_vec(&mut net.b1, &mut opt.m_b1, &mut opt.v_b1, &g.b1, c1, c2);
    adam_update_vec(&mut net.w2, &mut opt.m_w2, &mut opt.v_w2, &g.w2, c1, c2);
    adam_update_vec(&mut net.b2, &mut opt.m_b2, &mut opt.v_b2, &g.b2, c1, c2);
    proof {
        let sp = train_step_spec(n0, o0, x@, y@);
        assert(net@.w1 =~= sp.0.w1);
        assert(net@.b1 =~= sp.0.b1);
        assert(net@.w2 =~= sp.0.w2);
        assert(net@.b2 =~= sp.0.b2);
        assert(opt@.m_w1 =~= sp.1.m_w1);
        assert(opt@.v_w1 =~= sp.1.v_w1);
        assert(opt@.m_b1 =~= sp.1.m_b1);
        assert(opt@.v_b1 =~= sp.1.v_b1);
        assert(opt@.m_w2 =~= sp.1.m_w2);
        assert(opt@.v_w2 =~= sp.1.v_w2);
        assert(opt@.m_b2 =~= sp.1.m_b2);
        assert(opt@.v_b2 =~= sp.1.v_b2);
    }
    loss
}

/// The validation result of one reporting epoch.
#[derive(Clone, Copy, Debug, PartialEq, Eq, Structural)]
pub struct ValReport {
    pub val_loss: i64,
    pub overfit: bool,
}

/// What one epoch reports: its number (starting at 1), the mean of its
/// batch losses, how many full batches it processed, and, on reporting
/// epochs, the validation result.
#[derive(Clone, Copy, Debug)]
pub struct EpochReport {
    pub epoch: usize,
    pub train_loss: i64,
    pub n_batches: usize,
    pub val: Option<ValReport>,
}

/// Training rejects inputs that would leave it with no full batch to
/// train on or no validation sample to score.
#[derive(Clone, Copy, Debug, PartialEq, Eq, Structural)]
pub enum TrainError {
    ConfigurationError,
}

/// Feature rows of batch `b`: rows `32*b .. 32*(b+1)` of the flattened
/// feature matrix.
pub open spec fn batch_x(x: Seq<i64>, b: int) -> Seq<i64> {
    x.subrange(7 * 32 * b, 7 * 32 * (b + 1))
}

/// Labels of batch `b`.
pub open spec fn batch_y(y: Seq<i64>, b: int) -> Seq<i64> {
    y.subrange(32 * b, 32 * (b + 1))
}

/// The state after training on the first `b` batches of one epoch, in
/// dataset order.
pub open spec fn run_batches_spec(n: NetG, o: AdamG, x: Seq<i64>, y: Seq<i64>, b: int) -> (
    NetG,
    AdamG,
)
    decreases b,
{
    if b <= 0 {
        (n, o)
    } else {
        let prev = run_batches_spec(n, o, x, y, b - 1);
        train_step_spec(prev.0, prev.1, batch_x(x, b - 1), batch_y(y, b - 1))
    }
}

/// The accumulated loss of the first `b` batches of one epoch, each
/// measured before its own update.
pub open spec fn epoch_loss_sum_spec(n: NetG, o: AdamG, x: Seq<i64>, y: Seq<i64>, b: int) -> int
    decreases b,
{
    if b <= 0 {
        0
    } else {
        let prev = run_batches_spec(n, o, x, y, b - 1);
        fp_add_spec(
            epoch_loss_sum_spec(n, o, x, y, b - 1),
            batch_loss_spec(prev.0, batch_x(x, b - 1), batch_y(y, b - 1)),
        )
    }
}

/// The state after `e` full epochs of `nb` batches each.
pub open spec fn run_epochs_spec(n: NetG, o: AdamG, x: Seq<i64>, y: Seq<i64>, nb: int, e: int) -> (
    NetG,
    AdamG,
)
    decreases e,
{
    if e <= 0 {
        (n, o)
    } else {
        let prev = run_epochs_spec(n, o, x, y, nb, e - 1);
        run_batches_spec(prev.0, prev.1, x, y, nb)
    }
}

/// The reported training loss of epoch `e` (starting at 1): the mean of
/// its batch losses.
pub open spec fn epoch_train_loss_spec(
    n: NetG,
    o: AdamG,
    x: Seq<i64>,
    y: Seq<i64>,
    nb: int,
    e: int,
) -> int {
    let prev = run_epochs_spec(n, o, x, y, nb, e - 1);
    tdiv(epoch_loss_sum_spec(prev.0, prev.1, x, y, nb), nb)
}

/// The report of epoch `e` (0-based here) is exactly what the run
/// produced: its losses are pinned, validation appears on every
/// `VAL_EVERY`-th epoch and only there, and the overfitting flag holds
/// if and only if the validation loss exceeds 1.5 times the training
/// loss.
pub open spec fn report_ok(
    n0: NetG,
    o0: AdamG,
    x: Seq<i64>,
    y: Seq<i64>,
    vx: Seq<i64>,
    vy: Seq<i64>,
    nb: int,
    rep: EpochReport,
    e: int,
) -> bool {
    &&& rep.epoch == e + 1
    &&& rep.n_batches == nb
    &&& rep.train_loss as int == epoch_train_loss_spec(n0, o0, x, y, nb, e + 1)
    &&& 0 <= rep.train_loss
    &&& (rep.val is Some <==> (e + 1) % (VAL_EVERY as int) == 0)
    &&& match rep.val {
        Some(v) => {
            &&& v.val_loss as int == batch_loss_spec(
                run_epochs_spec(n0, o0, x, y, nb, e + 1).0,
                vx,
                vy,
            )
            &&& 0 <= v.val_loss
            &&& (v.overfit <==> 2 * (v.val_loss as int) > 3 * (rep.train_loss as int))
        },
        None => true,
    }
}

/// The result of a whole training run from initial parameters `n0`: the
/// returned network is the deterministic fold of the one-batch step over
/// `ne` epochs of `nb = len/32` contiguous batches (the partial tail
/// batch is dropped), with a fresh optimizer, and every epoch report is
/// pinned by `report_ok`.
pub open spec fn is_training_run(
    n0: NetG,
    rn: NetG,
    reports: Seq<EpochReport>,
    x: Seq<i64>,
    y: Seq<i64>,
    vx: Seq<i64>,
    vy: Seq<i64>,
    ne: int,
) -> bool {
    let nb = y.len() as int / 32;
    &&& rn == run_epochs_spec(n0, adam_init_spec(), x, y, nb, ne).0
    &&& reports.len() == ne
    &&& forall|e: int|
        0 <= e < ne ==> report_ok(
            n0,
            adam_init_spec(),
            x,
            y,
            vx,
            vy,
            nb,
            #[trigger] reports[e],
            e,
        )
}

/// Train a given network on the training set for `n_epochs` epochs of
/// contiguous 32-sample batches in fixed order (tail batch dropped),
/// scoring the validation set every `VAL_EVERY`-th epoch. Returns the
/// trained network and one report per epoch; rejects a training set with
/// no full batch or an empty validation set.
#[verifier::rlimit(100)]
pub fn train_from(
    net0: GasPriceNet,
    train_x: &Vec<i64>,
    train_y: &Vec<i64>,
    val_x: &Vec<i64>,
    val_y: &Vec<i64>,
    n_epochs: usize,
) -> (res: Result<(GasPriceNet, Vec<EpochReport>), TrainError>)
    requires
        net_wf(net0@),
        train_x@.len() == train_y@.len() * 7,
        val_x@.len() == val_y@.len() * 7,
        all_bounded(train_x@),
        all_bounded(train_y@),
        all_bounded(val_x@),
        all_bounded(val_y@),
        train_y@.len() * 64 <= usize::MAX,
        val_y@.len() * 64 <= usize::MAX,
        n_epochs < usize::MAX,
    ensures
        res is Ok <==> (train_y@.len() >= 32 && val_y@.len() > 0),
        res matches Err(e) ==> e == TrainError::ConfigurationError,
        res matches Ok(p) ==> net_wf(p.0@) && is_training_run(
            net0@,
            p.0@,
            p.1@,
            train_x@,
            train_y@,
            val_x@,
            val_y@,
            n_epochs as int,
        ),
{
    let n_train = train_y.len();
    let n_val = val_y.len();
    let tx_len = train_x.len();
    if n_train < BATCH_SIZE || n_val == 0 {
        return Err(TrainError::ConfigurationError);
    }
    let n_batches = n_train / BATCH_SIZE;
    let ghost gn0 = net0@;
    let ghost go0 = adam_init_spec();
    let ghost nb = n_batches as int;
    let mut net = net0;
    let mut opt = AdamOpt::new();
    let mut reports: Vec<EpochReport> = Vec::new();
    let mut epoch: usize = 1;
    while epoch <= n_epochs
        invariant
            1 <= epoch <= n_epochs + 1,
            n_epochs < usize::MAX,
            net_wf(net@),
            opt_wf(opt@),
            n_train == train_y@.len(),
            n_val == val_y@.len(),
            n_train >= 32,
            n_val > 0,
            n_batches == n_train / 32,
            nb == n_batches as int,
            train_x@.len() == train_y@.len() * 7,
            train_x@.len() <= usize::MAX,
            val_x@.len() == val_y@.len() * 7,
            all_bounded(train_x@),
            all_bounded(train_y@),
            all_bounded(val_x@),
            all_bounded(val_y@),
            train_y@.len() * 64 <= usize::MAX,
            val_y@.len() * 64 <= usize::MAX,
            net@ == run_epochs_spec(gn0, go0, train_x@, train_y@, nb, epoch - 1).0,
            opt@ == run_epochs_spec(gn0, go0, train_x@, train_y@, nb, epoch - 1).1,
            go0 == adam_init_spec(),
            reports@.len() == epoch - 1,
            forall|e: int|
                0 <= e < epoch - 1 ==> report_ok(
                    gn0,
                    go0,
                    train_x@,
                    train_y@,
                    val_x@,
                    val_y@,
                    nb,
                    #[trigger] reports@[e],
                    e,
                ),
        decreases n_epochs + 1 - epoch,
    {
        let ghost en = net@;
        let ghost eo = opt@;
        let mut loss_sum: i64 = 0;
        let mut b: usize = 0;
        while b < n_batches
            invariant
                b <= n_batches,
                net_wf(net@),
                opt_wf(opt@),
                n_train == train_y@.len(),
                n_train >= 32,
                n_batches == n_train / 32,
                train_x@.len() == train_y@.len() * 7,
                train_x@.len() <= usize::MAX,
                all_bounded(train_x@),
                all_bounded(train_y@),
                train_y@.len() * 64 <= usize::MAX,
                net@ == run_batches_spec(en, eo, train_x@, train_y@, b as int).0,
                opt@ == run_batches_spec(en, eo, train_x@, train_y@, b as int).1,
                loss_sum as int == epoch_loss_sum_spec(en, eo, train_x@, train_y@, b as int),
                0 <= loss_sum <= BOUND,
            decreases n_batches - b,
        {
            proof {
                vstd::arithmetic::div_mod::lemma_fundamental_div_mod(n_train as int, 32);
                assert((b + 1) * 32 <= (n_train as int / 32) * 32) by (nonlinear_arith)
                    requires
                        b as int + 1 <= n_train as int / 32,
                ;
                assert((b as int + 1) * 224 == ((b as int + 1) * 32) * 7) by (nonlinear_arith);
                assert(((b + 1) * 32) as int * 7 <= n_train as int * 7) by (nonlinear_arith)
                    requires
                        ((b + 1) * 32) as int <= n_train as int,
                ;
            }
            let bx = copy_slice(train_x, b * 224, 224);
            let by0 = copy_slice(train_y, b * 32, 32);
            proof {
                assert(b as int * 224 == 7 * 32 * (b as int));
                assert(b as int * 224 + 224 == 7 * 32 * (b as int + 1));
                assert(b as int * 32 + 32 == 32 * (b as int + 1));
                assert(bx@ == batch_x(train_x@, b as int));
                assert(by0@ == batch_y(train_y@, b as int));
                assert(all_bounded(bx@));
                assert(all_bounded(by0@));
            }
            let l = train_step(&mut net, &mut opt, &bx, &by0);
            loss_sum = fp_add(loss_sum, l);
            b = b + 1;
        }
        proof {
            vstd::arithmetic::div_mod::lemma_div_pos_is_pos(n_train as int, 32);
            vstd::arithmetic::div_mod::lemma_div_non_zero(n_train as int, 32);
        }
        let train_loss = crate::fixed::div_count(loss_sum, n_batches as u64);
        proof {
            assert(train_loss as int == tdiv(loss_sum as int, nb));
            assert(train_loss >= 0);
            assert(net@ == run_epochs_spec(gn0, go0, train_x@, train_y@, nb, epoch as int).0);
            assert(opt@ == run_epochs_spec(gn0, go0, train_x@, train_y@, nb, epoch as int).1);
            assert(train_loss as int == epoch_train_loss_spec(
                gn0,
                go0,
                train_x@,
                train_y@,
                nb,
                epoch as int,
            ));
        }
        let mut val: Option<ValReport> = None;
        if epoch % VAL_EVERY == 0 {
            let vp = net.forward(val_x, n_val);
            let vl = mse_loss(&vp, val_y);
            proof {
                lemma_mse_matches(net@, val_x@, val_y@, vp@, n_val as int);
            }
            let of = 2 * vl > 3 * train_loss;
            val = Some(ValReport { val_loss: vl, overfit: of });
        }
        let ghost old_reports = reports@;
        reports.push(EpochReport { epoch, train_loss, n_batches, val });
        proof {
            assert(report_ok(
                gn0,
                go0,
                train_x@,
                train_y@,
                val_x@,
                val_y@,
                nb,
                reports@[epoch - 1],
                epoch - 1,
            ));
            assert(forall|e: int| 0 <= e < epoch - 1 ==> reports@[e] == old_reports[e]);
        }
        epoch = epoch + 1;
    }
    Ok((net, reports))
}

/// Train a freshly initialized network for the standard `N_EPOCHS`
/// epochs. The returned network is a complete training run from some
/// well-formed initial parameter draw.
pub fn train_model(
    train_x: &Vec<i64>,
    train_y: &Vec<i64>,
    val_x: &Vec<i64>,
    val_y: &Vec<i64>,
    rng: &mut rand::rngs::StdRng,
) -> (res: Result<(GasPriceNet, Vec<EpochReport>), TrainError>)
    requires
        train_x@.len() == train_y@.len() * 7,
        val_x@.len() == val_y@.len() * 7,
        all_bounded(train_x@),
        all_bounded(train_y@),
        all_bounded(val_x@),
        all_bounded(val_y@),
        train_y@.len() * 64 <= usize::MAX,
        val_y@.len() * 64 <= usize::MAX,
    ensures
        res is Ok <==> (train_y@.len() >= 32 && val_y@.len() > 0),
        res matches Err(e) ==> e == TrainError::ConfigurationError,
        res matches Ok(p) ==> net_wf(p.0@) && exists|n0: NetG|
            net_wf(n0) && #[trigger] is_training_run(
                n0,
                p.0@,
                p.1@,
                train_x@,
                train_y@,
                val_x@,
                val_y@,
                N_EPOCHS as int,
            ),
{
    let net0 = GasPriceNet::new(rng);
    let ghost g0 = net0@;
    let res = train_from(net0, train_x, train_y, val_x, val_y, N_EPOCHS);
    proof {
        if res is Ok {
            assert(net_wf(g0));
        }
    }
    res
}

/// Multiplying a decay power in `[0, 1]` by a coefficient in `[0, 1)`
/// keeps it in `[0, 1)`; the bias-correction divisor stays positive.
proof fn lemma_pow_decay(pw: int, beta: int)
    requires
        0 <= pw <= SCALE as int,
        0 <= beta < SCALE as int,
    ensures
        0 <= fp_mul_spec(pw, beta) < SCALE as int,
{
    lemma_fp_mul_nonneg(pw, beta);
    assert(pw * beta <= SCALE as int * beta) by (nonlinear_arith)
        requires
            0 <= pw <= SCALE as int,
            0 <= beta,
    ;
    vstd::arithmetic::div_mod::lemma_div_is_ordered(pw * beta, SCALE as int * beta, SCALE as int);
    vstd::arithmetic::div_mod::lemma_div_multiples_vanish(beta, SCALE as int);
}

/// A training step whose computed parameter delta is nonzero, and whose
/// result stays inside the saturation range, changes that parameter:
/// training has an observable effect. (A delta can be zero even at
/// nonzero loss: errors may cancel across the batch, every hidden unit
/// may be inactive, or truncation may round the update to zero.)
pub proof fn lemma_nonzero_update_changes_param(p: int, g: int, m: int, v: int, c1: int, c2: int)
    requires
        bounded(p),
        adam_delta_spec(adam_m_spec(m, g), adam_v_spec(v, g), c1, c2) != 0,
        bounded(p - adam_delta_spec(adam_m_spec(m, g), adam_v_spec(v, g), c1, c2)),
    ensures
        adam_p_spec(p, g, m, v, c1, c2) != p,
{
}

/// On the first optimizer step (zero moments, first-step correction
/// divisors `1 - BETA1 = 0.1` and `1 - BETA2 = 0.001`), a parameter
/// whose gradient is at least 0.001 gets a strictly positive update
/// delta.
pub proof fn lemma_first_step_delta_positive(g: int)
    requires
        1_000 <= g <= 1_000_000_000,
    ensures
        adam_delta_spec(adam_m_spec(0, g), adam_v_spec(0, g), 100_000, 1_000) > 0,
{
    let sc = SCALE as int;
    vstd::arithmetic::div_mod::lemma_div_of0(sc);
    // first moment: m2 = (100000 * g) / 1000000, within 1 of g / 10
    let q1 = 100_000 * g / sc;
    vstd::arithmetic::div_mod::lemma_div_pos_is_pos(100_000 * g, sc);
    vstd::arithmetic::div_mod::lemma_remainder_lower(100_000 * g, sc);
    vstd::arithmetic::div_mod::lemma_remainder_upper(100_000 * g, sc);
    assert(10 * q1 <= g && g <= 10 * q1 + 9);
    assert(adam_m_spec(0, g) == q1);
    // squared gradient: q2 = g*g / 1000000 <= BOUND
    let q2 = g * g / sc;
    assert(0 <= g * g <= 1_000_000_000int * 1_000_000_000) by (nonlinear_arith)
        requires
            0 <= g <= 1_000_000_000int,
    ;
    vstd::arithmetic::div_mod::lemma_div_pos_is_pos(g * g, sc);
    vstd::arithmetic::div_mod::lemma_div_is_ordered(g * g, 1_000_000_000_000_000_000, sc);
    vstd::arithmetic::div_mod::lemma_div_multiples_vanish(1_000_000_000_000, sc);
    assert(q2 <= 1_000_000_000_000);
    vstd::arithmetic::div_mod::lemma_remainder_lower(g * g, sc);
    assert(fp_mul_spec(g, g) == q2);
    // second moment: q3 = (1000 * q2) / 1000000
    let q3 = 1_000 * q2 / sc;
    vstd::arithmetic::div_mod::lemma_div_pos_is_pos(1_000 * q2, sc);
    vstd::arithmetic::div_mod::lemma_remainder_lower(1_000 * q2, sc);
    vstd::arithmetic::div_mod::lemma_remainder_upper(1_000 * q2, sc);
    assert(1_000 * q3 <= q2);
    assert(q3 <= 1_000_000_000);
    assert(adam_v_spec(0, g) == q3);
    // bias correction is exact here: mhat = 10 * q1, vhat = 1000 * q3
    vstd::arithmetic::div_mod::lemma_div_multiples_vanish(10 * q1, 100_000);
    assert(q1 * sc == 100_000 * (10 * q1));
    let mhat = 10 * q1;
    assert(fp_div_spec(q1, 100_000) == mhat);
    vstd::arithmetic::div_mod::lemma_div_multiples_vanish(1_000 * q3, 1_000);
    assert(q3 * sc == 1_000 * (1_000 * q3));
    let vhat = 1_000 * q3;
    assert(fp_div_spec(q3, 1_000) == vhat);
    // the square root of vhat is at most g
    crate::fixed::lemma_isqrt_exists(vhat * sc);
    let s = crate::fixed::isqrt_spec(vhat * sc);
    assert(crate::fixed::is_isqrt(vhat * sc, s));
    assert(vhat * sc == q3 * 1_000_000_000);
    assert(s * s <= q3 * 1_000_000_000);
    assert(q3 * 1_000_000_000 <= q2 * sc);
    assert(q2 * sc <= g * g);
    assert(s <= g) by (nonlinear_arith)
        requires
            0 <= s,
            0 < g,
            s * s <= g * g,
    ;
    assert(fp_sqrt_spec(vhat) == s);
    assert(fp_add_spec(s, ADAM_EPS as int) == s + 1);
    // the corrected ratio is at least the learning-rate reciprocal
    let t = mhat * sc / (s + 1);
    assert(mhat * sc >= 1_000 * (s + 1));
    vstd::arithmetic::div_mod::lemma_div_is_ordered(1_000 * (s + 1), mhat * sc, s + 1);
    vstd::arithmetic::div_mod::lemma_div_multiples_vanish(1_000, s + 1);
    assert(1_000 * (s + 1) == (s + 1) * 1_000);
    assert(t >= 1_000);
    vstd::arithmetic::div_mod::lemma_div_pos_is_pos(mhat * sc, s + 1);
    let ratio = fp_div_spec(mhat, s + 1);
    assert(ratio >= 1_000);
    // so the delta is at least one micro-unit
    vstd::arithmetic::div_mod::lemma_div_is_ordered(sc, 1_000 * ratio, sc);
    vstd::arithmetic::div_mod::lemma_div_multiples_vanish(1, sc);
    assert(1_000 * ratio / sc >= 1);
    vstd::arithmetic::div_mod::lemma_div_pos_is_pos(1_000 * ratio, sc);
    assert(adam_delta_spec(q1, q3, 100_000, 1_000) >= 1);
}

/// Training has an observable effect: on the first optimizer step, any
/// parameter not already at the lower saturation bound whose gradient is
/// at least 0.001 strictly decreases.
pub proof fn lemma_first_step_changes_param(p: int, g: int)
    requires
        -(BOUND as int) < p <= BOUND as int,
        1_000 <= g <= 1_000_000_000,
    ensures
        adam_p_spec(p, g, 0, 0, 100_000, 1_000) < p,
{
    lemma_first_step_delta_positive(g);
}

} // verus!
