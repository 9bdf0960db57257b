//! The regression network: two fully connected layers (7 -> 64 -> 1) with
//! a rectified-linear nonlinearity between them, in fixed-point
//! arithmetic. The forward pass is a pure function of the parameters and
//! the input, pinned exactly by `output_spec`.

use vstd::prelude::*;

verus! {

use crate::fixed::{bounded, fp_add, fp_add_spec, fp_mul, fp_mul_spec};
use crate::rng::draw_range;

/// Width of the input layer: one slot per feature.
pub const INPUT_SIZE: usize = 7;

/// Width of the hidden layer.
pub const HIDDEN_SIZE: usize = 64;

/// Width of the output layer: a single predicted price.
pub const OUTPUT_SIZE: usize = 1;

/// Initial weight magnitude for layer 1, about `1/sqrt(INPUT_SIZE)`.
pub const INIT1: i64 = 377_000;

/// Initial weight magnitude for layer 2, `1/sqrt(HIDDEN_SIZE)`.
pub const INIT2: i64 = 125_000;

/// Every value of a sequence is a bounded fixed-point value.
pub open spec fn all_bounded(s: Seq<i64>) -> bool {
    forall|i: int| 0 <= i < s.len() ==> bounded(#[trigger] s[i] as int)
}

/// The two-layer network. `w1` is the flattened `[64, 7]` weight matrix
/// of layer 1 (row-major), `b1` its `[64]` bias; `w2` is the flattened
/// `[1, 64]` weight matrix of layer 2, `b2` its `[1]` bias.
pub struct GasPriceNet {
    pub w1: Vec<i64>,
    pub b1: Vec<i64>,
    pub w2: Vec<i64>,
    pub b2: Vec<i64>,
}

/// The mathematical model of the parameters: the four tensors as
/// sequences.
pub struct NetG {
    pub w1: Seq<i64>,
    pub b1: Seq<i64>,
    pub w2: Seq<i64>,
    pub b2: Seq<i64>,
}

/// Shapes match the declared architecture and all values are bounded.
pub open spec fn net_wf(n: NetG) -> bool {
    &&& n.w1.len() == 448
    &&& n.b1.len() == 64
    &&& n.w2.len() == 64
    &&& n.b2.len() == 1
    &&& all_bounded(n.w1)
    &&& all_bounded(n.b1)
    &&& all_bounded(n.w2)
    &&& all_bounded(n.b2)
}

impl View for GasPriceNet {
    type V = NetG;

    open spec fn view(&self) -> NetG {
        NetG { w1: self.w1@, b1: self.b1@, w2: self.w2@, b2: self.b2@ }
    }
}

/// The rectified-linear nonlinearity.
pub open spec fn relu_spec(x: int) -> int {
    if x > 0 {
        x
    } else {
        0
    }
}

/// Partial dot product of layer-1 row `j` with input row `row`, over the
/// first `k` of the 7 inputs, accumulated with saturating fixed-point
/// operations in index order.
pub open spec fn dot1_spec(n: NetG, x: Seq<i64>, row: int, j: int, k: int) -> int
    decreases k,
{
    if k <= 0 {
        0
    } else {
        fp_add_spec(
            dot1_spec(n, x, row, j, k - 1),
            fp_mul_spec(n.w1[7 * j + k - 1] as int, x[7 * row + k - 1] as int),
        )
    }
}

/// Hidden unit `j` of input row `row`: layer-1 affine map, then relu.
pub open spec fn hidden_spec(n: NetG, x: Seq<i64>, row: int, j: int) -> int {
    relu_spec(fp_add_spec(dot1_spec(n, x, row, j, 7), n.b1[j] as int))
}

/// Partial dot product of the layer-2 weights with the hidden layer of
/// input row `row`, over the first `j` of the 64 hidden units.
pub open spec fn out_sum_spec(n: NetG, x: Seq<i64>, row: int, j: int) -> int
    decreases j,
{
    if j <= 0 {
        0
    } else {
        fp_add_spec(
            out_sum_spec(n, x, row, j - 1),
            fp_mul_spec(n.w2[j - 1] as int, hidden_spec(n, x, row, j - 1)),
        )
    }
}

/// The network output for input row `row`: the full forward pass.
pub open spec fn output_spec(n: NetG, x: Seq<i64>, row: int) -> int {
    fp_add_spec(out_sum_spec(n, x, row, 64), n.b2[0] as int)
}

impl GasPriceNet {
    /// Fresh parameters: weights and biases drawn uniformly from a small
    /// magnitude-bounded range per layer. Nothing more is promised of the
    /// values than well-formedness.
    pub fn new(rng: &mut rand::rngs::StdRng) -> (net: GasPriceNet)
        ensures
            net_wf(net@),
    {
        let mut w1: Vec<i64> = Vec::new();
        let mut i: usize = 0;
        while i < 448
            invariant
                i <= 448,
                w1@.len() == i,
                all_bounded(w1@),
            decreases 448 - i,
        {
            w1.push(draw_range(rng, -INIT1, INIT1));
            i = i + 1;
        }
        let mut b1: Vec<i64> = Vec::new();
        let mut j: usize = 0;
        while j < 64
            invariant
                j <= 64,
                b1@.len() == j,
                all_bounded(b1@),
            decreases 64 - j,
        {
            b1.push(draw_range(rng, -INIT1, INIT1));
            j = j + 1;
        }
        let mut w2: Vec<i64> = Vec::new();
        let mut k: usize = 0;
        while k < 64
            invariant
                k <= 64,
                w2@.len() == k,
                all_bounded(w2@),
            decreases 64 - k,
        {
            w2.push(draw_range(rng, -INIT2, INIT2));
            k = k + 1;
        }
        let mut b2: Vec<i64> = Vec::new();
        b2.push(draw_range(rng, -INIT2, INIT2));
        GasPriceNet { w1, b1, w2, b2 }
    }

    /// Forward pass over a batch, also returning the hidden activations
    /// (needed by the backward pass). `x` is a flattened `[n_rows, 7]`
    /// matrix; the result is the flattened `[n_rows, 64]` hidden matrix
    /// and the `[n_rows]` output vector.
    pub fn forward_with_hidden(&self, x: &Vec<i64>, n_rows: usize) -> (res: (Vec<i64>, Vec<i64>))
        requires
            net_wf(self@),
            x@.len() == n_rows * 7,
            all_bounded(x@),
            n_rows * 64 <= usize::MAX,
        ensures
            res.0@.len() == n_rows * 64,
            res.1@.len() == n_rows,
            forall|r: int, j: int|
                0 <= r < n_rows && 0 <= j < 64 ==> res.0@[64 * r + j] as int == #[trigger] hidden_spec(
                    self@,
                    x@,
                    r,
                    j,
                ),
            forall|r: int|
                0 <= r < n_rows ==> res.1@[r] as int == #[trigger] output_spec(self@, x@, r),
            all_bounded(res.0@),
            all_bounded(res.1@),
    {
        let mut h: Vec<i64> = Vec::new();
        let mut out: Vec<i64> = Vec::new();
        let mut r: usize = 0;
        while r < n_rows
            invariant
                r <= n_rows,
                net_wf(self@),
                x@.len() == n_rows * 7,
                all_bounded(x@),
                n_rows * 64 <= usize::MAX,
                h@.len() == r * 64,
                out@.len() == r,
                forall|r0: int, j: int|
                    0 <= r0 < r && 0 <= j < 64 ==> h@[64 * r0 + j] as int == #[trigger] hidden_spec(
                        self@,
                        x@,
                        r0,
                        j,
                    ),
                forall|r0: int|
                    0 <= r0 < r ==> out@[r0] as int == #[trigger] output_spec(self@, x@, r0),
                all_bounded(h@),
                all_bounded(out@),
            decreases n_rows - r,
        {
            proof {
                assert(r * 64 + 64 <= n_rows * 64) by (nonlinear_arith)
                    requires
                        r < n_rows,
                ;
                assert(r * 7 + 7 <= n_rows * 7) by (nonlinear_arith)
                    requires
                        r < n_rows,
                ;
            }
            let mut hrow: Vec<i64> = Vec::new();
            let mut j: usize = 0;
            while j < 64
                invariant
                    j <= 64,
                    r < n_rows,
                    net_wf(self@),
                    x@.len() == n_rows * 7,
                    all_bounded(x@),
                    r * 7 + 7 <= n_rows * 7,
                    n_rows * 7 <= usize::MAX,
                    hrow@.len() == j,
                    forall|j0: int|
                        0 <= j0 < j ==> hrow@[j0] as int == #[trigger] hidden_spec(
                            self@,
                            x@,
                            r as int,
                            j0,
                        ),
                    all_bounded(hrow@),
                decreases 64 - j,
            {
                let mut acc: i64 = 0;
                let mut k: usize = 0;
                while k < 7
                    invariant
                        k <= 7,
                        j < 64,
                        r < n_rows,
                        net_wf(self@),
                        x@.len() == n_rows * 7,
                        all_bounded(x@),
                        r * 7 + 7 <= n_rows * 7,
                        n_rows * 7 <= usize::MAX,
                        acc as int == dot1_spec(self@, x@, r as int, j as int, k as int),
                        bounded(acc as int),
                    decreases 7 - k,
                {
                    let t = fp_mul(self.w1[7 * j + k], x[7 * r + k]);
                    acc = fp_add(acc, t);
                    k = k + 1;
                }
                let pre = fp_add(acc, self.b1[j]);
                let hv: i64 = if pre > 0 {
                    pre
                } else {
                    0
                };
                assert(hv as int == hidden_spec(self@, x@, r as int, j as int));
                hrow.push(hv);
                j = j + 1;
            }
            let mut acc2: i64 = 0;
            let mut j2: usize = 0;
            while j2 < 64
                invariant
                    j2 <= 64,
                    r < n_rows,
                    net_wf(self@),
                    x@.len() == n_rows * 7,
                    all_bounded(x@),
                    hrow@.len() == 64,
                    forall|j0: int|
                        0 <= j0 < 64 ==> hrow@[j0] as int == #[trigger] hidden_spec(
                            self@,
                            x@,
                            r as int,
                            j0,
                        ),
                    all_bounded(hrow@),
                    acc2 as int == out_sum_spec(self@, x@, r as int, j2 as int),
                    bounded(acc2 as int),
                decreases 64 - j2,
            {
                let t = fp_mul(self.w2[j2], hrow[j2]);
                acc2 = fp_add(acc2, t);
                j2 = j2 + 1;
            }
            let out_v = fp_add(acc2, self.b2[0]);
            assert(out_v as int == output_spec(self@, x@, r as int));
            let ghost old_h = h@;
            let mut jj: usize = 0;
            while jj < 64
                invariant
                    jj <= 64,
                    hrow@.len() == 64,
                    h@.len() == old_h.len() + jj,
                    h@ == old_h + hrow@.subrange(0, jj as int),
                decreases 64 - jj,
            {
                h.push(hrow[jj]);
                proof {
                    assert(h@ =~= old_h + hrow@.subrange(0, jj + 1 as int));
                }
                jj = jj + 1;
            }
            proof {
                assert(h@ =~= old_h + hrow@);
                assert forall|r0: int, j0: int| 0 <= r0 < r + 1 && 0 <= j0 < 64 implies h@[64 * r0
                    + j0] as int == #[trigger] hidden_spec(self@, x@, r0, j0) by {
                    if r0 < r {
                        assert(64 * r0 + j0 < 64 * r) by (nonlinear_arith)
                            requires
                                0 <= r0 < r,
                                0 <= j0 < 64,
                        ;
                        assert(h@[64 * r0 + j0] == old_h[64 * r0 + j0]);
                    } else {
                        assert(64 * r0 == r * 64) by (nonlinear_arith)
                            requires
                                r0 == r,
                        ;
                        assert(h@[64 * r0 + j0] == hrow@[j0]);
                    }
                }
                assert forall|i: int| 0 <= i < h@.len() implies bounded(#[trigger] h@[i] as int) by {
                    if i < old_h.len() {
                        assert(h@[i] == old_h[i]);
                    } else {
                        assert(h@[i] == hrow@[i - old_h.len()]);
                    }
                }
            }
            out.push(out_v);
            r = r + 1;
        }
        (h, out)
    }

    /// Forward pass over a batch: predictions only, retaining no
    /// activations (the evaluation-mode pass used for validation and
    /// inference). Deterministic: the result is a function of the
    /// parameters and the input alone.
    pub fn forward(&self, x: &Vec<i64>, n_rows: usize) -> (out: Vec<i64>)
        requires
            net_wf(self@),
            x@.len() == n_rows * 7,
            all_bounded(x@),
            n_rows * 64 <= usize::MAX,
        ensures
            out@.len() == n_rows,
            forall|r: int|
                0 <= r < n_rows ==> out@[r] as int == #[trigger] output_spec(self@, x@, r),
            all_bounded(out@),
    {
        let (_h, out) = self.forward_with_hidden(x, n_rows);
        out
    }
}

/// Run a single feature vector through a trained network and return the
/// scalar prediction.
pub fn predict(net: &GasPriceNet, input: &Vec<i64>) -> (r: i64)
    requires
        net_wf(net@),
        input@.len() == 7,
        all_bounded(input@),
    ensures
        r as int == output_spec(net@, input@, 0),
        bounded(r as int),
{
    let out = net.forward(input, 1);
    out[0]
}

/// The forward pass is deterministic: two runs of the network on the
/// same parameters and the same input produce the same predictions.
pub proof fn lemma_forward_deterministic(n: NetG, x: Seq<i64>, out1: Seq<i64>, out2: Seq<i64>)
    requires
        out1.len() == out2.len(),
        forall|r: int| 0 <= r < out1.len() ==> out1[r] as int == #[trigger] output_spec(n, x, r),
        forall|r: int| 0 <= r < out2.len() ==> out2[r] as int == #[trigger] output_spec(n, x, r),
    ensures
        out1 == out2,
{
    assert forall|r: int| 0 <= r < out1.len() implies out1[r] == out2[r] by {
        assert(out1[r] as int == output_spec(n, x, r));
        assert(out2[r] as int == output_spec(n, x, r));
    }
    assert(out1 =~= out2);
}

} // verus!
