//! Persistence of trained parameters. An artifact is a flat sequence of
//! 64-bit words: for each of the four tensors, a tag word standing for
//! its name, its shape, then its values, in the fixed order
//! `layer1.weight [64, 7]`, `layer1.bias [64]`, `layer2.weight [1, 64]`,
//! `layer2.bias [1]`. Loading checks tags and shapes exactly; a
//! mismatched architecture is an error, never a silent reshape.

use vstd::prelude::*;

verus! {

use crate::fixed::{bounded, copy_slice, BOUND};
use crate::model::{all_bounded, net_wf, GasPriceNet, NetG};

/// Tag word standing for the tensor name `layer1.weight`.
pub const TAG_L1W: i64 = 1;

/// Tag word standing for the tensor name `layer1.bias`.
pub const TAG_L1B: i64 = 2;

/// Tag word standing for the tensor name `layer2.weight`.
pub const TAG_L2W: i64 = 3;

/// Tag word standing for the tensor name `layer2.bias`.
pub const TAG_L2B: i64 = 4;

/// Total artifact length in words: four headers plus 577 values.
pub const ARTIFACT_LEN: usize = 587;

/// Loading fails on an artifact whose tags or shapes disagree with the
/// declared 7 -> 64 -> 1 architecture, or whose values are out of the
/// fixed-point range.
#[derive(Clone, Copy, Debug, PartialEq, Eq, Structural)]
pub enum ArtifactError {
    ArchitectureMismatch,
    Corrupted,
}

/// The serialized form of a parameter set.
pub open spec fn artifact_spec(n: NetG) -> Seq<i64> {
    seq![TAG_L1W, 64i64, 7i64] + n.w1 + seq![TAG_L1B, 64i64] + n.b1 + seq![TAG_L2W, 1i64, 64i64]
        + n.w2 + seq![TAG_L2B, 1i64] + n.b2
}

/// The artifact's tags and shapes match the declared architecture.
pub open spec fn artifact_shape_ok(a: Seq<i64>) -> bool {
    &&& a.len() == 587
    &&& a[0] == TAG_L1W
    &&& a[1] == 64
    &&& a[2] == 7
    &&& a[451] == TAG_L1B
    &&& a[452] == 64
    &&& a[517] == TAG_L2W
    &&& a[518] == 1
    &&& a[519] == 64
    &&& a[584] == TAG_L2B
    &&& a[585] == 1
}

/// The parameters an artifact carries.
pub open spec fn decoded_net(a: Seq<i64>) -> NetG {
    NetG {
        w1: a.subrange(3, 451),
        b1: a.subrange(453, 517),
        w2: a.subrange(520, 584),
        b2: a.subrange(586, 587),
    }
}

/// The artifact decodes to a well-formed parameter set.
pub open spec fn artifact_valid(a: Seq<i64>) -> bool {
    &&& artifact_shape_ok(a)
    &&& all_bounded(a.subrange(3, 451))
    &&& all_bounded(a.subrange(453, 517))
    &&& all_bounded(a.subrange(520, 584))
    &&& all_bounded(a.subrange(586, 587))
}

/// Append all values of `src` to `dst`.
fn append_all(dst: &mut Vec<i64>, src: &Vec<i64>)
    ensures
        final(dst)@ == old(dst)@ + src@,
{
    let n = src.len();
    let ghost d0 = old(dst)@;
    let mut i: usize = 0;
    while i < n
        invariant
            i <= n,
            n == src@.len(),
            dst@ == d0 + src@.subrange(0, i as int),
        decreases n - i,
    {
        dst.push(src[i]);
        proof {
            assert(dst@ =~= d0 + src@.subrange(0, i + 1 as int));
        }
        i = i + 1;
    }
    proof {
        assert(dst@ =~= d0 + src@);
    }
}

/// Serialize the parameters of a trained network.
pub fn persist_params(net: &GasPriceNet) -> (a: Vec<i64>)
    requires
        net_wf(net@),
    ensures
        a@ == artifact_spec(net@),
        artifact_valid(a@),
{
    let mut a: Vec<i64> = Vec::new();
    a.push(TAG_L1W);
    a.push(64);
    a.push(7);
    append_all(&mut a, &net.w1);
    a.push(TAG_L1B);
    a.push(64);
    append_all(&mut a, &net.b1);
    a.push(TAG_L2W);
    a.push(1);
    a.push(64);
    append_all(&mut a, &net.w2);
    a.push(TAG_L2B);
    a.push(1);
    append_all(&mut a, &net.b2);
    proof {
        assert(a@ =~= artifact_spec(net@));
        lemma_artifact_round_trip(net@);
    }
    a
}

/// Check that every value of a vector is in the fixed-point range.
fn check_bounded(v: &Vec<i64>) -> (ok: bool)
    ensures
        ok == all_bounded(v@),
{
    let n = v.len();
    let mut i: usize = 0;
    while i < n
        invariant
            i <= n,
            n == v@.len(),
            forall|k: int| 0 <= k < i ==> bounded(#[trigger] v@[k] as int),
        decreases n - i,
    {
        let x = v[i];
        if x > BOUND || x < -BOUND {
            assert(!bounded(v@[i as int] as int));
            return false;
        }
        i = i + 1;
    }
    true
}

/// Rebuild a network from a serialized artifact. Returns
/// `ArchitectureMismatch` exactly when a tag or shape word disagrees
/// with the declared architecture, and `Corrupted` exactly when the
/// shape is right but a value is out of range.
pub fn load_params(a: &Vec<i64>) -> (r: Result<GasPriceNet, ArtifactError>)
    ensures
        r is Ok <==> artifact_valid(a@),
        r matches Ok(net) ==> net@ == decoded_net(a@) && net_wf(net@),
        r matches Err(e) ==> (e == ArtifactError::ArchitectureMismatch <==> !artifact_shape_ok(
            a@,
        )),
{
    if a.len() != ARTIFACT_LEN {
        return Err(ArtifactError::ArchitectureMismatch);
    }
    if a[0] != TAG_L1W || a[1] != 64 || a[2] != 7 || a[451] != TAG_L1B || a[452] != 64 || a[517]
        != TAG_L2W || a[518] != 1 || a[519] != 64 || a[584] != TAG_L2B || a[585] != 1 {
        return Err(ArtifactError::ArchitectureMismatch);
    }
    let w1 = copy_slice(a, 3, 448);
    let b1 = copy_slice(a, 453, 64);
    let w2 = copy_slice(a, 520, 64);
    let b2 = copy_slice(a, 586, 1);
    if !check_bounded(&w1) || !check_bounded(&b1) || !check_bounded(&w2) || !check_bounded(&b2) {
        return Err(ArtifactError::Corrupted);
    }
    let net = GasPriceNet { w1, b1, w2, b2 };
    Ok(net)
}

/// Round trip: loading what was persisted reproduces the parameters
/// exactly. Persisting a well-formed parameter set yields a valid
/// artifact, and decoding that artifact gives the same four tensors.
pub proof fn lemma_artifact_round_trip(n: NetG)
    requires
        net_wf(n),
    ensures
        artifact_valid(artifact_spec(n)),
        decoded_net(artifact_spec(n)) == n,
{
    let a = artifact_spec(n);
    assert(a.subrange(3, 451) =~= n.w1);
    assert(a.subrange(453, 517) =~= n.b1);
    assert(a.subrange(520, 584) =~= n.w2);
    assert(a.subrange(586, 587) =~= n.b2);
}

} // verus!
