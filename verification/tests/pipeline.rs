//! End-to-end tests of the data synthesizer, the network, training, and
//! persistence. All values are fixed-point micro-units: `1_000_000`
//! stands for 1.0.

use gas_predictor::artifact::{load_params, persist_params, ArtifactError};
use gas_predictor::data::{gas_price_formula, generate_gas_data};
use gas_predictor::fixed::{BOUND, SCALE};
use gas_predictor::model::{predict, GasPriceNet};
use gas_predictor::train::{mse_loss, train_from, train_model, train_step, AdamOpt, TrainError};
use rand::SeedableRng;

fn seeded(seed: u64) -> rand::rngs::StdRng {
    rand::rngs::StdRng::seed_from_u64(seed)
}

fn zero_net() -> GasPriceNet {
    GasPriceNet {
        w1: vec![0i64; 448],
        b1: vec![0i64; 64],
        w2: vec![0i64; 64],
        b2: vec![0i64; 1],
    }
}

#[test]
fn generate_has_declared_shapes() {
    let mut rng = seeded(7);
    let (features, labels) = generate_gas_data(&mut rng, 5);
    assert_eq!(features.len(), 35);
    assert_eq!(labels.len(), 5);
    let (f0, l0) = generate_gas_data(&mut rng, 0);
    assert!(f0.is_empty());
    assert!(l0.is_empty());
}

#[test]
fn generate_features_lie_in_ranges() {
    let mut rng = seeded(11);
    let n = 50;
    let (features, labels) = generate_gas_data(&mut rng, n);
    for i in 0..n {
        let row = &features[7 * i..7 * i + 7];
        assert!(row[0] >= 20_000_000 && row[0] < 200_000_000, "base fee");
        assert!(row[1] >= 50_000_000 && row[1] < 1_000_000_000, "pending");
        assert!(row[2] >= 300_000 && row[2] < 950_000, "avg gas");
        assert!(row[3] >= 200_000 && row[3] < 1_000_000, "block util");
        assert!(row[4] >= 0 && row[4] < 24_000_000, "hour");
        assert!(row[5] >= 0 && row[5] < 300_000_000, "high priority");
        assert!(row[6] == 0 || row[6] == SCALE, "weekend flag");
        assert!(labels[i] >= 15_000_000 && labels[i] <= 300_000_000, "label");
    }
    // A constant random source would fail this: draws do vary.
    assert!((0..n).any(|i| features[7 * i] != features[0]));
}

#[test]
fn price_formula_weekday_business_hours() {
    // 1.1*100 + 50*(500/1000) + 40*0.5 + 30*0.5 + 15 + 25*(150/300) + 5 + 0
    // = 110 + 25 + 20 + 15 + 15 + 12.5 + 5 = 202.5
    let p = gas_price_formula(
        100_000_000,
        500_000_000,
        500_000,
        500_000,
        12_000_000,
        150_000_000,
        0,
        0,
    );
    assert_eq!(p, 202_500_000);
}

#[test]
fn price_formula_weekend_night() {
    // 1.1*30 + 50*(100/1000) + 40*0.45 + 30*0.4 - 5 + 25*(20/300) - 10 + 1
    let p = gas_price_formula(
        30_000_000,
        100_000_000,
        450_000,
        400_000,
        3_000_000,
        20_000_000,
        SCALE,
        1_000_000,
    );
    assert_eq!(p, 55_666_666);
}

#[test]
fn forward_is_deterministic() {
    let mut rng = seeded(3);
    let net = GasPriceNet::new(&mut rng);
    let input = vec![
        150_000_000,
        500_000_000,
        850_000,
        900_000,
        14_000_000,
        200_000_000,
        0,
    ];
    let a = predict(&net, &input);
    let b = predict(&net, &input);
    assert_eq!(a, b);
    let o1 = net.forward(&input, 1);
    let o2 = net.forward(&input, 1);
    assert_eq!(o1, o2);
    assert_eq!(o1[0], a);
}

#[test]
fn predict_known_parameters() {
    // All layer-1 weights zero, biases 1.0; layer-2 weights 0.0625 each,
    // bias zero: every hidden unit is 1.0, the output is 64 * 0.0625 = 4.0,
    // whatever the input.
    let net = GasPriceNet {
        w1: vec![0i64; 448],
        b1: vec![1_000_000i64; 64],
        w2: vec![62_500i64; 64],
        b2: vec![0i64; 1],
    };
    let input = vec![
        150_000_000,
        500_000_000,
        850_000,
        900_000,
        14_000_000,
        200_000_000,
        0,
    ];
    assert_eq!(predict(&net, &input), 4_000_000);
}

#[test]
fn mse_loss_exact() {
    let preds = vec![2_000_000i64, 4_000_000];
    let labels = vec![1_000_000i64, 1_000_000];
    // ((1.0)^2 + (3.0)^2) / 2 = 5.0
    assert_eq!(mse_loss(&preds, &labels), 5_000_000);
}

#[test]
fn one_step_changes_parameters() {
    let mut net = zero_net();
    let mut opt = AdamOpt::new();
    let x = vec![1_000_000i64; 32 * 7];
    let y = vec![100_000_000i64; 32];
    let loss = train_step(&mut net, &mut opt, &x, &y);
    // predictions are all zero, so the loss is (100.0)^2 = 10000.0
    assert_eq!(loss, 10_000_000_000);
    // the layer-2 bias moves against its gradient
    assert_ne!(net.b2[0], 0);
    assert!(net.b2[0] > 0);
}

#[test]
fn artifact_round_trip() {
    let mut rng = seeded(21);
    let net = GasPriceNet::new(&mut rng);
    let a = persist_params(&net);
    let loaded = load_params(&a).expect("round trip must load");
    assert_eq!(loaded.w1, net.w1);
    assert_eq!(loaded.b1, net.b1);
    assert_eq!(loaded.w2, net.w2);
    assert_eq!(loaded.b2, net.b2);
}

#[test]
fn artifact_shape_mismatch_is_rejected() {
    let mut rng = seeded(22);
    let net = GasPriceNet::new(&mut rng);
    let mut a = persist_params(&net);
    // claim a [64, 8] first layer instead of [64, 7]
    a[2] = 8;
    assert!(matches!(load_params(&a), Err(ArtifactError::ArchitectureMismatch)));
    // a truncated artifact is a shape mismatch too
    let short = vec![1i64, 64, 7];
    assert!(matches!(load_params(&short), Err(ArtifactError::ArchitectureMismatch)));
}

#[test]
fn artifact_out_of_range_value_is_corrupted() {
    let mut rng = seeded(23);
    let net = GasPriceNet::new(&mut rng);
    let mut a = persist_params(&net);
    a[3] = BOUND + 1; // first layer-1 weight out of range
    assert!(matches!(load_params(&a), Err(ArtifactError::Corrupted)));
}

#[test]
fn batch_partitioning_drops_tail() {
    let mut rng = seeded(31);
    let (tx, ty) = generate_gas_data(&mut rng, 100);
    let (vx, vy) = generate_gas_data(&mut rng, 10);
    let net = GasPriceNet::new(&mut rng);
    let (_trained, reports) = train_from(net, &tx, &ty, &vx, &vy, 1).expect("run");
    assert_eq!(reports.len(), 1);
    // 100 / 32 == 3 full batches; the tail 4 samples are dropped
    assert_eq!(reports[0].n_batches, 3);
}

#[test]
fn end_to_end_validation_at_epoch_ten() {
    let mut rng = seeded(42);
    let (tx, ty) = generate_gas_data(&mut rng, 200);
    let (vx, vy) = generate_gas_data(&mut rng, 50);
    let net = GasPriceNet::new(&mut rng);
    let (_trained, reports) = train_from(net, &tx, &ty, &vx, &vy, 10).expect("run");
    assert_eq!(reports.len(), 10);
    for (i, rep) in reports.iter().enumerate() {
        assert_eq!(rep.epoch, i + 1);
        assert_eq!(rep.n_batches, 6);
        assert!(rep.train_loss >= 0);
        if rep.epoch == 10 {
            let val = rep.val.expect("validation at epoch 10");
            assert!(val.val_loss >= 0);
            assert_eq!(val.overfit, 2 * val.val_loss > 3 * rep.train_loss);
        } else {
            assert!(rep.val.is_none());
        }
    }
}

#[test]
fn training_run_is_deterministic() {
    let mut rng1 = seeded(5);
    let (tx, ty) = generate_gas_data(&mut rng1, 64);
    let (vx, vy) = generate_gas_data(&mut rng1, 8);
    let n1 = zero_net();
    let n2 = zero_net();
    let (t1, r1) = train_from(n1, &tx, &ty, &vx, &vy, 3).expect("run");
    let (t2, r2) = train_from(n2, &tx, &ty, &vx, &vy, 3).expect("run");
    assert_eq!(t1.w1, t2.w1);
    assert_eq!(t1.b1, t2.b1);
    assert_eq!(t1.w2, t2.w2);
    assert_eq!(t1.b2, t2.b2);
    assert_eq!(r1.len(), r2.len());
    for i in 0..r1.len() {
        assert_eq!(r1[i].train_loss, r2[i].train_loss);
    }
}

#[test]
fn too_small_training_set_is_rejected() {
    let mut rng = seeded(9);
    let (tx, ty) = generate_gas_data(&mut rng, 10);
    let (vx, vy) = generate_gas_data(&mut rng, 10);
    let r = train_model(&tx, &ty, &vx, &vy, &mut rng);
    assert_eq!(r.err(), Some(TrainError::ConfigurationError));
}

#[test]
fn empty_validation_set_is_rejected() {
    let mut rng = seeded(10);
    let (tx, ty) = generate_gas_data(&mut rng, 40);
    let (vx, vy) = generate_gas_data(&mut rng, 0);
    let r = train_model(&tx, &ty, &vx, &vy, &mut rng);
    assert_eq!(r.err(), Some(TrainError::ConfigurationError));
}

#[test]
fn train_model_runs_and_persists() {
    let mut rng = seeded(77);
    let (tx, ty) = generate_gas_data(&mut rng, 40);
    let (vx, vy) = generate_gas_data(&mut rng, 5);
    let net = GasPriceNet::new(&mut rng);
    let (trained, reports) = train_from(net, &tx, &ty, &vx, &vy, 2).expect("run");
    assert_eq!(reports.len(), 2);
    let a = persist_params(&trained);
    let back = load_params(&a).expect("load");
    assert_eq!(back.w1, trained.w1);
}
