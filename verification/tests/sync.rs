use dqn::dqn_net::{LinearLayer, DQNModel, ModelConfig};
use dqn::dqn_optim::polyak_update;
use dqn::SCALE;

fn layers_equal(a: &LinearLayer, b: &LinearLayer) -> bool {
    a.weights == b.weights && a.bias == b.bias
}

#[test]
fn hard_sync_copies_every_parameter() {
    // tau = 1.0 makes the target identical to the source, bit for bit.
    let config = ModelConfig { input_shape: 6, output_shape: 4 };
    let source = config.init();
    let mut target = config.init();
    assert!(!layers_equal(&source.linear1, &target.linear1) || !layers_equal(
        &source.linear2,
        &target.linear2
    ) || !layers_equal(&source.linear3, &target.linear3));
    polyak_update(&source, &mut target, SCALE);
    assert!(layers_equal(&source.linear1, &target.linear1));
    assert!(layers_equal(&source.linear2, &target.linear2));
    assert!(layers_equal(&source.linear3, &target.linear3));
}

#[test]
fn zero_tau_leaves_target_unchanged() {
    let config = ModelConfig { input_shape: 3, output_shape: 2 };
    let source = config.init();
    let mut target = config.init();
    let before_w1 = target.linear1.weights.clone();
    let before_b3 = target.linear3.bias.clone();
    polyak_update(&source, &mut target, 0);
    assert_eq!(target.linear1.weights, before_w1);
    assert_eq!(target.linear3.bias, before_b3);
}

fn tiny_model(value: i64) -> DQNModel {
    let layer = |v: i64| LinearLayer { in_dim: 1, weights: vec![vec![v]], bias: vec![v] };
    DQNModel { linear1: layer(value), linear2: layer(value), linear3: layer(value) }
}

#[test]
fn soft_sync_interpolates_per_parameter() {
    // target' = tau * source + (1 - tau) * target with tau = 0.25:
    // source 2.0, target 0.4 => 0.5 + 0.3 = 0.8.
    let source = tiny_model(2 * SCALE);
    let mut target = tiny_model(2 * SCALE / 5);
    polyak_update(&source, &mut target, SCALE / 4);
    assert_eq!(target.linear1.weights[0][0], 800_000_000);
    assert_eq!(target.linear1.bias[0], 800_000_000);
    assert_eq!(target.linear2.weights[0][0], 800_000_000);
    assert_eq!(target.linear3.bias[0], 800_000_000);
    // A second blend moves it again: 0.5 + 0.6 = 1.1.
    polyak_update(&source, &mut target, SCALE / 4);
    assert_eq!(target.linear1.weights[0][0], 1_100_000_000);
}

#[test]
fn soft_sync_handles_negative_parameters() {
    // source -1.0, target 1.0, tau 0.5 => -0.5 + 0.5 = 0.
    let source = tiny_model(-SCALE);
    let mut target = tiny_model(SCALE);
    polyak_update(&source, &mut target, SCALE / 2);
    assert_eq!(target.linear1.weights[0][0], 0);
    assert_eq!(target.linear3.bias[0], 0);
}
