use dqn::agent::ActionSpace;
use dqn::dqn_agent::DQNAgent;
use dqn::dqn_memory::DQNMemory;
use dqn::dqn_net::{DQNModel, ModelConfig};
use dqn::dqn_optim::{
    compute_td_target, huber_grad, huber_loss, max_q, optimize_model, polyak_update,
    ModelOptimizer,
};
use dqn::SCALE;

fn model_params(model: &DQNModel) -> Vec<Vec<i64>> {
    let mut params = Vec::new();
    for layer in [&model.linear1, &model.linear2, &model.linear3] {
        for row in &layer.weights {
            params.push(row.clone());
        }
        params.push(layer.bias.clone());
    }
    params
}

fn fresh_setup() -> (DQNAgent, DQNModel, DQNModel, ModelOptimizer) {
    let agent = DQNAgent::new(4, ActionSpace::Discrete(4)).unwrap();
    let config = ModelConfig { input_shape: 4, output_shape: 4 };
    let policy = config.init();
    let mut target = config.init();
    polyak_update(&policy, &mut target, SCALE);
    let optimizer = ModelOptimizer::new(&policy);
    (agent, policy, target, optimizer)
}

fn store_transitions(memory: &mut DQNMemory, count: usize) {
    for i in 0..count {
        let tag = i as i64;
        memory.store_experience(
            vec![tag, -tag, SCALE, 0],
            i % 4,
            if i % 3 == 0 { SCALE } else { -SCALE / 10 },
            vec![tag + 1, -tag, 0, SCALE],
            i % 3 == 0,
        );
    }
}

#[test]
fn scenario_optimizer_gates_on_small_memory() {
    // Ten stored transitions against a batch size of thirty-two: the
    // step is a no-op and every policy parameter is untouched.
    let (agent, mut policy, target, mut optimizer) = fresh_setup();
    assert_eq!(agent.batch_size, 32);
    let mut memory = DQNMemory::new(1000);
    store_transitions(&mut memory, 10);
    let before = model_params(&policy);
    optimize_model(&mut memory, &mut policy, &target, &agent, &mut optimizer);
    assert_eq!(model_params(&policy), before);
    assert_eq!(optimizer.step_count, 0);
    assert_eq!(memory.len(), 10);
}

#[test]
fn optimizer_steps_once_memory_is_full_enough() {
    let (agent, mut policy, target, mut optimizer) = fresh_setup();
    let mut memory = DQNMemory::new(1000);
    store_transitions(&mut memory, 40);
    optimize_model(&mut memory, &mut policy, &target, &agent, &mut optimizer);
    assert_eq!(optimizer.step_count, 1);
    // The running decay powers took exactly one factor each.
    assert_eq!(optimizer.beta1_pow, 900_000_000);
    assert_eq!(optimizer.beta2_pow, 999_000_000);
    // Shapes survive the update.
    assert_eq!(policy.linear1.in_dim, 4);
    assert_eq!(policy.linear3.weights.len(), 4);
    // Memory is only read.
    assert_eq!(memory.len(), 40);
    optimize_model(&mut memory, &mut policy, &target, &agent, &mut optimizer);
    assert_eq!(optimizer.step_count, 2);
}

#[test]
fn terminal_bootstrap_is_suppressed() {
    // For a terminal transition the target is exactly the stored reward,
    // whatever bootstrap value is on offer.
    for reward in [0i64, 77, -SCALE, 123_456_789, i64::MAX] {
        for max_next in [0i64, SCALE, -SCALE, i64::MAX] {
            assert_eq!(compute_td_target(reward, true, max_next, 990_000_000), reward);
        }
    }
}

#[test]
fn td_target_discounts_the_bootstrap() {
    // reward + gamma * max_next, in fixed point: 0.5 + 0.99 * 1.0.
    let td = compute_td_target(SCALE / 2, false, SCALE, 990_000_000);
    assert_eq!(td, 500_000_000 + 990_000_000);
    // A negative bootstrap is discounted the same way.
    let td = compute_td_target(0, false, -SCALE, 990_000_000);
    assert_eq!(td, -990_000_000);
}

#[test]
fn huber_loss_quadratic_within_one_unit() {
    // error 0.5: loss is error^2 / 2 = 0.125.
    assert_eq!(huber_loss(SCALE / 2, 0), 125_000_000);
    assert_eq!(huber_loss(0, SCALE / 2), 125_000_000);
    // error exactly 1.0 still sits on the quadratic branch: 0.5.
    assert_eq!(huber_loss(SCALE, 0), 500_000_000);
    assert_eq!(huber_loss(7, 7), 0);
}

#[test]
fn huber_loss_linear_beyond_one_unit() {
    // error 3.0: loss is |error| - 0.5 = 2.5.
    assert_eq!(huber_loss(3 * SCALE, 0), 2_500_000_000);
    assert_eq!(huber_loss(-3 * SCALE, 0), 2_500_000_000);
}

#[test]
fn huber_gradient_clamps_and_averages() {
    // Large errors clamp to one unit before the batch average.
    assert_eq!(huber_grad(5 * SCALE, 2), SCALE / 2);
    assert_eq!(huber_grad(-5 * SCALE, 2), -SCALE / 2);
    // Small errors pass through, divided by the batch size.
    assert_eq!(huber_grad(600, 3), 200);
    assert_eq!(huber_grad(-600, 3), -200);
}

#[test]
fn max_q_finds_the_greatest_value() {
    assert_eq!(max_q(&vec![3, -5, 12, 12, 0]), 12);
    assert_eq!(max_q(&vec![-8]), -8);
}
