use dqn::agent::{ActionSpace, AgentError, PlayerAction};
use dqn::dqn_agent::DQNAgent;
use dqn::dqn_net::{argmax, DQNModel, LinearLayer, ModelConfig};
use dqn::SCALE;

#[test]
fn action_index_round_trip() {
    for index in 0..4usize {
        let action = PlayerAction::from_index(index).unwrap();
        assert_eq!(action.index(), index);
    }
    assert_eq!(PlayerAction::from_index(0), Ok(PlayerAction::Up));
    assert_eq!(PlayerAction::from_index(1), Ok(PlayerAction::Down));
    assert_eq!(PlayerAction::from_index(2), Ok(PlayerAction::Left));
    assert_eq!(PlayerAction::from_index(3), Ok(PlayerAction::Right));
}

#[test]
fn out_of_range_index_is_reported_not_clamped() {
    assert_eq!(PlayerAction::from_index(4), Err(AgentError::InvalidActionIndex));
    assert_eq!(PlayerAction::from_index(100), Err(AgentError::InvalidActionIndex));
}

#[test]
fn n_discrete_reports_the_size() {
    assert_eq!(ActionSpace::Discrete(4).n_discrete(), Some(4));
    assert_eq!(ActionSpace::Discrete(0).n_discrete(), Some(0));
}

#[test]
fn sample_index_stays_in_range() {
    // A space of one action can only ever yield index zero; a larger one
    // must stay below its bound.
    let single = ActionSpace::Discrete(1);
    for _ in 0..50 {
        assert_eq!(single.sample_index(), 0);
    }
    let four = ActionSpace::Discrete(4);
    for _ in 0..200 {
        assert!(four.sample_index() < 4);
    }
}

#[test]
fn argmax_takes_first_greatest() {
    assert_eq!(argmax(&vec![5, 9, 9, 3]), 1);
    assert_eq!(argmax(&vec![-7]), 0);
    assert_eq!(argmax(&vec![2, 2, 2]), 0);
    assert_eq!(argmax(&vec![-5, -2, -9]), 1);
}

/// A tiny deterministic model: two inputs, four outputs, built so the
/// Q-values are `[x0, x1, x0 + x1, 0]`.
fn handmade_model() -> DQNModel {
    let identity2 = LinearLayer {
        in_dim: 2,
        weights: vec![vec![SCALE, 0], vec![0, SCALE]],
        bias: vec![0, 0],
    };
    let head = LinearLayer {
        in_dim: 2,
        weights: vec![
            vec![SCALE, 0],
            vec![0, SCALE],
            vec![SCALE, SCALE],
            vec![0, 0],
        ],
        bias: vec![0, 0, 0, 0],
    };
    DQNModel {
        linear1: LinearLayer {
            in_dim: 2,
            weights: vec![vec![SCALE, 0], vec![0, SCALE]],
            bias: vec![0, 0],
        },
        linear2: identity2,
        linear3: head,
    }
}

#[test]
fn exploitation_is_deterministic_argmax() {
    // With epsilon pinned at zero the choice is always the first action
    // of greatest Q-value, whatever the random draws were.
    let mut agent = DQNAgent::new(2, ActionSpace::Discrete(4)).unwrap();
    agent.eps_start = 0;
    agent.eps_end = 0;
    let model = handmade_model();
    // Q-values for [3, 1] (fixed point): [3, 1, 4, 0] => action index 2.
    let state = vec![3 * SCALE, SCALE];
    for _ in 0..100 {
        assert_eq!(agent.choose_action(&state, &model), PlayerAction::Left);
    }
    // Q-values for [2, 2]: [2, 2, 4, 0] => still index 2; ties elsewhere
    // do not matter.
    let state = vec![2 * SCALE, 2 * SCALE];
    for _ in 0..100 {
        assert_eq!(agent.choose_action(&state, &model), PlayerAction::Left);
    }
    // A negative state is zeroed by the first rectifier, so all four
    // Q-values tie at zero and the first action wins.
    let state = vec![-SCALE, -3 * SCALE];
    for _ in 0..100 {
        assert_eq!(agent.choose_action(&state, &model), PlayerAction::Up);
    }
}

#[test]
fn full_exploration_covers_all_actions() {
    // With epsilon pinned at one, the network output is irrelevant and
    // every action appears with roughly uniform frequency.
    let mut agent = DQNAgent::new(2, ActionSpace::Discrete(4)).unwrap();
    agent.eps_start = SCALE;
    agent.eps_end = SCALE;
    let model = handmade_model();
    // This state's greatest Q-value is at index 2; uniform exploration
    // must still visit every index often.
    let state = vec![3 * SCALE, SCALE];
    let mut counts = [0usize; 4];
    let trials = 4000;
    for _ in 0..trials {
        counts[agent.choose_action(&state, &model).index()] += 1;
    }
    for &c in counts.iter() {
        // Each action has expectation 1000 of 4000; far below that would
        // mean the distribution is not uniform.
        assert!(c > 700, "counts were {counts:?}");
        assert!(c < 1300, "counts were {counts:?}");
    }
}

#[test]
fn model_config_builds_matching_shapes() {
    let model = ModelConfig { input_shape: 6, output_shape: 4 }.init();
    assert_eq!(model.linear1.in_dim, 6);
    assert_eq!(model.linear3.weights.len(), 4);
    let q = model.forward_single(&vec![0; 6]);
    assert_eq!(q.len(), 4);
    let batch = model.forward(&vec![vec![0; 6], vec![SCALE; 6]]);
    assert_eq!(batch.len(), 2);
    assert_eq!(batch[0].len(), 4);
}
