use dqn::agent::{ActionSpace, AgentError};
use dqn::dqn_agent::DQNAgent;
use dqn::SCALE;

fn agent_with(eps_start: i64, eps_end: i64, eps_decay: usize, steps_done: usize) -> DQNAgent {
    let mut agent = DQNAgent::new(6, ActionSpace::Discrete(4)).unwrap();
    agent.eps_start = eps_start;
    agent.eps_end = eps_end;
    agent.eps_decay = eps_decay;
    agent.steps_done = steps_done;
    agent
}

#[test]
fn construction_fails_fast_on_empty_action_space() {
    // A zero-sized discrete action space must yield no agent at all.
    let result = DQNAgent::new(6, ActionSpace::Discrete(0));
    assert!(matches!(result, Err(AgentError::EmptyActionSpace)));
}

#[test]
fn construction_uses_documented_defaults() {
    let agent = DQNAgent::new(6, ActionSpace::Discrete(4)).unwrap();
    assert_eq!(agent.observation_space, 6);
    assert_eq!(agent.episodes, 0);
    assert_eq!(agent.steps_done, 0);
    assert_eq!(agent.batch_size, 32);
    assert_eq!(agent.learning_rate, 1_000_000);
    assert_eq!(agent.gamma, 990_000_000);
    assert_eq!(agent.tau, 5_000_000);
    assert_eq!(agent.eps_start, 900_000_000);
    assert_eq!(agent.eps_end, 50_000_000);
    assert_eq!(agent.eps_decay, 1000);
}

#[test]
fn epsilon_starts_at_eps_start() {
    let agent = agent_with(900_000_000, 50_000_000, 1000, 0);
    assert_eq!(agent.current_epsilon(), 900_000_000);
}

#[test]
fn epsilon_never_increases() {
    let mut previous = i64::MAX;
    for steps in [0usize, 1, 2, 5, 10, 100, 500, 1000, 2000, 10_000, 50_000] {
        let agent = agent_with(900_000_000, 50_000_000, 1000, steps);
        let eps = agent.current_epsilon();
        assert!(eps <= previous);
        assert!(eps >= 50_000_000);
        assert!(eps <= 900_000_000);
        previous = eps;
    }
}

#[test]
fn epsilon_settles_at_eps_end() {
    // Far beyond the decay time constant the probability has reached its
    // final value exactly.
    let agent = agent_with(900_000_000, 50_000_000, 10, 10_000);
    assert_eq!(agent.current_epsilon(), 50_000_000);
}

#[test]
fn scenario_epsilon_after_thousand_steps() {
    // eps(1000) with the defaults is about 0.05 + 0.85 / e, around 0.3627.
    let agent = agent_with(900_000_000, 50_000_000, 1000, 1000);
    let eps = agent.current_epsilon();
    let expected = 362_700_000;
    assert!((eps - expected).abs() < 1_000_000, "epsilon was {eps}");
}

#[test]
fn increment_step_counts_one_interaction() {
    let mut agent = DQNAgent::new(6, ActionSpace::Discrete(4)).unwrap();
    agent.increment_step();
    agent.increment_step();
    agent.increment_step();
    assert_eq!(agent.steps_done, 3);
    assert_eq!(agent.episodes, 0);
}

#[test]
fn constant_epsilon_when_start_equals_end() {
    for steps in [0usize, 1, 10, 1000] {
        let agent = agent_with(SCALE, SCALE, 1000, steps);
        assert_eq!(agent.current_epsilon(), SCALE);
        let agent = agent_with(0, 0, 1000, steps);
        assert_eq!(agent.current_epsilon(), 0);
    }
}
