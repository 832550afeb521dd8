use dqn::agent::{ActionSpace, PlayerAction};
use dqn::dqn_agent::DQNAgent;
use dqn::dqn_training::TrainingSession;
use dqn::SCALE;

fn new_session() -> TrainingSession {
    let agent = DQNAgent::new(6, ActionSpace::Discrete(PlayerAction::COUNT)).unwrap();
    TrainingSession::new(agent, 10_000)
}

#[test]
fn session_starts_with_synced_networks() {
    let session = new_session();
    assert_eq!(session.policy_net.linear1.weights, session.target_net.linear1.weights);
    assert_eq!(session.policy_net.linear2.weights, session.target_net.linear2.weights);
    assert_eq!(session.policy_net.linear3.weights, session.target_net.linear3.weights);
    assert_eq!(session.policy_net.linear3.bias, session.target_net.linear3.bias);
    assert_eq!(session.memory.len(), 0);
    assert_eq!(session.total_reward, 0);
    assert_eq!(session.optimizer.step_count, 0);
}

#[test]
fn one_step_stores_and_counts() {
    let mut session = new_session();
    session.begin_episode(vec![0; 6]);
    let action = session.select_action();
    session.observe_step(action, -SCALE / 10, vec![SCALE; 6], false);
    assert_eq!(session.memory.len(), 1);
    assert_eq!(session.agent.steps_done, 1);
    assert_eq!(session.total_reward, -SCALE / 10);
    assert_eq!(session.current_state, vec![SCALE; 6]);
    let stored = &session.memory.replay_buffer[0];
    assert_eq!(stored.state, vec![0; 6]);
    assert_eq!(stored.action, action.index());
    assert_eq!(stored.reward, -SCALE / 10);
    assert_eq!(stored.next_state, vec![SCALE; 6]);
    assert!(!stored.done);
}

#[test]
fn rewards_accumulate_over_an_episode() {
    let mut session = new_session();
    session.begin_episode(vec![0; 6]);
    for _ in 0..5 {
        let action = session.select_action();
        session.observe_step(action, SCALE / 5, vec![0; 6], false);
    }
    assert_eq!(session.total_reward, SCALE);
    // A new episode clears the accumulator but keeps the step counter.
    session.begin_episode(vec![0; 6]);
    assert_eq!(session.total_reward, 0);
    assert_eq!(session.agent.steps_done, 5);
}

#[test]
fn policy_untouched_below_batch_size() {
    // The default batch size is 32: a few steps store transitions but
    // cannot trigger an optimizer step.
    let mut session = new_session();
    session.begin_episode(vec![0; 6]);
    let before = session.policy_net.linear2.weights.clone();
    for _ in 0..10 {
        let action = session.select_action();
        session.observe_step(action, 0, vec![0; 6], false);
    }
    assert_eq!(session.policy_net.linear2.weights, before);
    assert_eq!(session.optimizer.step_count, 0);
}

#[test]
fn optimizer_engages_once_memory_reaches_batch_size() {
    let mut session = new_session();
    session.begin_episode(vec![0; 6]);
    for i in 0..40usize {
        let action = session.select_action();
        let done = i % 7 == 6;
        session.observe_step(action, -SCALE / 100, vec![SCALE / 2; 6], done);
    }
    // Steps 32..40 each ran one optimizer step.
    assert_eq!(session.optimizer.step_count, 9);
    assert_eq!(session.agent.steps_done, 40);
}

#[test]
fn episode_end_reports_and_blends() {
    let mut session = new_session();
    session.begin_episode(vec![0; 6]);
    let action = session.select_action();
    session.observe_step(action, SCALE, vec![0; 6], true);
    let target_before = session.target_net.linear1.weights.clone();
    let policy = session.policy_net.linear1.weights.clone();
    let summary = session.end_episode();
    assert_eq!(summary.episode_index, 1);
    assert_eq!(summary.total_reward, SCALE);
    assert_eq!(summary.steps_done, 1);
    assert_eq!(session.agent.episodes, 1);
    // The blend moved each parameter by tau of the gap, here tau = 0.005.
    let tau = session.agent.tau as i128;
    let scale = SCALE as i128;
    for (rt, (rb, rp)) in session.target_net.linear1.weights.iter().zip(
        target_before.iter().zip(policy.iter()),
    ) {
        for (t, (b, p)) in rt.iter().zip(rb.iter().zip(rp.iter())) {
            let expect_hi = (tau * *p as i128) / scale + ((scale - tau) * *b as i128) / scale;
            // Each of the two products truncates toward zero, so the sum
            // can differ from the float formula by at most two units.
            assert!(((*t as i128) - expect_hi).abs() <= 2);
        }
    }
}

#[test]
fn two_episodes_count_up() {
    let mut session = new_session();
    for episode in 1..=2usize {
        session.begin_episode(vec![0; 6]);
        let action = session.select_action();
        session.observe_step(action, 0, vec![0; 6], true);
        let summary = session.end_episode();
        assert_eq!(summary.episode_index, episode);
    }
    assert_eq!(session.agent.episodes, 2);
    assert_eq!(session.agent.steps_done, 2);
}
