//! The training-loop state machine.
//!
//! A training run is a sequence of episodes; an episode is a sequence of
//! environment steps. The environment itself lives outside the library:
//! the caller resets it, performs the chosen actions in it, and hands each
//! observed outcome back. Every decision of the loop — choosing the
//! action, storing the transition, gating and running the optimizer step,
//! counting steps, and synchronizing the target network at episode end —
//! is made here, under contract.

use vstd::prelude::*;
use crate::agent::PlayerAction;
use crate::dqn_agent::DQNAgent;
use crate::dqn_memory::{contains_record, store_step, DQNMemory, RecordV};
use crate::dqn_net::{stable_argmax, DQNModel, ModelConfig};
use crate::dqn_optim::{
    adam_step_relation, batch_grads_spec, blend_mat_spec, blend_seq_spec, lemma_layer_hard_sync,
    optimize_model, polyak_update, zero_vec, ModelOptimizer,
};
use crate::fixed::{fx_add, fx_add_spec, SCALE};

verus! {

/// Every stored transition fits the networks: observations have the
/// network's input width and actions lie in its output range.
pub open spec fn memory_compatible(mem: Seq<RecordV>, obs: int, acts: int) -> bool {
    forall|j: int|
        0 <= j < mem.len() ==> {
            &&& (#[trigger] mem[j]).state.len() == obs
            &&& mem[j].next_state.len() == obs
            &&& 0 <= mem[j].action < acts
        }
}

/// What one finished episode reports.
pub struct EpisodeSummary {
    /// How many episodes have completed, this one included.
    pub episode_index: usize,
    /// The fixed-point sum of this episode's rewards.
    pub total_reward: i64,
    /// Total environment steps taken so far, across all episodes.
    pub steps_done: usize,
}

/// The whole training state: the agent's configuration and counters, the
/// replay memory, the two networks, the optimizer state, and the episode
/// accumulators.
pub struct TrainingSession {
    pub agent: DQNAgent,
    pub memory: DQNMemory,
    pub policy_net: DQNModel,
    pub target_net: DQNModel,
    pub optimizer: ModelOptimizer,
    /// The observation the next action will be chosen from.
    pub current_state: Vec<i64>,
    /// Fixed-point sum of the rewards of the running episode.
    pub total_reward: i64,
}

impl TrainingSession {
    /// The pieces fit together: the networks share their architecture and
    /// match the agent's spaces, the optimizer matches the policy network,
    /// and everything in the memory fits them.
    pub open spec fn wf(&self) -> bool {
        &&& self.agent.wf()
        &&& self.agent.action_space.n_discrete_spec() == PlayerAction::COUNT as int
        &&& self.policy_net.wf()
        &&& self.target_net.wf()
        &&& self.policy_net.in_dim() == self.agent.observation_space as int
        &&& self.policy_net.out_dim() == PlayerAction::COUNT as int
        &&& self.target_net.in_dim() == self.policy_net.in_dim()
        &&& self.target_net.out_dim() == self.policy_net.out_dim()
        &&& self.target_net.linear1.out_dim() == self.policy_net.linear1.out_dim()
        &&& self.target_net.linear2.out_dim() == self.policy_net.linear2.out_dim()
        &&& self.optimizer.matches(self.policy_net)
        &&& self.optimizer.wf()
        &&& self.memory.wf()
        &&& memory_compatible(
            self.memory@,
            self.agent.observation_space as int,
            PlayerAction::COUNT as int,
        )
        &&& self.current_state@.len() == self.agent.observation_space
    }

    /// Set up a training run: fresh networks for the agent's spaces, the
    /// target network seeded as a hard copy of the policy network, an
    /// empty replay memory of the given capacity, and a fresh optimizer.
    pub fn new(agent: DQNAgent, memory_capacity: usize) -> (r: TrainingSession)
        requires
            agent.wf(),
            agent.action_space.n_discrete_spec() == PlayerAction::COUNT as int,
        ensures
            r.wf(),
            r.agent == agent,
            r.memory@ == Seq::<RecordV>::empty(),
            r.memory.max_size == memory_capacity,
            r.total_reward == 0,
            r.optimizer.step_count == 0,
            // The hard sync has already happened: the target network's
            // parameters equal the policy network's.
            crate::dqn_net::mat_view(r.target_net.linear1.weights) == crate::dqn_net::mat_view(
                r.policy_net.linear1.weights,
            ),
            r.target_net.linear1.bias@ == r.policy_net.linear1.bias@,
            crate::dqn_net::mat_view(r.target_net.linear2.weights) == crate::dqn_net::mat_view(
                r.policy_net.linear2.weights,
            ),
            r.target_net.linear2.bias@ == r.policy_net.linear2.bias@,
            crate::dqn_net::mat_view(r.target_net.linear3.weights) == crate::dqn_net::mat_view(
                r.policy_net.linear3.weights,
            ),
            r.target_net.linear3.bias@ == r.policy_net.linear3.bias@,
    {
        let config = ModelConfig {
            input_shape: agent.observation_space,
            output_shape: PlayerAction::COUNT,
        };
        let policy_net = config.init();
        let mut target_net = config.init();
        proof {
            lemma_layer_hard_sync(policy_net.linear1, target_net.linear1);
            lemma_layer_hard_sync(policy_net.linear2, target_net.linear2);
            lemma_layer_hard_sync(policy_net.linear3, target_net.linear3);
        }
        polyak_update(&policy_net, &mut target_net, SCALE);
        let optimizer = ModelOptimizer::new(&policy_net);
        let current_state = zero_vec(agent.observation_space);
        TrainingSession {
            agent,
            memory: DQNMemory::new(memory_capacity),
            policy_net,
            target_net,
            optimizer,
            current_state,
            total_reward: 0,
        }
    }

    /// Begin an episode: take the environment's reset observation and
    /// clear the episode's reward accumulator.
    pub fn begin_episode(&mut self, observation: Vec<i64>)
        requires
            old(self).wf(),
            observation@.len() == old(self).agent.observation_space,
        ensures
            final(self).wf(),
            final(self).current_state@ == observation@,
            final(self).total_reward == 0,
            final(self).agent == old(self).agent,
            final(self).memory == old(self).memory,
            final(self).policy_net == old(self).policy_net,
            final(self).target_net == old(self).target_net,
            final(self).optimizer == old(self).optimizer,
    {
        self.current_state = observation;
        self.total_reward = 0;
    }

    /// Choose the next action from the current observation with the
    /// epsilon-greedy policy over the policy network.
    pub fn select_action(&self) -> (r: PlayerAction)
        requires
            self.wf(),
        ensures
            self.agent.current_epsilon_spec() == 0 ==> r.index_spec() == stable_argmax(
                self.policy_net.forward_single_spec(self.current_state@),
            ),
    {
        self.agent.choose_action(&self.current_state, &self.policy_net)
    }

    /// Take in one environment step's outcome: accumulate the reward,
    /// store the transition, advance the observation, run the gated
    /// optimizer step, and count the step.
    pub fn observe_step(
        &mut self,
        action: PlayerAction,
        reward: i64,
        next_observation: Vec<i64>,
        done: bool,
    )
        requires
            old(self).wf(),
            next_observation@.len() == old(self).agent.observation_space,
            old(self).agent.steps_done < usize::MAX,
            old(self).optimizer.step_count < usize::MAX,
        ensures
            final(self).wf(),
            final(self).total_reward == fx_add_spec(old(self).total_reward as int, reward as int),
            final(self).memory@ == store_step(
                old(self).memory@,
                RecordV {
                    state: old(self).current_state@,
                    action: action.index_spec(),
                    reward: reward as int,
                    next_state: next_observation@,
                    done,
                },
                old(self).memory.max_size as nat,
            ),
            final(self).current_state@ == next_observation@,
            final(self).agent.steps_done == old(self).agent.steps_done + 1,
            final(self).agent == (DQNAgent {
                steps_done: final(self).agent.steps_done,
                ..old(self).agent
            }),
            final(self).target_net == old(self).target_net,
            final(self).memory.max_size == old(self).memory.max_size,
            // Optimizer gating: with fewer stored records than one batch,
            // the policy network and the optimizer state are untouched.
            final(self).memory@.len() < old(self).agent.batch_size ==> final(self).policy_net
                == old(self).policy_net && final(self).optimizer == old(self).optimizer,
            // Otherwise one Adam-style step ran on a batch sampled from
            // the memory as it stood after the store.
            final(self).memory@.len() >= old(self).agent.batch_size ==> exists|
                recs: Seq<RecordV>,
            |
                {
                    &&& recs.len() == old(self).agent.batch_size
                    &&& (forall|i: int|
                        0 <= i < recs.len() ==> contains_record(
                            final(self).memory@,
                            #[trigger] recs[i],
                        ))
                    &&& adam_step_relation(
                        old(self).policy_net,
                        final(self).policy_net,
                        old(self).optimizer,
                        final(self).optimizer,
                        batch_grads_spec(
                            old(self).policy_net,
                            old(self).target_net,
                            old(self).agent.gamma as int,
                            recs,
                            old(self).agent.batch_size as int,
                            old(self).agent.batch_size as int,
                        ),
                        old(self).agent.learning_rate as int,
                    )
                },
    {
        self.total_reward = fx_add(self.total_reward, reward);
        let state = crate::dqn_memory::copy_scalars(&self.current_state);
        let next_state_copy = crate::dqn_memory::copy_scalars(&next_observation);
        self.current_state = next_observation;
        let ghost mem_before = self.memory@;
        self.memory.store_experience(state, action.index(), reward, next_state_copy, done);
        proof {
            lemma_store_step_compatible(
                mem_before,
                RecordV {
                    state: old(self).current_state@,
                    action: action.index_spec(),
                    reward: reward as int,
                    next_state: next_observation@,
                    done,
                },
                self.memory.max_size as nat,
                self.agent.observation_space as int,
                PlayerAction::COUNT as int,
            );
        }
        optimize_model(
            &mut self.memory,
            &mut self.policy_net,
            &self.target_net,
            &self.agent,
            &mut self.optimizer,
        );
        self.agent.increment_step();
    }

    /// Finish an episode: blend the target network toward the policy
    /// network by the configured soft-update coefficient, count the
    /// episode, and report its summary.
    pub fn end_episode(&mut self) -> (summary: EpisodeSummary)
        requires
            old(self).wf(),
            old(self).agent.episodes < usize::MAX,
        ensures
            final(self).wf(),
            final(self).agent.episodes == old(self).agent.episodes + 1,
            final(self).agent == (DQNAgent {
                episodes: final(self).agent.episodes,
                ..old(self).agent
            }),
            final(self).policy_net == old(self).policy_net,
            final(self).memory == old(self).memory,
            final(self).optimizer == old(self).optimizer,
            summary.episode_index == old(self).agent.episodes + 1,
            summary.total_reward == old(self).total_reward,
            summary.steps_done == old(self).agent.steps_done,
            // Soft sync interpolation, parameter by parameter.
            crate::dqn_net::mat_view(final(self).target_net.linear1.weights) == blend_mat_spec(
                crate::dqn_net::mat_view(old(self).policy_net.linear1.weights),
                crate::dqn_net::mat_view(old(self).target_net.linear1.weights),
                old(self).agent.tau as int,
            ),
            final(self).target_net.linear1.bias@ == blend_seq_spec(
                old(self).policy_net.linear1.bias@,
                old(self).target_net.linear1.bias@,
                old(self).agent.tau as int,
            ),
            crate::dqn_net::mat_view(final(self).target_net.linear2.weights) == blend_mat_spec(
                crate::dqn_net::mat_view(old(self).policy_net.linear2.weights),
                crate::dqn_net::mat_view(old(self).target_net.linear2.weights),
                old(self).agent.tau as int,
            ),
            final(self).target_net.linear2.bias@ == blend_seq_spec(
                old(self).policy_net.linear2.bias@,
                old(self).target_net.linear2.bias@,
                old(self).agent.tau as int,
            ),
            crate::dqn_net::mat_view(final(self).target_net.linear3.weights) == blend_mat_spec(
                crate::dqn_net::mat_view(old(self).policy_net.linear3.weights),
                crate::dqn_net::mat_view(old(self).target_net.linear3.weights),
                old(self).agent.tau as int,
            ),
            final(self).target_net.linear3.bias@ == blend_seq_spec(
                old(self).policy_net.linear3.bias@,
                old(self).target_net.linear3.bias@,
                old(self).agent.tau as int,
            ),
    {
        polyak_update(&self.policy_net, &mut self.target_net, self.agent.tau);
        let episodes = self.agent.episodes + 1;
        self.agent.episodes = episodes;
        EpisodeSummary {
            episode_index: episodes,
            total_reward: self.total_reward,
            steps_done: self.agent.steps_done,
        }
    }
}

/// Storing a compatible record into a compatible memory keeps every
/// stored record compatible.
proof fn lemma_store_step_compatible(mem: Seq<RecordV>, rec: RecordV, max: nat, obs: int, acts: int)
    requires
        memory_compatible(mem, obs, acts),
        rec.state.len() == obs,
        rec.next_state.len() == obs,
        0 <= rec.action < acts,
    ensures
        memory_compatible(store_step(mem, rec, max), obs, acts),
{
    let grown = mem.push(rec);
    assert forall|j: int| 0 <= j < grown.len() implies {
        &&& (#[trigger] grown[j]).state.len() == obs
        &&& grown[j].next_state.len() == obs
        &&& 0 <= grown[j].action < acts
    } by {
        if j < mem.len() {
            assert(grown[j] == mem[j]);
        } else {
            assert(grown[j] == rec);
        }
    }
    let stored = store_step(mem, rec, max);
    assert forall|j: int| 0 <= j < stored.len() implies {
        &&& (#[trigger] stored[j]).state.len() == obs
        &&& stored[j].next_state.len() == obs
        &&& 0 <= stored[j].action < acts
    } by {
        if grown.len() > max {
            assert(stored[j] == grown[j + 1]);
        } else {
            assert(stored[j] == grown[j]);
        }
    }
}

} // verus!
