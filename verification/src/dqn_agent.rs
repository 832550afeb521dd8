//! The learning agent's configuration and its epsilon-greedy exploration
//! policy.
//!
//! The exploration probability decays with the number of steps taken:
//! mathematically `eps(t) = eps_end + (eps_start - eps_end) * exp(-t /
//! eps_decay)`. The library renders the decay in fixed point: a per-step
//! decay factor `rho = exp(-1 / eps_decay) * SCALE` is taken from the cubic
//! Taylor approximation of the exponential, and `exp(-t / eps_decay)` is
//! `rho` raised to the `t`-th power with truncation at every step. The
//! rendering keeps the properties the design asks of the decay exactly:
//! it starts at `eps_start`, it never increases, and it settles at
//! `eps_end`.

use vstd::prelude::*;
use vstd::arithmetic::div_mod::{
    lemma_div_by_self, lemma_div_is_ordered, lemma_div_multiples_vanish, lemma_div_of0,
    lemma_div_pos_is_pos, lemma_fundamental_div_mod, lemma_mod_pos_bound,
    lemma_multiply_divide_lt,
};
use vstd::arithmetic::mul::{
    lemma_mul_inequality, lemma_mul_nonnegative, lemma_mul_strict_inequality,
    lemma_mul_upper_bound,
};
use crate::agent::{ActionSpace, AgentError, PlayerAction};
use crate::dqn_net::{argmax, stable_argmax, DQNModel};
use crate::fixed::SCALE;
use crate::rng::random_below;

verus! {

/// Default batch drawn by one optimizer step.
pub const DEFAULT_BATCH_SIZE: usize = 32;

/// Default learning rate, 0.001 in fixed point.
pub const DEFAULT_LEARNING_RATE: i64 = 1_000_000;

/// Default discount factor, 0.99 in fixed point.
pub const DEFAULT_GAMMA: i64 = 990_000_000;

/// Default soft-update coefficient, 0.005 in fixed point.
pub const DEFAULT_TAU: i64 = 5_000_000;

/// Default initial exploration probability, 0.9 in fixed point.
pub const DEFAULT_EPS_START: i64 = 900_000_000;

/// Default final exploration probability, 0.05 in fixed point.
pub const DEFAULT_EPS_END: i64 = 50_000_000;

/// Default decay time constant, in steps.
pub const DEFAULT_EPS_DECAY: usize = 1000;

/// The reciprocal decay constant `ceil(SCALE / d)`: one decay step lowers
/// the exponent by `x / SCALE`, a fixed-point rendering of `1 / d`.
pub open spec fn decay_x(d: int) -> int
    recommends
        d >= 1,
{
    (SCALE + d - 1) / d
}

/// The per-step decay factor: the cubic Taylor approximation of
/// `exp(-x / SCALE)`, in fixed point.
pub open spec fn decay_rho(d: int) -> int
    recommends
        d >= 1,
{
    let x = decay_x(d);
    SCALE - x + x * x / (2 * SCALE) - x * x * x / (6 * SCALE * SCALE)
}

/// The decay factor raised to the `t`-th power in fixed point, truncating
/// after each multiplication: the rendering of `exp(-t / d)`.
pub open spec fn decay_pow(d: int, t: nat) -> int
    recommends
        d >= 1,
    decreases t,
{
    if t == 0 {
        SCALE as int
    } else {
        decay_pow(d, (t - 1) as nat) * decay_rho(d) / (SCALE as int)
    }
}

/// The exploration probability after `t` steps.
pub open spec fn eps_spec(start: int, end: int, d: int, t: nat) -> int
    recommends
        0 <= start <= SCALE,
        0 <= end <= SCALE,
        d >= 1,
{
    if start >= end {
        end + (start - end) * decay_pow(d, t) / (SCALE as int)
    } else {
        end - (end - start) * decay_pow(d, t) / (SCALE as int)
    }
}

/// The reciprocal decay constant lies between 1 and `SCALE`.
pub proof fn lemma_decay_x_bounds(d: int)
    requires
        d >= 1,
    ensures
        1 <= decay_x(d) <= SCALE,
{
    lemma_div_is_ordered(d, SCALE + d - 1, d);
    lemma_div_by_self(d);
    assert(SCALE - 1 < d * SCALE) by {
        lemma_mul_inequality(1, d, SCALE as int);
    }
    assert(SCALE + d - 1 < d * (SCALE + 1)) by {
        assert(d * (SCALE + 1) == d * SCALE + d) by (nonlinear_arith);
    }
    lemma_multiply_divide_lt(SCALE + d - 1, d, SCALE + 1);
}

/// The decay factor is a probability strictly below one:
/// `0 <= rho <= SCALE - 1`.
pub proof fn lemma_decay_rho_bounds(d: int)
    requires
        d >= 1,
    ensures
        0 <= decay_rho(d) <= SCALE - 1,
{
    lemma_decay_x_bounds(d);
    let x = decay_x(d);
    let q2 = x * x / (2 * SCALE);
    let q3 = x * x * x / (6 * SCALE * SCALE);
    lemma_mul_nonnegative(x, x);
    lemma_div_pos_is_pos(x * x, 2 * SCALE);
    lemma_mul_nonnegative(x * x, x);
    assert(x * x * x >= 0) by {
        assert(x * x * x == x * x * x);
        lemma_mul_nonnegative(x * x, x);
    }
    lemma_div_pos_is_pos(x * x * x, 6 * SCALE * SCALE);
    // q2 <= x - 1, since x * x < (2 * SCALE) * x.
    assert(x * x < 2 * SCALE * x) by {
        lemma_mul_strict_inequality(x, 2 * SCALE, x);
    }
    lemma_multiply_divide_lt(x * x, 2 * SCALE, x);
    // q3 <= q2, since x^3 < 6 * SCALE^2 * (q2 + 1).
    lemma_fundamental_div_mod(x * x, 2 * SCALE);
    lemma_mod_pos_bound(x * x, 2 * SCALE);
    assert(x * x < 2 * SCALE * (q2 + 1)) by {
        assert(2 * SCALE * (q2 + 1) == 2 * SCALE * q2 + 2 * SCALE) by (nonlinear_arith);
    }
    assert(x * x * x < 6 * SCALE * SCALE * (q2 + 1)) by (nonlinear_arith)
        requires
            1 <= x <= SCALE,
            x * x < 2 * SCALE * (q2 + 1),
            q2 >= 0,
    ;
    assert((x * x * x) / (6 * SCALE * SCALE) < q2 + 1) by {
        lemma_multiply_divide_lt(x * x * x, 6 * SCALE * SCALE, q2 + 1);
    }
}

/// Every power of the decay factor is a probability: `0 <= pow <= SCALE`.
pub proof fn lemma_decay_pow_bounds(d: int, t: nat)
    requires
        d >= 1,
    ensures
        0 <= decay_pow(d, t) <= SCALE,
    decreases t,
{
    if t > 0 {
        lemma_decay_pow_bounds(d, (t - 1) as nat);
        lemma_decay_rho_bounds(d);
        let p = decay_pow(d, (t - 1) as nat);
        let rho = decay_rho(d);
        lemma_mul_nonnegative(p, rho);
        lemma_div_pos_is_pos(p * rho, SCALE as int);
        assert(p * rho <= SCALE * p) by {
            lemma_mul_inequality(rho, SCALE as int, p);
            assert(rho * p == p * rho) by (nonlinear_arith);
            assert(SCALE * p == p * SCALE) by (nonlinear_arith);
        }
        lemma_div_is_ordered(p * rho, SCALE * p, SCALE as int);
        lemma_div_multiples_vanish(p, SCALE as int);
    }
}

/// One more step never raises the decay power, and lowers it by at least
/// one while it is not yet zero.
pub proof fn lemma_decay_pow_step(d: int, t: nat)
    requires
        d >= 1,
        t >= 1,
    ensures
        decay_pow(d, t) <= decay_pow(d, (t - 1) as nat),
        decay_pow(d, (t - 1) as nat) >= 1 ==> decay_pow(d, t) <= decay_pow(d, (t - 1) as nat) - 1,
        decay_pow(d, (t - 1) as nat) == 0 ==> decay_pow(d, t) == 0,
{
    lemma_decay_pow_bounds(d, (t - 1) as nat);
    lemma_decay_pow_bounds(d, t);
    lemma_decay_rho_bounds(d);
    let p = decay_pow(d, (t - 1) as nat);
    let rho = decay_rho(d);
    assert(p * rho <= SCALE * p) by {
        lemma_mul_inequality(rho, SCALE as int, p);
        assert(rho * p == p * rho) by (nonlinear_arith);
        assert(SCALE * p == p * SCALE) by (nonlinear_arith);
    }
    lemma_div_is_ordered(p * rho, SCALE * p, SCALE as int);
    lemma_div_multiples_vanish(p, SCALE as int);
    if p >= 1 {
        assert(p * rho < SCALE * p) by {
            lemma_mul_strict_inequality(rho, SCALE as int, p);
            assert(rho * p == p * rho) by (nonlinear_arith);
            assert(SCALE * p == p * SCALE) by (nonlinear_arith);
        }
        lemma_multiply_divide_lt(p * rho, SCALE as int, p);
    }
    if p == 0 {
        assert(p * rho == 0) by (nonlinear_arith)
            requires
                p == 0,
        ;
        lemma_div_of0(SCALE as int);
    }
}

/// The decay power never increases with time.
pub proof fn lemma_decay_pow_monotone(d: int, t1: nat, t2: nat)
    requires
        d >= 1,
        t1 <= t2,
    ensures
        decay_pow(d, t2) <= decay_pow(d, t1),
    decreases t2 - t1,
{
    if t1 < t2 {
        lemma_decay_pow_monotone(d, t1, (t2 - 1) as nat);
        lemma_decay_pow_step(d, t2);
    }
}

/// While it has not reached zero, the decay power has lost at least one
/// unit per step.
pub proof fn lemma_decay_pow_upper(d: int, t: nat)
    requires
        d >= 1,
    ensures
        decay_pow(d, t) <= SCALE - t || decay_pow(d, t) == 0,
    decreases t,
{
    if t > 0 {
        lemma_decay_pow_upper(d, (t - 1) as nat);
        lemma_decay_pow_bounds(d, (t - 1) as nat);
        lemma_decay_pow_step(d, t);
    }
}

/// After `SCALE` steps the decay power has settled at exactly zero.
pub proof fn lemma_decay_pow_zero(d: int, t: nat)
    requires
        d >= 1,
        t >= SCALE,
    ensures
        decay_pow(d, t) == 0,
{
    lemma_decay_pow_upper(d, SCALE as nat);
    lemma_decay_pow_bounds(d, SCALE as nat);
    lemma_decay_pow_monotone(d, SCALE as nat, t);
    lemma_decay_pow_bounds(d, t);
}

/// The scaled decay term stays between zero and the full probability gap.
proof fn lemma_decay_term_bounds(delta: int, p: int)
    requires
        delta >= 0,
        0 <= p <= SCALE,
    ensures
        0 <= delta * p / (SCALE as int) <= delta,
{
    lemma_mul_nonnegative(delta, p);
    lemma_div_pos_is_pos(delta * p, SCALE as int);
    assert(delta * p <= SCALE * delta) by {
        lemma_mul_inequality(p, SCALE as int, delta);
        assert(p * delta == delta * p) by (nonlinear_arith);
        assert(SCALE * delta == delta * SCALE) by (nonlinear_arith);
    }
    lemma_div_is_ordered(delta * p, SCALE * delta, SCALE as int);
    lemma_div_multiples_vanish(delta, SCALE as int);
}

/// The exploration probability always lies between the start and end
/// probabilities.
pub proof fn lemma_epsilon_bounds(start: int, end: int, d: int, t: nat)
    requires
        0 <= start <= SCALE,
        0 <= end <= SCALE,
        d >= 1,
    ensures
        start >= end ==> end <= eps_spec(start, end, d, t) <= start,
        start < end ==> start <= eps_spec(start, end, d, t) <= end,
{
    lemma_decay_pow_bounds(d, t);
    if start >= end {
        lemma_decay_term_bounds(start - end, decay_pow(d, t));
    } else {
        lemma_decay_term_bounds(end - start, decay_pow(d, t));
    }
}

/// At step zero the exploration probability is exactly `eps_start`.
pub proof fn lemma_epsilon_at_zero(start: int, end: int, d: int)
    requires
        0 <= start <= SCALE,
        0 <= end <= SCALE,
        d >= 1,
    ensures
        eps_spec(start, end, d, 0) == start,
{
    if start >= end {
        lemma_div_multiples_vanish(start - end, SCALE as int);
        assert((start - end) * (SCALE as int) == (SCALE as int) * (start - end))
            by (nonlinear_arith);
    } else {
        lemma_div_multiples_vanish(end - start, SCALE as int);
        assert((end - start) * (SCALE as int) == (SCALE as int) * (end - start))
            by (nonlinear_arith);
    }
}

/// Epsilon monotonicity: when the exploration probability starts at or
/// above its final value, it never increases as steps pass.
pub proof fn lemma_epsilon_monotonic(start: int, end: int, d: int, t1: nat, t2: nat)
    requires
        0 <= end <= start <= SCALE,
        d >= 1,
        t1 <= t2,
    ensures
        eps_spec(start, end, d, t1) >= eps_spec(start, end, d, t2),
{
    lemma_decay_pow_monotone(d, t1, t2);
    lemma_decay_pow_bounds(d, t1);
    lemma_decay_pow_bounds(d, t2);
    let p1 = decay_pow(d, t1);
    let p2 = decay_pow(d, t2);
    assert((start - end) * p2 <= (start - end) * p1) by {
        lemma_mul_inequality(p2, p1, start - end);
        assert(p2 * (start - end) == (start - end) * p2) by (nonlinear_arith);
        assert(p1 * (start - end) == (start - end) * p1) by (nonlinear_arith);
    }
    lemma_div_is_ordered((start - end) * p2, (start - end) * p1, SCALE as int);
}

/// In the limit the exploration probability settles at exactly `eps_end`:
/// from step `SCALE` on it equals `eps_end`.
pub proof fn lemma_epsilon_limit(start: int, end: int, d: int, t: nat)
    requires
        0 <= start <= SCALE,
        0 <= end <= SCALE,
        d >= 1,
        t >= SCALE,
    ensures
        eps_spec(start, end, d, t) == end,
{
    lemma_decay_pow_zero(d, t);
    if start >= end {
        assert((start - end) * 0 == 0) by (nonlinear_arith);
    } else {
        assert((end - start) * 0 == 0) by (nonlinear_arith);
    }
    lemma_div_of0(SCALE as int);
}

/// The learning agent: immutable hyperparameters plus the step and episode
/// counters that drive exploration decay.
pub struct DQNAgent {
    pub observation_space: usize,
    pub action_space: ActionSpace,
    pub episodes: usize,
    /// Total environment interactions so far; drives the epsilon decay.
    pub steps_done: usize,
    pub batch_size: usize,
    /// Fixed-point learning rate.
    pub learning_rate: i64,
    /// Fixed-point discount factor, in [0, 1].
    pub gamma: i64,
    /// Fixed-point soft-update coefficient, in [0, 1].
    pub tau: i64,
    /// Fixed-point initial exploration probability, in [0, 1].
    pub eps_start: i64,
    /// Fixed-point final exploration probability, in [0, 1].
    pub eps_end: i64,
    /// Decay time constant, in steps; at least one.
    pub eps_decay: usize,
}

impl DQNAgent {
    /// The hyperparameters lie in the ranges the algorithm assumes.
    pub open spec fn wf(&self) -> bool {
        &&& self.action_space.n_discrete_spec() >= 1
        &&& self.batch_size >= 1
        &&& self.learning_rate >= 0
        &&& 0 <= self.gamma <= SCALE
        &&& 0 <= self.tau <= SCALE
        &&& 0 <= self.eps_start <= SCALE
        &&& 0 <= self.eps_end <= SCALE
        &&& self.eps_decay >= 1
    }

    /// The exploration probability the agent is at now.
    pub open spec fn current_epsilon_spec(&self) -> int {
        eps_spec(
            self.eps_start as int,
            self.eps_end as int,
            self.eps_decay as int,
            self.steps_done as nat,
        )
    }

    /// Build an agent with the default hyperparameters. An empty action
    /// space is a configuration fault and yields no agent at all.
    pub fn new(observation_space: usize, action_space: ActionSpace) -> (r: Result<
        DQNAgent,
        AgentError,
    >)
        ensures
            action_space.n_discrete_spec() == 0 <==> r is Err,
            r is Err ==> r == Err::<DQNAgent, AgentError>(AgentError::EmptyActionSpace),
            r matches Ok(a) ==> a == (DQNAgent {
                observation_space,
                action_space,
                episodes: 0,
                steps_done: 0,
                batch_size: DEFAULT_BATCH_SIZE,
                learning_rate: DEFAULT_LEARNING_RATE,
                gamma: DEFAULT_GAMMA,
                tau: DEFAULT_TAU,
                eps_start: DEFAULT_EPS_START,
                eps_end: DEFAULT_EPS_END,
                eps_decay: DEFAULT_EPS_DECAY,
            }),
            r matches Ok(a) ==> a.wf(),
    {
        let action_size = match action_space.n_discrete() {
            Some(n) => n,
            None => 0,
        };
        if action_size == 0 {
            return Err(AgentError::EmptyActionSpace);
        }
        Ok(
            DQNAgent {
                observation_space,
                action_space,
                episodes: 0,
                steps_done: 0,
                batch_size: DEFAULT_BATCH_SIZE,
                learning_rate: DEFAULT_LEARNING_RATE,
                gamma: DEFAULT_GAMMA,
                tau: DEFAULT_TAU,
                eps_start: DEFAULT_EPS_START,
                eps_end: DEFAULT_EPS_END,
                eps_decay: DEFAULT_EPS_DECAY,
            },
        )
    }

    /// The exploration probability after `steps_done` steps, recomputed
    /// from the counter on every call.
    pub fn current_epsilon(&self) -> (r: i64)
        requires
            0 <= self.eps_start <= SCALE,
            0 <= self.eps_end <= SCALE,
            self.eps_decay >= 1,
        ensures
            r == self.current_epsilon_spec(),
            0 <= r <= SCALE,
    {
        let ghost d = self.eps_decay as int;
        let scale_wide: u128 = SCALE as u128;
        let decay_wide: u128 = self.eps_decay as u128;
        let x: u128 = (scale_wide + decay_wide - 1) / decay_wide;
        proof {
            lemma_decay_x_bounds(d);
            assert(x == decay_x(d));
            lemma_mul_upper_bound(x as int, SCALE as int, x as int, SCALE as int);
            lemma_mul_nonnegative(x as int, x as int);
            lemma_mul_upper_bound(
                (x * x) as int,
                (SCALE as int) * (SCALE as int),
                x as int,
                SCALE as int,
            );
        }
        let q2: u128 = (x * x) / (2 * scale_wide);
        let q3: u128 = (x * x * x) / (6 * scale_wide * scale_wide);
        proof {
            lemma_decay_rho_bounds(d);
        }
        let rho: u128 = scale_wide - x + q2 - q3;
        proof {
            assert(rho == decay_rho(d));
        }
        let t: usize = self.steps_done;
        let mut i: usize = 0;
        let mut p: u64 = SCALE as u64;
        while i < t && p > 0
            invariant
                i <= t,
                d >= 1,
                scale_wide == SCALE as u128,
                rho == decay_rho(d),
                0 <= rho <= SCALE - 1,
                p == decay_pow(d, i as nat),
                0 <= p <= SCALE,
            decreases t - i,
        {
            proof {
                lemma_decay_pow_bounds(d, (i + 1) as nat);
                lemma_mul_nonnegative(p as int, rho as int);
                lemma_mul_upper_bound(p as int, SCALE as int, rho as int, SCALE as int);
            }
            p = ((p as u128 * rho) / scale_wide) as u64;
            i = i + 1;
        }
        proof {
            if p != 0 {
                assert(i == t);
            } else {
                lemma_decay_pow_monotone(d, i as nat, t as nat);
                lemma_decay_pow_bounds(d, t as nat);
            }
            assert(p == decay_pow(d, t as nat));
            lemma_decay_pow_bounds(d, t as nat);
        }
        let p_wide: u128 = p as u128;
        if self.eps_start >= self.eps_end {
            let delta: u128 = (self.eps_start - self.eps_end) as u128;
            proof {
                lemma_decay_term_bounds(delta as int, p_wide as int);
            }
            let term: u128 = delta * p_wide / scale_wide;
            self.eps_end + (term as i64)
        } else {
            let delta: u128 = (self.eps_end - self.eps_start) as u128;
            proof {
                lemma_decay_term_bounds(delta as int, p_wide as int);
            }
            let term: u128 = delta * p_wide / scale_wide;
            self.eps_end - (term as i64)
        }
    }

    /// Pick an action for the observed state: with probability epsilon a
    /// uniformly random action (exploration), otherwise the first action
    /// with the greatest Q-value under the policy network (exploitation).
    /// With epsilon at zero the choice is deterministic: always the stable
    /// argmax of the Q-values. Fixed-point Q-values are totally ordered, so
    /// the comparison-failure fallback of floating-point scores cannot
    /// arise here.
    pub fn choose_action(&self, state: &Vec<i64>, policy_net: &DQNModel) -> (r: PlayerAction)
        requires
            self.wf(),
            self.action_space.n_discrete_spec() == PlayerAction::COUNT,
            policy_net.wf(),
            policy_net.out_dim() == PlayerAction::COUNT,
            state@.len() == policy_net.in_dim(),
        ensures
            self.current_epsilon_spec() == 0 ==> r.index_spec() == stable_argmax(
                policy_net.forward_single_spec(state@),
            ),
    {
        let eps = self.current_epsilon();
        let u = random_below(SCALE as u64) as i64;
        let idx: usize;
        if u < eps {
            idx = self.action_space.sample_index();
        } else {
            let q = policy_net.forward_single(state);
            idx = argmax(&q);
        }
        match PlayerAction::from_index(idx) {
            Ok(a) => a,
            Err(_) => {
                proof {
                    assert(false);
                }
                PlayerAction::Up
            },
        }
    }

    /// Count one environment interaction; called exactly once per step.
    pub fn increment_step(&mut self)
        requires
            old(self).steps_done < usize::MAX,
        ensures
            *final(self) == (DQNAgent { steps_done: (old(self).steps_done + 1) as usize, ..*old(self) }),
    {
        self.steps_done = self.steps_done + 1;
    }
}

} // verus!
