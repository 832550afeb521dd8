//! The optimizer step and the target synchronizer.
//!
//! The optimizer step samples a batch of transitions, computes the
//! temporal-difference target for each with the bootstrap term suppressed
//! on terminal transitions, differentiates the mean Huber loss of the
//! predicted action values analytically, and applies an Adam-style update
//! (first and second moment estimates, bias correction, per-parameter
//! adaptive step) to the policy network's parameters. The target
//! synchronizer blends target parameters toward policy parameters by the
//! soft-update coefficient.

use vstd::prelude::*;
use vstd::arithmetic::div_mod::lemma_div_multiples_vanish;
use crate::dqn_agent::DQNAgent;
use crate::dqn_memory::{
    contains_record, copy_scalars, records_view, DQNMemory, Memory_Record, RecordV,
};
use crate::dqn_net::{
    argmax, mat_view, relu, relu_spec, stable_argmax, DQNModel, LinearLayer,
};
use crate::fixed::{
    abs_int, div_trunc, fx_add, fx_add_spec, fx_div, fx_div_spec, fx_mul, fx_mul_spec, fx_sqrt,
    fx_sqrt_spec, fx_sub, fx_sub_spec, SCALE,
};

verus! {

// ---------------------------------------------------------------------
// Target synchronizer (Polyak averaging)
// ---------------------------------------------------------------------

/// One blended parameter: `tau * src + (1 - tau) * tgt` in fixed point.
pub open spec fn blend_spec(src: int, tgt: int, tau: int) -> int
    recommends
        0 <= tau <= SCALE,
{
    fx_add_spec(fx_mul_spec(tau, src), fx_mul_spec(SCALE - tau, tgt))
}

/// A vector of parameters blended pairwise.
pub open spec fn blend_seq_spec(src: Seq<i64>, tgt: Seq<i64>, tau: int) -> Seq<i64> {
    Seq::new(tgt.len(), |i: int| blend_spec(src[i] as int, tgt[i] as int, tau) as i64)
}

/// A matrix of parameters blended pairwise.
pub open spec fn blend_mat_spec(src: Seq<Seq<i64>>, tgt: Seq<Seq<i64>>, tau: int) -> Seq<
    Seq<i64>,
> {
    Seq::new(tgt.len(), |k: int| blend_seq_spec(src[k], tgt[k], tau))
}

/// Multiplying a fixed-point scalar by one is exact.
proof fn lemma_fx_mul_one(s: int)
    requires
        i64::MIN <= s <= i64::MAX,
    ensures
        fx_mul_spec(SCALE as int, s) == s,
{
    if s >= 0 {
        lemma_div_multiples_vanish(s, SCALE as int);
        assert((SCALE as int) * s == s * (SCALE as int)) by (nonlinear_arith);
    } else {
        lemma_div_multiples_vanish(-s, SCALE as int);
        assert(-((SCALE as int) * s) == (SCALE as int) * (-s)) by (nonlinear_arith);
    }
}

/// Multiplying a fixed-point scalar by zero is zero.
proof fn lemma_fx_mul_zero(s: int)
    ensures
        fx_mul_spec(0, s) == 0,
{
    assert(0 * s == 0) by (nonlinear_arith);
}

/// Hard sync correctness: blending with `tau = 1` makes every parameter
/// exactly the source parameter.
pub proof fn lemma_blend_hard(src: int, tgt: int)
    requires
        i64::MIN <= src <= i64::MAX,
        i64::MIN <= tgt <= i64::MAX,
    ensures
        blend_spec(src, tgt, SCALE as int) == src,
{
    lemma_fx_mul_one(src);
    lemma_fx_mul_zero(tgt);
}

/// Hard sync correctness at the matrix level: blending a whole parameter
/// matrix with `tau = 1` yields the source matrix.
pub proof fn lemma_blend_mat_hard(src: Seq<Seq<i64>>, tgt: Seq<Seq<i64>>)
    requires
        src.len() == tgt.len(),
        forall|k: int| 0 <= k < src.len() ==> #[trigger] src[k].len() == tgt[k].len(),
    ensures
        blend_mat_spec(src, tgt, SCALE as int) == src,
{
    assert forall|k: int| 0 <= k < tgt.len() implies #[trigger] blend_mat_spec(
        src,
        tgt,
        SCALE as int,
    )[k] == src[k] by {
        assert forall|i: int| 0 <= i < tgt[k].len() implies #[trigger] blend_seq_spec(
            src[k],
            tgt[k],
            SCALE as int,
        )[i] == src[k][i] by {
            lemma_blend_hard(src[k][i] as int, tgt[k][i] as int);
        }
        assert(blend_seq_spec(src[k], tgt[k], SCALE as int) =~= src[k]);
    }
    assert(blend_mat_spec(src, tgt, SCALE as int) =~= src);
}

/// Hard sync correctness at the vector level: blending a parameter vector
/// with `tau = 1` yields the source vector.
pub proof fn lemma_blend_seq_hard(src: Seq<i64>, tgt: Seq<i64>)
    requires
        src.len() == tgt.len(),
    ensures
        blend_seq_spec(src, tgt, SCALE as int) == src,
{
    assert forall|i: int| 0 <= i < tgt.len() implies #[trigger] blend_seq_spec(
        src,
        tgt,
        SCALE as int,
    )[i] == src[i] by {
        lemma_blend_hard(src[i] as int, tgt[i] as int);
    }
    assert(blend_seq_spec(src, tgt, SCALE as int) =~= src);
}

/// Hard sync correctness for a whole stage: blending its weights and
/// biases with `tau = 1` yields the source stage's parameters.
pub proof fn lemma_layer_hard_sync(src: LinearLayer, tgt: LinearLayer)
    requires
        src.wf(),
        tgt.wf(),
        src.in_dim == tgt.in_dim,
        src.out_dim() == tgt.out_dim(),
    ensures
        blend_mat_spec(mat_view(src.weights), mat_view(tgt.weights), SCALE as int) == mat_view(
            src.weights,
        ),
        blend_seq_spec(src.bias@, tgt.bias@, SCALE as int) == src.bias@,
{
    assert forall|k: int| 0 <= k < mat_view(src.weights).len() implies #[trigger] mat_view(
        src.weights,
    )[k].len() == mat_view(tgt.weights)[k].len() by {
        assert(mat_view(src.weights)[k] == src.weights@[k]@);
        assert(mat_view(tgt.weights)[k] == tgt.weights@[k]@);
    }
    lemma_blend_mat_hard(mat_view(src.weights), mat_view(tgt.weights));
    lemma_blend_seq_hard(src.bias@, tgt.bias@);
}

/// Blend a vector of target parameters toward the source parameters.
fn blend_vec(src: &Vec<i64>, tgt: &Vec<i64>, tau: i64) -> (r: Vec<i64>)
    requires
        src@.len() == tgt@.len(),
        0 <= tau <= SCALE,
    ensures
        r@ == blend_seq_spec(src@, tgt@, tau as int),
{
    let mut r: Vec<i64> = Vec::new();
    let mut i: usize = 0;
    while i < tgt.len()
        invariant
            src@.len() == tgt@.len(),
            0 <= tau <= SCALE,
            i <= tgt@.len(),
            r@.len() == i,
            forall|ii: int| 0 <= ii < i ==> r@[ii] == blend_seq_spec(src@, tgt@, tau as int)[ii],
        decreases tgt@.len() - i,
    {
        r.push(fx_add(fx_mul(tau, src[i]), fx_mul(SCALE - tau, tgt[i])));
        i = i + 1;
    }
    proof {
        assert(r@ =~= blend_seq_spec(src@, tgt@, tau as int));
    }
    r
}

/// Blend a matrix of target parameters toward the source parameters.
fn blend_mat(src: &Vec<Vec<i64>>, tgt: &Vec<Vec<i64>>, tau: i64) -> (r: Vec<Vec<i64>>)
    requires
        src@.len() == tgt@.len(),
        forall|k: int| 0 <= k < src@.len() ==> #[trigger] src@[k]@.len() == tgt@[k]@.len(),
        0 <= tau <= SCALE,
    ensures
        mat_view(r) == blend_mat_spec(mat_view(*src), mat_view(*tgt), tau as int),
        r@.len() == tgt@.len(),
        forall|k: int| 0 <= k < r@.len() ==> #[trigger] r@[k]@.len() == tgt@[k]@.len(),
    decreases tgt@.len(),
{
    let mut r: Vec<Vec<i64>> = Vec::new();
    let mut k: usize = 0;
    while k < tgt.len()
        invariant
            src@.len() == tgt@.len(),
            forall|kk: int| 0 <= kk < src@.len() ==> #[trigger] src@[kk]@.len() == tgt@[kk]@.len(),
            0 <= tau <= SCALE,
            k <= tgt@.len(),
            r@.len() == k,
            forall|kk: int|
                0 <= kk < k ==> #[trigger] r@[kk]@ == blend_mat_spec(
                    mat_view(*src),
                    mat_view(*tgt),
                    tau as int,
                )[kk],
        decreases tgt@.len() - k,
    {
        r.push(blend_vec(&src[k], &tgt[k], tau));
        k = k + 1;
    }
    proof {
        assert(mat_view(r) =~= blend_mat_spec(mat_view(*src), mat_view(*tgt), tau as int));
    }
    r
}

/// Soft-update one linear stage of the target network.
fn polyak_layer(src: &LinearLayer, tgt: &mut LinearLayer, tau: i64)
    requires
        src.wf(),
        old(tgt).wf(),
        src.in_dim == old(tgt).in_dim,
        src.out_dim() == old(tgt).out_dim(),
        0 <= tau <= SCALE,
    ensures
        final(tgt).wf(),
        final(tgt).in_dim == old(tgt).in_dim,
        final(tgt).out_dim() == old(tgt).out_dim(),
        mat_view(final(tgt).weights) == blend_mat_spec(
            mat_view(src.weights),
            mat_view(old(tgt).weights),
            tau as int,
        ),
        final(tgt).bias@ == blend_seq_spec(src.bias@, old(tgt).bias@, tau as int),
{
    let new_weights = blend_mat(&src.weights, &tgt.weights, tau);
    let new_bias = blend_vec(&src.bias, &tgt.bias, tau);
    tgt.weights = new_weights;
    tgt.bias = new_bias;
}

/// Soft sync: blend every target-network parameter toward the
/// corresponding policy-network parameter, `tgt' = tau * src + (1 - tau) *
/// tgt` element-wise. With `tau = 1` this is a hard copy.
pub fn polyak_update(source: &DQNModel, target: &mut DQNModel, tau: i64)
    requires
        source.wf(),
        old(target).wf(),
        source.in_dim() == old(target).in_dim(),
        source.out_dim() == old(target).out_dim(),
        source.linear1.out_dim() == old(target).linear1.out_dim(),
        source.linear2.out_dim() == old(target).linear2.out_dim(),
        0 <= tau <= SCALE,
    ensures
        final(target).wf(),
        final(target).in_dim() == old(target).in_dim(),
        final(target).out_dim() == old(target).out_dim(),
        final(target).linear1.out_dim() == old(target).linear1.out_dim(),
        final(target).linear2.out_dim() == old(target).linear2.out_dim(),
        mat_view(final(target).linear1.weights) == blend_mat_spec(
            mat_view(source.linear1.weights),
            mat_view(old(target).linear1.weights),
            tau as int,
        ),
        final(target).linear1.bias@ == blend_seq_spec(
            source.linear1.bias@,
            old(target).linear1.bias@,
            tau as int,
        ),
        mat_view(final(target).linear2.weights) == blend_mat_spec(
            mat_view(source.linear2.weights),
            mat_view(old(target).linear2.weights),
            tau as int,
        ),
        final(target).linear2.bias@ == blend_seq_spec(
            source.linear2.bias@,
            old(target).linear2.bias@,
            tau as int,
        ),
        mat_view(final(target).linear3.weights) == blend_mat_spec(
            mat_view(source.linear3.weights),
            mat_view(old(target).linear3.weights),
            tau as int,
        ),
        final(target).linear3.bias@ == blend_seq_spec(
            source.linear3.bias@,
            old(target).linear3.bias@,
            tau as int,
        ),
{
    polyak_layer(&source.linear1, &mut target.linear1, tau);
    polyak_layer(&source.linear2, &mut target.linear2, tau);
    polyak_layer(&source.linear3, &mut target.linear3, tau);
}

// ---------------------------------------------------------------------
// Temporal-difference targets and the Huber loss
// ---------------------------------------------------------------------

/// The greatest Q-value of a non-empty row.
pub open spec fn max_q_spec(q: Seq<i64>) -> int
    recommends
        q.len() >= 1,
{
    q[stable_argmax(q)] as int
}

/// The greatest Q-value of a non-empty row.
pub fn max_q(q: &Vec<i64>) -> (r: i64)
    requires
        q@.len() >= 1,
    ensures
        r == max_q_spec(q@),
{
    let m = argmax(q);
    q[m]
}

/// The temporal-difference target of one transition: the reward plus the
/// discounted best next-state value, with the bootstrap term suppressed
/// exactly to zero on terminal transitions.
pub open spec fn td_target_spec(reward: int, done: bool, max_next: int, gamma: int) -> int {
    fx_add_spec(
        reward,
        if done {
            0
        } else {
            fx_mul_spec(gamma, max_next)
        },
    )
}

/// Terminal bootstrap suppression: for a terminal transition the target
/// equals exactly the stored reward, whatever the target network returned.
pub proof fn lemma_terminal_bootstrap(reward: int, max_next: int, gamma: int)
    requires
        i64::MIN <= reward <= i64::MAX,
    ensures
        td_target_spec(reward, true, max_next, gamma) == reward,
{
}

/// Compute the temporal-difference target of one transition.
pub fn compute_td_target(reward: i64, done: bool, max_next: i64, gamma: i64) -> (r: i64)
    ensures
        r == td_target_spec(reward as int, done, max_next as int, gamma as int),
        done ==> r == reward,
{
    if done {
        reward
    } else {
        fx_add(reward, fx_mul(gamma, max_next))
    }
}

/// The Huber loss of one prediction against its target, with threshold
/// one: quadratic within one unit of error, linear beyond it.
pub open spec fn huber_loss_spec(pred: int, target: int) -> int {
    let e = fx_sub_spec(pred, target);
    if abs_int(e) <= SCALE {
        div_trunc(fx_mul_spec(e, e), 2)
    } else {
        fx_sub_spec(abs_int(e), SCALE / 2)
    }
}

/// The Huber loss of one prediction against its target.
pub fn huber_loss(pred: i64, target: i64) -> (r: i64)
    ensures
        r == huber_loss_spec(pred as int, target as int),
{
    let e = fx_sub(pred, target);
    let a: i128 = if e < 0 {
        -(e as i128)
    } else {
        e as i128
    };
    if a <= SCALE as i128 {
        proof {
            assert((e as int) * (e as int) >= 0) by (nonlinear_arith);
            vstd::arithmetic::div_mod::lemma_div_pos_is_pos((e as int) * (e as int), SCALE as int);
        }
        let sq = fx_mul(e, e);
        ((sq as u128) / 2) as i64
    } else {
        (a - (SCALE / 2) as i128) as i64
    }
}

/// The derivative of the mean Huber loss at one prediction: the error
/// clamped to one unit, divided by the batch size.
pub open spec fn huber_grad_spec(e: int, batch: int) -> int
    recommends
        batch >= 1,
{
    let c = if e > SCALE {
        SCALE as int
    } else if e < -SCALE {
        -(SCALE as int)
    } else {
        e
    };
    div_trunc(c, batch)
}

/// The derivative of the mean Huber loss at one prediction.
pub fn huber_grad(e: i64, batch: usize) -> (r: i64)
    requires
        batch >= 1,
    ensures
        r == huber_grad_spec(e as int, batch as int),
{
    let c: i64 = if e > SCALE {
        SCALE
    } else if e < -SCALE {
        -SCALE
    } else {
        e
    };
    if c >= 0 {
        ((c as u64) / (batch as u64)) as i64
    } else {
        -((((-c) as u64) / (batch as u64)) as i64)
    }
}

// ---------------------------------------------------------------------
// Model-shaped scalar collections: gradients and moment estimates
// ---------------------------------------------------------------------

/// The mathematical value of a model-shaped set of scalars.
pub ghost struct LayerParamsV {
    pub w: Seq<Seq<i64>>,
    pub b: Seq<i64>,
}

/// One matrix and one vector of scalars, shaped like a linear stage:
/// gradients or moment estimates for its weights and biases.
pub struct LayerParams {
    pub weights: Vec<Vec<i64>>,
    pub bias: Vec<i64>,
}

impl View for LayerParams {
    type V = LayerParamsV;

    open spec fn view(&self) -> LayerParamsV {
        LayerParamsV { w: mat_view(self.weights), b: self.bias@ }
    }
}

/// Whether a scalar set has exactly the shape of a linear stage.
pub open spec fn shaped_like(p: LayerParamsV, out_dim: int, in_dim: int) -> bool {
    &&& p.w.len() == out_dim
    &&& forall|k: int| 0 <= k < p.w.len() ==> #[trigger] p.w[k].len() == in_dim
    &&& p.b.len() == out_dim
}

/// An all-zero sequence.
pub open spec fn zero_seq(n: int) -> Seq<i64> {
    Seq::new(n as nat, |i: int| 0i64)
}

/// An all-zero matrix.
pub open spec fn zero_mat_spec(out_dim: int, in_dim: int) -> Seq<Seq<i64>> {
    Seq::new(out_dim as nat, |k: int| zero_seq(in_dim))
}

/// An all-zero vector of `n` scalars.
pub(crate) fn zero_vec(n: usize) -> (r: Vec<i64>)
    ensures
        r@ == zero_seq(n as int),
{
    let mut r: Vec<i64> = Vec::new();
    let mut i: usize = 0;
    while i < n
        invariant
            i <= n,
            r@.len() == i,
            forall|ii: int| 0 <= ii < i ==> r@[ii] == 0i64,
        decreases n - i,
    {
        r.push(0);
        i = i + 1;
    }
    proof {
        assert(r@ =~= zero_seq(n as int));
    }
    r
}

/// An all-zero matrix of scalars.
fn zero_mat(out_dim: usize, in_dim: usize) -> (r: Vec<Vec<i64>>)
    ensures
        mat_view(r) == zero_mat_spec(out_dim as int, in_dim as int),
        r@.len() == out_dim,
        forall|k: int| 0 <= k < r@.len() ==> #[trigger] r@[k]@.len() == in_dim,
{
    let mut r: Vec<Vec<i64>> = Vec::new();
    let mut k: usize = 0;
    while k < out_dim
        invariant
            k <= out_dim,
            r@.len() == k,
            forall|kk: int| 0 <= kk < k ==> #[trigger] r@[kk]@ == zero_seq(in_dim as int),
        decreases out_dim - k,
    {
        r.push(zero_vec(in_dim));
        k = k + 1;
    }
    proof {
        assert(mat_view(r) =~= zero_mat_spec(out_dim as int, in_dim as int));
    }
    r
}

/// An all-zero scalar set shaped like the given linear stage.
fn zero_layer_params(layer: &LinearLayer) -> (r: LayerParams)
    requires
        layer.wf(),
    ensures
        r@ == (LayerParamsV {
            w: zero_mat_spec(layer.out_dim(), layer.in_dim as int),
            b: zero_seq(layer.out_dim()),
        }),
        shaped_like(r@, layer.out_dim(), layer.in_dim as int),
{
    LayerParams {
        weights: zero_mat(layer.bias.len(), layer.in_dim),
        bias: zero_vec(layer.bias.len()),
    }
}

/// Gradients of the loss with respect to every policy-network parameter.
pub struct ModelGrads {
    pub l1: LayerParams,
    pub l2: LayerParams,
    pub l3: LayerParams,
}

/// The mathematical value of a full set of gradients.
pub ghost struct ModelGradsV {
    pub l1: LayerParamsV,
    pub l2: LayerParamsV,
    pub l3: LayerParamsV,
}

impl View for ModelGrads {
    type V = ModelGradsV;

    open spec fn view(&self) -> ModelGradsV {
        ModelGradsV { l1: self.l1@, l2: self.l2@, l3: self.l3@ }
    }
}

/// Whether a gradient set has exactly the shape of a model.
pub open spec fn grads_shaped_like(g: ModelGradsV, m: DQNModel) -> bool {
    &&& shaped_like(g.l1, m.linear1.out_dim(), m.linear1.in_dim as int)
    &&& shaped_like(g.l2, m.linear2.out_dim(), m.linear2.in_dim as int)
    &&& shaped_like(g.l3, m.linear3.out_dim(), m.linear3.in_dim as int)
}

/// The all-zero gradient set for a model.
pub open spec fn zero_grads_spec(m: DQNModel) -> ModelGradsV {
    ModelGradsV {
        l1: LayerParamsV {
            w: zero_mat_spec(m.linear1.out_dim(), m.linear1.in_dim as int),
            b: zero_seq(m.linear1.out_dim()),
        },
        l2: LayerParamsV {
            w: zero_mat_spec(m.linear2.out_dim(), m.linear2.in_dim as int),
            b: zero_seq(m.linear2.out_dim()),
        },
        l3: LayerParamsV {
            w: zero_mat_spec(m.linear3.out_dim(), m.linear3.in_dim as int),
            b: zero_seq(m.linear3.out_dim()),
        },
    }
}

/// An all-zero gradient set shaped like the given model.
fn zero_grads(m: &DQNModel) -> (r: ModelGrads)
    requires
        m.wf(),
    ensures
        r@ == zero_grads_spec(*m),
        grads_shaped_like(r@, *m),
{
    ModelGrads {
        l1: zero_layer_params(&m.linear1),
        l2: zero_layer_params(&m.linear2),
        l3: zero_layer_params(&m.linear3),
    }
}

// ---------------------------------------------------------------------
// The Adam-style parameter update
// ---------------------------------------------------------------------

/// First-moment decay rate, 0.9 in fixed point.
pub const ADAM_BETA1: i64 = 900_000_000;

/// Second-moment decay rate, 0.999 in fixed point.
pub const ADAM_BETA2: i64 = 999_000_000;

/// Divisor guard added to the root of the second moment.
pub const ADAM_EPSILON: i64 = 10;

/// The updated first-moment estimate.
pub open spec fn adam_m_spec(m: int, g: int) -> int {
    fx_add_spec(fx_mul_spec(ADAM_BETA1 as int, m), fx_mul_spec((SCALE - ADAM_BETA1) as int, g))
}

/// The updated second-moment estimate.
pub open spec fn adam_v_spec(v: int, g: int) -> int {
    fx_add_spec(
        fx_mul_spec(ADAM_BETA2 as int, v),
        fx_mul_spec((SCALE - ADAM_BETA2) as int, fx_mul_spec(g, g)),
    )
}

/// The updated parameter: subtract the learning rate times the
/// bias-corrected first moment, scaled adaptively by the root of the
/// bias-corrected second moment.
pub open spec fn adam_p_spec(p: int, m_new: int, v_new: int, lr: int, b1p: int, b2p: int) -> int
    recommends
        0 <= b1p < SCALE,
        0 <= b2p < SCALE,
        v_new >= 0,
{
    let mhat = fx_div_spec(m_new, SCALE - b1p);
    let vhat = fx_div_spec(v_new, SCALE - b2p);
    fx_sub_spec(
        p,
        fx_div_spec(fx_mul_spec(lr, mhat), fx_add_spec(fx_sqrt_spec(vhat), ADAM_EPSILON as int)),
    )
}

/// The product of two non-negative scalars is non-negative.
proof fn lemma_fx_mul_nonneg(a: int, b: int)
    requires
        a >= 0,
        b >= 0,
    ensures
        fx_mul_spec(a, b) >= 0,
{
    vstd::arithmetic::mul::lemma_mul_nonnegative(a, b);
    vstd::arithmetic::div_mod::lemma_div_pos_is_pos(a * b, SCALE as int);
}

/// A second-moment estimate never becomes negative.
proof fn lemma_adam_v_nonneg(v: int, g: int)
    requires
        v >= 0,
    ensures
        adam_v_spec(v, g) >= 0,
{
    lemma_fx_mul_nonneg(ADAM_BETA2 as int, v);
    assert(g * g >= 0) by (nonlinear_arith);
    vstd::arithmetic::div_mod::lemma_div_pos_is_pos(g * g, SCALE as int);
    lemma_fx_mul_nonneg((SCALE - ADAM_BETA2) as int, fx_mul_spec(g, g));
}

/// The quotient of a non-negative scalar by a positive one is
/// non-negative.
proof fn lemma_fx_div_nonneg(a: int, b: int)
    requires
        a >= 0,
        b >= 1,
    ensures
        fx_div_spec(a, b) >= 0,
{
    vstd::arithmetic::mul::lemma_mul_nonnegative(a, SCALE as int);
    vstd::arithmetic::div_mod::lemma_div_pos_is_pos(a * SCALE, b);
}

/// One Adam-style scalar update: returns the new parameter and the two
/// new moment estimates.
fn adam_scalar(p: i64, g: i64, m: i64, v: i64, lr: i64, b1p: i64, b2p: i64) -> (r: (i64, i64, i64))
    requires
        0 <= b1p < SCALE,
        0 <= b2p < SCALE,
        v >= 0,
    ensures
        r.1 == adam_m_spec(m as int, g as int),
        r.2 == adam_v_spec(v as int, g as int),
        r.2 >= 0,
        r.0 == adam_p_spec(p as int, r.1 as int, r.2 as int, lr as int, b1p as int, b2p as int),
{
    let m2 = fx_add(fx_mul(ADAM_BETA1, m), fx_mul(SCALE - ADAM_BETA1, g));
    let v2 = fx_add(fx_mul(ADAM_BETA2, v), fx_mul(SCALE - ADAM_BETA2, fx_mul(g, g)));
    proof {
        lemma_adam_v_nonneg(v as int, g as int);
    }
    let mhat = fx_div(m2, SCALE - b1p);
    let vhat = fx_div(v2, SCALE - b2p);
    proof {
        lemma_fx_div_nonneg(v2 as int, (SCALE - b2p) as int);
    }
    let denom = fx_add(fx_sqrt(vhat), ADAM_EPSILON);
    let p2 = fx_sub(p, fx_div(fx_mul(lr, mhat), denom));
    (p2, m2, v2)
}

/// Whether every scalar of a sequence is non-negative.
pub open spec fn all_nonneg_seq(s: Seq<i64>) -> bool {
    forall|i: int| 0 <= i < s.len() ==> #[trigger] s[i] >= 0
}

/// Whether every scalar of a matrix is non-negative.
pub open spec fn all_nonneg_mat(s: Seq<Seq<i64>>) -> bool {
    forall|k: int| 0 <= k < s.len() ==> all_nonneg_seq(#[trigger] s[k])
}

/// The parameters of a vector after one Adam-style update.
pub open spec fn adam_vec_p_spec(
    p: Seq<i64>,
    g: Seq<i64>,
    m: Seq<i64>,
    v: Seq<i64>,
    lr: int,
    b1p: int,
    b2p: int,
) -> Seq<i64> {
    Seq::new(
        p.len(),
        |i: int|
            adam_p_spec(
                p[i] as int,
                adam_m_spec(m[i] as int, g[i] as int),
                adam_v_spec(v[i] as int, g[i] as int),
                lr,
                b1p,
                b2p,
            ) as i64,
    )
}

/// The first moments of a vector after one Adam-style update.
pub open spec fn adam_vec_m_spec(m: Seq<i64>, g: Seq<i64>) -> Seq<i64> {
    Seq::new(m.len(), |i: int| adam_m_spec(m[i] as int, g[i] as int) as i64)
}

/// The second moments of a vector after one Adam-style update.
pub open spec fn adam_vec_v_spec(v: Seq<i64>, g: Seq<i64>) -> Seq<i64> {
    Seq::new(v.len(), |i: int| adam_v_spec(v[i] as int, g[i] as int) as i64)
}

/// Adam-style update of one parameter vector and its moments.
fn adam_vec(p: &mut Vec<i64>, g: &Vec<i64>, m: &mut Vec<i64>, v: &mut Vec<i64>, lr: i64, b1p: i64, b2p: i64)
    requires
        old(p)@.len() == g@.len(),
        old(m)@.len() == g@.len(),
        old(v)@.len() == g@.len(),
        all_nonneg_seq(old(v)@),
        0 <= b1p < SCALE,
        0 <= b2p < SCALE,
    ensures
        final(p)@ == adam_vec_p_spec(old(p)@, g@, old(m)@, old(v)@, lr as int, b1p as int, b2p as int),
        final(m)@ == adam_vec_m_spec(old(m)@, g@),
        final(v)@ == adam_vec_v_spec(old(v)@, g@),
        all_nonneg_seq(final(v)@),
{
    let n = g.len();
    let mut new_p: Vec<i64> = Vec::new();
    let mut new_m: Vec<i64> = Vec::new();
    let mut new_v: Vec<i64> = Vec::new();
    let mut i: usize = 0;
    while i < n
        invariant
            n == g@.len(),
            p@.len() == n,
            m@.len() == n,
            v@.len() == n,
            all_nonneg_seq(v@),
            0 <= b1p < SCALE,
            0 <= b2p < SCALE,
            i <= n,
            new_p@.len() == i,
            new_m@.len() == i,
            new_v@.len() == i,
            forall|ii: int|
                0 <= ii < i ==> new_p@[ii] == adam_vec_p_spec(
                    p@,
                    g@,
                    m@,
                    v@,
                    lr as int,
                    b1p as int,
                    b2p as int,
                )[ii],
            forall|ii: int| 0 <= ii < i ==> new_m@[ii] == adam_vec_m_spec(m@, g@)[ii],
            forall|ii: int| 0 <= ii < i ==> new_v@[ii] == adam_vec_v_spec(v@, g@)[ii],
            forall|ii: int| 0 <= ii < i ==> #[trigger] new_v@[ii] >= 0,
        decreases n - i,
    {
        let (np, nm, nv) = adam_scalar(p[i], g[i], m[i], v[i], lr, b1p, b2p);
        new_p.push(np);
        new_m.push(nm);
        new_v.push(nv);
        i = i + 1;
    }
    proof {
        assert(new_p@ =~= adam_vec_p_spec(p@, g@, m@, v@, lr as int, b1p as int, b2p as int));
        assert(new_m@ =~= adam_vec_m_spec(m@, g@));
        assert(new_v@ =~= adam_vec_v_spec(v@, g@));
    }
    *p = new_p;
    *m = new_m;
    *v = new_v;
}

/// The parameters of a matrix after one Adam-style update.
pub open spec fn adam_mat_p_spec(
    p: Seq<Seq<i64>>,
    g: Seq<Seq<i64>>,
    m: Seq<Seq<i64>>,
    v: Seq<Seq<i64>>,
    lr: int,
    b1p: int,
    b2p: int,
) -> Seq<Seq<i64>> {
    Seq::new(p.len(), |k: int| adam_vec_p_spec(p[k], g[k], m[k], v[k], lr, b1p, b2p))
}

/// The first moments of a matrix after one Adam-style update.
pub open spec fn adam_mat_m_spec(m: Seq<Seq<i64>>, g: Seq<Seq<i64>>) -> Seq<Seq<i64>> {
    Seq::new(m.len(), |k: int| adam_vec_m_spec(m[k], g[k]))
}

/// The second moments of a matrix after one Adam-style update.
pub open spec fn adam_mat_v_spec(v: Seq<Seq<i64>>, g: Seq<Seq<i64>>) -> Seq<Seq<i64>> {
    Seq::new(v.len(), |k: int| adam_vec_v_spec(v[k], g[k]))
}

/// Adam-style update of one parameter matrix and its moments.
fn adam_mat(
    p: &mut Vec<Vec<i64>>,
    g: &Vec<Vec<i64>>,
    m: &mut Vec<Vec<i64>>,
    v: &mut Vec<Vec<i64>>,
    lr: i64,
    b1p: i64,
    b2p: i64,
)
    requires
        old(p)@.len() == g@.len(),
        old(m)@.len() == g@.len(),
        old(v)@.len() == g@.len(),
        forall|k: int| 0 <= k < g@.len() ==> #[trigger] old(p)@[k]@.len() == g@[k]@.len(),
        forall|k: int| 0 <= k < g@.len() ==> #[trigger] old(m)@[k]@.len() == g@[k]@.len(),
        forall|k: int| 0 <= k < g@.len() ==> #[trigger] old(v)@[k]@.len() == g@[k]@.len(),
        all_nonneg_mat(mat_view(*old(v))),
        0 <= b1p < SCALE,
        0 <= b2p < SCALE,
    ensures
        mat_view(*final(p)) == adam_mat_p_spec(
            mat_view(*old(p)),
            mat_view(*g),
            mat_view(*old(m)),
            mat_view(*old(v)),
            lr as int,
            b1p as int,
            b2p as int,
        ),
        mat_view(*final(m)) == adam_mat_m_spec(mat_view(*old(m)), mat_view(*g)),
        mat_view(*final(v)) == adam_mat_v_spec(mat_view(*old(v)), mat_view(*g)),
        all_nonneg_mat(mat_view(*final(v))),
        final(p)@.len() == old(p)@.len(),
        final(m)@.len() == old(m)@.len(),
        final(v)@.len() == old(v)@.len(),
        forall|k: int| 0 <= k < g@.len() ==> #[trigger] final(p)@[k]@.len() == g@[k]@.len(),
        forall|k: int| 0 <= k < g@.len() ==> #[trigger] final(m)@[k]@.len() == g@[k]@.len(),
        forall|k: int| 0 <= k < g@.len() ==> #[trigger] final(v)@[k]@.len() == g@[k]@.len(),
{
    let n = g.len();
    let mut new_p: Vec<Vec<i64>> = Vec::new();
    let mut new_m: Vec<Vec<i64>> = Vec::new();
    let mut new_v: Vec<Vec<i64>> = Vec::new();
    let mut k: usize = 0;
    while k < n
        invariant
            n == g@.len(),
            p@.len() == n,
            m@.len() == n,
            v@.len() == n,
            forall|kk: int| 0 <= kk < n ==> #[trigger] p@[kk]@.len() == g@[kk]@.len(),
            forall|kk: int| 0 <= kk < n ==> #[trigger] m@[kk]@.len() == g@[kk]@.len(),
            forall|kk: int| 0 <= kk < n ==> #[trigger] v@[kk]@.len() == g@[kk]@.len(),
            all_nonneg_mat(mat_view(*v)),
            0 <= b1p < SCALE,
            0 <= b2p < SCALE,
            k <= n,
            new_p@.len() == k,
            new_m@.len() == k,
            new_v@.len() == k,
            forall|kk: int|
                0 <= kk < k ==> #[trigger] new_p@[kk]@ == adam_vec_p_spec(
                    mat_view(*p)[kk],
                    mat_view(*g)[kk],
                    mat_view(*m)[kk],
                    mat_view(*v)[kk],
                    lr as int,
                    b1p as int,
                    b2p as int,
                ),
            forall|kk: int|
                0 <= kk < k ==> #[trigger] new_m@[kk]@ == adam_vec_m_spec(
                    mat_view(*m)[kk],
                    mat_view(*g)[kk],
                ),
            forall|kk: int|
                0 <= kk < k ==> #[trigger] new_v@[kk]@ == adam_vec_v_spec(
                    mat_view(*v)[kk],
                    mat_view(*g)[kk],
                ),
            forall|kk: int| 0 <= kk < k ==> all_nonneg_seq(#[trigger] new_v@[kk]@),
        decreases n - k,
    {
        let mut row_p = copy_scalars(&p[k]);
        let mut row_m = copy_scalars(&m[k]);
        let mut row_v = copy_scalars(&v[k]);
        proof {
            assert(all_nonneg_seq(mat_view(*v)[k as int]));
        }
        adam_vec(&mut row_p, &g[k], &mut row_m, &mut row_v, lr, b1p, b2p);
        new_p.push(row_p);
        new_m.push(row_m);
        new_v.push(row_v);
        k = k + 1;
    }
    proof {
        assert(mat_view(new_p) =~= adam_mat_p_spec(
            mat_view(*p),
            mat_view(*g),
            mat_view(*m),
            mat_view(*v),
            lr as int,
            b1p as int,
            b2p as int,
        ));
        assert(mat_view(new_m) =~= adam_mat_m_spec(mat_view(*m), mat_view(*g)));
        assert(mat_view(new_v) =~= adam_mat_v_spec(mat_view(*v), mat_view(*g)));
    }
    *p = new_p;
    *m = new_m;
    *v = new_v;
}

// ---------------------------------------------------------------------
// Backpropagation through the three stages
// ---------------------------------------------------------------------

/// The loss gradient at the network output: zero everywhere but at the
/// taken action, where it is the mean Huber derivative of the prediction
/// against the temporal-difference target.
pub open spec fn output_delta_spec(q: Seq<i64>, action: int, td: int, batch: int) -> Seq<i64> {
    Seq::new(
        q.len(),
        |k: int|
            if k == action {
                huber_grad_spec(fx_sub_spec(q[action] as int, td), batch) as i64
            } else {
                0i64
            },
    )
}

/// The loss gradient at the network output.
fn output_delta(q: &Vec<i64>, action: usize, td: i64, batch: usize) -> (r: Vec<i64>)
    requires
        action < q@.len(),
        batch >= 1,
    ensures
        r@ == output_delta_spec(q@, action as int, td as int, batch as int),
{
    let g = huber_grad(fx_sub(q[action], td), batch);
    let mut r: Vec<i64> = Vec::new();
    let mut k: usize = 0;
    while k < q.len()
        invariant
            action < q@.len(),
            batch >= 1,
            g == huber_grad_spec(fx_sub_spec(q@[action as int] as int, td as int), batch as int),
            k <= q@.len(),
            r@.len() == k,
            forall|kk: int|
                0 <= kk < k ==> r@[kk] == output_delta_spec(
                    q@,
                    action as int,
                    td as int,
                    batch as int,
                )[kk],
        decreases q@.len() - k,
    {
        if k == action {
            r.push(g);
        } else {
            r.push(0);
        }
        k = k + 1;
    }
    proof {
        assert(r@ =~= output_delta_spec(q@, action as int, td as int, batch as int));
    }
    r
}

/// A weight-gradient matrix grown by the outer product of the stage's
/// delta with its input activations.
pub open spec fn outer_acc_spec(dw: Seq<Seq<i64>>, delta: Seq<i64>, act: Seq<i64>) -> Seq<
    Seq<i64>,
> {
    Seq::new(
        dw.len(),
        |k: int|
            Seq::new(
                dw[k].len(),
                |j: int|
                    fx_add_spec(
                        dw[k][j] as int,
                        fx_mul_spec(delta[k] as int, act[j] as int),
                    ) as i64,
            ),
    )
}

/// Accumulate the outer product of a delta and the input activations into
/// a weight-gradient matrix.
fn outer_acc(dw: &mut Vec<Vec<i64>>, delta: &Vec<i64>, act: &Vec<i64>)
    requires
        old(dw)@.len() == delta@.len(),
        forall|k: int| 0 <= k < old(dw)@.len() ==> #[trigger] old(dw)@[k]@.len() == act@.len(),
    ensures
        mat_view(*final(dw)) == outer_acc_spec(mat_view(*old(dw)), delta@, act@),
        final(dw)@.len() == old(dw)@.len(),
        forall|k: int| 0 <= k < final(dw)@.len() ==> #[trigger] final(dw)@[k]@.len() == act@.len(),
{
    let mut r: Vec<Vec<i64>> = Vec::new();
    let mut k: usize = 0;
    while k < dw.len()
        invariant
            dw@.len() == delta@.len(),
            forall|kk: int| 0 <= kk < dw@.len() ==> #[trigger] dw@[kk]@.len() == act@.len(),
            k <= dw@.len(),
            r@.len() == k,
            forall|kk: int|
                0 <= kk < k ==> #[trigger] r@[kk]@ == outer_acc_spec(
                    mat_view(*dw),
                    delta@,
                    act@,
                )[kk],
        decreases dw@.len() - k,
    {
        let row = &dw[k];
        let d = delta[k];
        let mut new_row: Vec<i64> = Vec::new();
        let mut j: usize = 0;
        while j < row.len()
            invariant
                row@ == dw@[k as int]@,
                row@.len() == act@.len(),
                d == delta@[k as int],
                j <= row@.len(),
                new_row@.len() == j,
                forall|jj: int|
                    0 <= jj < j ==> new_row@[jj] == fx_add_spec(
                        row@[jj] as int,
                        fx_mul_spec(d as int, act@[jj] as int),
                    ) as i64,
            decreases row@.len() - j,
        {
            new_row.push(fx_add(row[j], fx_mul(d, act[j])));
            j = j + 1;
        }
        proof {
            assert(new_row@ =~= outer_acc_spec(mat_view(*dw), delta@, act@)[k as int]);
        }
        r.push(new_row);
        k = k + 1;
    }
    proof {
        assert(mat_view(r) =~= outer_acc_spec(mat_view(*dw), delta@, act@));
    }
    *dw = r;
}

/// A bias-gradient vector grown by the stage's delta.
pub open spec fn vec_acc_spec(db: Seq<i64>, delta: Seq<i64>) -> Seq<i64> {
    Seq::new(db.len(), |k: int| fx_add_spec(db[k] as int, delta[k] as int) as i64)
}

/// Accumulate a delta into a bias-gradient vector.
fn vec_acc(db: &mut Vec<i64>, delta: &Vec<i64>)
    requires
        old(db)@.len() == delta@.len(),
    ensures
        final(db)@ == vec_acc_spec(old(db)@, delta@),
        final(db)@.len() == old(db)@.len(),
{
    let mut r: Vec<i64> = Vec::new();
    let mut k: usize = 0;
    while k < db.len()
        invariant
            db@.len() == delta@.len(),
            k <= db@.len(),
            r@.len() == k,
            forall|kk: int| 0 <= kk < k ==> r@[kk] == vec_acc_spec(db@, delta@)[kk],
        decreases db@.len() - k,
    {
        r.push(fx_add(db[k], delta[k]));
        k = k + 1;
    }
    proof {
        assert(r@ =~= vec_acc_spec(db@, delta@));
    }
    *db = r;
}

/// The fixed-point fold of a delta against one weight column, over the
/// first `n` output units.
pub open spec fn col_prefix(w: Seq<Seq<i64>>, delta: Seq<i64>, j: int, n: int) -> int
    decreases n,
{
    if n <= 0 {
        0
    } else {
        fx_add_spec(
            col_prefix(w, delta, j, n - 1),
            fx_mul_spec(delta[n - 1] as int, w[n - 1][j] as int),
        )
    }
}

/// A stage's delta pulled back through its weights: the transposed
/// matrix-vector product, one fold per input coordinate.
pub open spec fn matt_vec_spec(w: Seq<Seq<i64>>, delta: Seq<i64>, in_dim: int) -> Seq<i64> {
    Seq::new(in_dim as nat, |j: int| col_prefix(w, delta, j, w.len() as int) as i64)
}

/// Pull a delta back through a stage's weights.
fn matt_vec(w: &Vec<Vec<i64>>, delta: &Vec<i64>, in_dim: usize) -> (r: Vec<i64>)
    requires
        w@.len() == delta@.len(),
        forall|k: int| 0 <= k < w@.len() ==> #[trigger] w@[k]@.len() == in_dim,
    ensures
        r@ == matt_vec_spec(mat_view(*w), delta@, in_dim as int),
        r@.len() == in_dim,
{
    let mut r: Vec<i64> = Vec::new();
    let mut j: usize = 0;
    while j < in_dim
        invariant
            w@.len() == delta@.len(),
            forall|k: int| 0 <= k < w@.len() ==> #[trigger] w@[k]@.len() == in_dim,
            j <= in_dim,
            r@.len() == j,
            forall|jj: int|
                0 <= jj < j ==> r@[jj] == matt_vec_spec(mat_view(*w), delta@, in_dim as int)[jj],
        decreases in_dim - j,
    {
        let mut acc: i64 = 0;
        let mut k: usize = 0;
        while k < w.len()
            invariant
                w@.len() == delta@.len(),
                forall|kk: int| 0 <= kk < w@.len() ==> #[trigger] w@[kk]@.len() == in_dim,
                j < in_dim,
                k <= w@.len(),
                acc == col_prefix(mat_view(*w), delta@, j as int, k as int),
            decreases w@.len() - k,
        {
            acc = fx_add(acc, fx_mul(delta[k], w[k][j]));
            k = k + 1;
        }
        r.push(acc);
        j = j + 1;
    }
    proof {
        assert(r@ =~= matt_vec_spec(mat_view(*w), delta@, in_dim as int));
    }
    r
}

/// A delta gated by the rectifier: it passes only where the stage's
/// pre-activation was positive.
pub open spec fn relu_mask_spec(pre: Seq<i64>, da: Seq<i64>) -> Seq<i64> {
    Seq::new(
        da.len(),
        |j: int|
            if pre[j] > 0 {
                da[j]
            } else {
                0i64
            },
    )
}

/// Gate a delta by the rectifier's derivative.
fn relu_mask(pre: &Vec<i64>, da: &Vec<i64>) -> (r: Vec<i64>)
    requires
        pre@.len() == da@.len(),
    ensures
        r@ == relu_mask_spec(pre@, da@),
{
    let mut r: Vec<i64> = Vec::new();
    let mut j: usize = 0;
    while j < da.len()
        invariant
            pre@.len() == da@.len(),
            j <= da@.len(),
            r@.len() == j,
            forall|jj: int| 0 <= jj < j ==> r@[jj] == relu_mask_spec(pre@, da@)[jj],
        decreases da@.len() - j,
    {
        if pre[j] > 0 {
            r.push(da[j]);
        } else {
            r.push(0);
        }
        j = j + 1;
    }
    proof {
        assert(r@ =~= relu_mask_spec(pre@, da@));
    }
    r
}

/// The output-stage delta for one sampled transition.
pub open spec fn sample_delta3_spec(
    m: DQNModel,
    state: Seq<i64>,
    action: int,
    td: int,
    batch: int,
) -> Seq<i64> {
    output_delta_spec(m.forward_single_spec(state), action, td, batch)
}

/// The middle-stage delta for one sampled transition.
pub open spec fn sample_delta2_spec(
    m: DQNModel,
    state: Seq<i64>,
    action: int,
    td: int,
    batch: int,
) -> Seq<i64> {
    let z1 = m.linear1.forward_spec(state);
    let z2 = m.linear2.forward_spec(relu_spec(z1));
    relu_mask_spec(
        z2,
        matt_vec_spec(
            mat_view(m.linear3.weights),
            sample_delta3_spec(m, state, action, td, batch),
            z2.len() as int,
        ),
    )
}

/// The input-stage delta for one sampled transition.
pub open spec fn sample_delta1_spec(
    m: DQNModel,
    state: Seq<i64>,
    action: int,
    td: int,
    batch: int,
) -> Seq<i64> {
    let z1 = m.linear1.forward_spec(state);
    relu_mask_spec(
        z1,
        matt_vec_spec(
            mat_view(m.linear2.weights),
            sample_delta2_spec(m, state, action, td, batch),
            z1.len() as int,
        ),
    )
}

/// A gradient set grown by the contribution of one sampled transition:
/// the analytic derivative of its share of the mean Huber loss.
pub open spec fn add_sample_grads_spec(
    m: DQNModel,
    g: ModelGradsV,
    state: Seq<i64>,
    action: int,
    td: int,
    batch: int,
) -> ModelGradsV {
    let a1 = relu_spec(m.linear1.forward_spec(state));
    let a2 = relu_spec(m.linear2.forward_spec(a1));
    let d3 = sample_delta3_spec(m, state, action, td, batch);
    let d2 = sample_delta2_spec(m, state, action, td, batch);
    let d1 = sample_delta1_spec(m, state, action, td, batch);
    ModelGradsV {
        l1: LayerParamsV { w: outer_acc_spec(g.l1.w, d1, state), b: vec_acc_spec(g.l1.b, d1) },
        l2: LayerParamsV { w: outer_acc_spec(g.l2.w, d2, a1), b: vec_acc_spec(g.l2.b, d2) },
        l3: LayerParamsV { w: outer_acc_spec(g.l3.w, d3, a2), b: vec_acc_spec(g.l3.b, d3) },
    }
}

/// Accumulate into `grads` the gradients of one sampled transition's
/// share of the mean Huber loss with respect to every policy parameter.
fn backward_sample(
    policy: &DQNModel,
    state: &Vec<i64>,
    action: usize,
    td: i64,
    batch: usize,
    grads: &mut ModelGrads,
)
    requires
        policy.wf(),
        state@.len() == policy.in_dim(),
        action < policy.out_dim(),
        batch >= 1,
        grads_shaped_like(old(grads)@, *policy),
    ensures
        final(grads)@ == add_sample_grads_spec(
            *policy,
            old(grads)@,
            state@,
            action as int,
            td as int,
            batch as int,
        ),
        grads_shaped_like(final(grads)@, *policy),
{
    let z1 = policy.linear1.forward(state);
    let a1 = relu(&z1);
    let z2 = policy.linear2.forward(&a1);
    let a2 = relu(&z2);
    let q = policy.linear3.forward(&a2);
    let d3 = output_delta(&q, action, td, batch);
    let back3 = matt_vec(&policy.linear3.weights, &d3, policy.linear3.in_dim);
    let d2 = relu_mask(&z2, &back3);
    let back2 = matt_vec(&policy.linear2.weights, &d2, policy.linear2.in_dim);
    let d1 = relu_mask(&z1, &back2);
    proof {
        assert forall|k: int|
            0 <= k < grads.l3.weights@.len() implies #[trigger] grads.l3.weights@[k]@.len()
            == a2@.len() by {
            assert(mat_view(grads.l3.weights)[k] == grads.l3.weights@[k]@);
            assert(grads@.l3.w[k].len() == policy.linear3.in_dim as int);
        }
        assert forall|k: int|
            0 <= k < grads.l2.weights@.len() implies #[trigger] grads.l2.weights@[k]@.len()
            == a1@.len() by {
            assert(mat_view(grads.l2.weights)[k] == grads.l2.weights@[k]@);
            assert(grads@.l2.w[k].len() == policy.linear2.in_dim as int);
        }
        assert forall|k: int|
            0 <= k < grads.l1.weights@.len() implies #[trigger] grads.l1.weights@[k]@.len()
            == state@.len() by {
            assert(mat_view(grads.l1.weights)[k] == grads.l1.weights@[k]@);
            assert(grads@.l1.w[k].len() == policy.linear1.in_dim as int);
        }
    }
    outer_acc(&mut grads.l3.weights, &d3, &a2);
    vec_acc(&mut grads.l3.bias, &d3);
    outer_acc(&mut grads.l2.weights, &d2, &a1);
    vec_acc(&mut grads.l2.bias, &d2);
    outer_acc(&mut grads.l1.weights, &d1, state);
    vec_acc(&mut grads.l1.bias, &d1);
}

// ---------------------------------------------------------------------
// The optimizer state and the whole optimizer step
// ---------------------------------------------------------------------

/// Whether every scalar of a set is non-negative.
pub open spec fn params_nonneg(p: LayerParamsV) -> bool {
    all_nonneg_mat(p.w) && all_nonneg_seq(p.b)
}

/// The Adam-style optimizer state: one first-moment and one second-moment
/// estimate per policy-network parameter, the running powers of the two
/// decay rates for bias correction, and the step counter.
pub struct ModelOptimizer {
    pub step_count: usize,
    /// `ADAM_BETA1` to the power `step_count`, in fixed point.
    pub beta1_pow: i64,
    /// `ADAM_BETA2` to the power `step_count`, in fixed point.
    pub beta2_pow: i64,
    pub m1: LayerParams,
    pub v1: LayerParams,
    pub m2: LayerParams,
    pub v2: LayerParams,
    pub m3: LayerParams,
    pub v3: LayerParams,
}

impl ModelOptimizer {
    /// The moment estimates have exactly the model's shape.
    pub open spec fn matches(&self, m: DQNModel) -> bool {
        &&& shaped_like(self.m1@, m.linear1.out_dim(), m.linear1.in_dim as int)
        &&& shaped_like(self.v1@, m.linear1.out_dim(), m.linear1.in_dim as int)
        &&& shaped_like(self.m2@, m.linear2.out_dim(), m.linear2.in_dim as int)
        &&& shaped_like(self.v2@, m.linear2.out_dim(), m.linear2.in_dim as int)
        &&& shaped_like(self.m3@, m.linear3.out_dim(), m.linear3.in_dim as int)
        &&& shaped_like(self.v3@, m.linear3.out_dim(), m.linear3.in_dim as int)
    }

    /// The decay powers are probabilities and the second moments are
    /// non-negative.
    pub open spec fn wf(&self) -> bool {
        &&& 0 <= self.beta1_pow <= SCALE
        &&& 0 <= self.beta2_pow <= SCALE
        &&& params_nonneg(self.v1@)
        &&& params_nonneg(self.v2@)
        &&& params_nonneg(self.v3@)
    }

    /// A fresh optimizer for a model: no steps yet, zero moments, both
    /// decay powers at one.
    pub fn new(model: &DQNModel) -> (r: ModelOptimizer)
        requires
            model.wf(),
        ensures
            r.matches(*model),
            r.wf(),
            r.step_count == 0,
            r.beta1_pow == SCALE,
            r.beta2_pow == SCALE,
            r.m1@ == (LayerParamsV {
                w: zero_mat_spec(model.linear1.out_dim(), model.linear1.in_dim as int),
                b: zero_seq(model.linear1.out_dim()),
            }),
            r.v1@ == r.m1@,
            r.m2@ == (LayerParamsV {
                w: zero_mat_spec(model.linear2.out_dim(), model.linear2.in_dim as int),
                b: zero_seq(model.linear2.out_dim()),
            }),
            r.v2@ == r.m2@,
            r.m3@ == (LayerParamsV {
                w: zero_mat_spec(model.linear3.out_dim(), model.linear3.in_dim as int),
                b: zero_seq(model.linear3.out_dim()),
            }),
            r.v3@ == r.m3@,
    {
        let r = ModelOptimizer {
            step_count: 0,
            beta1_pow: SCALE,
            beta2_pow: SCALE,
            m1: zero_layer_params(&model.linear1),
            v1: zero_layer_params(&model.linear1),
            m2: zero_layer_params(&model.linear2),
            v2: zero_layer_params(&model.linear2),
            m3: zero_layer_params(&model.linear3),
            v3: zero_layer_params(&model.linear3),
        };
        proof {
            assert forall|k: int| 0 <= k < r.v1@.w.len() implies all_nonneg_seq(
                #[trigger] r.v1@.w[k],
            ) by {}
            assert forall|k: int| 0 <= k < r.v2@.w.len() implies all_nonneg_seq(
                #[trigger] r.v2@.w[k],
            ) by {}
            assert forall|k: int| 0 <= k < r.v3@.w.len() implies all_nonneg_seq(
                #[trigger] r.v3@.w[k],
            ) by {}
        }
        r
    }
}

/// The temporal-difference target of one sampled transition: its reward
/// plus the discounted greatest target-network Q-value of its next state,
/// zero bootstrap on terminal transitions.
pub open spec fn sample_td_spec(target: DQNModel, gamma: int, rec: RecordV) -> int {
    td_target_spec(
        rec.reward,
        rec.done,
        max_q_spec(target.forward_single_spec(rec.next_state)),
        gamma,
    )
}

/// The gradients accumulated over the first `n` transitions of a batch,
/// starting from zero.
pub open spec fn batch_grads_spec(
    policy: DQNModel,
    target: DQNModel,
    gamma: int,
    recs: Seq<RecordV>,
    n: int,
    bsize: int,
) -> ModelGradsV
    decreases n,
{
    if n <= 0 {
        zero_grads_spec(policy)
    } else {
        add_sample_grads_spec(
            policy,
            batch_grads_spec(policy, target, gamma, recs, n - 1, bsize),
            recs[n - 1].state,
            recs[n - 1].action,
            sample_td_spec(target, gamma, recs[n - 1]),
            bsize,
        )
    }
}

/// What one optimizer step does with a given gradient set: the step
/// counter advances, the decay powers take one more factor, every moment
/// estimate follows its recurrence, and every policy parameter takes one
/// Adam-style step.
pub open spec fn adam_step_relation(
    oldp: DQNModel,
    newp: DQNModel,
    oldo: ModelOptimizer,
    newo: ModelOptimizer,
    g: ModelGradsV,
    lr: int,
) -> bool {
    let b1p = fx_mul_spec(oldo.beta1_pow as int, ADAM_BETA1 as int);
    let b2p = fx_mul_spec(oldo.beta2_pow as int, ADAM_BETA2 as int);
    &&& newo.step_count == oldo.step_count + 1
    &&& newo.beta1_pow == b1p
    &&& newo.beta2_pow == b2p
    &&& mat_view(newp.linear1.weights) == adam_mat_p_spec(
        mat_view(oldp.linear1.weights),
        g.l1.w,
        oldo.m1@.w,
        oldo.v1@.w,
        lr,
        b1p,
        b2p,
    )
    &&& newp.linear1.bias@ == adam_vec_p_spec(
        oldp.linear1.bias@,
        g.l1.b,
        oldo.m1@.b,
        oldo.v1@.b,
        lr,
        b1p,
        b2p,
    )
    &&& newo.m1@.w == adam_mat_m_spec(oldo.m1@.w, g.l1.w)
    &&& newo.m1@.b == adam_vec_m_spec(oldo.m1@.b, g.l1.b)
    &&& newo.v1@.w == adam_mat_v_spec(oldo.v1@.w, g.l1.w)
    &&& newo.v1@.b == adam_vec_v_spec(oldo.v1@.b, g.l1.b)
    &&& mat_view(newp.linear2.weights) == adam_mat_p_spec(
        mat_view(oldp.linear2.weights),
        g.l2.w,
        oldo.m2@.w,
        oldo.v2@.w,
        lr,
        b1p,
        b2p,
    )
    &&& newp.linear2.bias@ == adam_vec_p_spec(
        oldp.linear2.bias@,
        g.l2.b,
        oldo.m2@.b,
        oldo.v2@.b,
        lr,
        b1p,
        b2p,
    )
    &&& newo.m2@.w == adam_mat_m_spec(oldo.m2@.w, g.l2.w)
    &&& newo.m2@.b == adam_vec_m_spec(oldo.m2@.b, g.l2.b)
    &&& newo.v2@.w == adam_mat_v_spec(oldo.v2@.w, g.l2.w)
    &&& newo.v2@.b == adam_vec_v_spec(oldo.v2@.b, g.l2.b)
    &&& mat_view(newp.linear3.weights) == adam_mat_p_spec(
        mat_view(oldp.linear3.weights),
        g.l3.w,
        oldo.m3@.w,
        oldo.v3@.w,
        lr,
        b1p,
        b2p,
    )
    &&& newp.linear3.bias@ == adam_vec_p_spec(
        oldp.linear3.bias@,
        g.l3.b,
        oldo.m3@.b,
        oldo.v3@.b,
        lr,
        b1p,
        b2p,
    )
    &&& newo.m3@.w == adam_mat_m_spec(oldo.m3@.w, g.l3.w)
    &&& newo.m3@.b == adam_vec_m_spec(oldo.m3@.b, g.l3.b)
    &&& newo.v3@.w == adam_mat_v_spec(oldo.v3@.w, g.l3.w)
    &&& newo.v3@.b == adam_vec_v_spec(oldo.v3@.b, g.l3.b)
    &&& newp.linear1.in_dim == oldp.linear1.in_dim
    &&& newp.linear2.in_dim == oldp.linear2.in_dim
    &&& newp.linear3.in_dim == oldp.linear3.in_dim
}

/// A probability times a probability stays below the right factor.
proof fn lemma_pow_advance(pow: int, beta: int)
    requires
        0 <= pow <= SCALE,
        0 <= beta <= SCALE,
    ensures
        0 <= fx_mul_spec(pow, beta) <= beta,
{
    vstd::arithmetic::mul::lemma_mul_nonnegative(pow, beta);
    vstd::arithmetic::div_mod::lemma_div_pos_is_pos(pow * beta, SCALE as int);
    assert(pow * beta <= (SCALE as int) * beta) by {
        vstd::arithmetic::mul::lemma_mul_inequality(pow, SCALE as int, beta);
    }
    vstd::arithmetic::div_mod::lemma_div_is_ordered(
        pow * beta,
        (SCALE as int) * beta,
        SCALE as int,
    );
    lemma_div_multiples_vanish(beta, SCALE as int);
}

/// The rows of a vector-of-rows shaped like a stage all have the stage's
/// input width.
proof fn lemma_shaped_rows(p: LayerParamsV, w: Vec<Vec<i64>>, out_dim: int, in_dim: int)
    requires
        shaped_like(p, out_dim, in_dim),
        p.w == mat_view(w),
    ensures
        w@.len() == out_dim,
        forall|k: int| 0 <= k < w@.len() ==> #[trigger] w@[k]@.len() == in_dim,
{
    assert forall|k: int| 0 <= k < w@.len() implies #[trigger] w@[k]@.len() == in_dim by {
        assert(mat_view(w)[k] == w@[k]@);
        assert(p.w[k].len() == in_dim);
    }
}

/// Apply one Adam-style update to a whole linear stage and its moments.
fn adam_layer(
    layer: &mut LinearLayer,
    g: &LayerParams,
    m: &mut LayerParams,
    v: &mut LayerParams,
    lr: i64,
    b1p: i64,
    b2p: i64,
)
    requires
        old(layer).wf(),
        shaped_like(g@, old(layer).out_dim(), old(layer).in_dim as int),
        shaped_like(old(m)@, old(layer).out_dim(), old(layer).in_dim as int),
        shaped_like(old(v)@, old(layer).out_dim(), old(layer).in_dim as int),
        params_nonneg(old(v)@),
        0 <= b1p < SCALE,
        0 <= b2p < SCALE,
    ensures
        final(layer).wf(),
        final(layer).in_dim == old(layer).in_dim,
        final(layer).out_dim() == old(layer).out_dim(),
        mat_view(final(layer).weights) == adam_mat_p_spec(
            mat_view(old(layer).weights),
            g@.w,
            old(m)@.w,
            old(v)@.w,
            lr as int,
            b1p as int,
            b2p as int,
        ),
        final(layer).bias@ == adam_vec_p_spec(
            old(layer).bias@,
            g@.b,
            old(m)@.b,
            old(v)@.b,
            lr as int,
            b1p as int,
            b2p as int,
        ),
        final(m)@.w == adam_mat_m_spec(old(m)@.w, g@.w),
        final(m)@.b == adam_vec_m_spec(old(m)@.b, g@.b),
        final(v)@.w == adam_mat_v_spec(old(v)@.w, g@.w),
        final(v)@.b == adam_vec_v_spec(old(v)@.b, g@.b),
        shaped_like(final(m)@, old(layer).out_dim(), old(layer).in_dim as int),
        shaped_like(final(v)@, old(layer).out_dim(), old(layer).in_dim as int),
        params_nonneg(final(v)@),
{
    proof {
        lemma_shaped_rows(g@, g.weights, layer.out_dim(), layer.in_dim as int);
        lemma_shaped_rows(m@, m.weights, layer.out_dim(), layer.in_dim as int);
        lemma_shaped_rows(v@, v.weights, layer.out_dim(), layer.in_dim as int);
    }
    adam_mat(&mut layer.weights, &g.weights, &mut m.weights, &mut v.weights, lr, b1p, b2p);
    adam_vec(&mut layer.bias, &g.bias, &mut m.bias, &mut v.bias, lr, b1p, b2p);
    proof {
        assert forall|k: int| 0 <= k < m@.w.len() implies #[trigger] m@.w[k].len() == old(
            layer,
        ).in_dim as int by {
            assert(m@.w[k] == m.weights@[k]@);
        }
        assert forall|k: int| 0 <= k < v@.w.len() implies #[trigger] v@.w[k].len() == old(
            layer,
        ).in_dim as int by {
            assert(v@.w[k] == v.weights@[k]@);
        }
        assert forall|k: int| 0 <= k < layer.weights@.len() implies #[trigger] layer.weights@[k]@.len()
            == old(layer).in_dim by {
            assert(mat_view(layer.weights)[k] == layer.weights@[k]@);
        }
        assert forall|k: int| 0 <= k < v@.w.len() implies all_nonneg_seq(#[trigger] v@.w[k]) by {
            assert(v@.w[k] == v.weights@[k]@);
        }
    }
}

/// Run one whole optimizer step on an already-sampled batch: accumulate
/// the analytic gradients of the batch's mean Huber loss and apply the
/// Adam-style update to the policy network. The target network only
/// provides the bootstrap values and is not touched.
pub fn optimize_on_batch(
    policy: &mut DQNModel,
    target: &DQNModel,
    optimizer: &mut ModelOptimizer,
    transitions: &Vec<Memory_Record>,
    gamma: i64,
    lr: i64,
)
    requires
        old(policy).wf(),
        old(policy).out_dim() >= 1,
        target.wf(),
        target.out_dim() >= 1,
        transitions@.len() >= 1,
        forall|i: int|
            0 <= i < transitions@.len() ==> (#[trigger] transitions@[i]@.state).len() == old(
                policy,
            ).in_dim(),
        forall|i: int|
            0 <= i < transitions@.len() ==> (#[trigger] transitions@[i]@.next_state).len()
                == target.in_dim(),
        forall|i: int|
            0 <= i < transitions@.len() ==> 0 <= #[trigger] transitions@[i]@.action < old(
                policy,
            ).out_dim(),
        old(optimizer).matches(*old(policy)),
        old(optimizer).wf(),
        old(optimizer).step_count < usize::MAX,
    ensures
        final(policy).wf(),
        final(policy).in_dim() == old(policy).in_dim(),
        final(policy).out_dim() == old(policy).out_dim(),
        final(policy).linear1.out_dim() == old(policy).linear1.out_dim(),
        final(policy).linear2.out_dim() == old(policy).linear2.out_dim(),
        final(optimizer).matches(*final(policy)),
        final(optimizer).wf(),
        adam_step_relation(
            *old(policy),
            *final(policy),
            *old(optimizer),
            *final(optimizer),
            batch_grads_spec(
                *old(policy),
                *target,
                gamma as int,
                records_view(transitions@),
                transitions@.len() as int,
                transitions@.len() as int,
            ),
            lr as int,
        ),
{
    let bsize = transitions.len();
    let mut grads = zero_grads(policy);
    let mut i: usize = 0;
    while i < bsize
        invariant
            policy.wf(),
            policy.out_dim() >= 1,
            target.wf(),
            target.out_dim() >= 1,
            bsize == transitions@.len(),
            bsize >= 1,
            forall|ii: int|
                0 <= ii < transitions@.len() ==> (#[trigger] transitions@[ii]@.state).len()
                    == policy.in_dim(),
            forall|ii: int|
                0 <= ii < transitions@.len() ==> (#[trigger] transitions@[ii]@.next_state).len()
                    == target.in_dim(),
            forall|ii: int|
                0 <= ii < transitions@.len() ==> 0 <= #[trigger] transitions@[ii]@.action
                    < policy.out_dim(),
            i <= bsize,
            grads_shaped_like(grads@, *policy),
            grads@ == batch_grads_spec(
                *policy,
                *target,
                gamma as int,
                records_view(transitions@),
                i as int,
                bsize as int,
            ),
        decreases bsize - i,
    {
        let rec = &transitions[i];
        proof {
            assert(records_view(transitions@)[i as int] == rec@);
            assert((transitions@[i as int]@.state).len() == policy.in_dim());
            assert((transitions@[i as int]@.next_state).len() == target.in_dim());
            assert(0 <= transitions@[i as int]@.action < policy.out_dim());
            assert(rec@.state == rec.state@);
            assert(rec@.next_state == rec.next_state@);
        }
        let max_next: i64;
        if rec.done {
            max_next = 0;
        } else {
            let nq = target.forward_single(&rec.next_state);
            max_next = max_q(&nq);
        }
        let td = compute_td_target(rec.reward, rec.done, max_next, gamma);
        proof {
            assert(td == sample_td_spec(*target, gamma as int, rec@));
        }
        backward_sample(policy, &rec.state, rec.action, td, bsize, &mut grads);
        i = i + 1;
    }
    optimizer.step_count = optimizer.step_count + 1;
    proof {
        lemma_pow_advance(optimizer.beta1_pow as int, ADAM_BETA1 as int);
        lemma_pow_advance(optimizer.beta2_pow as int, ADAM_BETA2 as int);
    }
    let b1p = fx_mul(optimizer.beta1_pow, ADAM_BETA1);
    let b2p = fx_mul(optimizer.beta2_pow, ADAM_BETA2);
    optimizer.beta1_pow = b1p;
    optimizer.beta2_pow = b2p;
    adam_layer(
        &mut policy.linear1,
        &grads.l1,
        &mut optimizer.m1,
        &mut optimizer.v1,
        lr,
        b1p,
        b2p,
    );
    adam_layer(
        &mut policy.linear2,
        &grads.l2,
        &mut optimizer.m2,
        &mut optimizer.v2,
        lr,
        b1p,
        b2p,
    );
    adam_layer(
        &mut policy.linear3,
        &grads.l3,
        &mut optimizer.m3,
        &mut optimizer.v3,
        lr,
        b1p,
        b2p,
    );
}

/// One optimizer step: a no-op while the memory holds fewer records than
/// one batch, otherwise sample a batch with replacement and update the
/// policy network from its gradients. The memory itself is never changed.
pub fn optimize_model(
    dqn_memory: &mut DQNMemory,
    policy_net: &mut DQNModel,
    target_net: &DQNModel,
    dqn_agent: &DQNAgent,
    optimizer: &mut ModelOptimizer,
)
    requires
        old(policy_net).wf(),
        old(policy_net).out_dim() >= 1,
        target_net.wf(),
        target_net.out_dim() >= 1,
        dqn_agent.batch_size >= 1,
        forall|j: int|
            0 <= j < old(dqn_memory)@.len() ==> (#[trigger] old(dqn_memory)@[j].state).len() == old(
                policy_net,
            ).in_dim(),
        forall|j: int|
            0 <= j < old(dqn_memory)@.len() ==> (#[trigger] old(dqn_memory)@[j].next_state).len()
                == target_net.in_dim(),
        forall|j: int|
            0 <= j < old(dqn_memory)@.len() ==> 0 <= #[trigger] old(dqn_memory)@[j].action < old(
                policy_net,
            ).out_dim(),
        old(optimizer).matches(*old(policy_net)),
        old(optimizer).wf(),
        old(optimizer).step_count < usize::MAX,
    ensures
        *final(dqn_memory) == *old(dqn_memory),
        old(dqn_memory)@.len() < dqn_agent.batch_size ==> *final(policy_net) == *old(policy_net)
            && *final(optimizer) == *old(optimizer),
        old(dqn_memory)@.len() >= dqn_agent.batch_size ==> exists|recs: Seq<RecordV>|
            {
                &&& recs.len() == dqn_agent.batch_size
                &&& (forall|i: int|
                    0 <= i < recs.len() ==> contains_record(old(dqn_memory)@, #[trigger] recs[i]))
                &&& adam_step_relation(
                    *old(policy_net),
                    *final(policy_net),
                    *old(optimizer),
                    *final(optimizer),
                    batch_grads_spec(
                        *old(policy_net),
                        *target_net,
                        dqn_agent.gamma as int,
                        recs,
                        dqn_agent.batch_size as int,
                        dqn_agent.batch_size as int,
                    ),
                    dqn_agent.learning_rate as int,
                )
            },
        final(policy_net).wf(),
        final(policy_net).in_dim() == old(policy_net).in_dim(),
        final(policy_net).out_dim() == old(policy_net).out_dim(),
        final(policy_net).linear1.out_dim() == old(policy_net).linear1.out_dim(),
        final(policy_net).linear2.out_dim() == old(policy_net).linear2.out_dim(),
        final(optimizer).matches(*final(policy_net)),
        final(optimizer).wf(),
{
    if dqn_memory.len() < dqn_agent.batch_size {
        return ;
    }
    let transitions = dqn_memory.sample(dqn_agent.batch_size);
    proof {
        assert forall|i: int|
            0 <= i < transitions@.len() implies (#[trigger] transitions@[i]@.state).len()
            == policy_net.in_dim() && (transitions@[i]@.next_state).len() == target_net.in_dim()
            && 0 <= transitions@[i]@.action < policy_net.out_dim() by {
            assert(contains_record(dqn_memory@, transitions@[i]@));
            let j = choose|j: int|
                0 <= j < dqn_memory@.len() && dqn_memory@[j] == transitions@[i]@;
            assert(dqn_memory@[j] == dqn_memory.replay_buffer@[j]@);
        }
    }
    optimize_on_batch(
        policy_net,
        target_net,
        optimizer,
        &transitions,
        dqn_agent.gamma,
        dqn_agent.learning_rate,
    );
    proof {
        let w = records_view(transitions@);
        assert(w.len() == dqn_agent.batch_size);
        assert forall|i: int| 0 <= i < w.len() implies contains_record(
            old(dqn_memory)@,
            #[trigger] w[i],
        ) by {
            assert(w[i] == transitions@[i]@);
            assert(contains_record(dqn_memory@, transitions@[i]@));
        }
        assert(adam_step_relation(
            *old(policy_net),
            *policy_net,
            *old(optimizer),
            *optimizer,
            batch_grads_spec(
                *old(policy_net),
                *target_net,
                dqn_agent.gamma as int,
                w,
                dqn_agent.batch_size as int,
                dqn_agent.batch_size as int,
            ),
            dqn_agent.learning_rate as int,
        ));
    }
}

} // verus!
