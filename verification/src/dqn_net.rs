//! The Q-network: three linear stages with a rectifier between consecutive
//! stages, in saturating fixed point. A forward pass is a pure function of
//! the parameters and the input.

use vstd::prelude::*;
use crate::fixed::{fx_add, fx_add_spec, fx_mul, fx_mul_spec, SCALE};
use crate::rng::random_below;

verus! {

/// Width of the two hidden stages.
pub const HIDDEN_WIDTH: usize = 64;

/// The sequence of rows of a weight matrix.
pub open spec fn mat_view(w: Vec<Vec<i64>>) -> Seq<Seq<i64>> {
    Seq::new(w@.len(), |k: int| w@[k]@)
}

/// Fixed-point dot product of the first `n` coordinates, folded left to
/// right through the saturating operations, started from `acc0`.
pub open spec fn dot_prefix(row: Seq<i64>, x: Seq<i64>, n: int, acc0: int) -> int
    decreases n,
{
    if n <= 0 {
        acc0
    } else {
        fx_add_spec(
            dot_prefix(row, x, n - 1, acc0),
            fx_mul_spec(row[n - 1] as int, x[n - 1] as int),
        )
    }
}

/// The value of one output unit: its bias plus the dot product of its
/// weight row with the input.
pub open spec fn neuron_spec(row: Seq<i64>, bias: i64, x: Seq<i64>) -> int {
    dot_prefix(row, x, row.len() as int, bias as int)
}

/// What one linear stage returns on an input.
pub open spec fn layer_forward_spec(w: Seq<Seq<i64>>, b: Seq<i64>, x: Seq<i64>) -> Seq<i64> {
    Seq::new(w.len(), |k: int| neuron_spec(w[k], b[k], x) as i64)
}

/// What the rectifier returns: negative coordinates become zero.
pub open spec fn relu_spec(x: Seq<i64>) -> Seq<i64> {
    Seq::new(x.len(), |i: int| if x[i] < 0 { 0i64 } else { x[i] })
}

/// One linear stage of the network.
pub struct LinearLayer {
    /// Input width of this stage.
    pub in_dim: usize,
    /// One weight row per output unit, each as long as the input.
    pub weights: Vec<Vec<i64>>,
    /// One bias per output unit.
    pub bias: Vec<i64>,
}

impl LinearLayer {
    /// The shapes agree: one bias and one full-width row per output unit.
    pub open spec fn wf(&self) -> bool {
        &&& self.weights@.len() == self.bias@.len()
        &&& forall|k: int| 0 <= k < self.weights@.len() ==> self.weights@[k]@.len() == self.in_dim
    }

    /// Output width of this stage.
    pub open spec fn out_dim(&self) -> int {
        self.weights@.len() as int
    }

    /// What this stage returns on an input.
    pub open spec fn forward_spec(&self, x: Seq<i64>) -> Seq<i64> {
        layer_forward_spec(mat_view(self.weights), self.bias@, x)
    }

    /// Apply this linear stage to an input vector.
    pub fn forward(&self, x: &Vec<i64>) -> (out: Vec<i64>)
        requires
            self.wf(),
            x@.len() == self.in_dim,
        ensures
            out@ == self.forward_spec(x@),
    {
        let mut out: Vec<i64> = Vec::new();
        let mut k: usize = 0;
        while k < self.weights.len()
            invariant
                self.wf(),
                x@.len() == self.in_dim,
                k <= self.weights@.len(),
                out@.len() == k,
                forall|kk: int|
                    0 <= kk < k ==> out@[kk] == neuron_spec(
                        mat_view(self.weights)[kk],
                        self.bias@[kk],
                        x@,
                    ) as i64,
            decreases self.weights@.len() - k,
        {
            let row = &self.weights[k];
            let mut acc: i64 = self.bias[k];
            let mut j: usize = 0;
            while j < row.len()
                invariant
                    row@ == self.weights@[k as int]@,
                    x@.len() == self.in_dim,
                    row@.len() == self.in_dim,
                    j <= row@.len(),
                    acc == dot_prefix(row@, x@, j as int, self.bias@[k as int] as int),
                    k < self.weights@.len(),
                    self.wf(),
                decreases row@.len() - j,
            {
                acc = fx_add(acc, fx_mul(row[j], x[j]));
                j = j + 1;
            }
            proof {
                assert(mat_view(self.weights)[k as int] == row@);
            }
            out.push(acc);
            k = k + 1;
        }
        proof {
            assert(out@ =~= self.forward_spec(x@));
        }
        out
    }
}

/// Zero out the negative coordinates of a vector.
pub fn relu(x: &Vec<i64>) -> (out: Vec<i64>)
    ensures
        out@ == relu_spec(x@),
{
    let mut out: Vec<i64> = Vec::new();
    let mut i: usize = 0;
    while i < x.len()
        invariant
            i <= x@.len(),
            out@.len() == i,
            forall|ii: int| 0 <= ii < i ==> out@[ii] == relu_spec(x@)[ii],
        decreases x@.len() - i,
    {
        let v = x[i];
        if v < 0 {
            out.push(0);
        } else {
            out.push(v);
        }
        i = i + 1;
    }
    proof {
        assert(out@ =~= relu_spec(x@));
    }
    out
}

/// The Q-value function approximator: three linear stages with rectifiers
/// between them.
pub struct DQNModel {
    pub linear1: LinearLayer,
    pub linear2: LinearLayer,
    pub linear3: LinearLayer,
}

impl DQNModel {
    /// The three stages chain: each stage reads the width the previous one
    /// writes.
    pub open spec fn wf(&self) -> bool {
        &&& self.linear1.wf()
        &&& self.linear2.wf()
        &&& self.linear3.wf()
        &&& self.linear2.in_dim == self.linear1.out_dim()
        &&& self.linear3.in_dim == self.linear2.out_dim()
    }

    /// The observation width the model reads.
    pub open spec fn in_dim(&self) -> int {
        self.linear1.in_dim as int
    }

    /// The number of actions the model scores.
    pub open spec fn out_dim(&self) -> int {
        self.linear3.out_dim()
    }

    /// The Q-values for one observation: the composition of the three
    /// stages and the two rectifiers.
    pub open spec fn forward_single_spec(&self, x: Seq<i64>) -> Seq<i64> {
        self.linear3.forward_spec(
            relu_spec(self.linear2.forward_spec(relu_spec(self.linear1.forward_spec(x)))),
        )
    }

    /// Q-values for one observation.
    pub fn forward_single(&self, x: &Vec<i64>) -> (q: Vec<i64>)
        requires
            self.wf(),
            x@.len() == self.in_dim(),
        ensures
            q@ == self.forward_single_spec(x@),
            q@.len() == self.out_dim(),
    {
        let h1 = self.linear1.forward(x);
        let a1 = relu(&h1);
        let h2 = self.linear2.forward(&a1);
        let a2 = relu(&h2);
        self.linear3.forward(&a2)
    }

    /// Q-values for a whole batch of observations, row by row.
    pub fn forward(&self, batch: &Vec<Vec<i64>>) -> (q: Vec<Vec<i64>>)
        requires
            self.wf(),
            forall|i: int| 0 <= i < batch@.len() ==> #[trigger] batch@[i]@.len() == self.in_dim(),
        ensures
            q@.len() == batch@.len(),
            forall|i: int|
                0 <= i < batch@.len() ==> #[trigger] q@[i]@ == self.forward_single_spec(
                    batch@[i]@,
                ),
    {
        let mut q: Vec<Vec<i64>> = Vec::new();
        let mut i: usize = 0;
        while i < batch.len()
            invariant
                self.wf(),
                forall|ii: int|
                    0 <= ii < batch@.len() ==> #[trigger] batch@[ii]@.len() == self.in_dim(),
                i <= batch@.len(),
                q@.len() == i,
                forall|ii: int|
                    0 <= ii < i ==> #[trigger] q@[ii]@ == self.forward_single_spec(batch@[ii]@),
            decreases batch@.len() - i,
        {
            let row = self.forward_single(&batch[i]);
            q.push(row);
            i = i + 1;
        }
        q
    }
}

/// The index the left-to-right maximum scan ends at, having looked at the
/// coordinates before `i` already and holding `best` so far.
pub open spec fn argmax_from(q: Seq<i64>, i: int, best: int) -> int
    recommends
        0 <= best < q.len(),
        1 <= i <= q.len(),
    decreases q.len() - i,
{
    if i < 0 || i >= q.len() {
        best
    } else if q[i] > q[best] {
        argmax_from(q, i + 1, i)
    } else {
        argmax_from(q, i + 1, best)
    }
}

/// The index of the first maximum of a non-empty sequence: ties go to the
/// earliest coordinate.
pub open spec fn stable_argmax(q: Seq<i64>) -> int
    recommends
        q.len() >= 1,
{
    argmax_from(q, 1, 0)
}

proof fn lemma_argmax_from_props(q: Seq<i64>, i: int, best: int)
    requires
        0 <= best < i <= q.len(),
        forall|j: int| 0 <= j < i ==> q[j] <= q[best],
        forall|j: int| 0 <= j < best ==> q[j] < q[best],
    ensures
        0 <= argmax_from(q, i, best) < q.len() || q.len() == 0,
        forall|j: int| 0 <= j < q.len() ==> #[trigger] q[j] <= q[argmax_from(q, i, best)],
        forall|j: int| 0 <= j < argmax_from(q, i, best) ==> #[trigger] q[j] < q[argmax_from(q, i, best)],
    decreases q.len() - i,
{
    if i < q.len() {
        if q[i] > q[best] {
            lemma_argmax_from_props(q, i + 1, i);
        } else {
            lemma_argmax_from_props(q, i + 1, best);
        }
    }
}

/// The stable argmax points at a maximal coordinate, and every earlier
/// coordinate is strictly smaller: the first-encountered maximum.
pub proof fn lemma_stable_argmax(q: Seq<i64>)
    requires
        q.len() >= 1,
    ensures
        0 <= stable_argmax(q) < q.len(),
        forall|j: int| 0 <= j < q.len() ==> #[trigger] q[j] <= q[stable_argmax(q)],
        forall|j: int| 0 <= j < stable_argmax(q) ==> #[trigger] q[j] < q[stable_argmax(q)],
{
    lemma_argmax_from_props(q, 1, 0);
}

/// The index of the greatest Q-value, earliest index on ties.
pub fn argmax(q: &Vec<i64>) -> (m: usize)
    requires
        q@.len() >= 1,
    ensures
        m == stable_argmax(q@),
        m < q@.len(),
{
    let mut best: usize = 0;
    let mut i: usize = 1;
    while i < q.len()
        invariant
            1 <= i <= q@.len(),
            best < i,
            argmax_from(q@, i as int, best as int) == stable_argmax(q@),
        decreases q@.len() - i,
    {
        if q[i] > q[best] {
            best = i;
        }
        i = i + 1;
    }
    best
}

/// The shape of a model to build: observation width in, action count out.
pub struct ModelConfig {
    pub input_shape: usize,
    pub output_shape: usize,
}

/// A vector of `n` random parameters, each within one unit of zero.
fn random_params(n: usize) -> (r: Vec<i64>)
    ensures
        r@.len() == n,
{
    let mut r: Vec<i64> = Vec::new();
    let mut i: usize = 0;
    while i < n
        invariant
            r@.len() == i,
            i <= n,
        decreases n - i,
    {
        let draw = random_below((2 * SCALE + 1) as u64);
        r.push(draw as i64 - SCALE);
        i = i + 1;
    }
    r
}

/// A linear stage with random parameters and the given widths.
fn random_layer(in_dim: usize, out_dim: usize) -> (l: LinearLayer)
    ensures
        l.wf(),
        l.in_dim == in_dim,
        l.out_dim() == out_dim,
{
    let mut weights: Vec<Vec<i64>> = Vec::new();
    let mut k: usize = 0;
    while k < out_dim
        invariant
            weights@.len() == k,
            k <= out_dim,
            forall|kk: int| 0 <= kk < k ==> #[trigger] weights@[kk]@.len() == in_dim,
        decreases out_dim - k,
    {
        let row = random_params(in_dim);
        weights.push(row);
        k = k + 1;
    }
    let bias = random_params(out_dim);
    LinearLayer { in_dim, weights, bias }
}

impl ModelConfig {
    /// Build a model of this shape with randomly initialized parameters.
    pub fn init(&self) -> (m: DQNModel)
        ensures
            m.wf(),
            m.in_dim() == self.input_shape,
            m.out_dim() == self.output_shape,
            m.linear1.out_dim() == HIDDEN_WIDTH,
            m.linear2.out_dim() == HIDDEN_WIDTH,
    {
        DQNModel {
            linear1: random_layer(self.input_shape, HIDDEN_WIDTH),
            linear2: random_layer(HIDDEN_WIDTH, HIDDEN_WIDTH),
            linear3: random_layer(HIDDEN_WIDTH, self.output_shape),
        }
    }
}

} // verus!
