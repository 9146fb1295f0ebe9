//! Fixed-point inference of the scheduling policy network.
//!
//! Values are fixed-point integers sharing the scale `SCALE` (Q10). The
//! network maps the encoded task state through two hidden layers with ReLU
//! to one output per task plus one for idling; the action is the index of
//! the greatest output, the lowest index winning ties.
use vstd::prelude::*;

verus! {

/// The fixed-point scale: the real value 1.0 is held as 1024.
pub const SCALE: i32 = 1024;

/// The number of tasks in a taskset.
pub const NUM_TASKS: usize = 6;

/// The width of the encoded state: four features per task.
pub const IN: usize = 24;

/// The width of each hidden layer.
pub const H: usize = 32;

/// The number of actions: one per task, then idle.
pub const OUT: usize = 7;

/// The largest bias magnitude for which a neuron's value fits an `i32`:
/// `2^31 - 2^21`, since a scaled-down accumulator lies within `2^21`.
pub const BIAS_LIMIT: i32 = 2145386496;

/// Quantized weights and biases of the three layers, rows indexed by output
/// neuron.
#[derive(Clone, Copy)]
pub struct PolicyWeights {
    pub w1: [[i32; IN]; H],
    pub b1: [i32; H],
    pub w2: [[i32; H]; H],
    pub b2: [i32; H],
    pub w3: [[i32; H]; OUT],
    pub b3: [i32; OUT],
}

pub open spec fn bias_ok(b: i32) -> bool {
    -BIAS_LIMIT <= b <= BIAS_LIMIT
}

pub open spec fn biases_ok(bs: Seq<i32>) -> bool {
    forall|j: int| 0 <= j < bs.len() ==> bias_ok(#[trigger] bs[j])
}

/// `v` saturated to the range of `i32`.
pub open spec fn sat(v: int) -> int {
    if v > i32::MAX {
        i32::MAX as int
    } else if v < i32::MIN {
        i32::MIN as int
    } else {
        v
    }
}

/// The saturating multiply-accumulate of the first `n` products `w[i] * x[i]`.
pub open spec fn dot_sat(w: Seq<i32>, x: Seq<int>, n: nat) -> int
    decreases n,
{
    if n == 0 {
        0
    } else {
        sat(dot_sat(w, x, (n - 1) as nat) + sat(w[n - 1] * x[n - 1]))
    }
}

/// Integer division truncating toward zero, for a positive divisor.
pub open spec fn div_trunc(a: int, d: int) -> int {
    if a >= 0 {
        a / d
    } else {
        -((-a) / d)
    }
}

pub open spec fn relu_spec(v: int) -> int {
    if v > 0 {
        v
    } else {
        0
    }
}

/// A neuron's value before activation.
pub open spec fn neuron(w: Seq<i32>, b: i32, x: Seq<int>) -> int {
    div_trunc(dot_sat(w, x, w.len()), SCALE as int) + b
}

pub open spec fn ints(s: Seq<i32>) -> Seq<int> {
    s.map_values(|v: i32| v as int)
}

/// The rows of a weight matrix, each as a sequence.
pub open spec fn rows<const N: usize>(w: Seq<[i32; N]>) -> Seq<Seq<i32>> {
    w.map_values(|r: [i32; N]| r@)
}

/// A hidden layer's outputs on input `x`.
pub open spec fn hidden_layer(w: Seq<Seq<i32>>, b: Seq<i32>, x: Seq<int>) -> Seq<int> {
    Seq::new(w.len(), |j: int| relu_spec(neuron(w[j], b[j], x)))
}

/// The output layer's values on input `x`.
pub open spec fn output_layer(w: Seq<Seq<i32>>, b: Seq<i32>, x: Seq<int>) -> Seq<int> {
    Seq::new(w.len(), |j: int| neuron(w[j], b[j], x))
}

/// The first index of a greatest value among the first `n` of `v`.
pub open spec fn argmax(v: Seq<int>, n: nat) -> nat
    decreases n,
{
    if n <= 1 {
        0
    } else {
        let k = argmax(v, (n - 1) as nat);
        if v[n - 1] > v[k as int] {
            (n - 1) as nat
        } else {
            k
        }
    }
}

fn saturate(v: i64) -> (r: i32)
    ensures
        r as int == sat(v as int),
{
    if v > i32::MAX as i64 {
        i32::MAX
    } else if v < i32::MIN as i64 {
        i32::MIN
    } else {
        v as i32
    }
}

fn relu(x: i32) -> (r: i32)
    ensures
        r as int == relu_spec(x as int),
{
    if x > 0 {
        x
    } else {
        0
    }
}

/// The saturating multiply-accumulate of `w` against `x`.
fn dot_saturating<const N: usize>(w: &[i32; N], x: &[i32; N]) -> (acc: i32)
    ensures
        acc as int == dot_sat(w@, ints(x@), N as nat),
{
    let mut acc: i32 = 0;
    let mut i: usize = 0;
    while i < N
        invariant
            i <= N,
            w@.len() == N,
            x@.len() == N,
            acc as int == dot_sat(w@, ints(x@), i as nat),
        decreases N - i,
    {
        let a = w[i] as i64;
        let c = x[i] as i64;
        assert(-0x4000_0000_0000_0000 <= a * c <= 0x4000_0000_0000_0000) by (nonlinear_arith)
            requires
                -0x8000_0000 <= a <= 0x8000_0000,
                -0x8000_0000 <= c <= 0x8000_0000,
        ;
        let p = saturate(a * c);
        acc = saturate(acc as i64 + p as i64);
        i = i + 1;
    }
    acc
}

/// A neuron's value before activation: the accumulator scaled down, truncating
/// toward zero, plus the bias.
fn neuron_value<const N: usize>(w: &[i32; N], b: i32, x: &[i32; N]) -> (v: i32)
    requires
        bias_ok(b),
    ensures
        v as int == neuron(w@, b, ints(x@)),
{
    let acc = dot_saturating(w, x);
    let mag: u64 = if acc >= 0 {
        acc as u64
    } else {
        (-(acc as i64)) as u64
    };
    let q: u64 = mag / (SCALE as u64);
    assert(q <= 2097152);
    let scaled: i64 = if acc >= 0 {
        q as i64
    } else {
        -(q as i64)
    };
    assert(acc >= 0 ==> q <= 2097151);
    (scaled + b as i64) as i32
}

/// The outputs of a hidden layer on `x`.
fn hidden<const N: usize>(w: &[[i32; N]; H], b: &[i32; H], x: &[i32; N]) -> (h: [i32; H])
    requires
        biases_ok(b@),
    ensures
        ints(h@) == hidden_layer(rows(w@), b@, ints(x@)),
{
    let mut h = [0i32; H];
    let mut j: usize = 0;
    while j < H
        invariant
            j <= H,
            biases_ok(b@),
            forall|k: int| 0 <= k < j ==> h@[k] as int == relu_spec(neuron(w@[k]@, b@[k], ints(x@))),
        decreases H - j,
    {
        let v = neuron_value(&w[j], b[j], x);
        h[j] = relu(v);
        j = j + 1;
    }
    assert(ints(h@) =~= hidden_layer(rows(w@), b@, ints(x@)));
    h
}

/// Runs the policy network on an encoded state and returns the chosen
/// action: a task index below `NUM_TASKS`, or `NUM_TASKS` for idle.
pub fn infer(state: &[i32; IN], weights: &PolicyWeights) -> (r: usize)
    requires
        weights.wf(),
    ensures
        r == weights.action(ints(state@)),
        r < OUT,
{
    let h1 = hidden(&weights.w1, &weights.b1, state);
    let h2 = hidden(&weights.w2, &weights.b2, &h1);
    let ghost outs = weights.outputs(ints(h2@));
    let mut best_idx: usize = 0;
    let mut best_val: i32 = i32::MIN;
    let mut j: usize = 0;
    while j < OUT
        invariant
            j <= OUT,
            weights.wf(),
            outs == weights.outputs(ints(h2@)),
            j == 0 ==> best_idx == 0 && best_val == i32::MIN,
            j > 0 ==> best_idx == argmax(outs, j as nat) && best_val as int == outs[best_idx as int],
            best_idx < OUT,
        decreases OUT - j,
    {
        let val = neuron_value(&weights.w3[j], weights.b3[j], &h2);
        if val > best_val {
            best_val = val;
            best_idx = j;
        }
        j = j + 1;
    }
    best_idx
}

/// True when every bias lies within `BIAS_LIMIT`.
fn biases_within<const N: usize>(b: &[i32; N]) -> (r: bool)
    ensures
        r == biases_ok(b@),
{
    let mut i: usize = 0;
    while i < N
        invariant
            i <= N,
            b@.len() == N,
            forall|k: int| 0 <= k < i ==> bias_ok(#[trigger] b@[k]),
        decreases N - i,
    {
        if b[i] < -BIAS_LIMIT || b[i] > BIAS_LIMIT {
            return false;
        }
        i = i + 1;
    }
    true
}

impl PolicyWeights {
    /// Every bias lies within `BIAS_LIMIT`, so no neuron overflows.
    pub open spec fn wf(self) -> bool {
        &&& biases_ok(self.b1@)
        &&& biases_ok(self.b2@)
        &&& biases_ok(self.b3@)
    }

    pub open spec fn is_zero(self) -> bool {
        &&& forall|j: int, i: int| 0 <= j < H && 0 <= i < IN ==> #[trigger] self.w1@[j]@[i] == 0
        &&& forall|j: int, i: int| 0 <= j < H && 0 <= i < H ==> #[trigger] self.w2@[j]@[i] == 0
        &&& forall|j: int, i: int| 0 <= j < OUT && 0 <= i < H ==> #[trigger] self.w3@[j]@[i] == 0
        &&& forall|j: int| 0 <= j < H ==> #[trigger] self.b1@[j] == 0
        &&& forall|j: int| 0 <= j < H ==> #[trigger] self.b2@[j] == 0
        &&& forall|j: int| 0 <= j < OUT ==> #[trigger] self.b3@[j] == 0
    }

    /// The first hidden layer's outputs on `x`.
    pub open spec fn layer1(self, x: Seq<int>) -> Seq<int> {
        hidden_layer(rows(self.w1@), self.b1@, x)
    }

    pub open spec fn layer2(self, x: Seq<int>) -> Seq<int> {
        hidden_layer(rows(self.w2@), self.b2@, x)
    }

    pub open spec fn outputs(self, x: Seq<int>) -> Seq<int> {
        output_layer(rows(self.w3@), self.b3@, x)
    }

    /// The action the network picks for the encoded state `x`.
    pub open spec fn action(self, x: Seq<int>) -> nat {
        argmax(self.outputs(self.layer2(self.layer1(x))), OUT as nat)
    }

    /// True when every bias lies within `BIAS_LIMIT`.
    pub fn is_well_formed(&self) -> (r: bool)
        ensures
            r == self.wf(),
    {
        biases_within(&self.b1) && biases_within(&self.b2) && biases_within(&self.b3)
    }

    /// The network whose weights and biases are all zero.
    pub fn zeroed() -> (r: Self)
        ensures
            r.is_zero(),
            r.wf(),
    {
        PolicyWeights {
            w1: [[0i32; IN]; H],
            b1: [0i32; H],
            w2: [[0i32; H]; H],
            b2: [0i32; H],
            w3: [[0i32; H]; OUT],
            b3: [0i32; OUT],
        }
    }
}

proof fn lemma_dot_zero(w: Seq<i32>, x: Seq<int>, n: nat)
    requires
        n <= w.len(),
        forall|i: int| 0 <= i < w.len() ==> w[i] == 0,
    ensures
        dot_sat(w, x, n) == 0,
    decreases n,
{
    if n > 0 {
        lemma_dot_zero(w, x, (n - 1) as nat);
        assert(w[n - 1] * x[n - 1] == 0);
    }
}

proof fn lemma_argmax_of_constant(v: Seq<int>, n: nat, c: int)
    requires
        n <= v.len(),
        forall|i: int| 0 <= i < v.len() ==> v[i] == c,
    ensures
        argmax(v, n) == 0,
    decreases n,
{
    if n > 1 {
        lemma_argmax_of_constant(v, (n - 1) as nat, c);
    }
}

/// With every weight and bias zero, each neuron evaluates to zero whatever
/// the input, so the network always picks action 0, the lowest index among
/// equal outputs.
pub proof fn lemma_zero_network_picks_first(weights: PolicyWeights, x: Seq<int>)
    requires
        weights.is_zero(),
    ensures
        weights.action(x) == 0,
{
    let h1 = weights.layer1(x);
    let h2 = weights.layer2(h1);
    let outs = weights.outputs(h2);
    assert forall|j: int| 0 <= j < OUT implies outs[j] == 0 by {
        let row = rows(weights.w3@)[j];
        assert forall|i: int| 0 <= i < row.len() implies row[i] == 0 by {
            assert(weights.w3@[j]@[i] == 0);
        }
        lemma_dot_zero(row, h2, row.len());
        assert(weights.b3@[j] == 0);
    }
    lemma_argmax_of_constant(outs, OUT as nat, 0);
}

} // verus!
