//! A hand-rolled two-layer XOR network over nine named scalar weights:
//! an OR neuron and a NAND neuron feeding an AND neuron. The same
//! finite-difference training as the matrix model, written field by
//! field.

use vstd::prelude::*;

use crate::model::TrainReport;
use crate::scalar::{
    add_of, diff_quotient_spec, div_of, float_lt, mul_of, of_int_of, sigmoid_spec, sub_of,
    uniform_draw, ZERO_BITS,
};
use crate::scalar::{
    diff_quotient, rand_float, scalar_add, scalar_div, scalar_lt, scalar_mul, scalar_of_int,
    scalar_sub, sigmoid,
};

verus! {

/// The nine scalar parameters of the two-layer gate network.
#[derive(Clone, Copy)]
pub struct Xor {
    /// First input weight of the OR neuron.
    pub or_w1: u64,
    /// Second input weight of the OR neuron.
    pub or_w2: u64,
    /// Bias of the OR neuron.
    pub or_b: u64,
    /// First input weight of the NAND neuron.
    pub nand_w1: u64,
    /// Second input weight of the NAND neuron.
    pub nand_w2: u64,
    /// Bias of the NAND neuron.
    pub nand_b: u64,
    /// Weight of the AND neuron on the OR output.
    pub and_w1: u64,
    /// Weight of the AND neuron on the NAND output.
    pub and_w2: u64,
    /// Bias of the AND neuron.
    pub and_b: u64,
}

/// The network's output for one input pair: both first-layer neurons,
/// then the second layer over their outputs.
pub open spec fn forward_spec(m: Xor, x1: u64, x2: u64) -> u64 {
    let a = sigmoid_spec(add_of(add_of(mul_of(m.or_w1, x1), mul_of(m.or_w2, x2)), m.or_b));
    let b = sigmoid_spec(add_of(add_of(mul_of(m.nand_w1, x1), mul_of(m.nand_w2, x2)), m.nand_b));
    sigmoid_spec(add_of(add_of(mul_of(a, m.and_w1), mul_of(b, m.and_w2)), m.and_b))
}

/// The squared-error sum over the first `k` dataset rows, each a
/// `(first input, second input, label)` triple.
pub open spec fn cost_sum(m: Xor, rows: Seq<(u64, u64, u64)>, k: nat) -> u64
    decreases k,
{
    if k == 0 {
        ZERO_BITS
    } else {
        let row = rows[k - 1];
        let d = sub_of(forward_spec(m, row.0, row.1), row.2);
        add_of(cost_sum(m, rows, (k - 1) as nat), mul_of(d, d))
    }
}

/// The mean squared error of the network over a dataset.
pub open spec fn cost_spec(m: Xor, rows: Seq<(u64, u64, u64)>) -> u64 {
    div_of(cost_sum(m, rows, rows.len()), of_int_of(rows.len() as i64))
}

/// The finite-difference gradient: each field is the change in cost from
/// nudging that one parameter by `eps`, divided by `eps`, with every
/// other parameter held at its value.
pub open spec fn grad_spec(m: Xor, rows: Seq<(u64, u64, u64)>, eps: u64) -> Xor {
    let base = cost_spec(m, rows);
    Xor {
        or_w1: diff_quotient_spec(
            cost_spec(Xor { or_w1: add_of(m.or_w1, eps), ..m }, rows),
            base,
            eps,
        ),
        or_w2: diff_quotient_spec(
            cost_spec(Xor { or_w2: add_of(m.or_w2, eps), ..m }, rows),
            base,
            eps,
        ),
        or_b: diff_quotient_spec(
            cost_spec(Xor { or_b: add_of(m.or_b, eps), ..m }, rows),
            base,
            eps,
        ),
        nand_w1: diff_quotient_spec(
            cost_spec(Xor { nand_w1: add_of(m.nand_w1, eps), ..m }, rows),
            base,
            eps,
        ),
        nand_w2: diff_quotient_spec(
            cost_spec(Xor { nand_w2: add_of(m.nand_w2, eps), ..m }, rows),
            base,
            eps,
        ),
        nand_b: diff_quotient_spec(
            cost_spec(Xor { nand_b: add_of(m.nand_b, eps), ..m }, rows),
            base,
            eps,
        ),
        and_w1: diff_quotient_spec(
            cost_spec(Xor { and_w1: add_of(m.and_w1, eps), ..m }, rows),
            base,
            eps,
        ),
        and_w2: diff_quotient_spec(
            cost_spec(Xor { and_w2: add_of(m.and_w2, eps), ..m }, rows),
            base,
            eps,
        ),
        and_b: diff_quotient_spec(
            cost_spec(Xor { and_b: add_of(m.and_b, eps), ..m }, rows),
            base,
            eps,
        ),
    }
}

/// One gradient-descent step: every parameter becomes `p - rate * g`.
pub open spec fn learn_spec(m: Xor, g: Xor, rate: u64) -> Xor {
    Xor {
        or_w1: sub_of(m.or_w1, mul_of(rate, g.or_w1)),
        or_w2: sub_of(m.or_w2, mul_of(rate, g.or_w2)),
        or_b: sub_of(m.or_b, mul_of(rate, g.or_b)),
        nand_w1: sub_of(m.nand_w1, mul_of(rate, g.nand_w1)),
        nand_w2: sub_of(m.nand_w2, mul_of(rate, g.nand_w2)),
        nand_b: sub_of(m.nand_b, mul_of(rate, g.nand_b)),
        and_w1: sub_of(m.and_w1, mul_of(rate, g.and_w1)),
        and_w2: sub_of(m.and_w2, mul_of(rate, g.and_w2)),
        and_b: sub_of(m.and_b, mul_of(rate, g.and_b)),
    }
}

/// One full training iteration: estimate the gradient, then descend.
pub open spec fn step_spec(m: Xor, rows: Seq<(u64, u64, u64)>, eps: u64, rate: u64) -> Xor {
    learn_spec(m, grad_spec(m, rows, eps), rate)
}

/// The parameters after `n` full training iterations from `m`.
pub open spec fn evolve_spec(m: Xor, rows: Seq<(u64, u64, u64)>, eps: u64, rate: u64, n: nat) -> Xor
    decreases n,
{
    if n == 0 {
        m
    } else {
        step_spec(evolve_spec(m, rows, eps, rate, (n - 1) as nat), rows, eps, rate)
    }
}

/// Runs the forward pass on one input pair.
pub fn forward(modal: Xor, x1: u64, x2: u64) -> (res: u64)
    ensures
        res == forward_spec(modal, x1, x2),
{
    let a = sigmoid(scalar_add(scalar_add(scalar_mul(modal.or_w1, x1), scalar_mul(modal.or_w2, x2)), modal.or_b));
    let b = sigmoid(scalar_add(scalar_add(scalar_mul(modal.nand_w1, x1), scalar_mul(modal.nand_w2, x2)), modal.nand_b));
    sigmoid(scalar_add(scalar_add(scalar_mul(a, modal.and_w1), scalar_mul(b, modal.and_w2)), modal.and_b))
}

/// The mean squared error of the network over the dataset rows.
pub fn cost(modal: Xor, data: &Vec<(u64, u64, u64)>) -> (res: u64)
    ensures
        res == cost_spec(modal, data@),
{
    let mut result: u64 = ZERO_BITS;
    let mut i: usize = 0;
    while i < data.len()
        invariant
            i <= data@.len(),
            result == cost_sum(modal, data@, i as nat),
        decreases data@.len() - i,
    {
        let row = data[i];
        let y = forward(modal, row.0, row.1);
        let distance = scalar_sub(y, row.2);
        result = scalar_add(result, scalar_mul(distance, distance));
        i = i + 1;
    }
    scalar_div(result, scalar_of_int(data.len() as i64))
}

/// Draws all nine parameters uniformly from `[0, max)`.
pub fn rand_xor(max: u64) -> (res: Xor)
    requires
        float_lt(ZERO_BITS, max),
    ensures
        uniform_draw(ZERO_BITS, max, res.or_w1),
        uniform_draw(ZERO_BITS, max, res.or_w2),
        uniform_draw(ZERO_BITS, max, res.or_b),
        uniform_draw(ZERO_BITS, max, res.nand_w1),
        uniform_draw(ZERO_BITS, max, res.nand_w2),
        uniform_draw(ZERO_BITS, max, res.nand_b),
        uniform_draw(ZERO_BITS, max, res.and_w1),
        uniform_draw(ZERO_BITS, max, res.and_w2),
        uniform_draw(ZERO_BITS, max, res.and_b),
{
    Xor {
        or_w1: rand_float(ZERO_BITS, max),
        or_w2: rand_float(ZERO_BITS, max),
        or_b: rand_float(ZERO_BITS, max),
        nand_w1: rand_float(ZERO_BITS, max),
        nand_w2: rand_float(ZERO_BITS, max),
        nand_b: rand_float(ZERO_BITS, max),
        and_w1: rand_float(ZERO_BITS, max),
        and_w2: rand_float(ZERO_BITS, max),
        and_b: rand_float(ZERO_BITS, max),
    }
}

/// Estimates the gradient by one-sided finite differences: one cost
/// sweep per parameter, each with that single parameter nudged by
/// `eps`, against one shared base cost.
pub fn finite_diff(m: Xor, eps: u64, data: &Vec<(u64, u64, u64)>) -> (g: Xor)
    ensures
        g == grad_spec(m, data@, eps),
{
    let base = cost(m, data);
    Xor {
        or_w1: diff_quotient(cost(Xor { or_w1: scalar_add(m.or_w1, eps), ..m }, data), base, eps),
        or_w2: diff_quotient(cost(Xor { or_w2: scalar_add(m.or_w2, eps), ..m }, data), base, eps),
        or_b: diff_quotient(cost(Xor { or_b: scalar_add(m.or_b, eps), ..m }, data), base, eps),
        nand_w1: diff_quotient(
            cost(Xor { nand_w1: scalar_add(m.nand_w1, eps), ..m }, data),
            base,
            eps,
        ),
        nand_w2: diff_quotient(
            cost(Xor { nand_w2: scalar_add(m.nand_w2, eps), ..m }, data),
            base,
            eps,
        ),
        nand_b: diff_quotient(cost(Xor { nand_b: scalar_add(m.nand_b, eps), ..m }, data), base, eps),
        and_w1: diff_quotient(cost(Xor { and_w1: scalar_add(m.and_w1, eps), ..m }, data), base, eps),
        and_w2: diff_quotient(cost(Xor { and_w2: scalar_add(m.and_w2, eps), ..m }, data), base, eps),
        and_b: diff_quotient(cost(Xor { and_b: scalar_add(m.and_b, eps), ..m }, data), base, eps),
    }
}

/// Applies one gradient-descent step to every parameter.
pub fn learn(modal: Xor, g: Xor, rate: u64) -> (res: Xor)
    ensures
        res == learn_spec(modal, g, rate),
{
    Xor {
        or_w1: scalar_sub(modal.or_w1, scalar_mul(rate, g.or_w1)),
        or_w2: scalar_sub(modal.or_w2, scalar_mul(rate, g.or_w2)),
        or_b: scalar_sub(modal.or_b, scalar_mul(rate, g.or_b)),
        nand_w1: scalar_sub(modal.nand_w1, scalar_mul(rate, g.nand_w1)),
        nand_w2: scalar_sub(modal.nand_w2, scalar_mul(rate, g.nand_w2)),
        nand_b: scalar_sub(modal.nand_b, scalar_mul(rate, g.nand_b)),
        and_w1: scalar_sub(modal.and_w1, scalar_mul(rate, g.and_w1)),
        and_w2: scalar_sub(modal.and_w2, scalar_mul(rate, g.and_w2)),
        and_b: scalar_sub(modal.and_b, scalar_mul(rate, g.and_b)),
    }
}

/// Drives training until the cost drops below `threshold` or
/// `max_iters` iterations have run; the final parameters are exactly
/// the starting parameters evolved by the reported iteration count.
pub fn train(
    modal: Xor,
    eps: u64,
    rate: u64,
    threshold: u64,
    max_iters: usize,
    data: &Vec<(u64, u64, u64)>,
) -> (res: (Xor, TrainReport))
    ensures
        res.1.iterations <= max_iters,
        res.1.converged == float_lt(res.1.final_loss, threshold),
        !res.1.converged ==> res.1.iterations == max_iters,
        res.0 == evolve_spec(modal, data@, eps, rate, res.1.iterations as nat),
        res.1.final_loss == cost_spec(res.0, data@),
{
    let mut m = modal;
    let mut cost_val = cost(m, data);
    let mut iterations: usize = 0;
    let mut converged = scalar_lt(cost_val, threshold);
    while !converged && iterations < max_iters
        invariant
            iterations <= max_iters,
            m == evolve_spec(modal, data@, eps, rate, iterations as nat),
            cost_val == cost_spec(m, data@),
            converged == float_lt(cost_val, threshold),
        decreases max_iters - iterations,
    {
        let g = finite_diff(m, eps, data);
        m = learn(m, g, rate);
        cost_val = cost(m, data);
        iterations = iterations + 1;
        converged = scalar_lt(cost_val, threshold);
        proof {
            assert(evolve_spec(modal, data@, eps, rate, iterations as nat) == step_spec(
                evolve_spec(modal, data@, eps, rate, (iterations - 1) as nat),
                data@,
                eps,
                rate,
            ));
        }
    }
    (m, TrainReport { iterations, final_loss: cost_val, converged })
}

} // verus!
