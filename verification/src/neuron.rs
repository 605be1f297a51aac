//! The two scalar precursors of the network: a one-weight linear
//! regressor and a single sigmoid neuron with two inputs, both trained
//! by the same one-sided finite differences and gradient descent.

use vstd::prelude::*;

use crate::scalar::{
    add_of, diff_quotient_spec, div_of, mul_of, of_int_of, sigmoid_spec, sub_of, ZERO_BITS,
};
use crate::scalar::{diff_quotient, scalar_add, scalar_div, scalar_mul, scalar_of_int, scalar_sub, sigmoid};

verus! {

/// The squared-error sum of the line `y = x * weight + bias` over the
/// first `k` rows, each an `(input, label)` pair.
pub open spec fn linear_cost_sum(weight: u64, bias: u64, rows: Seq<(u64, u64)>, k: nat) -> u64
    decreases k,
{
    if k == 0 {
        ZERO_BITS
    } else {
        let row = rows[k - 1];
        let d = sub_of(add_of(mul_of(row.0, weight), bias), row.1);
        add_of(linear_cost_sum(weight, bias, rows, (k - 1) as nat), mul_of(d, d))
    }
}

/// The mean squared error of the line over a dataset.
pub open spec fn linear_cost_spec(weight: u64, bias: u64, rows: Seq<(u64, u64)>) -> u64 {
    div_of(linear_cost_sum(weight, bias, rows, rows.len()), of_int_of(rows.len() as i64))
}

/// One finite-difference descent step on the line's two parameters,
/// both quotients taken against one shared base cost.
pub open spec fn linear_step_spec(
    weight: u64,
    bias: u64,
    eps: u64,
    rate: u64,
    rows: Seq<(u64, u64)>,
) -> (u64, u64) {
    let base = linear_cost_spec(weight, bias, rows);
    let dw = diff_quotient_spec(linear_cost_spec(add_of(weight, eps), bias, rows), base, eps);
    let db = diff_quotient_spec(linear_cost_spec(weight, add_of(bias, eps), rows), base, eps);
    (sub_of(weight, mul_of(rate, dw)), sub_of(bias, mul_of(rate, db)))
}

/// The mean squared error of the line over the dataset rows.
pub fn linear_cost(weight: u64, bias: u64, data: &Vec<(u64, u64)>) -> (res: u64)
    ensures
        res == linear_cost_spec(weight, bias, data@),
{
    let mut result: u64 = ZERO_BITS;
    let mut i: usize = 0;
    while i < data.len()
        invariant
            i <= data@.len(),
            result == linear_cost_sum(weight, bias, data@, i as nat),
        decreases data@.len() - i,
    {
        let row = data[i];
        let y = scalar_add(scalar_mul(row.0, weight), bias);
        let distance = scalar_sub(y, row.1);
        result = scalar_add(result, scalar_mul(distance, distance));
        i = i + 1;
    }
    scalar_div(result, scalar_of_int(data.len() as i64))
}

/// One finite-difference descent step on the line's two parameters.
pub fn linear_step(weight: u64, bias: u64, eps: u64, rate: u64, data: &Vec<(u64, u64)>) -> (res: (
    u64,
    u64,
))
    ensures
        res == linear_step_spec(weight, bias, eps, rate, data@),
{
    let c = linear_cost(weight, bias, data);
    let diff_weight = diff_quotient(linear_cost(scalar_add(weight, eps), bias, data), c, eps);
    let diff_bias = diff_quotient(linear_cost(weight, scalar_add(bias, eps), data), c, eps);
    (
        scalar_sub(weight, scalar_mul(rate, diff_weight)),
        scalar_sub(bias, scalar_mul(rate, diff_bias)),
    )
}

/// The single sigmoid neuron's output for one input pair:
/// `sigmoid(x1 * w1 + x2 * w2 + bias)`.
pub open spec fn neuron_forward_spec(weight1: u64, weight2: u64, bias: u64, x1: u64, x2: u64) -> u64 {
    sigmoid_spec(add_of(add_of(mul_of(x1, weight1), mul_of(x2, weight2)), bias))
}

/// Evaluates the single sigmoid neuron on one input pair.
pub fn neuron_forward(weight1: u64, weight2: u64, bias: u64, x1: u64, x2: u64) -> (res: u64)
    ensures
        res == neuron_forward_spec(weight1, weight2, bias, x1, x2),
{
    sigmoid(scalar_add(scalar_add(scalar_mul(x1, weight1), scalar_mul(x2, weight2)), bias))
}

/// The squared-error sum of the single sigmoid neuron over the first
/// `k` rows.
pub open spec fn neuron_cost_sum(
    weight1: u64,
    weight2: u64,
    bias: u64,
    rows: Seq<(u64, u64, u64)>,
    k: nat,
) -> u64
    decreases k,
{
    if k == 0 {
        ZERO_BITS
    } else {
        let row = rows[k - 1];
        let d = sub_of(neuron_forward_spec(weight1, weight2, bias, row.0, row.1), row.2);
        add_of(neuron_cost_sum(weight1, weight2, bias, rows, (k - 1) as nat), mul_of(d, d))
    }
}

/// The mean squared error of the neuron over a dataset.
pub open spec fn neuron_cost_spec(
    weight1: u64,
    weight2: u64,
    bias: u64,
    rows: Seq<(u64, u64, u64)>,
) -> u64 {
    div_of(
        neuron_cost_sum(weight1, weight2, bias, rows, rows.len()),
        of_int_of(rows.len() as i64),
    )
}

/// One finite-difference descent step on the neuron's three parameters,
/// all three quotients taken against one shared base cost.
pub open spec fn neuron_step_spec(
    weight1: u64,
    weight2: u64,
    bias: u64,
    eps: u64,
    rate: u64,
    rows: Seq<(u64, u64, u64)>,
) -> (u64, u64, u64) {
    let base = neuron_cost_spec(weight1, weight2, bias, rows);
    let d1 = diff_quotient_spec(
        neuron_cost_spec(add_of(weight1, eps), weight2, bias, rows),
        base,
        eps,
    );
    let d2 = diff_quotient_spec(
        neuron_cost_spec(weight1, add_of(weight2, eps), bias, rows),
        base,
        eps,
    );
    let db = diff_quotient_spec(
        neuron_cost_spec(weight1, weight2, add_of(bias, eps), rows),
        base,
        eps,
    );
    (
        sub_of(weight1, mul_of(rate, d1)),
        sub_of(weight2, mul_of(rate, d2)),
        sub_of(bias, mul_of(rate, db)),
    )
}

/// The neuron's parameters after `n` descent steps.
pub open spec fn neuron_evolve_spec(
    weight1: u64,
    weight2: u64,
    bias: u64,
    eps: u64,
    rate: u64,
    rows: Seq<(u64, u64, u64)>,
    n: nat,
) -> (u64, u64, u64)
    decreases n,
{
    if n == 0 {
        (weight1, weight2, bias)
    } else {
        let p = neuron_evolve_spec(weight1, weight2, bias, eps, rate, rows, (n - 1) as nat);
        neuron_step_spec(p.0, p.1, p.2, eps, rate, rows)
    }
}

/// The mean squared error of the neuron over the dataset rows.
pub fn neuron_cost(weight1: u64, weight2: u64, bias: u64, data: &Vec<(u64, u64, u64)>) -> (res:
    u64)
    ensures
        res == neuron_cost_spec(weight1, weight2, bias, data@),
{
    let mut result: u64 = ZERO_BITS;
    let mut i: usize = 0;
    while i < data.len()
        invariant
            i <= data@.len(),
            result == neuron_cost_sum(weight1, weight2, bias, data@, i as nat),
        decreases data@.len() - i,
    {
        let row = data[i];
        let y = neuron_forward(weight1, weight2, bias, row.0, row.1);
        let distance = scalar_sub(y, row.2);
        result = scalar_add(result, scalar_mul(distance, distance));
        i = i + 1;
    }
    scalar_div(result, scalar_of_int(data.len() as i64))
}

/// One finite-difference descent step on the neuron's three parameters.
pub fn neuron_step(
    weight1: u64,
    weight2: u64,
    bias: u64,
    eps: u64,
    rate: u64,
    data: &Vec<(u64, u64, u64)>,
) -> (res: (u64, u64, u64))
    ensures
        res == neuron_step_spec(weight1, weight2, bias, eps, rate, data@),
{
    let c = neuron_cost(weight1, weight2, bias, data);
    let d1 = diff_quotient(neuron_cost(scalar_add(weight1, eps), weight2, bias, data), c, eps);
    let d2 = diff_quotient(neuron_cost(weight1, scalar_add(weight2, eps), bias, data), c, eps);
    let db = diff_quotient(neuron_cost(weight1, weight2, scalar_add(bias, eps), data), c, eps);
    (
        scalar_sub(weight1, scalar_mul(rate, d1)),
        scalar_sub(weight2, scalar_mul(rate, d2)),
        scalar_sub(bias, scalar_mul(rate, db)),
    )
}

/// Runs a fixed number of descent steps on the neuron.
pub fn neuron_fit(
    weight1: u64,
    weight2: u64,
    bias: u64,
    eps: u64,
    rate: u64,
    steps: usize,
    data: &Vec<(u64, u64, u64)>,
) -> (res: (u64, u64, u64))
    ensures
        res == neuron_evolve_spec(weight1, weight2, bias, eps, rate, data@, steps as nat),
{
    let mut w1 = weight1;
    let mut w2 = weight2;
    let mut b = bias;
    let mut i: usize = 0;
    while i < steps
        invariant
            i <= steps,
            (w1, w2, b) == neuron_evolve_spec(weight1, weight2, bias, eps, rate, data@, i as nat),
        decreases steps - i,
    {
        let next = neuron_step(w1, w2, b, eps, rate, data);
        w1 = next.0;
        w2 = next.1;
        b = next.2;
        i = i + 1;
        proof {
            assert(neuron_evolve_spec(weight1, weight2, bias, eps, rate, data@, i as nat)
                == neuron_step_spec(
                neuron_evolve_spec(
                    weight1,
                    weight2,
                    bias,
                    eps,
                    rate,
                    data@,
                    (i - 1) as nat,
                ).0,
                neuron_evolve_spec(
                    weight1,
                    weight2,
                    bias,
                    eps,
                    rate,
                    data@,
                    (i - 1) as nat,
                ).1,
                neuron_evolve_spec(
                    weight1,
                    weight2,
                    bias,
                    eps,
                    rate,
                    data@,
                    (i - 1) as nat,
                ).2,
                eps,
                rate,
                data@,
            ));
        }
    }
    (w1, w2, b)
}

} // verus!
