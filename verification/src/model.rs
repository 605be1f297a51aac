//! The two-layer network: its parameters and activations, the forward
//! pass, the mean-squared loss over a dataset, the finite-difference
//! gradient estimator, the gradient-descent update and the training
//! driver.

use vstd::prelude::*;

use crate::matrix::{lemma_views_after_write, lemma_views_eq, Matrix};
use crate::matrix::dot_seq;
use crate::scalar::{
    add_of, diff_quotient_spec, div_of, float_lt, mul_of, of_int_of, sigmoid_spec, sub_of,
    ZERO_BITS,
};
use crate::scalar::{
    diff_quotient, scalar_add, scalar_div, scalar_lt, scalar_mul, scalar_of_int, scalar_sub,
};

verus! {

/// The scalars of column `j` of a sequence of rows.
pub open spec fn column(rows: Seq<Seq<u64>>, j: int) -> Seq<u64> {
    Seq::new(rows.len(), |k: int| rows[k][j])
}

/// One neuron's pre-activation: the input row dotted with column `j` of
/// the weights, plus bias `j`, all in left-folded IEEE-754 double steps.
pub open spec fn neuron_z(x: Seq<u64>, w: Seq<Seq<u64>>, b: Seq<u64>, j: int) -> u64 {
    add_of(dot_seq(ZERO_BITS, x, column(w, j), w.len()), b[j])
}

/// One layer's output row: the logistic function of each neuron's
/// pre-activation.
pub open spec fn layer_out(x: Seq<u64>, w: Seq<Seq<u64>>, b: Seq<u64>) -> Seq<u64> {
    Seq::new(b.len(), |j: int| sigmoid_spec(neuron_z(x, w, b, j)))
}

/// The network's output row for one input row.
pub open spec fn net_out(
    x: Seq<u64>,
    w1: Seq<Seq<u64>>,
    b1: Seq<u64>,
    w2: Seq<Seq<u64>>,
    b2: Seq<u64>,
) -> Seq<u64> {
    layer_out(layer_out(x, w1, b1), w2, b2)
}

/// Squared-error accumulation over the first `k` output columns of one
/// dataset row: `acc + (out[j] - y[j])^2`, left to right.
pub open spec fn row_err_acc(acc: u64, out: Seq<u64>, y: Seq<u64>, k: nat) -> u64
    decreases k,
{
    if k == 0 {
        acc
    } else {
        let d = sub_of(out[k - 1], y[k - 1]);
        add_of(row_err_acc(acc, out, y, (k - 1) as nat), mul_of(d, d))
    }
}

/// The squared-error sum over the first `r` dataset rows.
pub open spec fn loss_sum(
    xs: Seq<Seq<u64>>,
    ys: Seq<Seq<u64>>,
    w1: Seq<Seq<u64>>,
    b1: Seq<u64>,
    w2: Seq<Seq<u64>>,
    b2: Seq<u64>,
    r: nat,
) -> u64
    decreases r,
{
    if r == 0 {
        ZERO_BITS
    } else {
        row_err_acc(
            loss_sum(xs, ys, w1, b1, w2, b2, (r - 1) as nat),
            net_out(xs[r - 1], w1, b1, w2, b2),
            ys[r - 1],
            ys[r - 1].len(),
        )
    }
}

/// The mean squared error of the network over a dataset: the sum of the
/// squared errors of every row, divided by the number of rows.
pub open spec fn loss_spec(
    xs: Seq<Seq<u64>>,
    ys: Seq<Seq<u64>>,
    w1: Seq<Seq<u64>>,
    b1: Seq<u64>,
    w2: Seq<Seq<u64>>,
    b2: Seq<u64>,
) -> u64 {
    div_of(loss_sum(xs, ys, w1, b1, w2, b2, xs.len()), of_int_of(xs.len() as i64))
}

/// A parameter table with one entry nudged up by `eps`.
pub open spec fn bump_rows(w: Seq<Seq<u64>>, r: int, c: int, eps: u64) -> Seq<Seq<u64>> {
    w.update(r, w[r].update(c, add_of(w[r][c], eps)))
}

/// A parameter row with one entry nudged up by `eps`.
pub open spec fn bump_row(b: Seq<u64>, c: int, eps: u64) -> Seq<u64> {
    b.update(c, add_of(b[c], eps))
}

/// The two-layer network: three activation rows and the weight and bias
/// matrices of both layers. Activations are scratch state recomputed by
/// every forward pass; the weights and biases are the parameters that
/// training adjusts.
pub struct Model {
    /// The input row, 1 by I.
    pub activation_0: Matrix,
    /// First-layer weights, I by H.
    pub weights_1: Matrix,
    /// First-layer biases, 1 by H.
    pub biases_1: Matrix,
    /// First-layer output, 1 by H.
    pub activation_1: Matrix,
    /// Second-layer weights, H by O.
    pub weights_2: Matrix,
    /// Second-layer biases, 1 by O.
    pub biases_2: Matrix,
    /// The network output, 1 by O.
    pub activation_2: Matrix,
}

/// One finite-difference derivative per parameter scalar, shaped exactly
/// like the model's parameters; activations are not parameters and have
/// no counterpart here.
pub struct Gradient {
    /// Derivatives for the first-layer weights, I by H.
    pub weights_1: Matrix,
    /// Derivatives for the first-layer biases, 1 by H.
    pub biases_1: Matrix,
    /// Derivatives for the second-layer weights, H by O.
    pub weights_2: Matrix,
    /// Derivatives for the second-layer biases, 1 by O.
    pub biases_2: Matrix,
}

impl Model {
    /// Shape sanity: every part is a well-formed matrix, the activations
    /// and biases are single rows, and multiplication compatibility holds
    /// pairwise through both layers.
    pub open spec fn allocated(&self) -> bool {
        &&& self.activation_0.wf()
        &&& self.weights_1.wf()
        &&& self.biases_1.wf()
        &&& self.activation_1.wf()
        &&& self.weights_2.wf()
        &&& self.biases_2.wf()
        &&& self.activation_2.wf()
        &&& self.activation_0.rows == 1
        &&& self.biases_1.rows == 1
        &&& self.activation_1.rows == 1
        &&& self.biases_2.rows == 1
        &&& self.activation_2.rows == 1
        &&& self.activation_0.cols == self.weights_1.rows
        &&& self.weights_1.cols == self.biases_1.cols
        &&& self.biases_1.cols == self.activation_1.cols
        &&& self.activation_1.cols == self.weights_2.rows
        &&& self.weights_2.cols == self.biases_2.cols
        &&& self.biases_2.cols == self.activation_2.cols
    }

    /// Whether all four parameter matrices have been populated.
    pub open spec fn params_filled(&self) -> bool {
        &&& self.weights_1.filled()
        &&& self.biases_1.filled()
        &&& self.weights_2.filled()
        &&& self.biases_2.filled()
    }

    /// A model whose shapes are sound, whose parameters are in place and
    /// whose input activation row has been populated; the other two
    /// activation rows may still be empty — the first forward pass fills
    /// them.
    pub open spec fn ready(&self) -> bool {
        self.allocated() && self.params_filled() && self.activation_0.filled()
    }

    /// The activation buffers keep their dimensions and strides, and stay
    /// well-formed, while the training functions overwrite their
    /// contents; the input row also keeps its buffer length.
    pub open spec fn act_frame(m0: Model, m: Model) -> bool {
        &&& m.activation_0.layout_eq(&m0.activation_0)
        &&& m.activation_1.rows == m0.activation_1.rows
        &&& m.activation_1.cols == m0.activation_1.cols
        &&& m.activation_1.stride == m0.activation_1.stride
        &&& m.activation_1.wf()
        &&& m.activation_2.rows == m0.activation_2.rows
        &&& m.activation_2.cols == m0.activation_2.cols
        &&& m.activation_2.stride == m0.activation_2.stride
        &&& m.activation_2.wf()
    }

    /// The first-layer weight rows.
    pub open spec fn w1(&self) -> Seq<Seq<u64>> {
        self.weights_1.rows_view()
    }

    /// The first-layer bias row.
    pub open spec fn b1(&self) -> Seq<u64> {
        self.biases_1.row_seq(0)
    }

    /// The second-layer weight rows.
    pub open spec fn w2(&self) -> Seq<Seq<u64>> {
        self.weights_2.rows_view()
    }

    /// The second-layer bias row.
    pub open spec fn b2(&self) -> Seq<u64> {
        self.biases_2.row_seq(0)
    }

    /// All four parameter matrices hold the same state in both models.
    pub open spec fn params_eq(&self, other: &Model) -> bool {
        &&& self.weights_1.state_eq(&other.weights_1)
        &&& self.biases_1.state_eq(&other.biases_1)
        &&& self.weights_2.state_eq(&other.weights_2)
        &&& self.biases_2.state_eq(&other.biases_2)
    }

    /// Reserves a model for `inputs` input, `hidden` hidden and
    /// `outputs` output columns. Every buffer starts empty: the
    /// parameter matrices and the input activation wait for exactly one
    /// fill, and the other two activation rows are populated by the
    /// first forward pass.
    pub fn allocate(inputs: usize, hidden: usize, outputs: usize) -> (m: Model)
        requires
            1 <= inputs,
            1 <= hidden,
            1 <= outputs,
            inputs * hidden <= usize::MAX,
            hidden * outputs <= usize::MAX,
        ensures
            m.allocated(),
            !m.activation_0.filled(),
            !m.weights_1.filled(),
            !m.biases_1.filled(),
            !m.activation_1.filled(),
            !m.weights_2.filled(),
            !m.biases_2.filled(),
            !m.activation_2.filled(),
            m.activation_0.cols == inputs,
            m.weights_1.rows == inputs,
            m.weights_1.cols == hidden,
            m.weights_2.rows == hidden,
            m.weights_2.cols == outputs,
            m.activation_2.cols == outputs,
    {
        Model {
            activation_0: Matrix::allocate(1, inputs),
            weights_1: Matrix::allocate(inputs, hidden),
            biases_1: Matrix::allocate(1, hidden),
            activation_1: Matrix::allocate(1, hidden),
            weights_2: Matrix::allocate(hidden, outputs),
            biases_2: Matrix::allocate(1, outputs),
            activation_2: Matrix::allocate(1, outputs),
        }
    }
}

impl Gradient {
    /// Shaped exactly like the parameters of `m`, and populated.
    pub open spec fn matches(&self, m: &Model) -> bool {
        &&& self.weights_1.wf() && self.weights_1.filled()
        &&& self.biases_1.wf() && self.biases_1.filled()
        &&& self.weights_2.wf() && self.weights_2.filled()
        &&& self.biases_2.wf() && self.biases_2.filled()
        &&& self.weights_1.shape_eq(&m.weights_1)
        &&& self.biases_1.shape_eq(&m.biases_1)
        &&& self.weights_2.shape_eq(&m.weights_2)
        &&& self.biases_2.shape_eq(&m.biases_2)
    }

    /// Reserves a zero-filled gradient for a model of the given widths.
    pub fn allocate(inputs: usize, hidden: usize, outputs: usize) -> (g: Gradient)
        requires
            1 <= inputs,
            1 <= hidden,
            1 <= outputs,
            inputs * hidden <= usize::MAX,
            hidden * outputs <= usize::MAX,
        ensures
            g.weights_1.wf() && g.weights_1.filled(),
            g.biases_1.wf() && g.biases_1.filled(),
            g.weights_2.wf() && g.weights_2.filled(),
            g.biases_2.wf() && g.biases_2.filled(),
            g.weights_1.rows == inputs && g.weights_1.cols == hidden,
            g.biases_1.rows == 1 && g.biases_1.cols == hidden,
            g.weights_2.rows == hidden && g.weights_2.cols == outputs,
            g.biases_2.rows == 1 && g.biases_2.cols == outputs,
            forall|r: int, c: int|
                0 <= r < inputs && 0 <= c < hidden ==> #[trigger] g.weights_1.cell(r, c)
                    == ZERO_BITS,
            forall|c: int| 0 <= c < hidden ==> #[trigger] g.biases_1.cell(0, c) == ZERO_BITS,
            forall|r: int, c: int|
                0 <= r < hidden && 0 <= c < outputs ==> #[trigger] g.weights_2.cell(r, c)
                    == ZERO_BITS,
            forall|c: int| 0 <= c < outputs ==> #[trigger] g.biases_2.cell(0, c) == ZERO_BITS,
    {
        let mut weights_1 = Matrix::allocate(inputs, hidden);
        Matrix::fill(&mut weights_1, ZERO_BITS);
        let mut biases_1 = Matrix::allocate(1, hidden);
        Matrix::fill(&mut biases_1, ZERO_BITS);
        let mut weights_2 = Matrix::allocate(hidden, outputs);
        Matrix::fill(&mut weights_2, ZERO_BITS);
        let mut biases_2 = Matrix::allocate(1, outputs);
        Matrix::fill(&mut biases_2, ZERO_BITS);
        Gradient { weights_1, biases_1, weights_2, biases_2 }
    }
}

impl Model {
    /// What the forward pass leaves behind: parameters and input row
    /// untouched, the first activation row holding the first layer's
    /// output for the current input row, and the output row holding the
    /// second layer's output for that hidden row.
    pub open spec fn forward_post(m0: Model, m1: Model) -> bool {
        &&& m1.activation_0 == m0.activation_0
        &&& m1.weights_1 == m0.weights_1
        &&& m1.biases_1 == m0.biases_1
        &&& m1.weights_2 == m0.weights_2
        &&& m1.biases_2 == m0.biases_2
        &&& m1.activation_1.rows == m0.activation_1.rows
        &&& m1.activation_1.cols == m0.activation_1.cols
        &&& m1.activation_1.stride == m0.activation_1.stride
        &&& m1.activation_1.wf() && m1.activation_1.filled()
        &&& m1.activation_2.rows == m0.activation_2.rows
        &&& m1.activation_2.cols == m0.activation_2.cols
        &&& m1.activation_2.stride == m0.activation_2.stride
        &&& m1.activation_2.wf() && m1.activation_2.filled()
        &&& m1.activation_1.row_seq(0) == layer_out(
            m0.activation_0.row_seq(0),
            m0.w1(),
            m0.b1(),
        )
        &&& m1.activation_2.row_seq(0) == layer_out(m1.activation_1.row_seq(0), m0.w2(), m0.b2())
    }

    /// Runs the forward pass: each layer's activation row is recomputed
    /// as the logistic function of the input row times the layer's
    /// weights, plus its biases. A still-empty activation row is
    /// zero-filled by the accumulating multiply; an already-populated one
    /// is reset to zero first, so the multiply never accumulates onto a
    /// stale activation.
    pub fn forward(model: &mut Model)
        requires
            old(model).ready(),
        ensures
            final(model).ready(),
            Model::forward_post(*old(model), *final(model)),
    {
        if model.activation_1.data.len() > 0 {
            Matrix::zero_cells(&mut model.activation_1);
        }
        let ghost a1_base = model.activation_1;
        Matrix::multiply(&mut model.activation_1, &model.activation_0, &model.weights_1).unwrap();
        proof {
            assert(forall|j: int|
                0 <= j < a1_base.cols ==> Matrix::mul_base(a1_base, 0, j) == ZERO_BITS);
        }
        Matrix::add(&mut model.activation_1, &model.biases_1).unwrap();
        Matrix::sigmoid(&mut model.activation_1);
        proof {
            lemma_layer_cells(
                &old(model).activation_0,
                &old(model).weights_1,
                &old(model).biases_1,
                &model.activation_1,
            );
        }
        if model.activation_2.data.len() > 0 {
            Matrix::zero_cells(&mut model.activation_2);
        }
        let ghost a2_base = model.activation_2;
        Matrix::multiply(&mut model.activation_2, &model.activation_1, &model.weights_2).unwrap();
        proof {
            assert(forall|j: int|
                0 <= j < a2_base.cols ==> Matrix::mul_base(a2_base, 0, j) == ZERO_BITS);
        }
        Matrix::add(&mut model.activation_2, &model.biases_2).unwrap();
        Matrix::sigmoid(&mut model.activation_2);
        proof {
            lemma_layer_cells(
                &model.activation_1,
                &old(model).weights_2,
                &old(model).biases_2,
                &model.activation_2,
            );
        }
    }
}

impl Model {
    /// Sweeps the whole dataset: for each row, copies its inputs into
    /// the model's input activation, runs the forward pass, and
    /// accumulates the squared error of every output column; returns the
    /// sum divided by the row count. The model's parameters are
    /// untouched, but its activation rows are left holding the results
    /// of the last row processed — callers must not assume the loss
    /// sweep is side-effect-free on the activations.
    pub fn loss(model: &mut Model, inputs: &Matrix, output: &Matrix) -> (res: u64)
        requires
            old(model).ready(),
            inputs.wf(),
            inputs.filled(),
            output.wf(),
            output.filled(),
            inputs.rows == output.rows,
            output.cols == old(model).activation_2.cols,
            inputs.cols == old(model).activation_0.cols,
        ensures
            final(model).ready(),
            final(model).weights_1 == old(model).weights_1,
            final(model).biases_1 == old(model).biases_1,
            final(model).weights_2 == old(model).weights_2,
            final(model).biases_2 == old(model).biases_2,
            Model::act_frame(*old(model), *final(model)),
            final(model).activation_1.filled(),
            final(model).activation_2.filled(),
            res == loss_spec(
                inputs.rows_view(),
                output.rows_view(),
                old(model).w1(),
                old(model).b1(),
                old(model).w2(),
                old(model).b2(),
            ),
            final(model).activation_0.row_seq(0) == inputs.row_seq(inputs.rows - 1),
            final(model).activation_1.row_seq(0) == layer_out(
                inputs.row_seq(inputs.rows - 1),
                old(model).w1(),
                old(model).b1(),
            ),
            final(model).activation_2.row_seq(0) == net_out(
                inputs.row_seq(inputs.rows - 1),
                old(model).w1(),
                old(model).b1(),
                old(model).w2(),
                old(model).b2(),
            ),
    {
        let in_rows = inputs.rows;
        let out_cols = output.cols;
        let mut total: u64 = ZERO_BITS;
        let mut row: usize = 0;
        while row < in_rows
            invariant
                old(model).ready(),
                model.ready(),
                model.weights_1 == old(model).weights_1,
                model.biases_1 == old(model).biases_1,
                model.weights_2 == old(model).weights_2,
                model.biases_2 == old(model).biases_2,
                Model::act_frame(*old(model), *model),
                row > 0 ==> model.activation_1.filled() && model.activation_2.filled(),
                inputs.wf(),
                inputs.filled(),
                output.wf(),
                output.filled(),
                in_rows == inputs.rows,
                out_cols == output.cols,
                inputs.rows == output.rows,
                output.cols == old(model).activation_2.cols,
                inputs.cols == old(model).activation_0.cols,
                row <= in_rows,
                total == loss_sum(
                    inputs.rows_view(),
                    output.rows_view(),
                    old(model).w1(),
                    old(model).b1(),
                    old(model).w2(),
                    old(model).b2(),
                    row as nat,
                ),
                row > 0 ==> model.activation_0.row_seq(0) == inputs.row_seq(row - 1),
                row > 0 ==> model.activation_1.row_seq(0) == layer_out(
                    inputs.row_seq(row - 1),
                    old(model).w1(),
                    old(model).b1(),
                ),
                row > 0 ==> model.activation_2.row_seq(0) == net_out(
                    inputs.row_seq(row - 1),
                    old(model).w1(),
                    old(model).b1(),
                    old(model).w2(),
                    old(model).b2(),
                ),
            decreases in_rows - row,
        {
            let x = Matrix::row(inputs, row);
            let y = Matrix::row(output, row);
            Matrix::copy(&mut model.activation_0, &x).unwrap();
            proof {
                assert(model.activation_0.row_seq(0) =~= inputs.row_seq(row as int));
            }
            Model::forward(model);
            proof {
                assert(model.activation_2.row_seq(0) == net_out(
                    inputs.row_seq(row as int),
                    old(model).w1(),
                    old(model).b1(),
                    old(model).w2(),
                    old(model).b2(),
                ));
            }
            let mut col: usize = 0;
            while col < out_cols
                invariant
                    old(model).ready(),
                    model.ready(),
                    model.weights_1 == old(model).weights_1,
                    model.biases_1 == old(model).biases_1,
                    model.weights_2 == old(model).weights_2,
                    model.biases_2 == old(model).biases_2,
                    Model::act_frame(*old(model), *model),
                    model.activation_1.filled(),
                    model.activation_2.filled(),
                    inputs.wf(),
                    inputs.filled(),
                    output.wf(),
                    output.filled(),
                    in_rows == inputs.rows,
                    out_cols == output.cols,
                    inputs.rows == output.rows,
                    output.cols == old(model).activation_2.cols,
                    inputs.cols == old(model).activation_0.cols,
                    row < in_rows,
                    col <= out_cols,
                    y.wf(),
                    y.filled(),
                    y.rows == 1,
                    y.cols == output.cols,
                    forall|c: int|
                        0 <= c < output.cols ==> #[trigger] y.cell(0, c) == output.cell(
                            row as int,
                            c,
                        ),
                    model.activation_0.row_seq(0) == inputs.row_seq(row as int),
                    model.activation_1.row_seq(0) == layer_out(
                        inputs.row_seq(row as int),
                        old(model).w1(),
                        old(model).b1(),
                    ),
                    model.activation_2.row_seq(0) == net_out(
                        inputs.row_seq(row as int),
                        old(model).w1(),
                        old(model).b1(),
                        old(model).w2(),
                        old(model).b2(),
                    ),
                    total == row_err_acc(
                        loss_sum(
                            inputs.rows_view(),
                            output.rows_view(),
                            old(model).w1(),
                            old(model).b1(),
                            old(model).w2(),
                            old(model).b2(),
                            row as nat,
                        ),
                        net_out(
                            inputs.row_seq(row as int),
                            old(model).w1(),
                            old(model).b1(),
                            old(model).w2(),
                            old(model).b2(),
                        ),
                        output.row_seq(row as int),
                        col as nat,
                    ),
                decreases out_cols - col,
            {
                let out_value = Matrix::get_at(&model.activation_2, 0, col);
                let target = Matrix::get_at(&y, 0, col);
                let diff = scalar_sub(out_value, target);
                total = scalar_add(total, scalar_mul(diff, diff));
                col = col + 1;
            }
            proof {
                assert(output.row_seq(row as int).len() == output.cols);
                assert(inputs.rows_view()[row as int] == inputs.row_seq(row as int));
                assert(output.rows_view()[row as int] == output.row_seq(row as int));
            }
            row = row + 1;
        }
        proof {
            assert(inputs.rows_view().len() == inputs.rows);
        }
        scalar_div(total, scalar_of_int(in_rows as i64))
    }
}

/// The finite-difference derivative table for the first-layer weights:
/// entry `(r, c)` is the change in loss from nudging that weight by
/// `eps`, divided by `eps`.
pub open spec fn grad_w1(
    xs: Seq<Seq<u64>>,
    ys: Seq<Seq<u64>>,
    w1: Seq<Seq<u64>>,
    b1: Seq<u64>,
    w2: Seq<Seq<u64>>,
    b2: Seq<u64>,
    eps: u64,
) -> Seq<Seq<u64>> {
    Seq::new(
        w1.len(),
        |r: int|
            Seq::new(
                w1[r].len(),
                |c: int|
                    diff_quotient_spec(
                        loss_spec(xs, ys, bump_rows(w1, r, c, eps), b1, w2, b2),
                        loss_spec(xs, ys, w1, b1, w2, b2),
                        eps,
                    ),
            ),
    )
}

/// The finite-difference derivative row for the first-layer biases.
pub open spec fn grad_b1(
    xs: Seq<Seq<u64>>,
    ys: Seq<Seq<u64>>,
    w1: Seq<Seq<u64>>,
    b1: Seq<u64>,
    w2: Seq<Seq<u64>>,
    b2: Seq<u64>,
    eps: u64,
) -> Seq<u64> {
    Seq::new(
        b1.len(),
        |c: int|
            diff_quotient_spec(
                loss_spec(xs, ys, w1, bump_row(b1, c, eps), w2, b2),
                loss_spec(xs, ys, w1, b1, w2, b2),
                eps,
            ),
    )
}

/// The finite-difference derivative table for the second-layer weights.
pub open spec fn grad_w2(
    xs: Seq<Seq<u64>>,
    ys: Seq<Seq<u64>>,
    w1: Seq<Seq<u64>>,
    b1: Seq<u64>,
    w2: Seq<Seq<u64>>,
    b2: Seq<u64>,
    eps: u64,
) -> Seq<Seq<u64>> {
    Seq::new(
        w2.len(),
        |r: int|
            Seq::new(
                w2[r].len(),
                |c: int|
                    diff_quotient_spec(
                        loss_spec(xs, ys, w1, b1, bump_rows(w2, r, c, eps), b2),
                        loss_spec(xs, ys, w1, b1, w2, b2),
                        eps,
                    ),
            ),
    )
}

/// The finite-difference derivative row for the second-layer biases.
pub open spec fn grad_b2(
    xs: Seq<Seq<u64>>,
    ys: Seq<Seq<u64>>,
    w1: Seq<Seq<u64>>,
    b1: Seq<u64>,
    w2: Seq<Seq<u64>>,
    b2: Seq<u64>,
    eps: u64,
) -> Seq<u64> {
    Seq::new(
        b2.len(),
        |c: int|
            diff_quotient_spec(
                loss_spec(xs, ys, w1, b1, w2, bump_row(b2, c, eps)),
                loss_spec(xs, ys, w1, b1, w2, b2),
                eps,
            ),
    )
}

impl Model {
    /// The dataset and hyperparameter facts that the gradient estimator
    /// needs of the model it started from.
    pub open spec fn fd_ctx(m0: Model, inputs: Matrix, outputs: Matrix, eps: u64) -> bool {
        &&& m0.ready()
        &&& inputs.wf() && inputs.filled()
        &&& outputs.wf() && outputs.filled()
        &&& inputs.rows == outputs.rows
        &&& outputs.cols == m0.activation_2.cols
        &&& inputs.cols == m0.activation_0.cols
        &&& float_lt(ZERO_BITS, eps)
    }

    /// The model as the gradient estimator keeps returning it to: every
    /// parameter restored to its starting state, and the activation
    /// buffers still laid out as before.
    pub open spec fn fd_model_frame(m0: Model, m: Model) -> bool {
        &&& m.ready()
        &&& m.weights_1.state_eq(&m0.weights_1)
        &&& m.biases_1.state_eq(&m0.biases_1)
        &&& m.weights_2.state_eq(&m0.weights_2)
        &&& m.biases_2.state_eq(&m0.biases_2)
        &&& m.weights_1.rows_view() == m0.w1()
        &&& m.biases_1.row_seq(0) == m0.b1()
        &&& m.weights_2.rows_view() == m0.w2()
        &&& m.biases_2.row_seq(0) == m0.b2()
        &&& Model::act_frame(m0, m)
    }

    /// Estimates the gradient of the loss by one-sided finite
    /// differences: for every parameter scalar, one at a time, saves it,
    /// nudges it up by `eps`, re-evaluates the loss over the whole
    /// dataset, stores `(perturbed - base) / eps` in the matching
    /// gradient cell, and restores the parameter bit for bit before
    /// moving on. The model's parameters are exactly as before on
    /// return; its activations are scratch state with no promised
    /// values.
    pub fn finite_diff(
        model: &mut Model,
        gradient: &mut Gradient,
        eps: u64,
        inputs: &Matrix,
        outputs: &Matrix,
    )
        requires
            Model::fd_ctx(*old(model), *inputs, *outputs, eps),
            old(gradient).matches(old(model)),
        ensures
            final(model).ready(),
            final(model).params_eq(old(model)),
            final(model).w1() == old(model).w1(),
            final(model).b1() == old(model).b1(),
            final(model).w2() == old(model).w2(),
            final(model).b2() == old(model).b2(),
            Model::act_frame(*old(model), *final(model)),
            final(gradient).matches(old(model)),
            final(gradient).weights_1.rows_view() == grad_w1(
                inputs.rows_view(),
                outputs.rows_view(),
                old(model).w1(),
                old(model).b1(),
                old(model).w2(),
                old(model).b2(),
                eps,
            ),
            final(gradient).biases_1.row_seq(0) == grad_b1(
                inputs.rows_view(),
                outputs.rows_view(),
                old(model).w1(),
                old(model).b1(),
                old(model).w2(),
                old(model).b2(),
                eps,
            ),
            final(gradient).weights_2.rows_view() == grad_w2(
                inputs.rows_view(),
                outputs.rows_view(),
                old(model).w1(),
                old(model).b1(),
                old(model).w2(),
                old(model).b2(),
                eps,
            ),
            final(gradient).biases_2.row_seq(0) == grad_b2(
                inputs.rows_view(),
                outputs.rows_view(),
                old(model).w1(),
                old(model).b1(),
                old(model).w2(),
                old(model).b2(),
                eps,
            ),
    {
        let ghost m0 = *old(model);
        let ghost xv = inputs.rows_view();
        let ghost yv = outputs.rows_view();
        let ghost w1o = old(model).w1();
        let ghost b1o = old(model).b1();
        let ghost w2o = old(model).w2();
        let ghost b2o = old(model).b2();
        let base = Model::loss(model, inputs, outputs);
        proof {
            assert(base == loss_spec(xv, yv, w1o, b1o, w2o, b2o));
        }
        let rows1 = model.weights_1.rows;
        let cols1 = model.weights_1.cols;
        let mut r: usize = 0;
        while r < rows1
            invariant
                Model::fd_ctx(m0, *inputs, *outputs, eps),
                Model::fd_model_frame(m0, *model),
                old(gradient).matches(&m0),
                gradient.matches(&m0),
                gradient.weights_1.rows == old(gradient).weights_1.rows,
                gradient.weights_1.cols == old(gradient).weights_1.cols,
                gradient.weights_1.stride == old(gradient).weights_1.stride,
                gradient.weights_1.data@.len() == old(gradient).weights_1.data@.len(),
                gradient.biases_1 == old(gradient).biases_1,
                gradient.weights_2 == old(gradient).weights_2,
                gradient.biases_2 == old(gradient).biases_2,
                rows1 == m0.weights_1.rows,
                cols1 == m0.weights_1.cols,
                r <= rows1,
                base == loss_spec(xv, yv, w1o, b1o, w2o, b2o),
                xv == inputs.rows_view(),
                yv == outputs.rows_view(),
                w1o == m0.w1(),
                b1o == m0.b1(),
                w2o == m0.w2(),
                b2o == m0.b2(),
                forall|r2: int, c2: int|
                    0 <= r2 < r && 0 <= c2 < cols1 ==> #[trigger] gradient.weights_1.cell(r2, c2)
                        == diff_quotient_spec(
                        loss_spec(xv, yv, bump_rows(w1o, r2, c2, eps), b1o, w2o, b2o),
                        base,
                        eps,
                    ),
            decreases rows1 - r,
        {
            let mut c: usize = 0;
            while c < cols1
                invariant
                    Model::fd_ctx(m0, *inputs, *outputs, eps),
                    Model::fd_model_frame(m0, *model),
                    old(gradient).matches(&m0),
                    gradient.matches(&m0),
                    gradient.weights_1.rows == old(gradient).weights_1.rows,
                    gradient.weights_1.cols == old(gradient).weights_1.cols,
                    gradient.weights_1.stride == old(gradient).weights_1.stride,
                    gradient.weights_1.data@.len() == old(gradient).weights_1.data@.len(),
                    gradient.biases_1 == old(gradient).biases_1,
                    gradient.weights_2 == old(gradient).weights_2,
                    gradient.biases_2 == old(gradient).biases_2,
                    rows1 == m0.weights_1.rows,
                    cols1 == m0.weights_1.cols,
                    r < rows1,
                    c <= cols1,
                    base == loss_spec(xv, yv, w1o, b1o, w2o, b2o),
                    xv == inputs.rows_view(),
                    yv == outputs.rows_view(),
                    w1o == m0.w1(),
                    b1o == m0.b1(),
                    w2o == m0.w2(),
                    b2o == m0.b2(),
                    forall|r2: int, c2: int|
                        0 <= r2 < r && 0 <= c2 < cols1 ==> #[trigger] gradient.weights_1.cell(
                            r2,
                            c2,
                        ) == diff_quotient_spec(
                            loss_spec(xv, yv, bump_rows(w1o, r2, c2, eps), b1o, w2o, b2o),
                            base,
                            eps,
                        ),
                    forall|c2: int|
                        0 <= c2 < c ==> #[trigger] gradient.weights_1.cell(r as int, c2)
                            == diff_quotient_spec(
                            loss_spec(xv, yv, bump_rows(w1o, r as int, c2, eps), b1o, w2o, b2o),
                            base,
                            eps,
                        ),
                decreases cols1 - c,
            {
                let saved = Matrix::get_at(&model.weights_1, r, c);
                let bumped = scalar_add(saved, eps);
                let ghost w_before = model.weights_1;
                Matrix::set_at(&mut model.weights_1, r, c, bumped);
                proof {
                    lemma_views_after_write(
                        w_before,
                        model.weights_1,
                        r as int,
                        c as int,
                        bumped,
                    );
                    assert(model.weights_1.rows_view() == bump_rows(
                        w1o,
                        r as int,
                        c as int,
                        eps,
                    ));
                }
                let perturbed = Model::loss(model, inputs, outputs);
                let quotient = diff_quotient(perturbed, base, eps);
                Matrix::set_at(&mut gradient.weights_1, r, c, quotient);
                let ghost w_mid = model.weights_1;
                Matrix::set_at(&mut model.weights_1, r, c, saved);
                proof {
                    assert(model.weights_1.data@ =~= w_before.data@);
                    lemma_views_eq(w_before, model.weights_1);
                    assert(model.weights_1.rows_view() == w1o);
                }
                c = c + 1;
            }
            r = r + 1;
        }
        proof {
            assert(gradient.weights_1.rows_view() =~~= grad_w1(xv, yv, w1o, b1o, w2o, b2o, eps));
        }
        let colsb1 = model.biases_1.cols;
        let mut c: usize = 0;
        while c < colsb1
            invariant
                Model::fd_ctx(m0, *inputs, *outputs, eps),
                Model::fd_model_frame(m0, *model),
                old(gradient).matches(&m0),
                gradient.matches(&m0),
                gradient.biases_1.rows == old(gradient).biases_1.rows,
                gradient.biases_1.cols == old(gradient).biases_1.cols,
                gradient.biases_1.stride == old(gradient).biases_1.stride,
                gradient.biases_1.data@.len() == old(gradient).biases_1.data@.len(),
                gradient.weights_1.rows_view() == grad_w1(xv, yv, w1o, b1o, w2o, b2o, eps),
                gradient.weights_2 == old(gradient).weights_2,
                gradient.biases_2 == old(gradient).biases_2,
                colsb1 == m0.biases_1.cols,
                c <= colsb1,
                base == loss_spec(xv, yv, w1o, b1o, w2o, b2o),
                xv == inputs.rows_view(),
                yv == outputs.rows_view(),
                w1o == m0.w1(),
                b1o == m0.b1(),
                w2o == m0.w2(),
                b2o == m0.b2(),
                forall|c2: int|
                    0 <= c2 < c ==> #[trigger] gradient.biases_1.cell(0, c2)
                        == diff_quotient_spec(
                        loss_spec(xv, yv, w1o, bump_row(b1o, c2, eps), w2o, b2o),
                        base,
                        eps,
                    ),
            decreases colsb1 - c,
        {
            let saved = Matrix::get_at(&model.biases_1, 0, c);
            let bumped = scalar_add(saved, eps);
            let ghost b_before = model.biases_1;
            Matrix::set_at(&mut model.biases_1, 0, c, bumped);
            proof {
                lemma_views_after_write(b_before, model.biases_1, 0, c as int, bumped);
                assert(model.biases_1.row_seq(0) == bump_row(b1o, c as int, eps));
            }
            let perturbed = Model::loss(model, inputs, outputs);
            let quotient = diff_quotient(perturbed, base, eps);
            Matrix::set_at(&mut gradient.biases_1, 0, c, quotient);
            Matrix::set_at(&mut model.biases_1, 0, c, saved);
            proof {
                assert(model.biases_1.data@ =~= b_before.data@);
                lemma_views_eq(b_before, model.biases_1);
                assert(model.biases_1.row_seq(0) == b1o);
            }
            c = c + 1;
        }
        proof {
            assert(gradient.biases_1.row_seq(0) =~= grad_b1(xv, yv, w1o, b1o, w2o, b2o, eps));
        }
        let rows2 = model.weights_2.rows;
        let cols2 = model.weights_2.cols;
        let mut r: usize = 0;
        while r < rows2
            invariant
                Model::fd_ctx(m0, *inputs, *outputs, eps),
                Model::fd_model_frame(m0, *model),
                old(gradient).matches(&m0),
                gradient.matches(&m0),
                gradient.weights_2.rows == old(gradient).weights_2.rows,
                gradient.weights_2.cols == old(gradient).weights_2.cols,
                gradient.weights_2.stride == old(gradient).weights_2.stride,
                gradient.weights_2.data@.len() == old(gradient).weights_2.data@.len(),
                gradient.weights_1.rows_view() == grad_w1(xv, yv, w1o, b1o, w2o, b2o, eps),
                gradient.biases_1.row_seq(0) == grad_b1(xv, yv, w1o, b1o, w2o, b2o, eps),
                gradient.biases_2 == old(gradient).biases_2,
                rows2 == m0.weights_2.rows,
                cols2 == m0.weights_2.cols,
                r <= rows2,
                base == loss_spec(xv, yv, w1o, b1o, w2o, b2o),
                xv == inputs.rows_view(),
                yv == outputs.rows_view(),
                w1o == m0.w1(),
                b1o == m0.b1(),
                w2o == m0.w2(),
                b2o == m0.b2(),
                forall|r2: int, c2: int|
                    0 <= r2 < r && 0 <= c2 < cols2 ==> #[trigger] gradient.weights_2.cell(r2, c2)
                        == diff_quotient_spec(
                        loss_spec(xv, yv, w1o, b1o, bump_rows(w2o, r2, c2, eps), b2o),
                        base,
                        eps,
                    ),
            decreases rows2 - r,
        {
            let mut c: usize = 0;
            while c < cols2
                invariant
                    Model::fd_ctx(m0, *inputs, *outputs, eps),
                    Model::fd_model_frame(m0, *model),
                    old(gradient).matches(&m0),
                    gradient.matches(&m0),
                    gradient.weights_2.rows == old(gradient).weights_2.rows,
                    gradient.weights_2.cols == old(gradient).weights_2.cols,
                    gradient.weights_2.stride == old(gradient).weights_2.stride,
                    gradient.weights_2.data@.len() == old(gradient).weights_2.data@.len(),
                    gradient.weights_1.rows_view() == grad_w1(xv, yv, w1o, b1o, w2o, b2o, eps),
                    gradient.biases_1.row_seq(0) == grad_b1(xv, yv, w1o, b1o, w2o, b2o, eps),
                    gradient.biases_2 == old(gradient).biases_2,
                    rows2 == m0.weights_2.rows,
                    cols2 == m0.weights_2.cols,
                    r < rows2,
                    c <= cols2,
                    base == loss_spec(xv, yv, w1o, b1o, w2o, b2o),
                    xv == inputs.rows_view(),
                    yv == outputs.rows_view(),
                    w1o == m0.w1(),
                    b1o == m0.b1(),
                    w2o == m0.w2(),
                    b2o == m0.b2(),
                    forall|r2: int, c2: int|
                        0 <= r2 < r && 0 <= c2 < cols2 ==> #[trigger] gradient.weights_2.cell(
                            r2,
                            c2,
                        ) == diff_quotient_spec(
                            loss_spec(xv, yv, w1o, b1o, bump_rows(w2o, r2, c2, eps), b2o),
                            base,
                            eps,
                        ),
                    forall|c2: int|
                        0 <= c2 < c ==> #[trigger] gradient.weights_2.cell(r as int, c2)
                            == diff_quotient_spec(
                            loss_spec(xv, yv, w1o, b1o, bump_rows(w2o, r as int, c2, eps), b2o),
                            base,
                            eps,
                        ),
                decreases cols2 - c,
            {
                let saved = Matrix::get_at(&model.weights_2, r, c);
                let bumped = scalar_add(saved, eps);
                let ghost w_before = model.weights_2;
                Matrix::set_at(&mut model.weights_2, r, c, bumped);
                proof {
                    lemma_views_after_write(
                        w_before,
                        model.weights_2,
                        r as int,
                        c as int,
                        bumped,
                    );
                    assert(model.weights_2.rows_view() == bump_rows(
                        w2o,
                        r as int,
                        c as int,
                        eps,
                    ));
                }
                let perturbed = Model::loss(model, inputs, outputs);
                let quotient = diff_quotient(perturbed, base, eps);
                Matrix::set_at(&mut gradient.weights_2, r, c, quotient);
                Matrix::set_at(&mut model.weights_2, r, c, saved);
                proof {
                    assert(model.weights_2.data@ =~= w_before.data@);
                    lemma_views_eq(w_before, model.weights_2);
                    assert(model.weights_2.rows_view() == w2o);
                }
                c = c + 1;
            }
            r = r + 1;
        }
        proof {
            assert(gradient.weights_2.rows_view() =~~= grad_w2(xv, yv, w1o, b1o, w2o, b2o, eps));
        }
        let colsb2 = model.biases_2.cols;
        let mut c: usize = 0;
        while c < colsb2
            invariant
                Model::fd_ctx(m0, *inputs, *outputs, eps),
                Model::fd_model_frame(m0, *model),
                old(gradient).matches(&m0),
                gradient.matches(&m0),
                gradient.biases_2.rows == old(gradient).biases_2.rows,
                gradient.biases_2.cols == old(gradient).biases_2.cols,
                gradient.biases_2.stride == old(gradient).biases_2.stride,
                gradient.biases_2.data@.len() == old(gradient).biases_2.data@.len(),
                gradient.weights_1.rows_view() == grad_w1(xv, yv, w1o, b1o, w2o, b2o, eps),
                gradient.biases_1.row_seq(0) == grad_b1(xv, yv, w1o, b1o, w2o, b2o, eps),
                gradient.weights_2.rows_view() == grad_w2(xv, yv, w1o, b1o, w2o, b2o, eps),
                colsb2 == m0.biases_2.cols,
                c <= colsb2,
                base == loss_spec(xv, yv, w1o, b1o, w2o, b2o),
                xv == inputs.rows_view(),
                yv == outputs.rows_view(),
                w1o == m0.w1(),
                b1o == m0.b1(),
                w2o == m0.w2(),
                b2o == m0.b2(),
                forall|c2: int|
                    0 <= c2 < c ==> #[trigger] gradient.biases_2.cell(0, c2)
                        == diff_quotient_spec(
                        loss_spec(xv, yv, w1o, b1o, w2o, bump_row(b2o, c2, eps)),
                        base,
                        eps,
                    ),
            decreases colsb2 - c,
        {
            let saved = Matrix::get_at(&model.biases_2, 0, c);
            let bumped = scalar_add(saved, eps);
            let ghost b_before = model.biases_2;
            Matrix::set_at(&mut model.biases_2, 0, c, bumped);
            proof {
                lemma_views_after_write(b_before, model.biases_2, 0, c as int, bumped);
                assert(model.biases_2.row_seq(0) == bump_row(b2o, c as int, eps));
            }
            let perturbed = Model::loss(model, inputs, outputs);
            let quotient = diff_quotient(perturbed, base, eps);
            Matrix::set_at(&mut gradient.biases_2, 0, c, quotient);
            Matrix::set_at(&mut model.biases_2, 0, c, saved);
            proof {
                assert(model.biases_2.data@ =~= b_before.data@);
                lemma_views_eq(b_before, model.biases_2);
                assert(model.biases_2.row_seq(0) == b2o);
            }
            c = c + 1;
        }
        proof {
            assert(gradient.biases_2.row_seq(0) =~= grad_b2(xv, yv, w1o, b1o, w2o, b2o, eps));
        }
    }
}

/// A parameter table after one gradient-descent step: each entry
/// becomes `w - g * rate` in IEEE-754 double arithmetic.
pub open spec fn descend_rows(w: Seq<Seq<u64>>, g: Seq<Seq<u64>>, rate: u64) -> Seq<Seq<u64>> {
    Seq::new(
        w.len(),
        |r: int| Seq::new(w[r].len(), |c: int| sub_of(w[r][c], mul_of(g[r][c], rate))),
    )
}

/// A parameter row after one gradient-descent step.
pub open spec fn descend_row(b: Seq<u64>, g: Seq<u64>, rate: u64) -> Seq<u64> {
    Seq::new(b.len(), |c: int| sub_of(b[c], mul_of(g[c], rate)))
}

/// All four parameter tables after one full training iteration:
/// finite-difference gradients at the current parameters, then one
/// descent step at the given rate.
pub open spec fn step_params(
    xs: Seq<Seq<u64>>,
    ys: Seq<Seq<u64>>,
    p: (Seq<Seq<u64>>, Seq<u64>, Seq<Seq<u64>>, Seq<u64>),
    eps: u64,
    rate: u64,
) -> (Seq<Seq<u64>>, Seq<u64>, Seq<Seq<u64>>, Seq<u64>) {
    (
        descend_rows(p.0, grad_w1(xs, ys, p.0, p.1, p.2, p.3, eps), rate),
        descend_row(p.1, grad_b1(xs, ys, p.0, p.1, p.2, p.3, eps), rate),
        descend_rows(p.2, grad_w2(xs, ys, p.0, p.1, p.2, p.3, eps), rate),
        descend_row(p.3, grad_b2(xs, ys, p.0, p.1, p.2, p.3, eps), rate),
    )
}

/// The parameters after `n` full training iterations from `p`.
pub open spec fn evolve_params(
    xs: Seq<Seq<u64>>,
    ys: Seq<Seq<u64>>,
    p: (Seq<Seq<u64>>, Seq<u64>, Seq<Seq<u64>>, Seq<u64>),
    eps: u64,
    rate: u64,
    n: nat,
) -> (Seq<Seq<u64>>, Seq<u64>, Seq<Seq<u64>>, Seq<u64>)
    decreases n,
{
    if n == 0 {
        p
    } else {
        step_params(xs, ys, evolve_params(xs, ys, p, eps, rate, (n - 1) as nat), eps, rate)
    }
}

/// What one training run reports: how many iterations ran, the loss of
/// the parameters it stopped at, and whether that loss fell below the
/// acceptance threshold — if it did not, the iteration cap was hit.
pub struct TrainReport {
    /// Number of gradient-descent iterations performed.
    pub iterations: usize,
    /// The mean squared loss of the final parameters.
    pub final_loss: u64,
    /// Whether the final loss is below the acceptance threshold.
    pub converged: bool,
}

impl Model {
    /// Applies one gradient-descent step in place: every parameter
    /// scalar becomes `p - g * rate`, where `g` is its gradient cell.
    /// The activations are untouched.
    pub fn learn(model: &mut Model, gradient: &Gradient, rate: u64)
        requires
            old(model).ready(),
            gradient.matches(old(model)),
        ensures
            final(model).ready(),
            final(model).activation_0 == old(model).activation_0,
            final(model).activation_1 == old(model).activation_1,
            final(model).activation_2 == old(model).activation_2,
            final(model).weights_1.layout_eq(&old(model).weights_1),
            final(model).biases_1.layout_eq(&old(model).biases_1),
            final(model).weights_2.layout_eq(&old(model).weights_2),
            final(model).biases_2.layout_eq(&old(model).biases_2),
            final(model).w1() == descend_rows(old(model).w1(), gradient.weights_1.rows_view(), rate),
            final(model).b1() == descend_row(old(model).b1(), gradient.biases_1.row_seq(0), rate),
            final(model).w2() == descend_rows(old(model).w2(), gradient.weights_2.rows_view(), rate),
            final(model).b2() == descend_row(old(model).b2(), gradient.biases_2.row_seq(0), rate),
    {
        let rows1 = model.weights_1.rows;
        let cols1 = model.weights_1.cols;
        let mut r: usize = 0;
        while r < rows1
            invariant
                old(model).ready(),
                model.ready(),
                gradient.matches(old(model)),
                model.activation_0 == old(model).activation_0,
                model.activation_1 == old(model).activation_1,
                model.activation_2 == old(model).activation_2,
                model.weights_1.layout_eq(&old(model).weights_1),
                model.biases_1 == old(model).biases_1,
                model.weights_2 == old(model).weights_2,
                model.biases_2 == old(model).biases_2,
                rows1 == old(model).weights_1.rows,
                cols1 == old(model).weights_1.cols,
                r <= rows1,
                forall|r2: int, c2: int|
                    0 <= r2 < r && 0 <= c2 < cols1 ==> #[trigger] model.weights_1.cell(r2, c2)
                        == sub_of(
                        old(model).weights_1.cell(r2, c2),
                        mul_of(gradient.weights_1.cell(r2, c2), rate),
                    ),
                forall|r2: int, c2: int|
                    r <= r2 < rows1 && 0 <= c2 < cols1 ==> #[trigger] model.weights_1.cell(r2, c2)
                        == old(model).weights_1.cell(r2, c2),
            decreases rows1 - r,
        {
            let mut c: usize = 0;
            while c < cols1
                invariant
                    old(model).ready(),
                    model.ready(),
                    gradient.matches(old(model)),
                    model.activation_0 == old(model).activation_0,
                    model.activation_1 == old(model).activation_1,
                    model.activation_2 == old(model).activation_2,
                    model.weights_1.layout_eq(&old(model).weights_1),
                    model.biases_1 == old(model).biases_1,
                    model.weights_2 == old(model).weights_2,
                    model.biases_2 == old(model).biases_2,
                    rows1 == old(model).weights_1.rows,
                    cols1 == old(model).weights_1.cols,
                    r < rows1,
                    c <= cols1,
                    forall|r2: int, c2: int|
                        0 <= r2 < r && 0 <= c2 < cols1 ==> #[trigger] model.weights_1.cell(
                            r2,
                            c2,
                        ) == sub_of(
                            old(model).weights_1.cell(r2, c2),
                            mul_of(gradient.weights_1.cell(r2, c2), rate),
                        ),
                    forall|c2: int|
                        0 <= c2 < c ==> #[trigger] model.weights_1.cell(r as int, c2) == sub_of(
                            old(model).weights_1.cell(r as int, c2),
                            mul_of(gradient.weights_1.cell(r as int, c2), rate),
                        ),
                    forall|r2: int, c2: int|
                        r < r2 < rows1 && 0 <= c2 < cols1 ==> #[trigger] model.weights_1.cell(
                            r2,
                            c2,
                        ) == old(model).weights_1.cell(r2, c2),
                    forall|c2: int|
                        c <= c2 < cols1 ==> #[trigger] model.weights_1.cell(r as int, c2) == old(
                            model,
                        ).weights_1.cell(r as int, c2),
                decreases cols1 - c,
            {
                let current = Matrix::get_at(&model.weights_1, r, c);
                let slope = Matrix::get_at(&gradient.weights_1, r, c);
                Matrix::set_at(&mut model.weights_1, r, c, scalar_sub(current, scalar_mul(slope, rate)));
                c = c + 1;
            }
            r = r + 1;
        }
        let colsb1 = model.biases_1.cols;
        let mut c: usize = 0;
        while c < colsb1
            invariant
                old(model).ready(),
                model.ready(),
                gradient.matches(old(model)),
                model.activation_0 == old(model).activation_0,
                model.activation_1 == old(model).activation_1,
                model.activation_2 == old(model).activation_2,
                model.weights_1.layout_eq(&old(model).weights_1),
                model.biases_1.layout_eq(&old(model).biases_1),
                model.weights_2 == old(model).weights_2,
                model.biases_2 == old(model).biases_2,
                forall|r2: int, c2: int|
                    0 <= r2 < old(model).weights_1.rows && 0 <= c2 < old(model).weights_1.cols
                        ==> #[trigger] model.weights_1.cell(r2, c2) == sub_of(
                        old(model).weights_1.cell(r2, c2),
                        mul_of(gradient.weights_1.cell(r2, c2), rate),
                    ),
                colsb1 == old(model).biases_1.cols,
                c <= colsb1,
                forall|c2: int|
                    0 <= c2 < c ==> #[trigger] model.biases_1.cell(0, c2) == sub_of(
                        old(model).biases_1.cell(0, c2),
                        mul_of(gradient.biases_1.cell(0, c2), rate),
                    ),
                forall|c2: int|
                    c <= c2 < colsb1 ==> #[trigger] model.biases_1.cell(0, c2) == old(
                        model,
                    ).biases_1.cell(0, c2),
            decreases colsb1 - c,
        {
            let current = Matrix::get_at(&model.biases_1, 0, c);
            let slope = Matrix::get_at(&gradient.biases_1, 0, c);
            Matrix::set_at(&mut model.biases_1, 0, c, scalar_sub(current, scalar_mul(slope, rate)));
            c = c + 1;
        }
        let rows2 = model.weights_2.rows;
        let cols2 = model.weights_2.cols;
        let mut r: usize = 0;
        while r < rows2
            invariant
                old(model).ready(),
                model.ready(),
                gradient.matches(old(model)),
                model.activation_0 == old(model).activation_0,
                model.activation_1 == old(model).activation_1,
                model.activation_2 == old(model).activation_2,
                model.weights_1.layout_eq(&old(model).weights_1),
                model.biases_1.layout_eq(&old(model).biases_1),
                model.weights_2.layout_eq(&old(model).weights_2),
                model.biases_2 == old(model).biases_2,
                forall|r2: int, c2: int|
                    0 <= r2 < old(model).weights_1.rows && 0 <= c2 < old(model).weights_1.cols
                        ==> #[trigger] model.weights_1.cell(r2, c2) == sub_of(
                        old(model).weights_1.cell(r2, c2),
                        mul_of(gradient.weights_1.cell(r2, c2), rate),
                    ),
                forall|c2: int|
                    0 <= c2 < old(model).biases_1.cols ==> #[trigger] model.biases_1.cell(0, c2)
                        == sub_of(
                        old(model).biases_1.cell(0, c2),
                        mul_of(gradient.biases_1.cell(0, c2), rate),
                    ),
                rows2 == old(model).weights_2.rows,
                cols2 == old(model).weights_2.cols,
                r <= rows2,
                forall|r2: int, c2: int|
                    0 <= r2 < r && 0 <= c2 < cols2 ==> #[trigger] model.weights_2.cell(r2, c2)
                        == sub_of(
                        old(model).weights_2.cell(r2, c2),
                        mul_of(gradient.weights_2.cell(r2, c2), rate),
                    ),
                forall|r2: int, c2: int|
                    r <= r2 < rows2 && 0 <= c2 < cols2 ==> #[trigger] model.weights_2.cell(r2, c2)
                        == old(model).weights_2.cell(r2, c2),
            decreases rows2 - r,
        {
            let mut c: usize = 0;
            while c < cols2
                invariant
                    old(model).ready(),
                    model.ready(),
                    gradient.matches(old(model)),
                    model.activation_0 == old(model).activation_0,
                    model.activation_1 == old(model).activation_1,
                    model.activation_2 == old(model).activation_2,
                    model.weights_1.layout_eq(&old(model).weights_1),
                    model.biases_1.layout_eq(&old(model).biases_1),
                    model.weights_2.layout_eq(&old(model).weights_2),
                    model.biases_2 == old(model).biases_2,
                    forall|r2: int, c2: int|
                        0 <= r2 < old(model).weights_1.rows && 0 <= c2 < old(model).weights_1.cols
                            ==> #[trigger] model.weights_1.cell(r2, c2) == sub_of(
                            old(model).weights_1.cell(r2, c2),
                            mul_of(gradient.weights_1.cell(r2, c2), rate),
                        ),
                    forall|c2: int|
                        0 <= c2 < old(model).biases_1.cols ==> #[trigger] model.biases_1.cell(
                            0,
                            c2,
                        ) == sub_of(
                            old(model).biases_1.cell(0, c2),
                            mul_of(gradient.biases_1.cell(0, c2), rate),
                        ),
                    rows2 == old(model).weights_2.rows,
                    cols2 == old(model).weights_2.cols,
                    r < rows2,
                    c <= cols2,
                    forall|r2: int, c2: int|
                        0 <= r2 < r && 0 <= c2 < cols2 ==> #[trigger] model.weights_2.cell(
                            r2,
                            c2,
                        ) == sub_of(
                            old(model).weights_2.cell(r2, c2),
                            mul_of(gradient.weights_2.cell(r2, c2), rate),
                        ),
                    forall|c2: int|
                        0 <= c2 < c ==> #[trigger] model.weights_2.cell(r as int, c2) == sub_of(
                            old(model).weights_2.cell(r as int, c2),
                            mul_of(gradient.weights_2.cell(r as int, c2), rate),
                        ),
                    forall|r2: int, c2: int|
                        r < r2 < rows2 && 0 <= c2 < cols2 ==> #[trigger] model.weights_2.cell(
                            r2,
                            c2,
                        ) == old(model).weights_2.cell(r2, c2),
                    forall|c2: int|
                        c <= c2 < cols2 ==> #[trigger] model.weights_2.cell(r as int, c2) == old(
                            model,
                        ).weights_2.cell(r as int, c2),
                decreases cols2 - c,
            {
                let current = Matrix::get_at(&model.weights_2, r, c);
                let slope = Matrix::get_at(&gradient.weights_2, r, c);
                Matrix::set_at(&mut model.weights_2, r, c, scalar_sub(current, scalar_mul(slope, rate)));
                c = c + 1;
            }
            r = r + 1;
        }
        let colsb2 = model.biases_2.cols;
        let mut c: usize = 0;
        while c < colsb2
            invariant
                old(model).ready(),
                model.ready(),
                gradient.matches(old(model)),
                model.activation_0 == old(model).activation_0,
                model.activation_1 == old(model).activation_1,
                model.activation_2 == old(model).activation_2,
                model.weights_1.layout_eq(&old(model).weights_1),
                model.biases_1.layout_eq(&old(model).biases_1),
                model.weights_2.layout_eq(&old(model).weights_2),
                model.biases_2.layout_eq(&old(model).biases_2),
                forall|r2: int, c2: int|
                    0 <= r2 < old(model).weights_1.rows && 0 <= c2 < old(model).weights_1.cols
                        ==> #[trigger] model.weights_1.cell(r2, c2) == sub_of(
                        old(model).weights_1.cell(r2, c2),
                        mul_of(gradient.weights_1.cell(r2, c2), rate),
                    ),
                forall|c2: int|
                    0 <= c2 < old(model).biases_1.cols ==> #[trigger] model.biases_1.cell(0, c2)
                        == sub_of(
                        old(model).biases_1.cell(0, c2),
                        mul_of(gradient.biases_1.cell(0, c2), rate),
                    ),
                forall|r2: int, c2: int|
                    0 <= r2 < old(model).weights_2.rows && 0 <= c2 < old(model).weights_2.cols
                        ==> #[trigger] model.weights_2.cell(r2, c2) == sub_of(
                        old(model).weights_2.cell(r2, c2),
                        mul_of(gradient.weights_2.cell(r2, c2), rate),
                    ),
                colsb2 == old(model).biases_2.cols,
                c <= colsb2,
                forall|c2: int|
                    0 <= c2 < c ==> #[trigger] model.biases_2.cell(0, c2) == sub_of(
                        old(model).biases_2.cell(0, c2),
                        mul_of(gradient.biases_2.cell(0, c2), rate),
                    ),
                forall|c2: int|
                    c <= c2 < colsb2 ==> #[trigger] model.biases_2.cell(0, c2) == old(
                        model,
                    ).biases_2.cell(0, c2),
            decreases colsb2 - c,
        {
            let current = Matrix::get_at(&model.biases_2, 0, c);
            let slope = Matrix::get_at(&gradient.biases_2, 0, c);
            Matrix::set_at(&mut model.biases_2, 0, c, scalar_sub(current, scalar_mul(slope, rate)));
            c = c + 1;
        }
        proof {
            assert(model.weights_1.rows_view() =~~= descend_rows(
                old(model).w1(),
                gradient.weights_1.rows_view(),
                rate,
            ));
            assert(model.biases_1.row_seq(0) =~= descend_row(
                old(model).b1(),
                gradient.biases_1.row_seq(0),
                rate,
            ));
            assert(model.weights_2.rows_view() =~~= descend_rows(
                old(model).w2(),
                gradient.weights_2.rows_view(),
                rate,
            ));
            assert(model.biases_2.row_seq(0) =~= descend_row(
                old(model).b2(),
                gradient.biases_2.row_seq(0),
                rate,
            ));
        }
    }

    /// Drives training to the acceptance threshold: loss, gradient
    /// estimation and descent step, over and over, until the loss drops
    /// below `threshold` or `max_iters` iterations have run — the cap
    /// turns non-convergence into a reported outcome instead of an
    /// unterminated loop. The final parameters are exactly the starting
    /// parameters evolved by the reported number of whole iterations.
    pub fn train(
        model: &mut Model,
        gradient: &mut Gradient,
        eps: u64,
        rate: u64,
        threshold: u64,
        max_iters: usize,
        inputs: &Matrix,
        outputs: &Matrix,
    ) -> (report: TrainReport)
        requires
            Model::fd_ctx(*old(model), *inputs, *outputs, eps),
            old(gradient).matches(old(model)),
        ensures
            final(model).ready(),
            report.iterations <= max_iters,
            report.converged == float_lt(report.final_loss, threshold),
            !report.converged ==> report.iterations == max_iters,
            (
                final(model).w1(),
                final(model).b1(),
                final(model).w2(),
                final(model).b2(),
            ) == evolve_params(
                inputs.rows_view(),
                outputs.rows_view(),
                (old(model).w1(), old(model).b1(), old(model).w2(), old(model).b2()),
                eps,
                rate,
                report.iterations as nat,
            ),
            report.final_loss == loss_spec(
                inputs.rows_view(),
                outputs.rows_view(),
                final(model).w1(),
                final(model).b1(),
                final(model).w2(),
                final(model).b2(),
            ),
    {
        let ghost m0 = *old(model);
        let ghost xv = inputs.rows_view();
        let ghost yv = outputs.rows_view();
        let ghost p0 = (old(model).w1(), old(model).b1(), old(model).w2(), old(model).b2());
        let mut cost = Model::loss(model, inputs, outputs);
        let mut iterations: usize = 0;
        let mut converged = scalar_lt(cost, threshold);
        while !converged && iterations < max_iters
            invariant
                Model::fd_ctx(m0, *inputs, *outputs, eps),
                model.ready(),
                model.weights_1.layout_eq(&m0.weights_1),
                model.biases_1.layout_eq(&m0.biases_1),
                model.weights_2.layout_eq(&m0.weights_2),
                model.biases_2.layout_eq(&m0.biases_2),
                Model::act_frame(m0, *model),
                gradient.matches(&m0),
                xv == inputs.rows_view(),
                yv == outputs.rows_view(),
                p0 == (m0.w1(), m0.b1(), m0.w2(), m0.b2()),
                iterations <= max_iters,
                (model.w1(), model.b1(), model.w2(), model.b2()) == evolve_params(
                    xv,
                    yv,
                    p0,
                    eps,
                    rate,
                    iterations as nat,
                ),
                cost == loss_spec(xv, yv, model.w1(), model.b1(), model.w2(), model.b2()),
                converged == float_lt(cost, threshold),
            decreases max_iters - iterations,
        {
            let ghost p_n = (model.w1(), model.b1(), model.w2(), model.b2());
            Model::finite_diff(model, gradient, eps, inputs, outputs);
            Model::learn(model, gradient, rate);
            cost = Model::loss(model, inputs, outputs);
            iterations = iterations + 1;
            converged = scalar_lt(cost, threshold);
            proof {
                assert((model.w1(), model.b1(), model.w2(), model.b2()) == step_params(
                    xv,
                    yv,
                    p_n,
                    eps,
                    rate,
                ));
                assert(evolve_params(xv, yv, p0, eps, rate, iterations as nat) == step_params(
                    xv,
                    yv,
                    evolve_params(xv, yv, p0, eps, rate, (iterations - 1) as nat),
                    eps,
                    rate,
                ));
            }
        }
        TrainReport { iterations, final_loss: cost, converged }
    }
}

/// A single-row activation whose cells hold, for each column, the
/// logistic function of the zero-based accumulated dot product of the
/// input row with the weight column plus the bias, is exactly
/// `layer_out` of the input row under the weight and bias views.
proof fn lemma_layer_cells(x: &Matrix, w: &Matrix, b: &Matrix, out: &Matrix)
    requires
        x.wf(),
        x.filled(),
        x.rows == 1,
        w.wf(),
        w.filled(),
        b.wf(),
        b.filled(),
        b.rows == 1,
        x.cols == w.rows,
        w.cols == b.cols,
        out.rows == 1,
        out.cols == w.cols,
        forall|j: int|
            0 <= j < w.cols ==> #[trigger] out.cell(0, j) == sigmoid_spec(
                add_of(
                    dot_seq(ZERO_BITS, x.row_seq(0), w.col_seq(j), x.cols as nat),
                    b.cell(0, j),
                ),
            ),
    ensures
        out.row_seq(0) == layer_out(x.row_seq(0), w.rows_view(), b.row_seq(0)),
{
    assert forall|j: int| 0 <= j < w.cols implies #[trigger] out.row_seq(0)[j] == layer_out(
        x.row_seq(0),
        w.rows_view(),
        b.row_seq(0),
    )[j] by {
        assert(column(w.rows_view(), j) =~= w.col_seq(j));
        assert(neuron_z(x.row_seq(0), w.rows_view(), b.row_seq(0), j) == add_of(
            dot_seq(ZERO_BITS, x.row_seq(0), w.col_seq(j), x.cols as nat),
            b.cell(0, j),
        ));
    }
    assert(out.row_seq(0) =~= layer_out(x.row_seq(0), w.rows_view(), b.row_seq(0)));
}

} // verus!
