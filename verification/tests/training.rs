use gradnet::matrix::Matrix;
use gradnet::model::{Gradient, Model};
use gradnet::neuron::{linear_cost, linear_step, neuron_cost, neuron_fit};
use gradnet::scalar::diff_quotient;
use gradnet::xor_net;

fn bits(values: &[f64]) -> Vec<u64> {
    values.iter().map(|v| v.to_bits()).collect()
}

fn xor_table() -> Vec<u64> {
    bits(&[0.0, 0.0, 0.0, 1.0, 0.0, 1.0, 0.0, 1.0, 1.0, 1.0, 1.0, 0.0])
}

fn xor_dataset() -> (Matrix, Matrix) {
    let table = xor_table();
    let inputs = Matrix { rows: 4, cols: 2, stride: 3, data: table.clone() };
    let outputs = Matrix { rows: 4, cols: 1, stride: 3, data: table[2..].to_vec() };
    (inputs, outputs)
}

#[test]
fn loss_of_zero_model_is_exact() {
    let (inputs, outputs) = xor_dataset();
    let mut model = Model::allocate(2, 2, 1);
    Matrix::fill(&mut model.activation_0, 0.0f64.to_bits());
    Matrix::fill(&mut model.weights_1, 0.0f64.to_bits());
    Matrix::fill(&mut model.biases_1, 0.0f64.to_bits());
    Matrix::fill(&mut model.weights_2, 0.0f64.to_bits());
    Matrix::fill(&mut model.biases_2, 0.0f64.to_bits());
    // Every output is sigmoid(0) = 0.5, so each row errs by 0.25 exactly.
    let loss = Model::loss(&mut model, &inputs, &outputs);
    assert_eq!(f64::from_bits(loss), 0.25);
}

#[test]
fn gradient_estimate_matches_quadratic_derivative() {
    // The quadratic loss L(p) = (p - 1)^2, as the linear model's cost on
    // the single row x = 1, label 1, with the bias pinned at zero.
    let data = vec![(1.0f64.to_bits(), 1.0f64.to_bits())];
    let p = 3.0f64;
    let eps = 1e-4f64;
    let base = linear_cost(p.to_bits(), 0.0f64.to_bits(), &data);
    let perturbed = linear_cost((p + eps).to_bits(), 0.0f64.to_bits(), &data);
    let estimate = f64::from_bits(diff_quotient(perturbed, base, eps.to_bits()));
    let analytic = 2.0 * (p - 1.0);
    assert!((estimate - analytic).abs() < 1e-3);
}

#[test]
fn xor_training_converges_and_classifies() {
    let (inputs, outputs) = xor_dataset();
    let mut model = Model::allocate(2, 2, 1);
    Matrix::fill_vec(&mut model.activation_0, bits(&[0.0, 0.0])).unwrap();
    Matrix::fill_vec(&mut model.weights_1, bits(&[0.5, 0.9, 0.6, 0.1])).unwrap();
    Matrix::fill_vec(&mut model.biases_1, bits(&[0.2, -0.3])).unwrap();
    Matrix::fill_vec(&mut model.weights_2, bits(&[0.7, -0.4])).unwrap();
    Matrix::fill_vec(&mut model.biases_2, bits(&[0.15])).unwrap();
    let mut gradient = Gradient::allocate(2, 2, 1);

    let report = Model::train(
        &mut model,
        &mut gradient,
        0.1f64.to_bits(),
        5.0f64.to_bits(),
        0.002f64.to_bits(),
        5000,
        &inputs,
        &outputs,
    );
    assert!(report.converged);
    assert!(f64::from_bits(report.final_loss) < 0.002);

    let expected = [0.0f64, 1.0, 1.0, 0.0];
    for r in 0..4 {
        let x = Matrix::row(&inputs, r);
        Matrix::copy(&mut model.activation_0, &x).unwrap();
        Model::forward(&mut model);
        let out = f64::from_bits(Matrix::get_at(&model.activation_2, 0, 0));
        assert!((out - expected[r]).abs() < 0.1);
    }
}

#[test]
fn train_reports_non_convergence_at_the_cap() {
    let (inputs, outputs) = xor_dataset();
    let mut model = Model::allocate(2, 2, 1);
    Matrix::fill(&mut model.activation_0, 0.0f64.to_bits());
    Matrix::fill(&mut model.weights_1, 0.0f64.to_bits());
    Matrix::fill(&mut model.biases_1, 0.0f64.to_bits());
    Matrix::fill(&mut model.weights_2, 0.0f64.to_bits());
    Matrix::fill(&mut model.biases_2, 0.0f64.to_bits());
    let mut gradient = Gradient::allocate(2, 2, 1);
    let report = Model::train(
        &mut model,
        &mut gradient,
        0.1f64.to_bits(),
        0.1f64.to_bits(),
        0.002f64.to_bits(),
        0,
        &inputs,
        &outputs,
    );
    assert!(!report.converged);
    assert_eq!(report.iterations, 0);
    assert_eq!(f64::from_bits(report.final_loss), 0.25);
}

#[test]
fn perturbation_leaves_parameters_untouched() {
    let (inputs, outputs) = xor_dataset();
    let mut model = Model::allocate(2, 2, 1);
    Matrix::fill_vec(&mut model.activation_0, bits(&[0.0, 0.0])).unwrap();
    Matrix::fill_vec(&mut model.weights_1, bits(&[0.5, 0.9, 0.6, 0.1])).unwrap();
    Matrix::fill_vec(&mut model.biases_1, bits(&[0.2, -0.3])).unwrap();
    Matrix::fill_vec(&mut model.weights_2, bits(&[0.7, -0.4])).unwrap();
    Matrix::fill_vec(&mut model.biases_2, bits(&[0.15])).unwrap();
    let w1 = model.weights_1.data.clone();
    let b1 = model.biases_1.data.clone();
    let w2 = model.weights_2.data.clone();
    let b2 = model.biases_2.data.clone();
    let mut gradient = Gradient::allocate(2, 2, 1);
    Model::finite_diff(&mut model, &mut gradient, 0.1f64.to_bits(), &inputs, &outputs);
    assert_eq!(model.weights_1.data, w1);
    assert_eq!(model.biases_1.data, b1);
    assert_eq!(model.weights_2.data, w2);
    assert_eq!(model.biases_2.data, b2);
    // A gradient cell must reflect the loss change, not stay zero.
    assert!(f64::from_bits(Matrix::get_at(&gradient.biases_2, 0, 0)) != 0.0);
}

#[test]
fn scalar_xor_forward_at_zero_is_half() {
    let m = xor_net::Xor {
        or_w1: 0,
        or_w2: 0,
        or_b: 0,
        nand_w1: 0,
        nand_w2: 0,
        nand_b: 0,
        and_w1: 0,
        and_w2: 0,
        and_b: 0,
    };
    let out = xor_net::forward(m, 1.0f64.to_bits(), 0.0f64.to_bits());
    assert_eq!(f64::from_bits(out), 0.5);
}

#[test]
fn scalar_xor_cost_of_zero_model_is_exact() {
    let m = xor_net::Xor {
        or_w1: 0,
        or_w2: 0,
        or_b: 0,
        nand_w1: 0,
        nand_w2: 0,
        nand_b: 0,
        and_w1: 0,
        and_w2: 0,
        and_b: 0,
    };
    let data: Vec<(u64, u64, u64)> = vec![
        (0.0f64.to_bits(), 0.0f64.to_bits(), 0.0f64.to_bits()),
        (1.0f64.to_bits(), 0.0f64.to_bits(), 1.0f64.to_bits()),
        (0.0f64.to_bits(), 1.0f64.to_bits(), 1.0f64.to_bits()),
        (1.0f64.to_bits(), 1.0f64.to_bits(), 0.0f64.to_bits()),
    ];
    assert_eq!(f64::from_bits(xor_net::cost(m, &data)), 0.25);
}

#[test]
fn scalar_xor_learn_applies_exact_update() {
    let ones = 1.0f64.to_bits();
    let halves = 0.5f64.to_bits();
    let m = xor_net::Xor {
        or_w1: ones,
        or_w2: ones,
        or_b: ones,
        nand_w1: ones,
        nand_w2: ones,
        nand_b: ones,
        and_w1: ones,
        and_w2: ones,
        and_b: ones,
    };
    let g = xor_net::Xor {
        or_w1: halves,
        or_w2: halves,
        or_b: halves,
        nand_w1: halves,
        nand_w2: halves,
        nand_b: halves,
        and_w1: halves,
        and_w2: halves,
        and_b: halves,
    };
    let next = xor_net::learn(m, g, 2.0f64.to_bits());
    assert_eq!(f64::from_bits(next.or_w1), 0.0);
    assert_eq!(f64::from_bits(next.nand_b), 0.0);
    assert_eq!(f64::from_bits(next.and_w2), 0.0);
}

#[test]
fn scalar_xor_training_converges() {
    let data: Vec<(u64, u64, u64)> = vec![
        (0.0f64.to_bits(), 0.0f64.to_bits(), 0.0f64.to_bits()),
        (1.0f64.to_bits(), 0.0f64.to_bits(), 1.0f64.to_bits()),
        (0.0f64.to_bits(), 1.0f64.to_bits(), 1.0f64.to_bits()),
        (1.0f64.to_bits(), 1.0f64.to_bits(), 0.0f64.to_bits()),
    ];
    let m = xor_net::Xor {
        or_w1: 0.5f64.to_bits(),
        or_w2: 0.9f64.to_bits(),
        or_b: 0.2f64.to_bits(),
        nand_w1: 0.6f64.to_bits(),
        nand_w2: 0.1f64.to_bits(),
        nand_b: (-0.3f64).to_bits(),
        and_w1: 0.7f64.to_bits(),
        and_w2: (-0.4f64).to_bits(),
        and_b: 0.15f64.to_bits(),
    };
    let (trained, report) = xor_net::train(
        m,
        0.1f64.to_bits(),
        5.0f64.to_bits(),
        0.005f64.to_bits(),
        3000,
        &data,
    );
    assert!(report.converged);
    assert!(f64::from_bits(report.final_loss) < 0.005);
    for &(x1, x2, y) in data.iter() {
        let out = f64::from_bits(xor_net::forward(trained, x1, x2));
        assert!((out - f64::from_bits(y)).abs() < 0.2);
    }
}

#[test]
fn scalar_xor_random_init_stays_in_range() {
    let m = xor_net::rand_xor(0.2f64.to_bits());
    for v in [m.or_w1, m.or_w2, m.or_b, m.nand_w1, m.nand_w2, m.nand_b, m.and_w1, m.and_w2, m.and_b]
    {
        let x = f64::from_bits(v);
        assert!(x >= 0.0 && x <= 0.2);
    }
}

#[test]
fn linear_cost_is_exact_on_integers() {
    // y = 2 * 3 + 1 = 7 against label 5: squared error 4 over one row.
    let data = vec![(2.0f64.to_bits(), 5.0f64.to_bits())];
    let cost = linear_cost(3.0f64.to_bits(), 1.0f64.to_bits(), &data);
    assert_eq!(f64::from_bits(cost), 4.0);
}

#[test]
fn linear_step_descends_exactly() {
    // cost(w, b) = (w + b - 2)^2 on the single row x = 1, label 2; from
    // the origin with eps = 0.5 both quotients are exactly -3.5.
    let data = vec![(1.0f64.to_bits(), 2.0f64.to_bits())];
    let (w, b) = linear_step(
        0.0f64.to_bits(),
        0.0f64.to_bits(),
        0.5f64.to_bits(),
        1.0f64.to_bits(),
        &data,
    );
    assert_eq!(f64::from_bits(w), 3.5);
    assert_eq!(f64::from_bits(b), 3.5);
}

#[test]
fn neuron_cost_of_zero_weights_is_exact() {
    // AND gate rows; every output is sigmoid(0) = 0.5.
    let data: Vec<(u64, u64, u64)> = vec![
        (0.0f64.to_bits(), 0.0f64.to_bits(), 0.0f64.to_bits()),
        (1.0f64.to_bits(), 0.0f64.to_bits(), 0.0f64.to_bits()),
        (0.0f64.to_bits(), 1.0f64.to_bits(), 0.0f64.to_bits()),
        (1.0f64.to_bits(), 1.0f64.to_bits(), 1.0f64.to_bits()),
    ];
    let cost = neuron_cost(0.0f64.to_bits(), 0.0f64.to_bits(), 0.0f64.to_bits(), &data);
    assert_eq!(f64::from_bits(cost), 0.25);
}

#[test]
fn neuron_fit_reduces_the_cost() {
    let data: Vec<(u64, u64, u64)> = vec![
        (0.0f64.to_bits(), 0.0f64.to_bits(), 0.0f64.to_bits()),
        (1.0f64.to_bits(), 0.0f64.to_bits(), 0.0f64.to_bits()),
        (0.0f64.to_bits(), 1.0f64.to_bits(), 0.0f64.to_bits()),
        (1.0f64.to_bits(), 1.0f64.to_bits(), 1.0f64.to_bits()),
    ];
    let before = f64::from_bits(neuron_cost(
        0.0f64.to_bits(),
        0.0f64.to_bits(),
        0.0f64.to_bits(),
        &data,
    ));
    let (w1, w2, b) = neuron_fit(
        0.0f64.to_bits(),
        0.0f64.to_bits(),
        0.0f64.to_bits(),
        0.1f64.to_bits(),
        1.0f64.to_bits(),
        200,
        &data,
    );
    let after = f64::from_bits(neuron_cost(w1, w2, b, &data));
    assert!(after < before);
}

#[test]
fn allocate_leaves_every_buffer_empty() {
    let model = Model::allocate(2, 2, 1);
    assert_eq!(model.activation_0.data.len(), 0);
    assert_eq!(model.weights_1.data.len(), 0);
    assert_eq!(model.biases_1.data.len(), 0);
    assert_eq!(model.activation_1.data.len(), 0);
    assert_eq!(model.weights_2.data.len(), 0);
    assert_eq!(model.biases_2.data.len(), 0);
    assert_eq!(model.activation_2.data.len(), 0);
    let gradient = Gradient::allocate(2, 2, 1);
    assert_eq!(gradient.weights_1.data, vec![0u64; 4]);
    assert_eq!(gradient.biases_1.data, vec![0u64; 2]);
    assert_eq!(gradient.weights_2.data, vec![0u64; 2]);
    assert_eq!(gradient.biases_2.data, vec![0u64; 1]);
}
