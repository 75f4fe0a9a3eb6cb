use std::f64::consts::FRAC_1_SQRT_2;

use num_complex::Complex64;
use quamputer::bits::{control_mask, mask, power_of_two};
use quamputer::gate_op::{
    apply_cnot_gate, apply_controlled_hadamard, apply_controlled_not, apply_controlled_pauli_x,
    apply_controlled_pauli_y, apply_controlled_pauli_z, apply_controlled_swap, apply_hadamard_gate,
    apply_not_gate, apply_toffoli_gate, Phase, Row, Term,
};

fn term(t: &Term, v: &[Complex64]) -> Complex64 {
    let x = v[t.source];
    match t.phase {
        Phase::One => x,
        Phase::MinusOne => -x,
        Phase::I => Complex64::i() * x,
        Phase::MinusI => -Complex64::i() * x,
    }
}

fn run(t: &[Row], v: &[Complex64]) -> Vec<Complex64> {
    t.iter()
        .map(|row| match row {
            Row::Single(a) => term(a, v),
            Row::Mix(a, b) => (term(a, v) + term(b, v)) * FRAC_1_SQRT_2,
        })
        .collect()
}

fn basis(nb_qbits: u8, idx: usize) -> Vec<Complex64> {
    let mut v = vec![Complex64::new(0.0, 0.0); 1 << nb_qbits];
    v[idx] = Complex64::new(1.0, 0.0);
    v
}

fn c(re: f64, im: f64) -> Complex64 {
    Complex64::new(re, im)
}

fn close(a: Complex64, b: Complex64) -> bool {
    (a - b).norm() < 1e-6
}

fn expect(result: &[Complex64], expected: &[Complex64]) {
    assert_eq!(result.len(), expected.len());
    for (i, (a, b)) in result.iter().zip(expected.iter()).enumerate() {
        assert!(close(*a, *b), "amplitude {} is {:?}, expected {:?}", i, a, b);
    }
}

fn zero() -> Complex64 {
    c(0.0, 0.0)
}

fn one() -> Complex64 {
    c(1.0, 0.0)
}

fn superpos_1_6() -> Vec<Complex64> {
    let mut state = basis(3, 0);
    state[0] = zero();
    state[1] = one();
    state[6] = one();
    state
}

fn superpos_2_6_7() -> Vec<Complex64> {
    let mut state = basis(3, 0);
    state[0] = zero();
    state[2] = one();
    state[6] = c(2.0, 0.0);
    state[7] = c(3.0, 0.0);
    state
}

fn mix01() -> Vec<Complex64> {
    vec![c(1.0, 2.0), c(3.0, 4.0)]
}

#[test]
fn operations_not_test_on_zero() {
    let result = run(&apply_controlled_pauli_x(&[], 2, 3), &basis(3, 0));
    expect(&result, &basis(3, 1));
}

#[test]
fn operations_not_test_on_one() {
    let result = run(&apply_controlled_pauli_x(&[], 2, 3), &basis(3, 0));
    let result = run(&apply_controlled_pauli_x(&[], 1, 3), &result);
    expect(&result, &basis(3, 3));
}

#[test]
fn operations_not_test_superpos() {
    let result = run(&apply_controlled_pauli_x(&[], 1, 3), &superpos_1_6());
    let mut expected = basis(3, 3);
    expected[4] = one();
    expect(&result, &expected);
}

#[test]
fn operations_toffoli_test_on_zero() {
    let result = run(&apply_controlled_pauli_x(&[0, 1], 2, 3), &basis(3, 0));
    expect(&result, &basis(3, 0));
}

#[test]
fn operations_not_test_on_superposition() {
    let result = run(&apply_controlled_pauli_x(&[0, 1], 2, 3), &superpos_2_6_7());
    let mut expected = basis(3, 2);
    expected[6] = c(3.0, 0.0);
    expected[7] = c(2.0, 0.0);
    expect(&result, &expected);
}

#[test]
fn operations_pauli_y_test_on_0() {
    let result = run(&apply_controlled_pauli_y(&[], 0, 1), &basis(1, 0));
    expect(&result, &[zero(), Complex64::i()]);
}

#[test]
fn operations_pauli_y_test_on_1() {
    let result = run(&apply_controlled_pauli_y(&[], 0, 1), &basis(1, 1));
    expect(&result, &[c(0.0, -1.0), zero()]);
}

#[test]
fn operations_pauli_y_test_on_mix01() {
    let state = mix01();
    let result = run(&apply_controlled_pauli_y(&[], 0, 1), &state);
    expect(&result, &[state[1] * (-Complex64::i()), state[0] * Complex64::i()]);
}

#[test]
fn operations_pauli_z_test_on_0() {
    let result = run(&apply_controlled_pauli_z(&[], 0, 1), &basis(1, 0));
    expect(&result, &[one(), zero()]);
}

#[test]
fn operations_pauli_z_test_on_1() {
    let result = run(&apply_controlled_pauli_z(&[], 0, 1), &basis(1, 1));
    expect(&result, &[zero(), c(-1.0, 0.0)]);
}

#[test]
fn operations_pauli_z_test_on_mix01() {
    let state = mix01();
    let result = run(&apply_controlled_pauli_z(&[], 0, 1), &state);
    expect(&result, &[state[0], -state[1]]);
}

#[test]
fn operations_swap_test_on_00() {
    expect(&run(&apply_controlled_swap(&[], 0, 1, 2), &basis(2, 0)), &basis(2, 0));
}

#[test]
fn operations_swap_test_on_01() {
    expect(&run(&apply_controlled_swap(&[], 0, 1, 2), &basis(2, 1)), &basis(2, 2));
}

#[test]
fn operations_swap_test_on_10() {
    expect(&run(&apply_controlled_swap(&[], 0, 1, 2), &basis(2, 2)), &basis(2, 1));
}

#[test]
fn operations_swap_test_on_11() {
    expect(&run(&apply_controlled_swap(&[], 0, 1, 2), &basis(2, 3)), &basis(2, 3));
}

#[test]
fn pauli_pauli_y_test_on_0() {
    let result = run(&apply_controlled_pauli_y(&[], 0, 1), &basis(1, 0));
    expect(&result, &[zero(), Complex64::i()]);
}

#[test]
fn pauli_pauli_y_test_on_1() {
    let result = run(&apply_controlled_pauli_y(&[], 0, 1), &basis(1, 1));
    expect(&result, &[c(0.0, -1.0), zero()]);
}

#[test]
fn pauli_pauli_y_test_on_mix01() {
    let state = mix01();
    let result = run(&apply_controlled_pauli_y(&[], 0, 1), &state);
    expect(&result, &[state[1] * (-Complex64::i()), state[0] * Complex64::i()]);
}

#[test]
fn pauli_pauli_z_test_on_0() {
    let result = run(&apply_controlled_pauli_z(&[], 0, 1), &basis(1, 0));
    expect(&result, &[one(), zero()]);
}

#[test]
fn pauli_pauli_z_test_on_1() {
    let result = run(&apply_controlled_pauli_z(&[], 0, 1), &basis(1, 1));
    expect(&result, &[zero(), c(-1.0, 0.0)]);
}

#[test]
fn pauli_pauli_z_test_on_mix01() {
    let state = mix01();
    let result = run(&apply_controlled_pauli_z(&[], 0, 1), &state);
    expect(&result, &[state[0], -state[1]]);
}

#[test]
fn pauli_not_test_on_zero() {
    let result = run(&apply_controlled_pauli_x(&[], 2, 3), &basis(3, 0));
    expect(&result, &basis(3, 1));
}

#[test]
fn pauli_not_test_on_one() {
    let result = run(&apply_controlled_pauli_x(&[], 2, 3), &basis(3, 0));
    let result = run(&apply_controlled_pauli_x(&[], 1, 3), &result);
    expect(&result, &basis(3, 3));
}

#[test]
fn pauli_not_test_superpos() {
    let result = run(&apply_controlled_pauli_x(&[], 1, 3), &superpos_1_6());
    let mut expected = basis(3, 3);
    expected[4] = one();
    expect(&result, &expected);
}

#[test]
fn pauli_toffoli_test_on_zero() {
    let result = run(&apply_controlled_pauli_x(&[0, 1], 2, 3), &basis(3, 0));
    expect(&result, &basis(3, 0));
}

#[test]
fn pauli_not_test_on_superposition() {
    let result = run(&apply_controlled_pauli_x(&[0, 1], 2, 3), &superpos_2_6_7());
    let mut expected = basis(3, 2);
    expected[6] = c(3.0, 0.0);
    expected[7] = c(2.0, 0.0);
    expect(&result, &expected);
}

#[test]
fn swap_swap_test_on_00() {
    expect(&run(&apply_controlled_swap(&[], 0, 1, 2), &basis(2, 0)), &basis(2, 0));
}

#[test]
fn swap_swap_test_on_01() {
    expect(&run(&apply_controlled_swap(&[], 0, 1, 2), &basis(2, 1)), &basis(2, 2));
}

#[test]
fn swap_swap_test_on_10() {
    expect(&run(&apply_controlled_swap(&[], 0, 1, 2), &basis(2, 2)), &basis(2, 1));
}

#[test]
fn swap_swap_test_on_11() {
    expect(&run(&apply_controlled_swap(&[], 0, 1, 2), &basis(2, 3)), &basis(2, 3));
}

#[test]
fn masks_follow_qubit_order() {
    assert_eq!(power_of_two(0), 1);
    assert_eq!(power_of_two(5), 32);
    assert_eq!(mask(3, 0), 4);
    assert_eq!(mask(3, 2), 1);
    assert_eq!(control_mask(3, &[0, 1]), 6);
    assert_eq!(control_mask(3, &[]), 0);
}

#[test]
fn not_twice_is_identity() {
    let state = vec![c(0.1, 0.2), c(0.3, -0.1), c(0.0, 0.5), c(-0.4, 0.1), c(0.2, 0.2), c(0.1, 0.0), c(0.0, -0.3), c(0.6, 0.0)];
    let t = apply_controlled_not(&[0], 2, 3);
    let twice = run(&t, &run(&t, &state));
    expect(&twice, &state);
}

#[test]
fn hadamard_twice_is_identity() {
    let state = vec![c(0.1, 0.2), c(0.3, -0.1), c(0.0, 0.5), c(-0.4, 0.1), c(0.2, 0.2), c(0.1, 0.0), c(0.0, -0.3), c(0.6, 0.0)];
    let t = apply_controlled_hadamard(&[1], 0, 3);
    let twice = run(&t, &run(&t, &state));
    expect(&twice, &state);
}

#[test]
fn hadamard_on_zero_is_even_superposition() {
    let result = run(&apply_hadamard_gate(0, 1), &basis(1, 0));
    expect(&result, &[c(FRAC_1_SQRT_2, 0.0), c(FRAC_1_SQRT_2, 0.0)]);
    let result = run(&apply_hadamard_gate(0, 1), &basis(1, 1));
    expect(&result, &[c(FRAC_1_SQRT_2, 0.0), c(-FRAC_1_SQRT_2, 0.0)]);
}

#[test]
fn probability_is_kept_by_gates() {
    let mut state = basis(3, 0);
    for t in [
        apply_hadamard_gate(0, 3),
        apply_cnot_gate(0, 1, 3),
        apply_controlled_pauli_y(&[1], 2, 3),
        apply_controlled_hadamard(&[0, 2], 1, 3),
        apply_controlled_swap(&[0], 1, 2, 3),
        apply_controlled_pauli_z(&[], 2, 3),
    ] {
        state = run(&t, &state);
        let total: f64 = state.iter().map(|a| a.norm_sqr()).sum();
        assert!((total - 1.0).abs() < 1e-6);
    }
}

#[test]
fn toffoli_scenarios() {
    let result = run(&apply_toffoli_gate(0, 1, 2, 3), &basis(3, 0));
    expect(&result, &basis(3, 0));
    let mut state = vec![zero(); 8];
    state[6] = c(2.0, 0.0);
    state[7] = c(3.0, 0.0);
    let result = run(&apply_toffoli_gate(0, 1, 2, 3), &state);
    let mut expected = vec![zero(); 8];
    expected[6] = c(3.0, 0.0);
    expected[7] = c(2.0, 0.0);
    expect(&result, &expected);
}

#[test]
fn not_gate_rows() {
    let t = apply_not_gate(1, 2);
    assert_eq!(t[0], Row::Single(Term { source: 1, phase: Phase::One }));
    assert_eq!(t[3], Row::Single(Term { source: 2, phase: Phase::One }));
}
