use std::f64::consts::FRAC_1_SQRT_2;

use num_complex::Complex64;
use quamputer::_loop::Loop;
use quamputer::base_gate::BaseGate;
use quamputer::builder::QuantumCircuitBuilder;
use quamputer::circuit::Circuit;
use quamputer::common_gate::{cnot, cswap, fredkin, hadamard, pauli_x, toffoli, CommonGate, StandardGate};
use quamputer::computer::QuantumComputer;
use quamputer::condition::StopCondition;
use quamputer::execution::ExecutionContext;
use quamputer::executor::{Executor, Step};
use quamputer::gate::{check_for_no_duplicate, Gate, ValidityError};
use quamputer::gate_op::{Phase, Row, Term};
use quamputer::id_generator::IdGenerator;
use quamputer::measure::{Measure, MeasureCount, State};
use quamputer::operation::CircuitElement;

fn term(t: &Term, v: &[Complex64]) -> Complex64 {
    let x = v[t.source];
    match t.phase {
        Phase::One => x,
        Phase::MinusOne => -x,
        Phase::I => Complex64::i() * x,
        Phase::MinusI => -Complex64::i() * x,
    }
}

fn apply(t: &[Row], v: &[Complex64]) -> Vec<Complex64> {
    t.iter()
        .map(|row| match row {
            Row::Single(a) => term(a, v),
            Row::Mix(a, b) => (term(a, v) + term(b, v)) * FRAC_1_SQRT_2,
        })
        .collect()
}

fn basis(nb_qbits: u8, idx: usize) -> Vec<Complex64> {
    let mut v = vec![Complex64::new(0.0, 0.0); 1 << nb_qbits];
    v[idx] = Complex64::new(1.0, 0.0);
    v
}

fn pick(state: &[Complex64], draw: f64) -> usize {
    let mut target = 1.0 - draw;
    for (index, amplitude) in state.iter().enumerate() {
        target -= amplitude.norm_sqr();
        if target <= 0.0 {
            return index;
        }
    }
    state.len() - 1
}

/// Runs `circuit` from `state`, taking the uniform draws of the measurements
/// from `draws` in order; returns the final amplitudes, the context and the
/// number of measurements made.
fn run(circuit: &Circuit, mut state: Vec<Complex64>, draws: &[f64]) -> (Vec<Complex64>, ExecutionContext, usize) {
    let mut context = ExecutionContext::initialize(circuit.nb_qbits);
    let mut executor = Executor::new(circuit);
    let mut used = 0;
    loop {
        match executor.step(circuit, &context) {
            Step::Apply(t) => {
                state = apply(&t, &state);
                context.set_current_state();
            },
            Step::Measure { id, target } => {
                let index = pick(&state, draws[used]);
                used += 1;
                state = basis(circuit.nb_qbits, index);
                context.set_measurement(&id, target, index);
            },
            Step::Continue => {},
            Step::Done => break,
        }
    }
    (state, context, used)
}

fn close(a: &[Complex64], b: &[Complex64]) -> bool {
    a.len() == b.len() && a.iter().zip(b.iter()).all(|(x, y)| (x - y).norm() < 1e-6)
}

#[test]
fn it_works() {
    assert_eq!(2 + 2, 4);
}

#[test]
fn lib_it_works() {
    assert_eq!(2 + 2, 4);
}

#[test]
fn builder_rejects_target_used_as_control() {
    let mut builder = QuantumCircuitBuilder::new(3);
    builder.add_operation(CircuitElement::Gate(BaseGate::Not(1).with_one_control(1)));
    let r = builder.build();
    assert!(matches!(r, Err(ValidityError::DuplicateQbit(1))));
    assert_eq!(ValidityError::DuplicateQbit(1).message(), "Duplicate qbit : 1 ");
}

#[test]
fn builder_rejects_index_out_of_range() {
    let mut builder = QuantumCircuitBuilder::new(3);
    builder.add_operation(CircuitElement::Gate(toffoli(0, 1, 2)));
    builder.add_measure("m", 3);
    let r = builder.build();
    assert!(matches!(r, Err(ValidityError::IndexTooHigh(3))));
    assert_eq!(ValidityError::IndexTooHigh(3).message(), "Index to high 3");
    assert_eq!(ValidityError::IndexTooHigh(200).message(), "Index to high 200");
}

#[test]
fn builder_reports_first_error_in_order() {
    let mut builder = QuantumCircuitBuilder::new(2);
    builder.add_operation(CircuitElement::Gate(BaseGate::Swap(0, 0).with_multi_control(&[])));
    builder.add_operation(CircuitElement::Gate(BaseGate::X(5).with_multi_control(&[])));
    assert!(matches!(builder.build(), Err(ValidityError::DuplicateQbit(0))));
}

#[test]
fn builder_checks_loop_bodies() {
    let mut inner = QuantumCircuitBuilder::new(2);
    inner.add_operation(CircuitElement::Gate(BaseGate::Hadamard(2).with_multi_control(&[])));
    let body = Circuit { nb_qbits: 2, elements: vec![] };
    let mut outer = QuantumCircuitBuilder::new(2);
    outer.add_loop(body, StopCondition::Once);
    assert!(outer.build().is_ok());
    let bad = Circuit { nb_qbits: 2, elements: vec![CircuitElement::Measure(Measure::new("x", 4))] };
    let mut outer = QuantumCircuitBuilder::new(2);
    outer.add_loop(bad, StopCondition::Once);
    assert!(matches!(outer.build(), Err(ValidityError::IndexTooHigh(4))));
    assert!(inner.build().is_err());
}

#[test]
fn build_leaves_the_builder_unchanged() {
    let mut builder = QuantumCircuitBuilder::new(2);
    builder.add_operation(CircuitElement::Gate(BaseGate::Hadamard(0).with_multi_control(&[])));
    builder.add_measure("m", 1);
    let first = builder.build().ok().unwrap();
    let second = builder.build().ok().unwrap();
    assert_eq!(first.elements.len(), 2);
    assert_eq!(second.elements.len(), 2);
    assert_eq!(second.nb_qbits, 2);
    assert!(matches!(&second.elements[1], CircuitElement::Measure(m) if m.id == "m" && m.qbit_target == 1));
    let copy = second.clone();
    assert_eq!(copy.elements.len(), 2);
    assert!(matches!(&copy.elements[0], CircuitElement::Gate(g) if g.get_gate() == BaseGate::Hadamard(0)));
}

#[test]
fn loop_body_for_another_register_is_rejected() {
    let body = Circuit { nb_qbits: 3, elements: vec![] };
    let mut builder = QuantumCircuitBuilder::new(2);
    builder.add_loop(body, StopCondition::Once);
    assert!(matches!(builder.build(), Err(ValidityError::QbitCountMismatch(3))));
    assert_eq!(ValidityError::QbitCountMismatch(3).message(), "Loop circuit for 3 qbits");
}

#[test]
fn duplicates_are_found_in_order() {
    assert!(check_for_no_duplicate(&vec![]).is_ok());
    assert!(check_for_no_duplicate(&vec![3, 1, 2]).is_ok());
    assert!(matches!(check_for_no_duplicate(&vec![1, 2, 3, 2, 1]), Err(ValidityError::DuplicateQbit(1))));
    assert!(matches!(check_for_no_duplicate(&vec![4, 2, 3, 2]), Err(ValidityError::DuplicateQbit(2))));
}

#[test]
fn gate_accessors_and_max_index() {
    let g = BaseGate::Swap(1, 4).with_two_controls(6, 0);
    assert_eq!(g.get_gate(), BaseGate::Swap(1, 4));
    assert_eq!(g.get_control_bits(), &vec![6, 0]);
    assert_eq!(g.max_qbit_idx(), 6);
    assert_eq!(BaseGate::Swap(1, 4).max_qbit_idx(), 4);
    assert_eq!(BaseGate::Z(2).get_involved_qbits(&[5, 7]), vec![5, 7, 2]);
    assert_eq!(BaseGate::Swap(2, 3).get_involved_qbits(&[]), vec![2, 3]);
    assert_eq!(Gate::new(BaseGate::Y(3), vec![]).max_qbit_idx(), 3);
    assert!(Gate::new(BaseGate::Y(3), vec![1]).check_validity(4).is_ok());
    let m = Measure::new("q", 2);
    assert_eq!(m.max_qbit_idx(), 2);
    assert!(matches!(m.check_validity(2), Err(ValidityError::IndexTooHigh(2))));
    let c = Circuit { nb_qbits: 3, elements: vec![] };
    let l = CircuitElement::Loop(Loop::new(c, StopCondition::Once));
    assert_eq!(l.max_qbit_idx(), 2);
}

#[test]
fn gate_texts() {
    assert_eq!(BaseGate::X(0).text(), Some("X".to_string()));
    assert_eq!(BaseGate::Hadamard(0).text(), Some("H".to_string()));
    assert_eq!(BaseGate::Not(0).text(), None);
    assert_eq!(BaseGate::Swap(0, 1).text(), None);
}

#[test]
fn common_gates_expand() {
    let g = CommonGate::Toffoli(2, [0, 1]).into_gate();
    assert_eq!(g.get_gate(), BaseGate::Not(2));
    assert_eq!(g.get_control_bits(), &vec![0, 1]);
    let g = CommonGate::Fredkin(1, 2, [0]).into_gate();
    assert_eq!(g.get_gate(), BaseGate::Swap(1, 2));
    assert_eq!(g.get_control_bits(), &vec![0]);
    let g = StandardGate::CNot(1, [0]).into_gate();
    assert_eq!(g.get_gate(), BaseGate::Not(1));
    assert_eq!(g.get_control_bits(), &vec![0]);
    assert_eq!(cnot(0, 1).get_control_bits(), &vec![0]);
    assert_eq!(cswap(0, 1, 2).get_gate(), BaseGate::Swap(1, 2));
    assert_eq!(fredkin(0, 1, 2).get_control_bits(), &vec![0]);
    assert_eq!(hadamard(1), BaseGate::Hadamard(1));
    assert_eq!(pauli_x(1), BaseGate::X(1));
}

#[test]
fn computer_and_bell_state() {
    let computer = QuantumComputer::new(3);
    assert_eq!(computer.nb_qbits(), 3);
    let mut builder = computer.bell_state();
    builder.add_measure("q0", 0);
    let circuit = builder.build().ok().unwrap();
    assert_eq!(circuit.elements.len(), 4);
    let (state, context, used) = run(&circuit, basis(3, 0), &[0.25]);
    assert_eq!(used, 1);
    assert!(close(&state, &basis(3, 7)) || close(&state, &basis(3, 0)));
    assert_eq!(context.get_nb_zero("q0") + context.get_nb_one("q0"), 1);
    let (state, _, _) = run(&computer.bell_state().build().ok().unwrap(), basis(3, 0), &[]);
    let mut expected = vec![Complex64::new(0.0, 0.0); 8];
    expected[0] = Complex64::new(FRAC_1_SQRT_2, 0.0);
    expected[7] = Complex64::new(FRAC_1_SQRT_2, 0.0);
    assert!(close(&state, &expected));
}

#[test]
fn measurement_counts_follow_the_sampled_bit() {
    let mut context = ExecutionContext::initialize(2);
    let id = "m".to_string();
    assert_eq!(context.get_count("m"), None);
    context.set_measurement(&id, 0, 2);
    assert_eq!(context.get_count("m"), Some(MeasureCount { nb_zero: 0, nb_one: 1 }));
    assert_eq!(context.state(), State::Measured(2));
    context.set_measurement(&id, 1, 2);
    assert_eq!(context.get_nb_zero("m"), 1);
    assert_eq!(context.get_nb_one("m"), 1);
    context.increase_zero(&"other".to_string());
    assert_eq!(context.get_nb_zero("other"), 1);
    assert_eq!(context.get_nb_one("other"), 0);
    assert_eq!(context.get_nb_zero("m"), 1);
    context.set_current_state();
    assert_eq!(context.state(), State::NotMeasured);
    assert_eq!(context.nb_qbits(), 2);
}

#[test]
fn measure_collapses_to_one_basis_state() {
    let mut builder = QuantumCircuitBuilder::new(2);
    builder.add_operation(CircuitElement::Gate(BaseGate::Hadamard(0).with_multi_control(&[])));
    builder.add_operation(CircuitElement::Gate(BaseGate::Hadamard(1).with_multi_control(&[])));
    builder.add_measure("q1", 1);
    let circuit = builder.build().ok().unwrap();
    let (state, context, _) = run(&circuit, basis(2, 0), &[0.1]);
    let nonzero: Vec<usize> = (0..4).filter(|i| state[*i].norm() > 1e-9).collect();
    assert_eq!(nonzero.len(), 1);
    assert!((state[nonzero[0]].norm() - 1.0).abs() < 1e-9);
    assert_eq!(context.state(), State::Measured(nonzero[0]));
    let bit_one = nonzero[0] & 1 == 1;
    assert_eq!(context.get_nb_one("q1"), if bit_one { 1 } else { 0 });
    assert_eq!(context.get_nb_zero("q1"), if bit_one { 0 } else { 1 });
}

#[test]
fn max_iteration_zero_runs_no_iteration() {
    let body = Circuit { nb_qbits: 1, elements: vec![CircuitElement::Gate(BaseGate::Not(0).with_multi_control(&[]))] };
    let mut builder = QuantumCircuitBuilder::new(1);
    builder.add_loop(body, StopCondition::MaxIteration(0));
    let circuit = builder.build().ok().unwrap();
    let (state, _, _) = run(&circuit, basis(1, 0), &[]);
    assert!(close(&state, &basis(1, 0)));
}

#[test]
fn max_iteration_counts_iterations() {
    let body = Circuit { nb_qbits: 2, elements: vec![CircuitElement::Gate(BaseGate::Not(1).with_multi_control(&[]))] };
    let mut builder = QuantumCircuitBuilder::new(2);
    builder.add_loop(body, StopCondition::MaxIteration(3));
    let circuit = builder.build().ok().unwrap();
    let (state, _, _) = run(&circuit, basis(2, 0), &[]);
    assert!(close(&state, &basis(2, 1)));
    let body = Circuit { nb_qbits: 2, elements: vec![CircuitElement::Gate(BaseGate::Not(1).with_multi_control(&[]))] };
    let mut builder = QuantumCircuitBuilder::new(2);
    builder.add_loop(body, StopCondition::Once);
    let (state, _, _) = run(&builder.build().ok().unwrap(), basis(2, 0), &[]);
    assert!(close(&state, &basis(2, 1)));
}

#[test]
fn zero_sampling_loop_stops_at_first_zero() {
    let body = Circuit {
        nb_qbits: 1,
        elements: vec![
            CircuitElement::Gate(BaseGate::Hadamard(0).with_multi_control(&[])),
            CircuitElement::Measure(Measure::new("q0", 0)),
        ],
    };
    let mut builder = QuantumCircuitBuilder::new(1);
    builder.add_loop(body, StopCondition::MaxZeroSampling { id: "q0".to_string(), nb: 1 });
    let circuit = builder.build().ok().unwrap();
    // draws 0.1 and 0.2 give index 1, draw 0.9 gives index 0
    let (state, context, used) = run(&circuit, basis(1, 0), &[0.1, 0.2, 0.9, 0.9]);
    assert_eq!(used, 3);
    assert_eq!(context.get_nb_zero("q0"), 1);
    assert_eq!(context.get_nb_one("q0"), 2);
    assert!(close(&state, &basis(1, 0)));
}

#[test]
fn combined_conditions() {
    let ctx = ExecutionContext::initialize(1);
    let once_or = StopCondition::Or(Box::new(StopCondition::Once), Box::new(StopCondition::MaxIteration(5)));
    assert!(!once_or.is_end_of_loop(0, &ctx));
    assert!(once_or.is_end_of_loop(1, &ctx));
    let and = StopCondition::And(Box::new(StopCondition::Once), Box::new(StopCondition::MaxIteration(5)));
    assert!(!and.is_end_of_loop(4, &ctx));
    assert!(and.is_end_of_loop(5, &ctx));
    let one = StopCondition::MaxOneSample { id: "a".to_string(), nb: 0 };
    assert!(one.is_end_of_loop(0, &ctx));
    let one = StopCondition::MaxOneSample { id: "a".to_string(), nb: 1 };
    assert!(!one.is_end_of_loop(7, &ctx));
    let copied = and.clone();
    assert!(!copied.is_end_of_loop(4, &ctx));
    assert!(copied.is_end_of_loop(5, &ctx));
    let body = Circuit { nb_qbits: 1, elements: vec![CircuitElement::Measure(Measure::new("z", 0))] };
    let l = Loop::new(body, copied).clone();
    assert_eq!(l.circuit.nb_qbits, 1);
    assert!(matches!(&l.circuit.elements[0], CircuitElement::Measure(m) if m.id == "z"));
}

#[test]
fn id_generator_counts_up() {
    let mut g = IdGenerator::new();
    assert_eq!(g.get_and_increment(), 0);
    assert_eq!(g.get_and_increment(), 1);
    assert_eq!(g.get_and_increment(), 2);
}
