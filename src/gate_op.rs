use vstd::prelude::*;
use vstd::arithmetic::power2::pow2;

use crate::bits::{all_below, control_mask, controls_hold, dimension, fits, mask, mask_of, power_of_two};

verus! {

/// A unit factor that multiplies one amplitude.
#[derive(Clone, Copy, PartialEq, Eq, Debug)]
pub enum Phase {
    One,
    MinusOne,
    I,
    MinusI,
}

/// One amplitude of the input state, taken at `source` and multiplied by `phase`.
#[derive(Clone, Copy, PartialEq, Eq, Debug)]
pub struct Term {
    pub source: usize,
    pub phase: Phase,
}

/// How one amplitude of the output state is obtained from the input state.
#[derive(Clone, Copy, PartialEq, Eq, Debug)]
pub enum Row {
    /// The output amplitude is this term.
    Single(Term),
    /// The output amplitude is the sum of the two terms times `1/sqrt(2)`.
    Mix(Term, Term),
}

/// The action of a gate on a state vector: row `i` gives output amplitude `i`
/// from the amplitudes of the input. Every output index is written once.
pub type Transform = Vec<Row>;

pub open spec fn same(i: usize) -> Row {
    Row::Single(Term { source: i, phase: Phase::One })
}

/// Controlled Not / Pauli-X: where the controls hold, output `i` is input `i ^ target_mask`.
pub open spec fn not_row(nb_qbits: u8, controls: Seq<u8>, target: u8, i: usize) -> Row {
    if controls_hold(nb_qbits, controls, i) {
        Row::Single(Term { source: i ^ mask_of(nb_qbits, target), phase: Phase::One })
    } else {
        same(i)
    }
}

/// Controlled Pauli-Y: `Y|0> = i|1>` and `Y|1> = -i|0>`, where the controls hold.
pub open spec fn pauli_y_row(nb_qbits: u8, controls: Seq<u8>, target: u8, i: usize) -> Row {
    if controls_hold(nb_qbits, controls, i) {
        Row::Single(
            Term {
                source: i ^ mask_of(nb_qbits, target),
                phase: if (i & mask_of(nb_qbits, target)) != 0 {
                    Phase::I
                } else {
                    Phase::MinusI
                },
            },
        )
    } else {
        same(i)
    }
}

/// Controlled Pauli-Z: the amplitude is negated where the controls hold and the target is 1.
pub open spec fn pauli_z_row(nb_qbits: u8, controls: Seq<u8>, target: u8, i: usize) -> Row {
    if controls_hold(nb_qbits, controls, i) && (i & mask_of(nb_qbits, target)) != 0 {
        Row::Single(Term { source: i, phase: Phase::MinusOne })
    } else {
        same(i)
    }
}

/// Controlled Hadamard: where the controls hold, `|..0..>` gets `(a0 + a1)/sqrt(2)` and
/// `|..1..>` gets `(a0 - a1)/sqrt(2)`, with `a0`, `a1` the amplitudes of the two
/// indices that differ in the target bit.
pub open spec fn hadamard_row(nb_qbits: u8, controls: Seq<u8>, target: u8, i: usize) -> Row {
    let m = mask_of(nb_qbits, target);
    if controls_hold(nb_qbits, controls, i) {
        if (i & m) != 0 {
            Row::Mix(
                Term { source: i ^ m, phase: Phase::One },
                Term { source: i, phase: Phase::MinusOne },
            )
        } else {
            Row::Mix(Term { source: i, phase: Phase::One }, Term { source: i ^ m, phase: Phase::One })
        }
    } else {
        same(i)
    }
}

/// Controlled Swap: where the controls hold, the two target bits of the index are exchanged.
pub open spec fn swap_row(nb_qbits: u8, controls: Seq<u8>, target1: u8, target2: u8, i: usize) -> Row {
    let m1 = mask_of(nb_qbits, target1);
    let m2 = mask_of(nb_qbits, target2);
    if controls_hold(nb_qbits, controls, i) && (((i & m1) != 0) != ((i & m2) != 0)) {
        Row::Single(Term { source: (i ^ m1) ^ m2, phase: Phase::One })
    } else {
        same(i)
    }
}

/// A gate's target and controls fit a register of `nb_qbits` qubits.
pub open spec fn kernel_args(nb_qbits: u8, controls: Seq<u8>, target: u8) -> bool {
    fits(nb_qbits) && all_below(controls, nb_qbits) && target < nb_qbits
}

/// Controlled Not on `target` with the given control qubits.
pub fn apply_controlled_not(control_qbits: &[u8], target: u8, nb_qbits: u8) -> (r: Transform)
    requires
        kernel_args(nb_qbits, control_qbits@, target),
    ensures
        r@.len() == dimension(nb_qbits),
        forall|i: int| 0 <= i < r@.len() ==> r@[i] == not_row(nb_qbits, control_qbits@, target, i as usize),
{
    apply_controlled_pauli_x(control_qbits, target, nb_qbits)
}

/// Controlled Pauli-X on `target` with the given control qubits.
pub fn apply_controlled_pauli_x(control_qbits: &[u8], target: u8, nb_qbits: u8) -> (r: Transform)
    requires
        kernel_args(nb_qbits, control_qbits@, target),
    ensures
        r@.len() == dimension(nb_qbits),
        forall|i: int| 0 <= i < r@.len() ==> r@[i] == not_row(nb_qbits, control_qbits@, target, i as usize),
{
    let cm = control_mask(nb_qbits, control_qbits);
    let tm = mask(nb_qbits, target);
    let len = power_of_two(nb_qbits);
    let mut result: Vec<Row> = Vec::with_capacity(len);
    let mut i: usize = 0;
    while i < len
        invariant
            kernel_args(nb_qbits, control_qbits@, target),
            len == pow2(nb_qbits as nat),
            tm == mask_of(nb_qbits, target),
            forall|k: usize| ((k & cm) == cm) <==> controls_hold(nb_qbits, control_qbits@, k),
            i <= len,
            result@.len() == i,
            forall|k: int| 0 <= k < i ==> result@[k] == not_row(nb_qbits, control_qbits@, target, k as usize),
        decreases len - i,
    {
        let row = if (i & cm) == cm {
            Row::Single(Term { source: i ^ tm, phase: Phase::One })
        } else {
            Row::Single(Term { source: i, phase: Phase::One })
        };
        result.push(row);
        i = i + 1;
    }
    result
}

/// Controlled Pauli-Y on `target` with the given control qubits.
pub fn apply_controlled_pauli_y(control_qbits: &[u8], target: u8, nb_qbits: u8) -> (r: Transform)
    requires
        kernel_args(nb_qbits, control_qbits@, target),
    ensures
        r@.len() == dimension(nb_qbits),
        forall|i: int| 0 <= i < r@.len() ==> r@[i] == pauli_y_row(nb_qbits, control_qbits@, target, i as usize),
{
    let cm = control_mask(nb_qbits, control_qbits);
    let tm = mask(nb_qbits, target);
    let len = power_of_two(nb_qbits);
    let mut result: Vec<Row> = Vec::with_capacity(len);
    let mut i: usize = 0;
    while i < len
        invariant
            kernel_args(nb_qbits, control_qbits@, target),
            len == pow2(nb_qbits as nat),
            tm == mask_of(nb_qbits, target),
            forall|k: usize| ((k & cm) == cm) <==> controls_hold(nb_qbits, control_qbits@, k),
            i <= len,
            result@.len() == i,
            forall|k: int| 0 <= k < i ==> result@[k] == pauli_y_row(nb_qbits, control_qbits@, target, k as usize),
        decreases len - i,
    {
        let row = if (i & cm) == cm {
            let phase = if (i & tm) != 0 {
                Phase::I
            } else {
                Phase::MinusI
            };
            Row::Single(Term { source: i ^ tm, phase })
        } else {
            Row::Single(Term { source: i, phase: Phase::One })
        };
        result.push(row);
        i = i + 1;
    }
    result
}

/// Controlled Pauli-Z on `target` with the given control qubits.
pub fn apply_controlled_pauli_z(control_qbits: &[u8], target: u8, nb_qbits: u8) -> (r: Transform)
    requires
        kernel_args(nb_qbits, control_qbits@, target),
    ensures
        r@.len() == dimension(nb_qbits),
        forall|i: int| 0 <= i < r@.len() ==> r@[i] == pauli_z_row(nb_qbits, control_qbits@, target, i as usize),
{
    let cm = control_mask(nb_qbits, control_qbits);
    let tm = mask(nb_qbits, target);
    let len = power_of_two(nb_qbits);
    let mut result: Vec<Row> = Vec::with_capacity(len);
    let mut i: usize = 0;
    while i < len
        invariant
            kernel_args(nb_qbits, control_qbits@, target),
            len == pow2(nb_qbits as nat),
            tm == mask_of(nb_qbits, target),
            forall|k: usize| ((k & cm) == cm) <==> controls_hold(nb_qbits, control_qbits@, k),
            i <= len,
            result@.len() == i,
            forall|k: int| 0 <= k < i ==> result@[k] == pauli_z_row(nb_qbits, control_qbits@, target, k as usize),
        decreases len - i,
    {
        let row = if (i & cm) == cm && (i & tm) != 0 {
            Row::Single(Term { source: i, phase: Phase::MinusOne })
        } else {
            Row::Single(Term { source: i, phase: Phase::One })
        };
        result.push(row);
        i = i + 1;
    }
    result
}

/// Controlled Hadamard on `target` with the given control qubits.
pub fn apply_controlled_hadamard(control_qbits: &[u8], target: u8, nb_qbits: u8) -> (r: Transform)
    requires
        kernel_args(nb_qbits, control_qbits@, target),
    ensures
        r@.len() == dimension(nb_qbits),
        forall|i: int| 0 <= i < r@.len() ==> r@[i] == hadamard_row(nb_qbits, control_qbits@, target, i as usize),
{
    let cm = control_mask(nb_qbits, control_qbits);
    let tm = mask(nb_qbits, target);
    let len = power_of_two(nb_qbits);
    let mut result: Vec<Row> = Vec::with_capacity(len);
    let mut i: usize = 0;
    while i < len
        invariant
            kernel_args(nb_qbits, control_qbits@, target),
            len == pow2(nb_qbits as nat),
            tm == mask_of(nb_qbits, target),
            forall|k: usize| ((k & cm) == cm) <==> controls_hold(nb_qbits, control_qbits@, k),
            i <= len,
            result@.len() == i,
            forall|k: int| 0 <= k < i ==> result@[k] == hadamard_row(nb_qbits, control_qbits@, target, k as usize),
        decreases len - i,
    {
        let row = if (i & cm) == cm {
            if (i & tm) != 0 {
                Row::Mix(
                    Term { source: i ^ tm, phase: Phase::One },
                    Term { source: i, phase: Phase::MinusOne },
                )
            } else {
                Row::Mix(Term { source: i, phase: Phase::One }, Term { source: i ^ tm, phase: Phase::One })
            }
        } else {
            Row::Single(Term { source: i, phase: Phase::One })
        };
        result.push(row);
        i = i + 1;
    }
    result
}

/// Controlled Swap of `target1` and `target2` with the given control qubits.
pub fn apply_controlled_swap(control_qbits: &[u8], target1: u8, target2: u8, nb_qbits: u8) -> (r: Transform)
    requires
        kernel_args(nb_qbits, control_qbits@, target1),
        target2 < nb_qbits,
    ensures
        r@.len() == dimension(nb_qbits),
        forall|i: int|
            0 <= i < r@.len() ==> r@[i] == swap_row(nb_qbits, control_qbits@, target1, target2, i as usize),
{
    let cm = control_mask(nb_qbits, control_qbits);
    let m1 = mask(nb_qbits, target1);
    let m2 = mask(nb_qbits, target2);
    let len = power_of_two(nb_qbits);
    let mut result: Vec<Row> = Vec::with_capacity(len);
    let mut i: usize = 0;
    while i < len
        invariant
            kernel_args(nb_qbits, control_qbits@, target1),
            target2 < nb_qbits,
            len == pow2(nb_qbits as nat),
            m1 == mask_of(nb_qbits, target1),
            m2 == mask_of(nb_qbits, target2),
            forall|k: usize| ((k & cm) == cm) <==> controls_hold(nb_qbits, control_qbits@, k),
            i <= len,
            result@.len() == i,
            forall|k: int|
                0 <= k < i ==> result@[k] == swap_row(nb_qbits, control_qbits@, target1, target2, k as usize),
        decreases len - i,
    {
        let row = if (i & cm) == cm && (((i & m1) != 0) != ((i & m2) != 0)) {
            Row::Single(Term { source: (i ^ m1) ^ m2, phase: Phase::One })
        } else {
            Row::Single(Term { source: i, phase: Phase::One })
        };
        result.push(row);
        i = i + 1;
    }
    result
}

} // verus!

verus! {

/// An exact complex number `re + i*im`.
pub type Gaussian = (int, int);

pub open spec fn phase_times(p: Phase, z: Gaussian) -> Gaussian {
    match p {
        Phase::One => z,
        Phase::MinusOne => (-z.0, -z.1),
        Phase::I => (-z.1, z.0),
        Phase::MinusI => (z.1, -z.0),
    }
}

pub open spec fn term_value(t: Term, v: Seq<Gaussian>) -> Gaussian {
    phase_times(t.phase, v[t.source as int])
}

/// The value of a row on input `v`, leaving out the `1/sqrt(2)` factor of a `Mix` row.
pub open spec fn row_value(row: Row, v: Seq<Gaussian>) -> Gaussian {
    match row {
        Row::Single(t) => term_value(t, v),
        Row::Mix(a, b) => {
            let x = term_value(a, v);
            let y = term_value(b, v);
            (x.0 + y.0, x.1 + y.1)
        },
    }
}

/// The output of a transform on input `v`, each `Mix` row's `1/sqrt(2)` factor left out.
pub open spec fn transform_values(rows: Seq<Row>, v: Seq<Gaussian>) -> Seq<Gaussian> {
    Seq::new(rows.len(), |i: int| row_value(rows[i], v))
}

pub open spec fn is_mix(row: Row) -> bool {
    row is Mix
}

} // verus!

verus! {

/// Not on `target`, without controls.
pub fn apply_not_gate(target: u8, nb_qbits: u8) -> (r: Transform)
    requires
        fits(nb_qbits),
        target < nb_qbits,
    ensures
        r@.len() == dimension(nb_qbits),
        forall|i: int| 0 <= i < r@.len() ==> r@[i] == not_row(nb_qbits, seq![], target, i as usize),
{
    let controls: [u8; 0] = [];
    apply_controlled_not(controls.as_slice(), target, nb_qbits)
}

/// Not on `target` controlled by `control`.
pub fn apply_cnot_gate(control: u8, target: u8, nb_qbits: u8) -> (r: Transform)
    requires
        fits(nb_qbits),
        control < nb_qbits,
        target < nb_qbits,
    ensures
        r@.len() == dimension(nb_qbits),
        forall|i: int| 0 <= i < r@.len() ==> r@[i] == not_row(nb_qbits, seq![control], target, i as usize),
{
    let controls = [control];
    assert(controls@ == seq![control]);
    apply_controlled_not(controls.as_slice(), target, nb_qbits)
}

/// Not on `target` controlled by `control1` and `control2` (Toffoli).
pub fn apply_toffoli_gate(control1: u8, control2: u8, target: u8, nb_qbits: u8) -> (r: Transform)
    requires
        fits(nb_qbits),
        control1 < nb_qbits,
        control2 < nb_qbits,
        target < nb_qbits,
    ensures
        r@.len() == dimension(nb_qbits),
        forall|i: int|
            0 <= i < r@.len() ==> r@[i] == not_row(nb_qbits, seq![control1, control2], target, i as usize),
{
    let controls = [control1, control2];
    assert(controls@ == seq![control1, control2]);
    apply_controlled_not(controls.as_slice(), target, nb_qbits)
}

/// Hadamard on `target`, without controls.
pub fn apply_hadamard_gate(target: u8, nb_qbits: u8) -> (r: Transform)
    requires
        fits(nb_qbits),
        target < nb_qbits,
    ensures
        r@.len() == dimension(nb_qbits),
        forall|i: int| 0 <= i < r@.len() ==> r@[i] == hadamard_row(nb_qbits, seq![], target, i as usize),
{
    let controls: [u8; 0] = [];
    assert(controls@ == Seq::<u8>::empty());
    apply_controlled_hadamard(controls.as_slice(), target, nb_qbits)
}

} // verus!
