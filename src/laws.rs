use vstd::prelude::*;

use crate::base_gate::BaseGate;
use crate::condition::StopCondition;
use crate::energy::{energy, lemma_mix_norm, lemma_pairing, lemma_phase_norm, lemma_sum_double, lemma_sum_ext, norm2, output_energy, paired, sum_to};
use crate::execution::ExecutionContext;
use crate::measure::MeasureCount;
use crate::executor::{circuit_at, current_element, frames_wf, lemma_first_too_high_exists, next_frames, next_iteration, Frame};
use crate::gate::{first_duplicate_at, first_too_high_at, involved_check, repeated_later, Gate, ValidityError};
use crate::operation::{element_check, elements_check, CircuitElement};
use crate::bits::{all_below, bit_position, controls_hold, fits, lemma_flip_keeps_other, dimension, lemma_dimension, lemma_flip_keeps_controls, lemma_flip_qbit, mask_of, qbit_is_one};
use crate::gate_op::{Phase, hadamard_row, is_mix, kernel_args, not_row, row_value, transform_values, Gaussian, Row};

verus! {

/// The transform of a controlled Not, spelled out.
pub open spec fn not_transform(nb_qbits: u8, controls: Seq<u8>, target: u8) -> Seq<Row> {
    Seq::new(dimension(nb_qbits), |i: int| not_row(nb_qbits, controls, target, i as usize))
}

/// The transform of a controlled Hadamard, spelled out.
pub open spec fn hadamard_transform(nb_qbits: u8, controls: Seq<u8>, target: u8) -> Seq<Row> {
    Seq::new(dimension(nb_qbits), |i: int| hadamard_row(nb_qbits, controls, target, i as usize))
}

/// Applying a controlled Not twice, with any control set that leaves the
/// target out, gives back the starting amplitudes.
pub proof fn lemma_not_involution(nb_qbits: u8, controls: Seq<u8>, target: u8, v: Seq<Gaussian>)
    requires
        kernel_args(nb_qbits, controls, target),
        !controls.contains(target),
        v.len() == dimension(nb_qbits),
    ensures
        transform_values(
            not_transform(nb_qbits, controls, target),
            transform_values(not_transform(nb_qbits, controls, target), v),
        ) == v,
{
    let t = not_transform(nb_qbits, controls, target);
    let w = transform_values(t, v);
    let ww = transform_values(t, w);
    lemma_dimension(nb_qbits);
    assert forall|i: int| 0 <= i < v.len() implies ww[i] == v[i] by {
        let iu = i as usize;
        lemma_flip_qbit(nb_qbits, target, iu);
        lemma_flip_keeps_controls(nb_qbits, controls, target, iu);
        let j = iu ^ mask_of(nb_qbits, target);
        assert(iu as int == i);
        if controls_hold(nb_qbits, controls, iu) {
            assert(t[j as int] == not_row(nb_qbits, controls, target, j));
            assert(w[j as int] == row_value(t[j as int], v));
            assert(w[j as int] == v[i]);
        }
    }
    assert(ww =~= v);
}

/// Amplitude `i` after two controlled Hadamards on `v`: where the controls hold, both
/// rows that lead to it mix, and the sum (factors `1/sqrt(2)` left out) is twice the
/// starting amplitude; elsewhere the rows keep the amplitude as it is.
pub open spec fn hadamard_twice_restores(nb_qbits: u8, controls: Seq<u8>, target: u8, v: Seq<Gaussian>, i: int) -> bool {
    let t = hadamard_transform(nb_qbits, controls, target);
    let ww = transform_values(t, transform_values(t, v));
    if controls_hold(nb_qbits, controls, i as usize) {
        &&& is_mix(t[i])
        &&& is_mix(t[(i as usize ^ mask_of(nb_qbits, target)) as int])
        &&& ww[i] == (2 * v[i].0, 2 * v[i].1)
    } else {
        &&& !is_mix(t[i])
        &&& ww[i] == v[i]
    }
}

/// Applying a controlled Hadamard twice gives back the starting amplitudes: where
/// the controls hold, both applications mix with a factor `1/sqrt(2)`, and the sums
/// (factors left out) come back as twice the starting amplitude; elsewhere the
/// amplitude is left as it is.
pub proof fn lemma_hadamard_self_inverse(nb_qbits: u8, controls: Seq<u8>, target: u8, v: Seq<Gaussian>)
    requires
        kernel_args(nb_qbits, controls, target),
        !controls.contains(target),
        v.len() == dimension(nb_qbits),
    ensures
        forall|i: int|
            0 <= i < v.len() ==> #[trigger] hadamard_twice_restores(nb_qbits, controls, target, v, i),
{
    let t = hadamard_transform(nb_qbits, controls, target);
    let w = transform_values(t, v);
    let ww = transform_values(t, w);
    lemma_dimension(nb_qbits);
    assert forall|i: int| 0 <= i < v.len() implies #[trigger] hadamard_twice_restores(nb_qbits, controls, target, v, i) by {
        let iu = i as usize;
        lemma_flip_qbit(nb_qbits, target, iu);
        lemma_flip_keeps_controls(nb_qbits, controls, target, iu);
        let j = iu ^ mask_of(nb_qbits, target);
        assert(iu as int == i);
        assert(t[j as int] == hadamard_row(nb_qbits, controls, target, j));
        assert(w[j as int] == row_value(t[j as int], v));
        assert(w[i] == row_value(t[i], v));
        if controls_hold(nb_qbits, controls, iu) {
            if qbit_is_one(nb_qbits, target, iu) {
                assert(w[i] == (v[j as int].0 - v[i].0, v[j as int].1 - v[i].1));
                assert(w[j as int] == (v[j as int].0 + v[i].0, v[j as int].1 + v[i].1));
            } else {
                assert(w[i] == (v[i].0 + v[j as int].0, v[i].1 + v[j as int].1));
                assert(w[j as int] == (v[i].0 - v[j as int].0, v[i].1 - v[j as int].1));
            }
        }
    }
}

} // verus!

verus! {

/// A loop whose stop condition is `MaxIteration(0)` runs zero iterations: when
/// the run reaches it, the next step moves past it without entering its body.
pub proof fn lemma_max_iteration_zero_skips(top: Seq<CircuitElement>, frames: Seq<Frame>, nb_qbits: u8, context: ExecutionContext)
    requires
        frames_wf(top, frames, nb_qbits),
        current_element(top, frames) matches Some(CircuitElement::Loop(l)) && l.stop_condition
            == StopCondition::MaxIteration(0),
    ensures
        next_frames(top, frames, context) == frames.update(
            frames.len() - 1,
            Frame { index: (frames.last().index + 1) as usize, iteration: frames.last().iteration },
        ),
{
}

/// A loop whose stop condition is `MaxZeroSampling { id, nb: 1 }`, at the end of
/// an iteration of its body, is left exactly when `id` has a zero count of at
/// least 1, and otherwise runs its body again.
pub proof fn lemma_zero_sampling_stops(
    top: Seq<CircuitElement>,
    frames: Seq<Frame>,
    nb_qbits: u8,
    context: ExecutionContext,
    id: Seq<char>,
)
    requires
        frames_wf(top, frames, nb_qbits),
        frames.len() >= 2,
        current_element(top, frames) is None,
        circuit_at(top, frames, frames.len() - 2)->Some_0[frames[frames.len() - 2].index as int] matches CircuitElement::Loop(l)
            && l.stop_condition matches StopCondition::MaxZeroSampling { id: i, nb } && i@ == id && nb == 1,
    ensures
        context.nb_zero(id) >= 1 ==> next_frames(top, frames, context).len() == frames.len() - 1,
        context.nb_zero(id) == 0 ==> next_frames(top, frames, context) == frames.update(
            frames.len() - 1,
            Frame { index: 0, iteration: next_iteration(frames.last().iteration) },
        ),
{
}

/// A gate whose target is also one of its controls, with every qubit in range,
/// is rejected as using a qubit twice; a sequence holding it fails to build.
pub proof fn lemma_target_as_control_rejected(g: Gate, nb_qbits: u8, rest: Seq<CircuitElement>)
    requires
        g.controls().contains(g.base().targets()[0]),
        all_below(g.involved(), nb_qbits),
    ensures
        involved_check(g.involved(), nb_qbits) matches Err(ValidityError::DuplicateQbit(_)),
        elements_check(seq![CircuitElement::Gate(g)] + rest, nb_qbits) matches Err(ValidityError::DuplicateQbit(_)),
{
    let s = g.involved();
    let c = g.controls();
    let t = g.base().targets()[0];
    assert(!exists|k: int| first_too_high_at(s, nb_qbits, k));
    let j = choose|j: int| 0 <= j < c.len() && c[j] == t;
    assert(s[c.len() as int] == t);
    assert(s[j] == t);
    assert(repeated_later(s, j));
    lemma_first_duplicate_exists(s, j);
    let es = seq![CircuitElement::Gate(g)] + rest;
    assert(es[0] == CircuitElement::Gate(g));
    assert(es.len() >= 1);
    assert(element_check(es[0], nb_qbits) == involved_check(g.involved(), nb_qbits));
}

/// A gate that uses a qubit index at or above the register size is rejected as
/// out of range; a sequence holding it fails to build.
pub proof fn lemma_out_of_range_rejected(g: Gate, nb_qbits: u8, k: int, rest: Seq<CircuitElement>)
    requires
        0 <= k < g.involved().len(),
        g.involved()[k] >= nb_qbits,
    ensures
        involved_check(g.involved(), nb_qbits) matches Err(ValidityError::IndexTooHigh(q)) && q >= nb_qbits,
        elements_check(seq![CircuitElement::Gate(g)] + rest, nb_qbits) matches Err(ValidityError::IndexTooHigh(q)) && q
            >= nb_qbits,
{
    lemma_first_too_high_exists(g.involved(), nb_qbits, k);
    let es = seq![CircuitElement::Gate(g)] + rest;
    assert(es[0] == CircuitElement::Gate(g));
    assert(es.len() >= 1);
    assert(element_check(es[0], nb_qbits) == involved_check(g.involved(), nb_qbits));
}

proof fn lemma_first_duplicate_exists(s: Seq<u8>, i: int)
    requires
        0 <= i < s.len(),
        repeated_later(s, i),
    ensures
        exists|j: int| first_duplicate_at(s, j),
    decreases i,
{
    if exists|k: int| 0 <= k < i && repeated_later(s, k) {
        let k = choose|k: int| 0 <= k < i && repeated_later(s, k);
        lemma_first_duplicate_exists(s, k);
    } else {
        assert(first_duplicate_at(s, i));
    }
}

} // verus!

verus! {

/// The transform of a base gate under the given controls, spelled out.
pub open spec fn gate_transform(g: BaseGate, nb_qbits: u8, controls: Seq<u8>) -> Seq<Row> {
    Seq::new(dimension(nb_qbits), |i: int| g.row(nb_qbits, controls, i as usize))
}

/// A gate whose qubits fit the register and whose targets are not controls.
pub open spec fn gate_args(g: BaseGate, nb_qbits: u8, controls: Seq<u8>) -> bool {
    &&& fits(nb_qbits)
    &&& all_below(controls, nb_qbits)
    &&& all_below(g.targets(), nb_qbits)
    &&& forall|k: int| 0 <= k < g.targets().len() ==> !controls.contains(#[trigger] g.targets()[k])
}

/// The output weight of row `i` equals, summed over the two indices that differ in the
/// target bit, the input weight of those two indices.
proof fn lemma_single_target_pair(g: BaseGate, nb_qbits: u8, controls: Seq<u8>, v: Seq<Gaussian>, i: int)
    requires
        gate_args(g, nb_qbits, controls),
        !(g is Swap),
        v.len() == dimension(nb_qbits),
        0 <= i < v.len(),
        !qbit_is_one(nb_qbits, g.targets()[0], i as usize),
    ensures
        ({
            let t = gate_transform(g, nb_qbits, controls);
            let w = transform_values(t, v);
            let j = (i as usize ^ mask_of(nb_qbits, g.targets()[0])) as int;
            let f = |k: int| if is_mix(t[k]) { norm2(w[k]) } else { 2 * norm2(w[k]) };
            f(i) + f(j) == 2 * norm2(v[i]) + 2 * norm2(v[j])
        }),
{
    let q = g.targets()[0];
    let t = gate_transform(g, nb_qbits, controls);
    let w = transform_values(t, v);
    let iu = i as usize;
    lemma_dimension(nb_qbits);
    lemma_flip_qbit(nb_qbits, q, iu);
    lemma_flip_keeps_controls(nb_qbits, controls, q, iu);
    let ju = iu ^ mask_of(nb_qbits, q);
    let j = ju as int;
    assert(iu as int == i);
    assert(t[i] == g.row(nb_qbits, controls, iu));
    assert(t[j] == g.row(nb_qbits, controls, ju));
    assert(w[i] == row_value(t[i], v));
    assert(w[j] == row_value(t[j], v));
    match g {
        BaseGate::Y(_) => {
            if controls_hold(nb_qbits, controls, iu) {
                lemma_phase_norm(Phase::MinusI, v[j]);
                lemma_phase_norm(Phase::I, v[i]);
            }
        },
        BaseGate::Z(_) => {
            lemma_phase_norm(Phase::MinusOne, v[j]);
        },
        BaseGate::Hadamard(_) => {
            if controls_hold(nb_qbits, controls, iu) {
                lemma_mix_norm(v[i], v[j]);
                assert(w[j] == (v[i].0 - v[j].0, v[i].1 - v[j].1));
            }
        },
        _ => {},
    }
}

proof fn lemma_single_target_conserved(g: BaseGate, nb_qbits: u8, controls: Seq<u8>, v: Seq<Gaussian>)
    requires
        gate_args(g, nb_qbits, controls),
        !(g is Swap),
        v.len() == dimension(nb_qbits),
    ensures
        output_energy(gate_transform(g, nb_qbits, controls), transform_values(gate_transform(g, nb_qbits, controls), v))
            == 2 * energy(v),
{
    let q = g.targets()[0];
    let t = gate_transform(g, nb_qbits, controls);
    let w = transform_values(t, v);
    let n = dimension(nb_qbits) as int;
    lemma_dimension(nb_qbits);
    let s = bit_position(nb_qbits, q);
    let m = mask_of(nb_qbits, q);
    let f = |k: int| if is_mix(t[k]) { norm2(w[k]) } else { 2 * norm2(w[k]) };
    let e = |k: int| norm2(v[k]);
    let g2 = |k: int| 2 * norm2(v[k]);
    lemma_pairing(f, s, nb_qbits as usize);
    lemma_pairing(g2, s, nb_qbits as usize);
    assert forall|i: int| 0 <= i < n implies #[trigger] paired(f, m)(i) == paired(g2, m)(i) by {
        if ((i as usize) & m) == 0 {
            lemma_single_target_pair(g, nb_qbits, controls, v, i);
        }
    }
    lemma_sum_ext(paired(f, m), paired(g2, m), n);
    lemma_sum_double(e, g2, n);
    assert(output_energy(t, w) == sum_to(f, n));
    assert(energy(v) == sum_to(e, n));
}

} // verus!

verus! {

proof fn lemma_xor_comm(i: usize, a: usize, b: usize)
    ensures
        (i ^ a) ^ b == (i ^ b) ^ a,
{
    assert((i ^ a) ^ b == (i ^ b) ^ a) by (bit_vector);
}

/// The output weight of the four indices that differ from `i` in the two target
/// bits of a swap equals their input weight.
proof fn lemma_swap_quad(nb_qbits: u8, controls: Seq<u8>, t1: u8, t2: u8, v: Seq<Gaussian>, i: int)
    requires
        gate_args(BaseGate::Swap(t1, t2), nb_qbits, controls),
        t1 != t2,
        v.len() == dimension(nb_qbits),
        0 <= i < v.len(),
        !qbit_is_one(nb_qbits, t1, i as usize),
        !qbit_is_one(nb_qbits, t2, i as usize),
    ensures
        ({
            let t = gate_transform(BaseGate::Swap(t1, t2), nb_qbits, controls);
            let w = transform_values(t, v);
            let m1 = mask_of(nb_qbits, t1);
            let m2 = mask_of(nb_qbits, t2);
            let b = (i as usize ^ m1) as int;
            let c = (i as usize ^ m2) as int;
            let d = ((i as usize ^ m1) ^ m2) as int;
            let f = |k: int| if is_mix(t[k]) { norm2(w[k]) } else { 2 * norm2(w[k]) };
            f(i) + f(b) + f(c) + f(d) == 2 * norm2(v[i]) + 2 * norm2(v[b]) + 2 * norm2(v[c]) + 2 * norm2(v[d])
        }),
{
    let g = BaseGate::Swap(t1, t2);
    assert(g.targets()[0] == t1 && g.targets()[1] == t2);
    let t = gate_transform(g, nb_qbits, controls);
    let w = transform_values(t, v);
    let m1 = mask_of(nb_qbits, t1);
    let m2 = mask_of(nb_qbits, t2);
    lemma_dimension(nb_qbits);
    let iu = i as usize;
    let bu = iu ^ m1;
    let cu = iu ^ m2;
    let du = bu ^ m2;
    lemma_flip_qbit(nb_qbits, t1, iu);
    lemma_flip_qbit(nb_qbits, t2, iu);
    lemma_flip_qbit(nb_qbits, t2, bu);
    lemma_flip_qbit(nb_qbits, t1, cu);
    lemma_flip_keeps_other(iu, bit_position(nb_qbits, t1), bit_position(nb_qbits, t2));
    lemma_flip_keeps_other(iu, bit_position(nb_qbits, t2), bit_position(nb_qbits, t1));
    lemma_flip_keeps_other(bu, bit_position(nb_qbits, t2), bit_position(nb_qbits, t1));
    lemma_xor_comm(iu, m1, m2);
    assert(!controls.contains(t1));
    assert(!controls.contains(t2));
    lemma_flip_keeps_controls(nb_qbits, controls, t1, iu);
    lemma_flip_keeps_controls(nb_qbits, controls, t2, iu);
    lemma_flip_keeps_controls(nb_qbits, controls, t2, bu);
    assert(iu as int == i);
    assert(t[i] == g.row(nb_qbits, controls, iu));
    assert(t[bu as int] == g.row(nb_qbits, controls, bu));
    assert(t[cu as int] == g.row(nb_qbits, controls, cu));
    assert(t[du as int] == g.row(nb_qbits, controls, du));
    assert(w[i] == row_value(t[i], v));
    assert(w[bu as int] == row_value(t[bu as int], v));
    assert(w[cu as int] == row_value(t[cu as int], v));
    assert(w[du as int] == row_value(t[du as int], v));
    assert((bu ^ m1) ^ m2 == cu);
    assert((cu ^ m1) ^ m2 == bu);
}

proof fn lemma_swap_conserved(nb_qbits: u8, controls: Seq<u8>, t1: u8, t2: u8, v: Seq<Gaussian>)
    requires
        gate_args(BaseGate::Swap(t1, t2), nb_qbits, controls),
        t1 != t2,
        v.len() == dimension(nb_qbits),
    ensures
        output_energy(
            gate_transform(BaseGate::Swap(t1, t2), nb_qbits, controls),
            transform_values(gate_transform(BaseGate::Swap(t1, t2), nb_qbits, controls), v),
        ) == 2 * energy(v),
{
    let g = BaseGate::Swap(t1, t2);
    assert(g.targets()[0] == t1 && g.targets()[1] == t2);
    let t = gate_transform(g, nb_qbits, controls);
    let w = transform_values(t, v);
    let n = dimension(nb_qbits) as int;
    lemma_dimension(nb_qbits);
    let s1 = bit_position(nb_qbits, t1);
    let s2 = bit_position(nb_qbits, t2);
    let m1 = mask_of(nb_qbits, t1);
    let m2 = mask_of(nb_qbits, t2);
    let f = |k: int| if is_mix(t[k]) { norm2(w[k]) } else { 2 * norm2(w[k]) };
    let e = |k: int| norm2(v[k]);
    let g2 = |k: int| 2 * norm2(v[k]);
    lemma_pairing(f, s1, nb_qbits as usize);
    lemma_pairing(paired(f, m1), s2, nb_qbits as usize);
    lemma_pairing(g2, s1, nb_qbits as usize);
    lemma_pairing(paired(g2, m1), s2, nb_qbits as usize);
    assert forall|i: int| 0 <= i < n implies #[trigger] paired(paired(f, m1), m2)(i) == paired(paired(g2, m1), m2)(i) by {
        let iu = i as usize;
        assert(iu as int == i);
        if (iu & m2) == 0 {
            lemma_flip_keeps_other(iu, s2, s1);
            if (iu & m1) == 0 {
                lemma_swap_quad(nb_qbits, controls, t1, t2, v, i);
                lemma_flip_qbit(nb_qbits, t1, iu);
                lemma_flip_qbit(nb_qbits, t2, iu);
                lemma_xor_comm(iu, m1, m2);
            }
        }
    }
    lemma_sum_ext(paired(paired(f, m1), m2), paired(paired(g2, m1), m2), n);
    lemma_sum_double(e, g2, n);
    assert(output_energy(t, w) == sum_to(f, n));
    assert(energy(v) == sum_to(e, n));
}

} // verus!

verus! {

/// Every gate keeps the probability mass: on exact amplitudes, the squared
/// magnitude of the output, each mixing row's `1/sqrt(2)` factor applied, equals
/// that of the input.
pub proof fn lemma_probability_conserved(g: BaseGate, nb_qbits: u8, controls: Seq<u8>, v: Seq<Gaussian>)
    requires
        gate_args(g, nb_qbits, controls),
        g matches BaseGate::Swap(t1, t2) ==> t1 != t2,
        v.len() == dimension(nb_qbits),
    ensures
        output_energy(gate_transform(g, nb_qbits, controls), transform_values(gate_transform(g, nb_qbits, controls), v))
            == 2 * energy(v),
{
    match g {
        BaseGate::Swap(t1, t2) => lemma_swap_conserved(nb_qbits, controls, t1, t2, v),
        _ => lemma_single_target_conserved(g, nb_qbits, controls, v),
    }
}

} // verus!

verus! {

/// One iteration of a loop stopped by `MaxZeroSampling { id, nb: 1 }`, started
/// with no zero recorded for `id`, whose body records exactly one measurement of
/// `id` (`context` being the context after it, with `one` the sampled bit): if a
/// 0 was sampled, the zero count is exactly 1 and the loop is left; if a 1 was
/// sampled, the zero count is still 0 and the body runs again. So the run leaves
/// the loop right after the first iteration that samples 0, with a zero count of 1.
pub proof fn lemma_zero_sampling_iteration(
    top: Seq<CircuitElement>,
    frames: Seq<Frame>,
    nb_qbits: u8,
    before: ExecutionContext,
    context: ExecutionContext,
    id: Seq<char>,
    one: bool,
)
    requires
        frames_wf(top, frames, nb_qbits),
        frames.len() >= 2,
        current_element(top, frames) is None,
        circuit_at(top, frames, frames.len() - 2)->Some_0[frames[frames.len() - 2].index as int] matches CircuitElement::Loop(l)
            && l.stop_condition matches StopCondition::MaxZeroSampling { id: i, nb } && i@ == id && nb == 1,
        before.nb_zero(id) == 0,
        context.count_of(id) == Some(
            if one {
                MeasureCount { nb_zero: before.nb_zero(id), nb_one: (before.nb_one(id) + 1) as u32 }
            } else {
                MeasureCount { nb_zero: (before.nb_zero(id) + 1) as u32, nb_one: before.nb_one(id) }
            },
        ),
    ensures
        !one ==> context.nb_zero(id) == 1 && next_frames(top, frames, context).len() == frames.len() - 1,
        one ==> context.nb_zero(id) == 0 && next_frames(top, frames, context) == frames.update(
            frames.len() - 1,
            Frame { index: 0, iteration: next_iteration(frames.last().iteration) },
        ),
{
    lemma_zero_sampling_stops(top, frames, nb_qbits, context, id);
}

} // verus!
