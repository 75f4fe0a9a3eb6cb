use vstd::prelude::*;

use crate::bits::{all_below, dimension, fits, qbits_to_vec};
use crate::gate::Gate;
use crate::gate_op::{
    apply_controlled_hadamard, apply_controlled_not, apply_controlled_pauli_x, apply_controlled_pauli_y,
    apply_controlled_pauli_z, apply_controlled_swap, hadamard_row, not_row, pauli_y_row, pauli_z_row, swap_row,
    Row, Transform,
};

verus! {

/// Another name for `BaseGate`: a gate without its control qubits.
pub type GateWithoutControl = BaseGate;

/// A gate on one or two target qubits, before any control qubit is added.
#[derive(Clone, Copy, PartialEq, Eq, Debug)]
pub enum BaseGate {
    Not(u8),
    X(u8),
    Y(u8),
    Z(u8),
    Hadamard(u8),
    Swap(u8, u8),
}

impl BaseGate {
    /// The target qubits, in order.
    pub open spec fn targets(self) -> Seq<u8> {
        match self {
            BaseGate::Not(t) => seq![t],
            BaseGate::X(t) => seq![t],
            BaseGate::Y(t) => seq![t],
            BaseGate::Z(t) => seq![t],
            BaseGate::Hadamard(t) => seq![t],
            BaseGate::Swap(t1, t2) => seq![t1, t2],
        }
    }

    /// The largest target qubit.
    pub open spec fn max_target(self) -> u8 {
        match self {
            BaseGate::Swap(t1, t2) => if t1 >= t2 { t1 } else { t2 },
            BaseGate::Not(t) => t,
            BaseGate::X(t) => t,
            BaseGate::Y(t) => t,
            BaseGate::Z(t) => t,
            BaseGate::Hadamard(t) => t,
        }
    }

    /// Row `i` of the transform of this gate under the given controls.
    pub open spec fn row(self, nb_qbits: u8, controls: Seq<u8>, i: usize) -> Row {
        match self {
            BaseGate::Not(t) => not_row(nb_qbits, controls, t, i),
            BaseGate::X(t) => not_row(nb_qbits, controls, t, i),
            BaseGate::Y(t) => pauli_y_row(nb_qbits, controls, t, i),
            BaseGate::Z(t) => pauli_z_row(nb_qbits, controls, t, i),
            BaseGate::Hadamard(t) => hadamard_row(nb_qbits, controls, t, i),
            BaseGate::Swap(t1, t2) => swap_row(nb_qbits, controls, t1, t2, i),
        }
    }

    /// This gate with one control qubit.
    pub fn with_one_control(self, control: u8) -> (r: Gate)
        ensures
            r.base() == self,
            r.controls() == seq![control],
    {
        Gate::new(self, vec![control])
    }

    /// This gate with two control qubits (a Not becomes a Toffoli).
    pub fn with_two_controls(self, control1: u8, control2: u8) -> (r: Gate)
        ensures
            r.base() == self,
            r.controls() == seq![control1, control2],
    {
        Gate::new(self, vec![control1, control2])
    }

    /// This gate with the given control qubits.
    pub fn with_multi_control(self, controls: &[u8]) -> (r: Gate)
        ensures
            r.base() == self,
            r.controls() == controls@,
    {
        Gate::new(self, qbits_to_vec(controls))
    }

    /// The given qubits followed by the target qubits of this gate.
    pub fn get_involved_qbits(&self, others: &[u8]) -> (r: Vec<u8>)
        ensures
            r@ == others@ + self.targets(),
    {
        let mut result = qbits_to_vec(others);
        match self {
            BaseGate::Not(t) => result.push(*t),
            BaseGate::X(t) => result.push(*t),
            BaseGate::Y(t) => result.push(*t),
            BaseGate::Z(t) => result.push(*t),
            BaseGate::Swap(t1, t2) => {
                result.push(*t1);
                result.push(*t2);
            },
            BaseGate::Hadamard(t) => result.push(*t),
        }
        assert(result@ =~= others@ + self.targets());
        result
    }

    /// The largest target qubit.
    pub fn max_qbit_idx(&self) -> (r: u8)
        ensures
            r == self.max_target(),
    {
        match self {
            BaseGate::Not(target) => *target,
            BaseGate::X(target) => *target,
            BaseGate::Y(target) => *target,
            BaseGate::Z(target) => *target,
            BaseGate::Hadamard(target) => *target,
            BaseGate::Swap(target1, target2) => if *target1 >= *target2 {
                *target1
            } else {
                *target2
            },
        }
    }

    /// The transform that this gate performs under the given control qubits on a
    /// state of `nb_qbits` qubits.
    pub fn apply_controlled(&self, control_qbits: &[u8], nb_qbits: u8) -> (r: Transform)
        requires
            fits(nb_qbits),
            all_below(control_qbits@, nb_qbits),
            all_below(self.targets(), nb_qbits),
        ensures
            r@.len() == dimension(nb_qbits),
            forall|i: int| 0 <= i < r@.len() ==> r@[i] == self.row(nb_qbits, control_qbits@, i as usize),
    {
        assert(self.targets()[0] < nb_qbits);
        match self {
            BaseGate::Not(target) => apply_controlled_not(control_qbits, *target, nb_qbits),
            BaseGate::X(target) => apply_controlled_pauli_x(control_qbits, *target, nb_qbits),
            BaseGate::Y(target) => apply_controlled_pauli_y(control_qbits, *target, nb_qbits),
            BaseGate::Z(target) => apply_controlled_pauli_z(control_qbits, *target, nb_qbits),
            BaseGate::Hadamard(target) => apply_controlled_hadamard(control_qbits, *target, nb_qbits),
            BaseGate::Swap(target1, target2) => {
                assert(self.targets()[1] < nb_qbits);
                apply_controlled_swap(control_qbits, *target1, *target2, nb_qbits)
            },
        }
    }

    /// The letter drawn in the box of this gate; none for Not and Swap, which
    /// are drawn with their own symbols.
    pub fn text(&self) -> (r: Option<String>)
        ensures
            match self {
                BaseGate::Not(_) => r is None,
                BaseGate::Swap(_, _) => r is None,
                BaseGate::X(_) => r matches Some(s) && s@ == seq!['X'],
                BaseGate::Y(_) => r matches Some(s) && s@ == seq!['Y'],
                BaseGate::Z(_) => r matches Some(s) && s@ == seq!['Z'],
                BaseGate::Hadamard(_) => r matches Some(s) && s@ == seq!['H'],
            },
    {
        proof {
            reveal_strlit("X");
            reveal_strlit("Y");
            reveal_strlit("Z");
            reveal_strlit("H");
        }
        match self {
            BaseGate::Not(_) => None,
            BaseGate::X(_) => Some("X".to_owned()),
            BaseGate::Y(_) => Some("Y".to_owned()),
            BaseGate::Z(_) => Some("Z".to_owned()),
            BaseGate::Swap(_, _) => None,
            BaseGate::Hadamard(_) => Some("H".to_owned()),
        }
    }
}

} // verus!
