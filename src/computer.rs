use vstd::prelude::*;

use crate::base_gate::BaseGate;
use crate::builder::QuantumCircuitBuilder;
use crate::gate::Gate;
use crate::operation::CircuitElement;

verus! {

/// A register of `nb_qbits` qubits for which circuits are built.
pub struct QuantumComputer {
    nb_qbits: u8,
}

impl QuantumComputer {
    pub closed spec fn spec_nb_qbits(&self) -> u8 {
        self.nb_qbits
    }

    /// A computer with `nb_qbits` qubits.
    pub fn new(nb_qbits: u8) -> (r: Self)
        ensures
            r.spec_nb_qbits() == nb_qbits,
    {
        QuantumComputer { nb_qbits }
    }

    pub fn nb_qbits(&self) -> (r: u8)
        ensures
            r == self.spec_nb_qbits(),
    {
        self.nb_qbits
    }

    /// An empty builder for circuits of this computer.
    pub fn new_circuit_builder(&self) -> (r: QuantumCircuitBuilder)
        ensures
            r.spec_nb_qbits() == self.spec_nb_qbits(),
            r.spec_operations() == Seq::<CircuitElement>::empty(),
    {
        QuantumCircuitBuilder::new(self.nb_qbits)
    }

    /// A builder that already holds a Hadamard on qubit 0 followed, for each
    /// qubit `i >= 1`, by a Not on `i` controlled by `i - 1`.
    pub fn bell_state(&self) -> (r: QuantumCircuitBuilder)
        ensures
            r.spec_nb_qbits() == self.spec_nb_qbits(),
            r.spec_operations().len() == if self.spec_nb_qbits() == 0 { 1 } else { self.spec_nb_qbits() as int },
            r.spec_operations()[0] matches CircuitElement::Gate(g) && g.base() == BaseGate::Hadamard(0)
                && g.controls() == Seq::<u8>::empty(),
            forall|i: int|
                1 <= i < r.spec_operations().len() ==> (#[trigger] r.spec_operations()[i] matches CircuitElement::Gate(g)
                    && g.base() == BaseGate::Not(i as u8) && g.controls() == seq![(i - 1) as u8]),
    {
        let mut builder = self.new_circuit_builder();
        builder.add_operation(CircuitElement::Gate(Gate::new(BaseGate::Hadamard(0), vec![])));
        let mut i: u8 = 1;
        while i < self.nb_qbits
            invariant
                1 <= i,
                i <= self.nb_qbits || (self.nb_qbits == 0 && i == 1),
                builder.spec_nb_qbits() == self.spec_nb_qbits(),
                builder.spec_operations().len() == i as int,
                builder.spec_operations()[0] matches CircuitElement::Gate(g) && g.base() == BaseGate::Hadamard(0)
                    && g.controls() == Seq::<u8>::empty(),
                forall|k: int|
                    1 <= k < builder.spec_operations().len() ==> (#[trigger] builder.spec_operations()[k] matches CircuitElement::Gate(g)
                        && g.base() == BaseGate::Not(k as u8) && g.controls() == seq![(k - 1) as u8]),
            decreases self.nb_qbits - i,
        {
            builder.add_operation(CircuitElement::Gate(BaseGate::Not(i).with_one_control(i - 1)));
            i = i + 1;
        }
        builder
    }
}

} // verus!
