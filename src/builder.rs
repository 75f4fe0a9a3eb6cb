use vstd::prelude::*;

use crate::_loop::Loop;
use crate::circuit::{check_elements, copy_elements, Circuit};
use crate::condition::StopCondition;
use crate::gate::ValidityError;
use crate::measure::Measure;
use crate::operation::{elements_check, lemma_same_elements_check, same_elements, CircuitElement};

verus! {

/// Collects the elements of a circuit for a register of `nb_qbits` qubits.
pub struct QuantumCircuitBuilder {
    nb_qbits: u8,
    operations: Vec<CircuitElement>,
}

impl QuantumCircuitBuilder {
    pub closed spec fn spec_nb_qbits(&self) -> u8 {
        self.nb_qbits
    }

    /// The elements collected so far, in order.
    pub closed spec fn spec_operations(&self) -> Seq<CircuitElement> {
        self.operations@
    }

    pub fn new(nb_qbits: u8) -> (r: Self)
        ensures
            r.spec_nb_qbits() == nb_qbits,
            r.spec_operations() == Seq::<CircuitElement>::empty(),
    {
        QuantumCircuitBuilder { nb_qbits, operations: Vec::new() }
    }

    /// Checks every collected element against the register size. On success
    /// returns a circuit for the register that holds the same elements, in order;
    /// on failure returns the first error. The builder is left as it was.
    pub fn build(&self) -> (r: Result<Circuit, ValidityError>)
        ensures
            match r {
                Ok(c) => {
                    &&& elements_check(self.spec_operations(), self.spec_nb_qbits()) is Ok
                    &&& c.nb_qbits == self.spec_nb_qbits()
                    &&& same_elements(c.elements@, self.spec_operations())
                    &&& elements_check(c.elements@, c.nb_qbits) is Ok
                },
                Err(e) => elements_check(self.spec_operations(), self.spec_nb_qbits()) == Err::<(), ValidityError>(e),
            },
    {
        match check_elements(&self.operations, self.nb_qbits) {
            Ok(_) => {
                let elements = copy_elements(&self.operations);
                proof {
                    lemma_same_elements_check(elements@, self.operations@, self.nb_qbits);
                }
                Ok(Circuit { nb_qbits: self.nb_qbits, elements })
            },
            Err(e) => Err(e),
        }
    }

    /// Appends a loop that runs `circuit` until `loop_condition` holds.
    pub fn add_loop(&mut self, circuit: Circuit, loop_condition: StopCondition) -> (r: &mut QuantumCircuitBuilder)
        ensures
            r.spec_nb_qbits() == old(self).spec_nb_qbits(),
            r.spec_operations() == old(self).spec_operations().push(
                CircuitElement::Loop(Loop { circuit, stop_condition: loop_condition }),
            ),
            *final(self) == *final(r),
    {
        self.add_operation(CircuitElement::Loop(Loop::new(circuit, loop_condition)))
    }

    /// Appends a measurement of qubit `target` recorded under `id`.
    pub fn add_measure(&mut self, id: &str, target: u8) -> (r: &mut QuantumCircuitBuilder)
        ensures
            r.spec_nb_qbits() == old(self).spec_nb_qbits(),
            r.spec_operations().len() == old(self).spec_operations().len() + 1,
            r.spec_operations().drop_last() == old(self).spec_operations(),
            r.spec_operations().last() matches CircuitElement::Measure(m) && m.id@ == id@ && m.qbit_target == target,
            *final(self) == *final(r),
    {
        self.add_operation(CircuitElement::Measure(Measure::new(id, target)))
    }

    /// Appends one element.
    pub fn add_operation(&mut self, operation: CircuitElement) -> (r: &mut QuantumCircuitBuilder)
        ensures
            r.spec_nb_qbits() == old(self).spec_nb_qbits(),
            r.spec_operations() == old(self).spec_operations().push(operation),
            *final(self) == *final(r),
    {
        self.operations.push(operation);
        self
    }
}

} // verus!
