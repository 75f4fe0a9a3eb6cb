use vstd::prelude::*;

use crate::circuit::Circuit;
use crate::condition::StopCondition;
use crate::operation::same_elements;

verus! {

/// A sub-circuit run again and again until its stop condition holds.
#[derive(Debug)]
pub struct Loop {
    /// The circuit that makes the content of the loop.
    pub circuit: Circuit,
    /// The condition used to stop the loop.
    pub stop_condition: StopCondition,
}

impl Loop {
    pub fn new(circuit: Circuit, stop_condition: StopCondition) -> (r: Self)
        ensures
            r.circuit == circuit,
            r.stop_condition == stop_condition,
    {
        Loop { circuit, stop_condition }
    }
}

impl Clone for Loop {
    fn clone(&self) -> (r: Self)
        ensures
            r.circuit.nb_qbits == self.circuit.nb_qbits,
            same_elements(r.circuit.elements@, self.circuit.elements@),
            r.stop_condition == self.stop_condition,
    {
        Loop { circuit: self.circuit.copy(), stop_condition: self.stop_condition.copy() }
    }
}

} // verus!
