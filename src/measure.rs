use vstd::prelude::*;

use crate::gate::ValidityError;

verus! {

/// How many times a measurement gave 0 and gave 1.
#[derive(Clone, Copy, PartialEq, Eq, Debug)]
pub struct MeasureCount {
    pub nb_zero: u32,
    pub nb_one: u32,
}

/// Whether the state has just been collapsed by a measurement, and to which basis index.
#[derive(Clone, Copy, PartialEq, Eq, Debug)]
pub enum State {
    Measured(usize),
    NotMeasured,
}

/// A measurement of one qubit, recorded under `id`.
#[derive(Clone, Debug)]
pub struct Measure {
    /// Identifies the measurement; runs that share an id share one count.
    pub id: String,
    /// The qubit to measure.
    pub qbit_target: u8,
}

impl Measure {
    pub fn new(id: &str, qbit_target: u8) -> (r: Self)
        ensures
            r.id@ == id@,
            r.qbit_target == qbit_target,
    {
        Measure { id: id.to_owned(), qbit_target }
    }

    /// An equal measurement.
    pub fn copy(&self) -> (r: Self)
        ensures
            r == *self,
    {
        Measure { id: self.id.clone(), qbit_target: self.qbit_target }
    }

    pub fn max_qbit_idx(&self) -> (r: u8)
        ensures
            r == self.qbit_target,
    {
        self.qbit_target
    }

    pub open spec fn spec_check(&self, nb_qbits: u8) -> Result<(), ValidityError> {
        if self.qbit_target >= nb_qbits {
            Err(ValidityError::IndexTooHigh(self.qbit_target))
        } else {
            Ok(())
        }
    }

    /// Succeeds when the measured qubit is below `nb_qbits`.
    pub fn check_validity(&self, nb_qbits: u8) -> (r: Result<(), ValidityError>)
        ensures
            r == self.spec_check(nb_qbits),
    {
        if self.qbit_target >= nb_qbits {
            return Err(ValidityError::IndexTooHigh(self.qbit_target));
        }
        Ok(())
    }
}

} // verus!
