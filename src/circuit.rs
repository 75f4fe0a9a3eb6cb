use vstd::prelude::*;

use crate::gate::ValidityError;
use crate::operation::{elements_check, lemma_elements_check_step, lemma_same_elements_index, same_element, same_elements, CircuitElement};

verus! {

/// An ordered sequence of circuit elements for a register of `nb_qbits` qubits.
#[derive(Debug)]
pub struct Circuit {
    pub nb_qbits: u8,
    pub elements: Vec<CircuitElement>,
}

impl Circuit {
    /// The largest qubit index of the register.
    pub fn max_qbit_idx(&self) -> (r: u8)
        requires
            self.nb_qbits >= 1,
        ensures
            r == self.nb_qbits - 1,
    {
        self.nb_qbits - 1
    }

    /// A circuit for the same register that holds the same elements.
    pub fn copy(&self) -> (r: Self)
        ensures
            r.nb_qbits == self.nb_qbits,
            same_elements(r.elements@, self.elements@),
        decreases self,
    {
        Circuit { nb_qbits: self.nb_qbits, elements: copy_elements(&self.elements) }
    }

    /// The first error among the elements, in order, or success when every
    /// element is valid for `nb_qbits` qubits.
    pub fn check_validity(&self, nb_qbits: u8) -> (r: Result<(), ValidityError>)
        ensures
            r == elements_check(self.elements@, nb_qbits),
        decreases self,
    {
        check_elements(&self.elements, nb_qbits)
    }
}

/// A vector that holds the same elements, in order.
pub fn copy_elements(elements: &Vec<CircuitElement>) -> (r: Vec<CircuitElement>)
    ensures
        same_elements(r@, elements@),
    decreases elements,
{
    let n = elements.len();
    let mut result: Vec<CircuitElement> = Vec::with_capacity(n);
    let mut k: usize = 0;
    while k < n
        invariant
            n == elements@.len(),
            k <= n,
            result@.len() == k,
            forall|i: int| 0 <= i < k ==> #[trigger] same_element(result@[i], elements@[i]),
        decreases n - k,
    {
        result.push(elements[k].copy());
        k = k + 1;
    }
    proof {
        lemma_same_elements_index(result@, elements@);
    }
    result
}

/// The first error among `elements`, in order, or success when every element is
/// valid for `nb_qbits` qubits.
pub fn check_elements(elements: &Vec<CircuitElement>, nb_qbits: u8) -> (r: Result<(), ValidityError>)
    ensures
        r == elements_check(elements@, nb_qbits),
    decreases elements,
{
    let n = elements.len();
    let mut k: usize = 0;
    assert(elements@.subrange(0, n as int) =~= elements@);
    while k < n
        invariant
            n == elements@.len(),
            k <= n,
            elements_check(elements@, nb_qbits) == elements_check(
                elements@.subrange(k as int, n as int),
                nb_qbits,
            ),
        decreases n - k,
    {
        proof {
            lemma_elements_check_step(elements@, k as int, nb_qbits);
        }
        let op_validity = elements[k].check_validity(nb_qbits);
        if op_validity.is_err() {
            return op_validity;
        }
        k = k + 1;
    }
    assert(elements@.subrange(n as int, n as int) =~= Seq::<CircuitElement>::empty());
    Ok(())
}

impl Clone for Circuit {
    fn clone(&self) -> (r: Self)
        ensures
            r.nb_qbits == self.nb_qbits,
            same_elements(r.elements@, self.elements@),
    {
        self.copy()
    }
}

} // verus!
