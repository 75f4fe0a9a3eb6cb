use vstd::prelude::*;

use crate::_loop::Loop;
use crate::gate::{involved_check, Gate, ValidityError};
use crate::measure::Measure;

verus! {

broadcast use vstd::std_specs::vec::axiom_vec_decreases_to_view;

/// One step of a circuit: a loop, a gate, or a measurement.
#[derive(Debug)]
pub enum CircuitElement {
    Loop(Loop),
    Gate(Gate),
    Measure(Measure),
}

/// The outcome of checking one element against a register of `nb_qbits` qubits.
pub open spec fn element_check(e: CircuitElement, nb_qbits: u8) -> Result<(), ValidityError>
    decreases e,
{
    match e {
        CircuitElement::Loop(l) => if l.circuit.nb_qbits != nb_qbits {
            Err(ValidityError::QbitCountMismatch(l.circuit.nb_qbits))
        } else {
            elements_check(l.circuit.elements@, nb_qbits)
        },
        CircuitElement::Gate(g) => involved_check(g.involved(), nb_qbits),
        CircuitElement::Measure(m) => m.spec_check(nb_qbits),
    }
}

/// `a` and `b` hold the same element: equal gates, measurements and stop
/// conditions, and loop bodies for the same register that hold the same elements.
pub open spec fn same_element(a: CircuitElement, b: CircuitElement) -> bool
    decreases a,
{
    match a {
        CircuitElement::Loop(la) => b matches CircuitElement::Loop(lb) && la.circuit.nb_qbits == lb.circuit.nb_qbits
            && la.stop_condition == lb.stop_condition && same_elements(la.circuit.elements@, lb.circuit.elements@),
        CircuitElement::Gate(ga) => b matches CircuitElement::Gate(gb) && ga.base() == gb.base() && ga.controls()
            == gb.controls(),
        CircuitElement::Measure(ma) => b == CircuitElement::Measure(ma),
    }
}

/// `s` and `t` hold the same elements in the same order.
pub open spec fn same_elements(s: Seq<CircuitElement>, t: Seq<CircuitElement>) -> bool
    decreases s,
{
    &&& s.len() == t.len()
    &&& (s.len() == 0 || (same_element(s[0], t[0]) && same_elements(
        s.subrange(1, s.len() as int),
        t.subrange(1, t.len() as int),
    )))
}

/// `same_elements` holds exactly when the two sequences match index by index.
pub proof fn lemma_same_elements_index(s: Seq<CircuitElement>, t: Seq<CircuitElement>)
    ensures
        same_elements(s, t) <==> (s.len() == t.len() && forall|i: int|
            0 <= i < s.len() ==> #[trigger] same_element(s[i], t[i])),
    decreases s.len(),
{
    if s.len() > 0 && s.len() == t.len() {
        let s1 = s.subrange(1, s.len() as int);
        let t1 = t.subrange(1, t.len() as int);
        lemma_same_elements_index(s1, t1);
        if forall|i: int| 0 <= i < s.len() ==> #[trigger] same_element(s[i], t[i]) {
            assert forall|i: int| 0 <= i < s1.len() implies #[trigger] same_element(s1[i], t1[i]) by {
                assert(same_element(s[i + 1], t[i + 1]));
            }
            assert(same_element(s[0], t[0]));
            assert(same_elements(s1, t1));
            assert(same_elements(s, t));
        }
        if same_elements(s, t) {
            assert(same_elements(s1, t1));
            assert forall|i: int| 0 <= i < s.len() implies #[trigger] same_element(s[i], t[i]) by {
                if i > 0 {
                    assert(same_element(s1[i - 1], t1[i - 1]));
                }
            }
        }
    }
}

/// Elements that hold the same thing pass or fail the same checks.
pub proof fn lemma_same_element_check(a: CircuitElement, b: CircuitElement, nb_qbits: u8)
    requires
        same_element(a, b),
    ensures
        element_check(a, nb_qbits) == element_check(b, nb_qbits),
    decreases a,
{
    match a {
        CircuitElement::Loop(la) => {
            let lb = b->Loop_0;
            lemma_same_elements_check(la.circuit.elements@, lb.circuit.elements@, nb_qbits);
        },
        _ => {},
    }
}

pub proof fn lemma_same_elements_check(s: Seq<CircuitElement>, t: Seq<CircuitElement>, nb_qbits: u8)
    requires
        same_elements(s, t),
    ensures
        elements_check(s, nb_qbits) == elements_check(t, nb_qbits),
    decreases s,
{
    if s.len() > 0 {
        lemma_same_element_check(s[0], t[0], nb_qbits);
        let s1 = s.subrange(1, s.len() as int);
        let t1 = t.subrange(1, t.len() as int);
        lemma_same_elements_check(s1, t1, nb_qbits);
    }
}

/// The first error among `es`, in order, or success.
pub open spec fn elements_check(es: Seq<CircuitElement>, nb_qbits: u8) -> Result<(), ValidityError>
    decreases es,
{
    if es.len() == 0 {
        Ok(())
    } else {
        match element_check(es[0], nb_qbits) {
            Err(x) => Err(x),
            Ok(_) => elements_check(es.subrange(1, es.len() as int), nb_qbits),
        }
    }
}

pub proof fn lemma_elements_check_step(es: Seq<CircuitElement>, k: int, nb_qbits: u8)
    requires
        0 <= k < es.len(),
    ensures
        elements_check(es.subrange(k, es.len() as int), nb_qbits) == match element_check(es[k], nb_qbits) {
            Err(x) => Err(x),
            Ok(_) => elements_check(es.subrange(k + 1, es.len() as int), nb_qbits),
        },
{
    let s = es.subrange(k, es.len() as int);
    assert(s[0] == es[k]);
    assert(s.subrange(1, s.len() as int) =~= es.subrange(k + 1, es.len() as int));
}

impl CircuitElement {
    /// An element that holds the same thing.
    pub fn copy(&self) -> (r: Self)
        ensures
            same_element(r, *self),
        decreases self,
    {
        match self {
            CircuitElement::Loop(l) => {
                let c = l.circuit.copy();
                CircuitElement::Loop(Loop { circuit: c, stop_condition: l.stop_condition.copy() })
            },
            CircuitElement::Gate(g) => CircuitElement::Gate(g.copy()),
            CircuitElement::Measure(m) => CircuitElement::Measure(m.copy()),
        }
    }

    /// The largest qubit index the element touches.
    pub fn max_qbit_idx(&self) -> (r: u8)
        requires
            self is Loop ==> self->Loop_0.circuit.nb_qbits >= 1,
        ensures
            match self {
                CircuitElement::Loop(l) => r == l.circuit.nb_qbits - 1,
                CircuitElement::Gate(g) => r == g.spec_max_qbit_idx(),
                CircuitElement::Measure(m) => r == m.qbit_target,
            },
    {
        match self {
            CircuitElement::Loop(p) => p.circuit.max_qbit_idx(),
            CircuitElement::Gate(p) => p.max_qbit_idx(),
            CircuitElement::Measure(p) => p.max_qbit_idx(),
        }
    }

    /// Succeeds when the element can run on a register of `nb_qbits` qubits.
    pub fn check_validity(&self, nb_qbits: u8) -> (r: Result<(), ValidityError>)
        ensures
            r == element_check(*self, nb_qbits),
        decreases self,
    {
        match self {
            CircuitElement::Loop(p) => if p.circuit.nb_qbits != nb_qbits {
                Err(ValidityError::QbitCountMismatch(p.circuit.nb_qbits))
            } else {
                p.circuit.check_validity(nb_qbits)
            },
            CircuitElement::Gate(p) => p.check_validity(nb_qbits),
            CircuitElement::Measure(p) => p.check_validity(nb_qbits),
        }
    }
}

impl Clone for CircuitElement {
    fn clone(&self) -> (r: Self)
        ensures
            same_element(r, *self),
    {
        self.copy()
    }
}

impl From<Gate> for CircuitElement {
    fn from(g: Gate) -> (r: CircuitElement) {
        CircuitElement::Gate(g)
    }
}

impl vstd::std_specs::convert::FromSpecImpl<Gate> for CircuitElement {
    open spec fn obeys_from_spec() -> bool {
        true
    }

    open spec fn from_spec(g: Gate) -> CircuitElement {
        CircuitElement::Gate(g)
    }
}

impl From<Measure> for CircuitElement {
    fn from(m: Measure) -> (r: CircuitElement) {
        CircuitElement::Measure(m)
    }
}

impl vstd::std_specs::convert::FromSpecImpl<Measure> for CircuitElement {
    open spec fn obeys_from_spec() -> bool {
        true
    }

    open spec fn from_spec(m: Measure) -> CircuitElement {
        CircuitElement::Measure(m)
    }
}

impl From<Loop> for CircuitElement {
    fn from(l: Loop) -> (r: CircuitElement) {
        CircuitElement::Loop(l)
    }
}

impl vstd::std_specs::convert::FromSpecImpl<Loop> for CircuitElement {
    open spec fn obeys_from_spec() -> bool {
        true
    }

    open spec fn from_spec(l: Loop) -> CircuitElement {
        CircuitElement::Loop(l)
    }
}

} // verus!
