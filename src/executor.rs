use vstd::prelude::*;

use crate::bits::{all_below, dimension, fits};
use crate::circuit::Circuit;
use crate::execution::ExecutionContext;
use crate::gate::{first_too_high_at, involved_check, Gate};
use crate::gate_op::Transform;
use crate::operation::{element_check, elements_check, lemma_elements_check_step, CircuitElement};

verus! {

/// Position in one circuit of the nesting: the next element to run, and how many
/// iterations of the enclosing loop are done (0 for the top-level circuit).
#[derive(Clone, Copy, PartialEq, Eq, Debug)]
pub struct Frame {
    pub index: usize,
    pub iteration: u32,
}

/// What the caller does after one step of a run.
#[derive(Debug)]
pub enum Step {
    /// Replace the state by its image under this transform, then call
    /// `ExecutionContext::set_current_state`.
    Apply(Transform),
    /// Sample a basis index of the state, collapse the state onto it, then call
    /// `ExecutionContext::set_measurement` with this id, this target and the index.
    Measure { id: String, target: u8 },
    /// A loop was entered, repeated, left or skipped: step again.
    Continue,
    /// The circuit has run to its end.
    Done,
}

/// The elements of the circuit at nesting depth `d`: the top-level elements at
/// depth 0, and at depth `d + 1` the body of the loop that frame `d` points at.
pub open spec fn circuit_at(top: Seq<CircuitElement>, frames: Seq<Frame>, d: int) -> Option<Seq<CircuitElement>>
    decreases d,
{
    if d <= 0 {
        Some(top)
    } else {
        match circuit_at(top, frames, d - 1) {
            Some(es) => {
                let i = frames[d - 1].index as int;
                if 0 <= i < es.len() && es[i] is Loop {
                    Some(es[i]->Loop_0.circuit.elements@)
                } else {
                    None
                }
            },
            None => None,
        }
    }
}

/// Every frame points into an existing circuit, at an element or just past the
/// last one, and every circuit of the nesting is valid for `nb_qbits` qubits.
pub open spec fn frames_wf(top: Seq<CircuitElement>, frames: Seq<Frame>, nb_qbits: u8) -> bool {
    &&& frames.len() >= 1
    &&& frames[0].iteration == 0
    &&& forall|d: int|
        0 <= d < frames.len() ==> {
            &&& #[trigger] circuit_at(top, frames, d) is Some
            &&& frames[d].index <= circuit_at(top, frames, d)->Some_0.len()
            &&& elements_check(circuit_at(top, frames, d)->Some_0, nb_qbits) is Ok
        }
}

/// The saturated successor of an iteration count.
pub open spec fn next_iteration(it: u32) -> u32 {
    if it < u32::MAX {
        (it + 1) as u32
    } else {
        u32::MAX
    }
}

/// The frames after one step.
pub open spec fn next_frames(top: Seq<CircuitElement>, frames: Seq<Frame>, context: ExecutionContext) -> Seq<Frame> {
    let d = frames.len() - 1;
    let es = circuit_at(top, frames, d)->Some_0;
    let f = frames[d];
    if f.index < es.len() {
        match es[f.index as int] {
            CircuitElement::Loop(l) => if l.stop_condition.holds(0, context) {
                frames.update(d, Frame { index: (f.index + 1) as usize, iteration: f.iteration })
            } else {
                frames.push(Frame { index: 0, iteration: 0 })
            },
            _ => frames.update(d, Frame { index: (f.index + 1) as usize, iteration: f.iteration }),
        }
    } else if d == 0 {
        frames
    } else {
        let parent = frames[d - 1];
        let l = circuit_at(top, frames, d - 1)->Some_0[parent.index as int]->Loop_0;
        let it = next_iteration(f.iteration);
        if l.stop_condition.holds(it, context) {
            frames.drop_last().update(d - 1, Frame { index: (parent.index + 1) as usize, iteration: parent.iteration })
        } else {
            frames.update(d, Frame { index: 0, iteration: it })
        }
    }
}

/// The element that the last frame points at, if it points at one.
pub open spec fn current_element(top: Seq<CircuitElement>, frames: Seq<Frame>) -> Option<CircuitElement> {
    let d = frames.len() - 1;
    let es = circuit_at(top, frames, d)->Some_0;
    if frames[d].index < es.len() {
        Some(es[frames[d].index as int])
    } else {
        None
    }
}

/// What one step asks of the caller.
pub open spec fn step_matches(top: Seq<CircuitElement>, frames: Seq<Frame>, nb_qbits: u8, r: Step) -> bool {
    match current_element(top, frames) {
        Some(CircuitElement::Gate(g)) => r matches Step::Apply(t) && t@.len() == dimension(nb_qbits) && forall|i: int|
            0 <= i < t@.len() ==> #[trigger] t@[i] == g.base().row(nb_qbits, g.controls(), i as usize),
        Some(CircuitElement::Measure(m)) => r matches Step::Measure { id, target } && id@ == m.id@ && target
            == m.qbit_target,
        Some(CircuitElement::Loop(_)) => r is Continue,
        None => if frames.len() == 1 {
            r is Done
        } else {
            r is Continue
        },
    }
}

pub proof fn lemma_first_too_high_exists(s: Seq<u8>, nb_qbits: u8, k: int)
    requires
        0 <= k < s.len(),
        s[k] >= nb_qbits,
    ensures
        exists|j: int| first_too_high_at(s, nb_qbits, j),
    decreases k,
{
    if exists|j: int| 0 <= j < k && s[j] >= nb_qbits {
        let j = choose|j: int| 0 <= j < k && s[j] >= nb_qbits;
        lemma_first_too_high_exists(s, nb_qbits, j);
    } else {
        assert(first_too_high_at(s, nb_qbits, k));
    }
}

/// Every element of a valid sequence of elements is valid.
pub proof fn lemma_elements_valid(es: Seq<CircuitElement>, nb_qbits: u8, k: int)
    requires
        elements_check(es, nb_qbits) is Ok,
        0 <= k < es.len(),
    ensures
        element_check(es[k], nb_qbits) is Ok,
{
    assert(es.subrange(0, es.len() as int) =~= es);
    lemma_elements_valid_from(es, nb_qbits, 0, k);
}

proof fn lemma_elements_valid_from(es: Seq<CircuitElement>, nb_qbits: u8, j: int, k: int)
    requires
        0 <= j <= k < es.len(),
        elements_check(es.subrange(j, es.len() as int), nb_qbits) is Ok,
    ensures
        element_check(es[k], nb_qbits) is Ok,
    decreases k - j,
{
    lemma_elements_check_step(es, j, nb_qbits);
    if j < k {
        lemma_elements_valid_from(es, nb_qbits, j + 1, k);
    }
}

/// A valid gate has all its qubits in range.
pub proof fn lemma_valid_gate(g: Gate, nb_qbits: u8)
    requires
        involved_check(g.involved(), nb_qbits) is Ok,
    ensures
        all_below(g.controls(), nb_qbits),
        all_below(g.base().targets(), nb_qbits),
{
    let s = g.involved();
    assert forall|k: int| 0 <= k < s.len() implies #[trigger] s[k] < nb_qbits by {
        if s[k] >= nb_qbits {
            lemma_first_too_high_exists(s, nb_qbits, k);
        }
    }
    let c = g.controls();
    let t = g.base().targets();
    assert forall|k: int| 0 <= k < c.len() implies #[trigger] c[k] < nb_qbits by {
        assert(s[k] == c[k]);
    }
    assert forall|k: int| 0 <= k < t.len() implies #[trigger] t[k] < nb_qbits by {
        assert(s[c.len() + k] == t[k]);
    }
}

/// Runs a circuit one step at a time. The caller performs each step on the
/// amplitudes and records measurements in the context; loops are decided here.
pub struct Executor {
    frames: Vec<Frame>,
}

impl Executor {
    pub closed spec fn spec_frames(&self) -> Seq<Frame> {
        self.frames@
    }

    /// An executor placed before the first element of a circuit; ready to step
    /// through `circuit` when the circuit is valid for its register.
    pub fn new(circuit: &Circuit) -> (r: Self)
        ensures
            r.spec_frames() == seq![Frame { index: 0, iteration: 0 }],
            elements_check(circuit.elements@, circuit.nb_qbits) is Ok ==> frames_wf(
                circuit.elements@,
                r.spec_frames(),
                circuit.nb_qbits,
            ),
    {
        let mut frames: Vec<Frame> = Vec::new();
        frames.push(Frame { index: 0, iteration: 0 });
        proof {
            assert(circuit_at(circuit.elements@, frames@, 0) == Some(circuit.elements@));
        }
        Executor { frames }
    }

    /// The elements of the circuit at depth `d`.
    fn elements_at<'a>(&self, top: &'a Vec<CircuitElement>, d: usize, Ghost(nb_qbits): Ghost<u8>) -> (r: &'a Vec<CircuitElement>)
        requires
            frames_wf(top@, self.frames@, nb_qbits),
            d < self.frames@.len(),
        ensures
            circuit_at(top@, self.frames@, d as int) == Some(r@),
    {
        let mut cur = top;
        let mut k: usize = 0;
        while k < d
            invariant
                frames_wf(top@, self.frames@, nb_qbits),
                d < self.frames@.len(),
                k <= d,
                circuit_at(top@, self.frames@, k as int) == Some(cur@),
            decreases d - k,
        {
            assert(circuit_at(top@, self.frames@, k + 1) is Some);
            let idx = self.frames[k].index;
            match &cur[idx] {
                CircuitElement::Loop(l) => {
                    cur = &l.circuit.elements;
                },
                _ => {
                    assert(false);
                },
            }
            k = k + 1;
        }
        cur
    }

    /// Performs one transition of the run of `circuit` and says what the caller
    /// must do with the amplitudes.
    pub fn step(&mut self, circuit: &Circuit, context: &ExecutionContext) -> (r: Step)
        requires
            frames_wf(circuit.elements@, old(self).spec_frames(), circuit.nb_qbits),
            fits(circuit.nb_qbits),
            context.wf(),
        ensures
            frames_wf(circuit.elements@, final(self).spec_frames(), circuit.nb_qbits),
            final(self).spec_frames() == next_frames(circuit.elements@, old(self).spec_frames(), *context),
            step_matches(circuit.elements@, old(self).spec_frames(), circuit.nb_qbits, r),
    {
        let ghost top = circuit.elements@;
        let ghost nb = circuit.nb_qbits;
        let ghost fr = self.frames@;
        let d = self.frames.len() - 1;
        let es = self.elements_at(&circuit.elements, d, Ghost(circuit.nb_qbits));
        let f = self.frames[d];
        assert(circuit_at(top, fr, d as int) is Some);
        if f.index < es.len() {
            proof {
                lemma_elements_valid(es@, nb, f.index as int);
            }
            match &es[f.index] {
                CircuitElement::Gate(g) => {
                    proof {
                        lemma_valid_gate(*g, nb);
                    }
                    let t = g.get_gate().apply_controlled(g.get_control_bits().as_slice(), circuit.nb_qbits);
                    self.frames.set(d, Frame { index: f.index + 1, iteration: f.iteration });
                    proof {
                        lemma_same_prefix(top, fr, self.frames@, nb, d as int);
                    }
                    Step::Apply(t)
                },
                CircuitElement::Measure(m) => {
                    let id = m.id.clone();
                    self.frames.set(d, Frame { index: f.index + 1, iteration: f.iteration });
                    proof {
                        lemma_same_prefix(top, fr, self.frames@, nb, d as int);
                    }
                    Step::Measure { id, target: m.qbit_target }
                },
                CircuitElement::Loop(l) => {
                    if l.stop_condition.is_end_of_loop(0, context) {
                        self.frames.set(d, Frame { index: f.index + 1, iteration: f.iteration });
                        proof {
                            lemma_same_prefix(top, fr, self.frames@, nb, d as int);
                        }
                    } else {
                        self.frames.push(Frame { index: 0, iteration: 0 });
                        proof {
                            assert forall|j: int| 0 <= j <= d implies circuit_at(top, self.frames@, j) == circuit_at(top, fr, j) by {
                                lemma_circuit_at_prefix(top, fr, self.frames@, j);
                            }
                            assert(circuit_at(top, self.frames@, d + 1) == Some(l.circuit.elements@));
                            assert(elements_check(l.circuit.elements@, nb) is Ok);
                            assert forall|j: int| 0 <= j < self.frames@.len() implies {
                                &&& #[trigger] circuit_at(top, self.frames@, j) is Some
                                &&& self.frames@[j].index <= circuit_at(top, self.frames@, j)->Some_0.len()
                                &&& elements_check(circuit_at(top, self.frames@, j)->Some_0, nb) is Ok
                            } by {
                                if j <= d {
                                    assert(circuit_at(top, fr, j) is Some);
                                    assert(self.frames@[j] == fr[j]);
                                }
                            }
                            assert(self.frames@[0] == fr[0]);
                        }
                    }
                    Step::Continue
                },
            }
        } else if d == 0 {
            Step::Done
        } else {
            let parents = self.elements_at(&circuit.elements, d - 1, Ghost(circuit.nb_qbits));
            let parent = self.frames[d - 1];
            assert(circuit_at(top, fr, d as int) is Some);
            match &parents[parent.index] {
                CircuitElement::Loop(l) => {
                    let it = if f.iteration < u32::MAX {
                        f.iteration + 1
                    } else {
                        u32::MAX
                    };
                    if l.stop_condition.is_end_of_loop(it, context) {
                        let plen = parents.len();
                        assert(parent.index < plen);
                        self.frames.pop();
                        self.frames.set(d - 1, Frame { index: parent.index + 1, iteration: parent.iteration });
                        proof {
                            let short = fr.drop_last();
                            assert forall|j: int| 0 <= j < d implies circuit_at(top, short, j) == circuit_at(top, fr, j) by {
                                lemma_circuit_at_prefix(top, fr, short, j);
                            }
                            assert forall|j: int| 0 <= j < short.len() implies {
                                &&& #[trigger] circuit_at(top, short, j) is Some
                                &&& short[j].index <= circuit_at(top, short, j)->Some_0.len()
                                &&& elements_check(circuit_at(top, short, j)->Some_0, nb) is Ok
                            } by {
                                assert(circuit_at(top, fr, j) is Some);
                            }
                            assert(frames_wf(top, short, nb));
                            lemma_same_prefix(top, short, self.frames@, nb, d - 1);
                        }
                    } else {
                        self.frames.set(d, Frame { index: 0, iteration: it });
                        proof {
                            lemma_same_prefix(top, fr, self.frames@, nb, d as int);
                        }
                    }
                    Step::Continue
                },
                _ => {
                    assert(false);
                    Step::Done
                },
            }
        }
    }

}

/// The circuit at depth `j` depends only on the frames above it.
pub proof fn lemma_circuit_at_prefix(top: Seq<CircuitElement>, a: Seq<Frame>, b: Seq<Frame>, j: int)
    requires
        0 <= j,
        j <= a.len(),
        j <= b.len(),
        forall|k: int| 0 <= k < j ==> #[trigger] a[k] == b[k],
    ensures
        circuit_at(top, a, j) == circuit_at(top, b, j),
    decreases j,
{
    if j > 0 {
        lemma_circuit_at_prefix(top, a, b, j - 1);
    }
}

/// After replacing only the last frame's index and iteration, every depth
/// still names the same circuit.
proof fn lemma_same_prefix(top: Seq<CircuitElement>, old_frames: Seq<Frame>, new_frames: Seq<Frame>, nb_qbits: u8, d: int)
    requires
        frames_wf(top, old_frames, nb_qbits),
        d == old_frames.len() - 1,
        new_frames.len() == old_frames.len(),
        forall|k: int| 0 <= k < d ==> #[trigger] new_frames[k] == old_frames[k],
        new_frames[d].index <= circuit_at(top, old_frames, d)->Some_0.len(),
        d == 0 ==> new_frames[0].iteration == 0,
    ensures
        frames_wf(top, new_frames, nb_qbits),
{
    assert forall|j: int| 0 <= j <= d implies circuit_at(top, new_frames, j) == circuit_at(top, old_frames, j) by {
        lemma_circuit_at_prefix(top, old_frames, new_frames, j);
    }
    assert forall|j: int| 0 <= j < new_frames.len() implies {
        &&& #[trigger] circuit_at(top, new_frames, j) is Some
        &&& new_frames[j].index <= circuit_at(top, new_frames, j)->Some_0.len()
        &&& elements_check(circuit_at(top, new_frames, j)->Some_0, nb_qbits) is Ok
    } by {
        assert(circuit_at(top, old_frames, j) is Some);
    }
}

} // verus!
