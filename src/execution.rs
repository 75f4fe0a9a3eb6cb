use vstd::prelude::*;

use crate::bits::{fits, mask, qbit_is_one};
use crate::measure::{MeasureCount, State};

verus! {

/// The count of one measurement id.
#[derive(Clone, Debug)]
pub struct Counter {
    pub id: String,
    pub count: MeasureCount,
}

/// What a run keeps besides the amplitudes: the register size, whether the
/// state was just collapsed, and the zero/one counts of each measurement id.
#[derive(Clone, Debug)]
pub struct ExecutionContext {
    nb_qbits: u8,
    state: State,
    count: Vec<Counter>,
}

pub open spec fn zero_count() -> MeasureCount {
    MeasureCount { nb_zero: 0, nb_one: 0 }
}

impl ExecutionContext {
    pub closed spec fn spec_nb_qbits(self) -> u8 {
        self.nb_qbits
    }

    pub closed spec fn spec_state(self) -> State {
        self.state
    }

    /// Each id has at most one counter.
    pub closed spec fn wf(self) -> bool {
        forall|a: int, b: int|
            0 <= a < b < self.count@.len() ==> #[trigger] self.count@[a].id@ != #[trigger] self.count@[b].id@
    }

    /// The counts recorded under `id`, if any.
    pub closed spec fn count_of(self, id: Seq<char>) -> Option<MeasureCount> {
        if exists|k: int| 0 <= k < self.count@.len() && #[trigger] self.count@[k].id@ == id {
            Some(self.count@[choose|k: int| 0 <= k < self.count@.len() && #[trigger] self.count@[k].id@ == id].count)
        } else {
            None
        }
    }

    /// Number of zeros measured under `id` (0 for an id never measured).
    pub open spec fn nb_zero(self, id: Seq<char>) -> u32 {
        match self.count_of(id) {
            Some(c) => c.nb_zero,
            None => 0,
        }
    }

    /// Number of ones measured under `id` (0 for an id never measured).
    pub open spec fn nb_one(self, id: Seq<char>) -> u32 {
        match self.count_of(id) {
            Some(c) => c.nb_one,
            None => 0,
        }
    }

    /// A context with no measurement yet, for a register of `nb_qbits` qubits.
    pub fn initialize(nb_qbits: u8) -> (r: Self)
        ensures
            r.wf(),
            r.spec_nb_qbits() == nb_qbits,
            r.spec_state() == State::NotMeasured,
            forall|id: Seq<char>| r.count_of(id) == None::<MeasureCount>,
    {
        ExecutionContext { nb_qbits, state: State::NotMeasured, count: Vec::new() }
    }

    pub fn nb_qbits(&self) -> (r: u8)
        ensures
            r == self.spec_nb_qbits(),
    {
        self.nb_qbits
    }

    pub fn state(&self) -> (r: State)
        ensures
            r == self.spec_state(),
    {
        self.state
    }

    /// Position of the counter of `id`, if there is one.
    fn find(&self, id: &String) -> (r: Option<usize>)
        requires
            self.wf(),
        ensures
            match r {
                Some(k) => k < self.count@.len() && self.count@[k as int].id@ == id@ && self.count_of(id@)
                    == Some(self.count@[k as int].count),
                None => self.count_of(id@) == None::<MeasureCount>,
            },
    {
        let mut k: usize = 0;
        while k < self.count.len()
            invariant
                self.wf(),
                k <= self.count@.len(),
                forall|j: int| 0 <= j < k ==> #[trigger] self.count@[j].id@ != id@,
            decreases self.count@.len() - k,
        {
            if self.count[k].id == *id {
                proof {
                    let c = choose|c: int| 0 <= c < self.count@.len() && #[trigger] self.count@[c].id@ == id@;
                    if c != k {
                        if c < k {
                        } else {
                            assert(self.count@[k as int].id@ != self.count@[c].id@);
                        }
                    }
                }
                return Some(k);
            }
            k = k + 1;
        }
        None
    }

    /// The counts recorded under `variable`, if it was ever measured.
    pub fn get_count(&self, variable: &str) -> (r: Option<MeasureCount>)
        requires
            self.wf(),
        ensures
            r == self.count_of(variable@),
    {
        let id = variable.to_owned();
        match self.find(&id) {
            Some(k) => Some(self.count[k].count),
            None => None,
        }
    }

    /// Number of zeros measured under `variable`.
    pub fn get_nb_zero(&self, variable: &str) -> (r: u32)
        requires
            self.wf(),
        ensures
            r == self.nb_zero(variable@),
    {
        match self.get_count(variable) {
            Some(c) => c.nb_zero,
            None => 0,
        }
    }

    /// Number of ones measured under `variable`.
    pub fn get_nb_one(&self, variable: &str) -> (r: u32)
        requires
            self.wf(),
        ensures
            r == self.nb_one(variable@),
    {
        match self.get_count(variable) {
            Some(c) => c.nb_one,
            None => 0,
        }
    }

    /// Adds one to the zero count (`one == false`) or to the one count of `id`.
    fn increase_count(&mut self, id: &String, one: bool)
        requires
            old(self).wf(),
            one ==> old(self).nb_one(id@) < u32::MAX,
            !one ==> old(self).nb_zero(id@) < u32::MAX,
        ensures
            final(self).wf(),
            final(self).spec_nb_qbits() == old(self).spec_nb_qbits(),
            final(self).spec_state() == old(self).spec_state(),
            final(self).count_of(id@) == Some(
                if one {
                    MeasureCount { nb_zero: old(self).nb_zero(id@), nb_one: (old(self).nb_one(id@) + 1) as u32 }
                } else {
                    MeasureCount { nb_zero: (old(self).nb_zero(id@) + 1) as u32, nb_one: old(self).nb_one(id@) }
                },
            ),
            forall|other: Seq<char>| other != id@ ==> final(self).count_of(other) == old(self).count_of(other),
    {
        let ghost before = *self;
        match self.find(id) {
            Some(k) => {
                let mut c = self.count[k].count;
                if one {
                    c.nb_one = c.nb_one + 1;
                } else {
                    c.nb_zero = c.nb_zero + 1;
                }
                let counter = Counter { id: id.clone(), count: c };
                self.count.set(k, counter);
                proof {
                    assert forall|a: int, b: int|
                        0 <= a < b < self.count@.len() implies #[trigger] self.count@[a].id@
                        != #[trigger] self.count@[b].id@ by {
                        assert(before.count@[a].id@ != before.count@[b].id@);
                    }
                    assert(self.count@[k as int].id@ == id@);
                    assert forall|other: Seq<char>| other != id@ implies self.count_of(other) == before.count_of(
                        other,
                    ) by {
                        if exists|j: int| 0 <= j < before.count@.len() && #[trigger] before.count@[j].id@ == other {
                            let j = choose|j: int| 0 <= j < before.count@.len() && #[trigger] before.count@[j].id@ == other;
                            assert(self.count@[j].id@ == other);
                        }
                        if exists|j: int| 0 <= j < self.count@.len() && #[trigger] self.count@[j].id@ == other {
                            let j = choose|j: int| 0 <= j < self.count@.len() && #[trigger] self.count@[j].id@ == other;
                            assert(before.count@[j].id@ == other);
                        }
                    }
                }
            },
            None => {
                let c = if one {
                    MeasureCount { nb_zero: 0, nb_one: 1 }
                } else {
                    MeasureCount { nb_zero: 1, nb_one: 0 }
                };
                self.count.push(Counter { id: id.clone(), count: c });
                proof {
                    let n = before.count@.len();
                    assert(self.count@[n as int].id@ == id@);
                    assert forall|a: int, b: int|
                        0 <= a < b < self.count@.len() implies #[trigger] self.count@[a].id@
                        != #[trigger] self.count@[b].id@ by {
                        if b < n {
                            assert(before.count@[a].id@ != before.count@[b].id@);
                        } else {
                            assert(before.count@[a].id@ != id@);
                        }
                    }
                    assert forall|other: Seq<char>| other != id@ implies self.count_of(other) == before.count_of(
                        other,
                    ) by {
                        if exists|j: int| 0 <= j < before.count@.len() && #[trigger] before.count@[j].id@ == other {
                            let j = choose|j: int| 0 <= j < before.count@.len() && #[trigger] before.count@[j].id@ == other;
                            assert(self.count@[j].id@ == other);
                        }
                        if exists|j: int| 0 <= j < self.count@.len() && #[trigger] self.count@[j].id@ == other {
                            let j = choose|j: int| 0 <= j < self.count@.len() && #[trigger] self.count@[j].id@ == other;
                            assert(before.count@[j].id@ == other);
                        }
                    }
                }
            },
        }
    }

    /// Adds one to the zero count of `id`.
    pub fn increase_zero(&mut self, id: &String)
        requires
            old(self).wf(),
            old(self).nb_zero(id@) < u32::MAX,
        ensures
            final(self).wf(),
            final(self).spec_nb_qbits() == old(self).spec_nb_qbits(),
            final(self).spec_state() == old(self).spec_state(),
            final(self).count_of(id@) == Some(
                MeasureCount { nb_zero: (old(self).nb_zero(id@) + 1) as u32, nb_one: old(self).nb_one(id@) },
            ),
            forall|other: Seq<char>| other != id@ ==> final(self).count_of(other) == old(self).count_of(other),
    {
        self.increase_count(id, false)
    }

    /// Adds one to the one count of `id`.
    pub fn increase_one(&mut self, id: &String)
        requires
            old(self).wf(),
            old(self).nb_one(id@) < u32::MAX,
        ensures
            final(self).wf(),
            final(self).spec_nb_qbits() == old(self).spec_nb_qbits(),
            final(self).spec_state() == old(self).spec_state(),
            final(self).count_of(id@) == Some(
                MeasureCount { nb_zero: old(self).nb_zero(id@), nb_one: (old(self).nb_one(id@) + 1) as u32 },
            ),
            forall|other: Seq<char>| other != id@ ==> final(self).count_of(other) == old(self).count_of(other),
    {
        self.increase_count(id, true)
    }

    /// Records that the state was replaced by a gate: it is no longer a measured basis state.
    pub fn set_current_state(&mut self)
        ensures
            final(self).spec_state() == State::NotMeasured,
            final(self).spec_nb_qbits() == old(self).spec_nb_qbits(),
            final(self).wf() == old(self).wf(),
            forall|id: Seq<char>| final(self).count_of(id) == old(self).count_of(id),
    {
        let ghost before = *self;
        self.state = State::NotMeasured;
        assert(self.count == before.count);
        assert(self.wf() == before.wf());
    }

    /// Records a measurement of qubit `target` under `id` whose sampled basis index
    /// is `select_state`: the state is now `Measured(select_state)`, and the one
    /// count of `id` grows by one when the qubit is 1 in that index, the zero count
    /// otherwise.
    pub fn set_measurement(&mut self, id: &String, target: u8, select_state: usize)
        requires
            old(self).wf(),
            fits(old(self).spec_nb_qbits()),
            target < old(self).spec_nb_qbits(),
            old(self).nb_zero(id@) < u32::MAX,
            old(self).nb_one(id@) < u32::MAX,
        ensures
            final(self).wf(),
            final(self).spec_nb_qbits() == old(self).spec_nb_qbits(),
            final(self).spec_state() == State::Measured(select_state),
            final(self).count_of(id@) == Some(
                if qbit_is_one(old(self).spec_nb_qbits(), target, select_state) {
                    MeasureCount { nb_zero: old(self).nb_zero(id@), nb_one: (old(self).nb_one(id@) + 1) as u32 }
                } else {
                    MeasureCount { nb_zero: (old(self).nb_zero(id@) + 1) as u32, nb_one: old(self).nb_one(id@) }
                },
            ),
            forall|other: Seq<char>| other != id@ ==> final(self).count_of(other) == old(self).count_of(other),
    {
        let m = mask(self.nb_qbits, target);
        let measured_one = (select_state & m) != 0;
        self.increase_count(id, measured_one);
        let ghost mid = *self;
        self.state = State::Measured(select_state);
        assert(self.count == mid.count);
        assert(self.wf() == mid.wf());
        assert(forall|other: Seq<char>| self.count_of(other) == mid.count_of(other));
    }
}

} // verus!
