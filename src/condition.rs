use vstd::prelude::*;

use crate::execution::ExecutionContext;

verus! {

/// When a loop stops: checked before each iteration against the number of
/// iterations done so far and the measurement counts of the run.
#[derive(Debug)]
pub enum StopCondition {
    /// Stops after the first iteration.
    Once,
    /// Stops after the given number of iterations.
    MaxIteration(u32),
    /// Stops once measurement `id` has given 0 at least `nb` times.
    MaxZeroSampling { id: String, nb: u32 },
    /// Stops once measurement `id` has given 1 at least `nb` times.
    MaxOneSample { id: String, nb: u32 },
    Or(Box<StopCondition>, Box<StopCondition>),
    And(Box<StopCondition>, Box<StopCondition>),
}

impl StopCondition {
    /// The condition holds after `nb_iterations` iterations in `context`.
    pub open spec fn holds(&self, nb_iterations: u32, context: ExecutionContext) -> bool
        decreases self,
    {
        match self {
            StopCondition::Once => nb_iterations >= 1,
            StopCondition::MaxIteration(nb) => nb_iterations >= *nb,
            StopCondition::MaxZeroSampling { id, nb } => context.nb_zero(id@) >= *nb,
            StopCondition::MaxOneSample { id, nb } => context.nb_one(id@) >= *nb,
            StopCondition::Or(lhs, rhs) => lhs.holds(nb_iterations, context) || rhs.holds(nb_iterations, context),
            StopCondition::And(lhs, rhs) => lhs.holds(nb_iterations, context) && rhs.holds(nb_iterations, context),
        }
    }

    /// An equal condition.
    pub fn copy(&self) -> (r: Self)
        ensures
            r == *self,
        decreases self,
    {
        match self {
            StopCondition::Once => StopCondition::Once,
            StopCondition::MaxIteration(nb) => StopCondition::MaxIteration(*nb),
            StopCondition::MaxZeroSampling { id, nb } => StopCondition::MaxZeroSampling { id: id.clone(), nb: *nb },
            StopCondition::MaxOneSample { id, nb } => StopCondition::MaxOneSample { id: id.clone(), nb: *nb },
            StopCondition::Or(lhs, rhs) => StopCondition::Or(Box::new(lhs.copy()), Box::new(rhs.copy())),
            StopCondition::And(lhs, rhs) => StopCondition::And(Box::new(lhs.copy()), Box::new(rhs.copy())),
        }
    }

    /// Whether a loop with this condition stops after `nb_iterations` iterations.
    pub fn is_end_of_loop(&self, nb_iterations: u32, context: &ExecutionContext) -> (r: bool)
        requires
            context.wf(),
        ensures
            r == self.holds(nb_iterations, *context),
        decreases self,
    {
        match self {
            StopCondition::Once => nb_iterations >= 1,
            StopCondition::MaxIteration(nb) => nb_iterations >= *nb,
            StopCondition::MaxZeroSampling { id, nb } => context.get_nb_zero(id.as_str()) >= *nb,
            StopCondition::MaxOneSample { id, nb } => context.get_nb_one(id.as_str()) >= *nb,
            StopCondition::Or(lhs, rhs) => {
                let l = lhs.is_end_of_loop(nb_iterations, context);
                let r = rhs.is_end_of_loop(nb_iterations, context);
                l || r
            },
            StopCondition::And(lhs, rhs) => {
                let l = lhs.is_end_of_loop(nb_iterations, context);
                let r = rhs.is_end_of_loop(nb_iterations, context);
                l && r
            },
        }
    }
}

impl Clone for StopCondition {
    fn clone(&self) -> (r: Self)
        ensures
            r == *self,
    {
        self.copy()
    }
}

} // verus!
