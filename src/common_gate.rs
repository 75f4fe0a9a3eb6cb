use vstd::prelude::*;

use crate::base_gate::BaseGate;
use crate::gate::Gate;

verus! {

/// The usual gates, with their control qubits where they have some.
#[derive(Clone, Copy, PartialEq, Eq, Debug)]
pub enum CommonGate {
    Not(u8),
    X(u8),
    Y(u8),
    Z(u8),
    Swap(u8, u8),
    Hadamard(u8),
    /// Not on the target, one control.
    CNot(u8, [u8; 1]),
    /// Not on the target, two controls.
    Toffoli(u8, [u8; 2]),
    /// Same as `Toffoli`.
    CCNot(u8, [u8; 2]),
    /// Swap of the two targets, one control.
    CSwap(u8, u8, [u8; 1]),
    /// Same as `CSwap`.
    Fredkin(u8, u8, [u8; 1]),
}

/// The usual gates, with their control qubits where they have some.
#[derive(Clone, Copy, PartialEq, Eq, Debug)]
pub enum StandardGate {
    Not(u8),
    X(u8),
    Y(u8),
    Z(u8),
    Swap(u8, u8),
    Hadamard(u8),
    CNot(u8, [u8; 1]),
    Toffoli(u8, [u8; 2]),
    CSwap(u8, u8, [u8; 1]),
    Fredkin(u8, u8, [u8; 1]),
}

impl CommonGate {
    /// The base gate and the control qubits of this gate.
    pub open spec fn parts(self) -> (BaseGate, Seq<u8>) {
        match self {
            CommonGate::Not(t) => (BaseGate::Not(t), seq![]),
            CommonGate::X(t) => (BaseGate::X(t), seq![]),
            CommonGate::Y(t) => (BaseGate::Y(t), seq![]),
            CommonGate::Z(t) => (BaseGate::Z(t), seq![]),
            CommonGate::Swap(t1, t2) => (BaseGate::Swap(t1, t2), seq![]),
            CommonGate::Hadamard(t) => (BaseGate::Hadamard(t), seq![]),
            CommonGate::CNot(t, c) => (BaseGate::Not(t), seq![c[0]]),
            CommonGate::Toffoli(t, c) => (BaseGate::Not(t), seq![c[0], c[1]]),
            CommonGate::CCNot(t, c) => (BaseGate::Not(t), seq![c[0], c[1]]),
            CommonGate::CSwap(t1, t2, c) => (BaseGate::Swap(t1, t2), seq![c[0]]),
            CommonGate::Fredkin(t1, t2, c) => (BaseGate::Swap(t1, t2), seq![c[0]]),
        }
    }

    /// This gate as a base gate with its controls.
    pub fn into_gate(self) -> (r: Gate)
        ensures
            r.base() == self.parts().0,
            r.controls() == self.parts().1,
    {
        match self {
            CommonGate::Not(t) => Gate::new(BaseGate::Not(t), vec![]),
            CommonGate::X(t) => Gate::new(BaseGate::X(t), vec![]),
            CommonGate::Y(t) => Gate::new(BaseGate::Y(t), vec![]),
            CommonGate::Z(t) => Gate::new(BaseGate::Z(t), vec![]),
            CommonGate::Swap(t1, t2) => Gate::new(BaseGate::Swap(t1, t2), vec![]),
            CommonGate::Hadamard(t) => Gate::new(BaseGate::Hadamard(t), vec![]),
            CommonGate::CNot(t, c) => Gate::new(BaseGate::Not(t), vec![c[0]]),
            CommonGate::Toffoli(t, c) => Gate::new(BaseGate::Not(t), vec![c[0], c[1]]),
            CommonGate::CCNot(t, c) => Gate::new(BaseGate::Not(t), vec![c[0], c[1]]),
            CommonGate::CSwap(t1, t2, c) => Gate::new(BaseGate::Swap(t1, t2), vec![c[0]]),
            CommonGate::Fredkin(t1, t2, c) => Gate::new(BaseGate::Swap(t1, t2), vec![c[0]]),
        }
    }
}

impl StandardGate {
    /// The same gate as a `CommonGate`.
    pub fn to_common(self) -> (r: CommonGate)
        ensures
            match self {
                StandardGate::Not(t) => r == CommonGate::Not(t),
                StandardGate::X(t) => r == CommonGate::X(t),
                StandardGate::Y(t) => r == CommonGate::Y(t),
                StandardGate::Z(t) => r == CommonGate::Z(t),
                StandardGate::Swap(t1, t2) => r == CommonGate::Swap(t1, t2),
                StandardGate::Hadamard(t) => r == CommonGate::Hadamard(t),
                StandardGate::CNot(t, c) => r == CommonGate::CNot(t, c),
                StandardGate::Toffoli(t, c) => r == CommonGate::Toffoli(t, c),
                StandardGate::CSwap(t1, t2, c) => r == CommonGate::CSwap(t1, t2, c),
                StandardGate::Fredkin(t1, t2, c) => r == CommonGate::Fredkin(t1, t2, c),
            },
    {
        match self {
            StandardGate::Not(t) => CommonGate::Not(t),
            StandardGate::X(t) => CommonGate::X(t),
            StandardGate::Y(t) => CommonGate::Y(t),
            StandardGate::Z(t) => CommonGate::Z(t),
            StandardGate::Swap(t1, t2) => CommonGate::Swap(t1, t2),
            StandardGate::Hadamard(t) => CommonGate::Hadamard(t),
            StandardGate::CNot(t, c) => CommonGate::CNot(t, c),
            StandardGate::Toffoli(t, c) => CommonGate::Toffoli(t, c),
            StandardGate::CSwap(t1, t2, c) => CommonGate::CSwap(t1, t2, c),
            StandardGate::Fredkin(t1, t2, c) => CommonGate::Fredkin(t1, t2, c),
        }
    }

    /// This gate as a base gate with its controls.
    pub fn into_gate(self) -> (r: Gate)
        ensures
            r.base() == self.to_common_spec().parts().0,
            r.controls() == self.to_common_spec().parts().1,
    {
        self.to_common().into_gate()
    }

    pub open spec fn to_common_spec(self) -> CommonGate {
        match self {
            StandardGate::Not(t) => CommonGate::Not(t),
            StandardGate::X(t) => CommonGate::X(t),
            StandardGate::Y(t) => CommonGate::Y(t),
            StandardGate::Z(t) => CommonGate::Z(t),
            StandardGate::Swap(t1, t2) => CommonGate::Swap(t1, t2),
            StandardGate::Hadamard(t) => CommonGate::Hadamard(t),
            StandardGate::CNot(t, c) => CommonGate::CNot(t, c),
            StandardGate::Toffoli(t, c) => CommonGate::Toffoli(t, c),
            StandardGate::CSwap(t1, t2, c) => CommonGate::CSwap(t1, t2, c),
            StandardGate::Fredkin(t1, t2, c) => CommonGate::Fredkin(t1, t2, c),
        }
    }
}

/// Hadamard on `target`.
pub fn hadamard(target: u8) -> (r: BaseGate)
    ensures
        r == BaseGate::Hadamard(target),
{
    BaseGate::Hadamard(target)
}

/// Pauli-X on `target`.
pub fn pauli_x(target: u8) -> (r: BaseGate)
    ensures
        r == BaseGate::X(target),
{
    BaseGate::X(target)
}

/// Not on `target` controlled by `control`.
pub fn cnot(control: u8, target: u8) -> (r: Gate)
    ensures
        r.base() == BaseGate::Not(target),
        r.controls() == seq![control],
{
    BaseGate::Not(target).with_one_control(control)
}

/// Not on `target` controlled by `control1` and `control2`.
pub fn toffoli(control1: u8, control2: u8, target: u8) -> (r: Gate)
    ensures
        r.base() == BaseGate::Not(target),
        r.controls() == seq![control1, control2],
{
    BaseGate::Not(target).with_two_controls(control1, control2)
}

/// Swap of `target1` and `target2` controlled by `control`.
pub fn cswap(control: u8, target1: u8, target2: u8) -> (r: Gate)
    ensures
        r.base() == BaseGate::Swap(target1, target2),
        r.controls() == seq![control],
{
    BaseGate::Swap(target1, target2).with_one_control(control)
}

/// Same as `cswap`.
pub fn fredkin(control: u8, target1: u8, target2: u8) -> (r: Gate)
    ensures
        r.base() == BaseGate::Swap(target1, target2),
        r.controls() == seq![control],
{
    cswap(control, target1, target2)
}

} // verus!
