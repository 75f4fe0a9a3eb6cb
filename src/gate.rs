use vstd::prelude::*;

use crate::base_gate::BaseGate;
use crate::bits::qbits_to_vec;

verus! {

/// Why a circuit element cannot run on a register of a given size.
#[derive(Clone, Copy, PartialEq, Eq, Debug)]
pub enum ValidityError {
    /// A qubit index is not below the number of qubits.
    IndexTooHigh(u8),
    /// A qubit plays two roles in one gate (target and control, or two controls).
    DuplicateQbit(u8),
    /// A loop's body is a circuit for this other number of qubits.
    QbitCountMismatch(u8),
}

/// The decimal digit `d`.
pub open spec fn digit(d: nat) -> char {
    if d == 0 { '0' } else if d == 1 { '1' } else if d == 2 { '2' } else if d == 3 { '3' } else if d == 4 { '4' }
    else if d == 5 { '5' } else if d == 6 { '6' } else if d == 7 { '7' } else if d == 8 { '8' } else { '9' }
}

/// `n` written in decimal.
pub open spec fn decimal(n: nat) -> Seq<char>
    decreases n,
{
    if n < 10 {
        seq![digit(n)]
    } else {
        decimal(n / 10).push(digit(n % 10))
    }
}

/// Relies on `format!` with `u8`'s `Display`, which writes the number in decimal.
#[verifier::external_body]
fn index_too_high_text(q: u8) -> (r: String)
    ensures
        r@ == "Index to high "@ + decimal(q as nat),
{
    format!("Index to high {}", q)
}

/// Relies on `format!` with `u8`'s `Display`, which writes the number in decimal.
#[verifier::external_body]
fn duplicate_qbit_text(q: u8) -> (r: String)
    ensures
        r@ == "Duplicate qbit : "@ + decimal(q as nat) + " "@,
{
    format!("Duplicate qbit : {} ", q)
}

/// Relies on `format!` with `u8`'s `Display`, which writes the number in decimal.
#[verifier::external_body]
fn qbit_count_mismatch_text(n: u8) -> (r: String)
    ensures
        r@ == "Loop circuit for "@ + decimal(n as nat) + " qbits"@,
{
    format!("Loop circuit for {} qbits", n)
}

impl ValidityError {
    /// A sentence that names the offending qubit index.
    pub fn message(&self) -> (r: String)
        ensures
            match self {
                ValidityError::IndexTooHigh(q) => r@ == "Index to high "@ + decimal(*q as nat),
                ValidityError::DuplicateQbit(q) => r@ == "Duplicate qbit : "@ + decimal(*q as nat) + " "@,
                ValidityError::QbitCountMismatch(n) => r@ == "Loop circuit for "@ + decimal(*n as nat) + " qbits"@,
            },
    {
        match self {
            ValidityError::IndexTooHigh(q) => index_too_high_text(*q),
            ValidityError::DuplicateQbit(q) => duplicate_qbit_text(*q),
            ValidityError::QbitCountMismatch(n) => qbit_count_mismatch_text(*n),
        }
    }
}

/// Another name for `Gate`: a base gate with control qubits.
pub type ControlledGate = Gate;

/// A base gate together with its control qubits.
#[derive(Clone, Debug)]
pub struct Gate {
    gate: BaseGate,
    control_bits: Vec<u8>,
}

/// The largest value of `s`, or 0 for an empty sequence.
pub open spec fn seq_max(s: Seq<u8>) -> u8
    decreases s.len(),
{
    if s.len() == 0 {
        0
    } else {
        let m = seq_max(s.drop_last());
        if s.last() >= m {
            s.last()
        } else {
            m
        }
    }
}

/// `k` is the first position of `s` that holds a qubit index not below `nb_qbits`.
pub open spec fn first_too_high_at(s: Seq<u8>, nb_qbits: u8, k: int) -> bool {
    &&& 0 <= k < s.len()
    &&& s[k] >= nb_qbits
    &&& forall|j: int| 0 <= j < k ==> #[trigger] s[j] < nb_qbits
}

/// `s[i]` appears again later in `s`.
pub open spec fn repeated_later(s: Seq<u8>, i: int) -> bool {
    exists|j: int| i < j < s.len() && #[trigger] s[j] == s[i]
}

/// `i` is the first position of `s` whose value appears again later.
pub open spec fn first_duplicate_at(s: Seq<u8>, i: int) -> bool {
    &&& 0 <= i < s.len()
    &&& repeated_later(s, i)
    &&& forall|k: int| 0 <= k < i ==> !#[trigger] repeated_later(s, k)
}

/// The values of `s` are pairwise distinct.
pub open spec fn no_duplicates(s: Seq<u8>) -> bool {
    forall|i: int, j: int| 0 <= i < j < s.len() ==> s[i] != s[j]
}

/// The outcome of checking the qubits `s` of one gate against a register of
/// `nb_qbits` qubits: the first index out of range, else the first duplicate.
pub open spec fn involved_check(s: Seq<u8>, nb_qbits: u8) -> Result<(), ValidityError> {
    if exists|k: int| first_too_high_at(s, nb_qbits, k) {
        Err(ValidityError::IndexTooHigh(s[choose|k: int| first_too_high_at(s, nb_qbits, k)]))
    } else if exists|i: int| first_duplicate_at(s, i) {
        Err(ValidityError::DuplicateQbit(s[choose|i: int| first_duplicate_at(s, i)]))
    } else {
        Ok(())
    }
}

proof fn lemma_first_duplicate_unique(s: Seq<u8>, i: int, j: int)
    requires
        first_duplicate_at(s, i),
        first_duplicate_at(s, j),
    ensures
        i == j,
{
    if i < j {
        assert(!repeated_later(s, i));
    } else if j < i {
        assert(!repeated_later(s, j));
    }
}

/// Succeeds when the values of `bits` are pairwise distinct; otherwise reports
/// the first value that appears again later.
pub fn check_for_no_duplicate(bits: &Vec<u8>) -> (r: Result<(), ValidityError>)
    ensures
        r is Ok <==> no_duplicates(bits@),
        r is Err ==> exists|i: int|
            first_duplicate_at(bits@, i) && r == Err::<(), ValidityError>(ValidityError::DuplicateQbit(bits@[i])),
{
    let n = bits.len();
    let mut i: usize = 0;
    while i < n
        invariant
            n == bits@.len(),
            i <= n,
            forall|k: int| 0 <= k < i ==> !#[trigger] repeated_later(bits@, k),
        decreases n - i,
    {
        let mut j: usize = i + 1;
        while j < n
            invariant
                n == bits@.len(),
                i < n,
                i < j <= n,
                forall|k: int| 0 <= k < i ==> !#[trigger] repeated_later(bits@, k),
                forall|l: int| i < l < j ==> #[trigger] bits@[l] != bits@[i as int],
            decreases n - j,
        {
            if bits[i] == bits[j] {
                assert(repeated_later(bits@, i as int));
                assert(first_duplicate_at(bits@, i as int));
                return Err(ValidityError::DuplicateQbit(bits[i]));
            }
            j = j + 1;
        }
        assert(!repeated_later(bits@, i as int));
        i = i + 1;
    }
    assert forall|a: int, b: int| 0 <= a < b < bits@.len() implies bits@[a] != bits@[b] by {
        assert(!repeated_later(bits@, a));
    }
    Ok(())
}

impl Gate {
    /// The base gate.
    pub closed spec fn base(self) -> BaseGate {
        self.gate
    }

    /// The control qubits.
    pub closed spec fn controls(self) -> Seq<u8> {
        self.control_bits@
    }

    /// Control qubits followed by the targets: every qubit this gate touches.
    pub open spec fn involved(self) -> Seq<u8> {
        self.controls() + self.base().targets()
    }

    pub open spec fn spec_max_qbit_idx(self) -> u8 {
        let c = seq_max(self.controls());
        let t = self.base().max_target();
        if c >= t {
            c
        } else {
            t
        }
    }

    pub fn new(gate: BaseGate, control_bits: Vec<u8>) -> (r: Self)
        ensures
            r.base() == gate,
            r.controls() == control_bits@,
    {
        Gate { gate, control_bits }
    }

    /// A gate with the same base gate and the same control qubits.
    pub fn copy(&self) -> (r: Gate)
        ensures
            r.base() == self.base(),
            r.controls() == self.controls(),
    {
        Gate { gate: self.gate, control_bits: qbits_to_vec(self.control_bits.as_slice()) }
    }

    pub fn get_control_bits(&self) -> (r: &Vec<u8>)
        ensures
            r@ == self.controls(),
    {
        &self.control_bits
    }

    pub fn get_gate(&self) -> (r: BaseGate)
        ensures
            r == self.base(),
    {
        self.gate
    }

    /// The largest qubit index that this gate touches, controls included.
    pub fn max_qbit_idx(&self) -> (r: u8)
        ensures
            r == self.spec_max_qbit_idx(),
    {
        let t = self.gate.max_qbit_idx();
        let mut m: u8 = 0;
        let mut i: usize = 0;
        while i < self.control_bits.len()
            invariant
                i <= self.control_bits@.len(),
                m == seq_max(self.control_bits@.subrange(0, i as int)),
            decreases self.control_bits@.len() - i,
        {
            assert(self.control_bits@.subrange(0, i + 1).drop_last() =~= self.control_bits@.subrange(0, i as int));
            if self.control_bits[i] >= m {
                m = self.control_bits[i];
            }
            i = i + 1;
        }
        assert(self.control_bits@.subrange(0, i as int) =~= self.control_bits@);
        if m >= t {
            m
        } else {
            t
        }
    }

    /// Succeeds when every qubit of this gate is below `nb_qbits` and no qubit is
    /// used twice; otherwise reports the first offending index.
    pub fn check_validity(&self, nb_qbits: u8) -> (r: Result<(), ValidityError>)
        ensures
            r == involved_check(self.involved(), nb_qbits),
    {
        let qbit_indices = self.gate.get_involved_qbits(self.control_bits.as_slice());
        let ghost s = qbit_indices@;
        assert(s == self.involved());
        let n = qbit_indices.len();
        let mut k: usize = 0;
        while k < n
            invariant
                n == s.len(),
                s == qbit_indices@,
                s == self.involved(),
                k <= n,
                forall|j: int| 0 <= j < k ==> #[trigger] s[j] < nb_qbits,
            decreases n - k,
        {
            if qbit_indices[k] >= nb_qbits {
                assert(first_too_high_at(s, nb_qbits, k as int));
                proof {
                    let c = choose|c: int| first_too_high_at(s, nb_qbits, c);
                    assert(c == k) by {
                        if c < k {
                            assert(s[c] < nb_qbits);
                        }
                        if k < c {
                            assert(s[k as int] < nb_qbits);
                        }
                    }
                }
                return Err(ValidityError::IndexTooHigh(qbit_indices[k]));
            }
            k = k + 1;
        }
        assert(!exists|c: int| first_too_high_at(s, nb_qbits, c));
        let r = check_for_no_duplicate(&qbit_indices);
        proof {
            if r is Err {
                let i = choose|i: int| first_duplicate_at(s, i) && r == Err::<(), ValidityError>(ValidityError::DuplicateQbit(s[i]));
                let c = choose|c: int| first_duplicate_at(s, c);
                lemma_first_duplicate_unique(s, i, c);
            } else {
                if exists|i: int| first_duplicate_at(s, i) {
                    let i = choose|i: int| first_duplicate_at(s, i);
                    let j = choose|j: int| i < j < s.len() && #[trigger] s[j] == s[i];
                    assert(s[i] != s[j]);
                }
            }
        }
        match r {
            Ok(_) => Ok(()),
            Err(e) => Err(e),
        }
    }
}

} // verus!
