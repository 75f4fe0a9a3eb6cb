use vstd::prelude::*;
use vstd::arithmetic::power2::pow2;

verus! {

/// Bit position, counted from the least significant bit, that holds qubit `qbit`
/// in a basis index of a register of `nb_qbits` qubits (qubit 0 is the most
/// significant bit).
pub open spec fn bit_position(nb_qbits: u8, qbit: u8) -> usize {
    (nb_qbits - 1 - qbit) as usize
}

/// The single-bit mask of qubit `qbit`.
pub open spec fn mask_of(nb_qbits: u8, qbit: u8) -> usize {
    1usize << bit_position(nb_qbits, qbit)
}

/// Qubit `qbit` is 1 in basis index `i`.
pub open spec fn qbit_is_one(nb_qbits: u8, qbit: u8, i: usize) -> bool {
    (i & mask_of(nb_qbits, qbit)) != 0
}

/// Every control qubit is 1 in basis index `i` (true for an empty control set).
pub open spec fn controls_hold(nb_qbits: u8, controls: Seq<u8>, i: usize) -> bool {
    forall|k: int| 0 <= k < controls.len() ==> #[trigger] qbit_is_one(nb_qbits, controls[k], i)
}

/// A register size whose basis indices fit in a `usize`.
pub open spec fn fits(nb_qbits: u8) -> bool {
    1 <= nb_qbits && (nb_qbits as u32) < usize::BITS
}

/// All the given qubits belong to a register of `nb_qbits` qubits.
pub open spec fn all_below(qbits: Seq<u8>, nb_qbits: u8) -> bool {
    forall|k: int| 0 <= k < qbits.len() ==> #[trigger] qbits[k] < nb_qbits
}

/// Number of basis indices of a register of `nb_qbits` qubits.
pub open spec fn dimension(nb_qbits: u8) -> nat {
    pow2(nb_qbits as nat)
}

/// `2^pow`: the number of amplitudes of a state over `pow` qubits.
pub fn power_of_two(pow: u8) -> (r: usize)
    requires
        (pow as u32) < usize::BITS,
    ensures
        r == pow2(pow as nat),
        r == 1usize << pow,
{
    proof {
        vstd::bits::lemma_usize_pow2_no_overflow(pow as nat);
        vstd::bits::lemma_usize_shl_is_mul(1, pow as usize);
    }
    1usize << pow
}

/// The mask `2^(nb_qbits - 1 - qbit_idx)` of one qubit.
pub fn mask(nb_qbits: u8, qbit_idx: u8) -> (r: usize)
    requires
        fits(nb_qbits),
        qbit_idx < nb_qbits,
    ensures
        r == mask_of(nb_qbits, qbit_idx),
        r == pow2(bit_position(nb_qbits, qbit_idx) as nat),
{
    power_of_two(nb_qbits - 1 - qbit_idx)
}

pub proof fn lemma_and_or(i: usize, a: usize, b: usize)
    ensures
        (i & (a | b)) == (a | b) <==> ((i & a) == a && (i & b) == b),
{
    assert((i & (a | b)) == (a | b) <==> ((i & a) == a && (i & b) == b)) by (bit_vector);
}

pub proof fn lemma_single_bit(i: usize, s: usize)
    requires
        s < usize::BITS,
    ensures
        (i & (1usize << s)) == (1usize << s) <==> (i & (1usize << s)) != 0,
{
    assert((i & (1usize << s)) == (1usize << s) <==> (i & (1usize << s)) != 0) by (bit_vector)
        requires
            s < usize::BITS,
    ;
}

pub proof fn lemma_and_zero(i: usize)
    ensures
        (i & 0usize) == 0usize,
{
    assert((i & 0usize) == 0usize) by (bit_vector);
}

/// Flipping one bit below `n` keeps an index below `2^n`.
pub proof fn lemma_flip_in_range(i: usize, s: usize, n: usize)
    requires
        s < n,
        n < usize::BITS,
        i < (1usize << n),
    ensures
        (i ^ (1usize << s)) < (1usize << n),
        (i ^ (1usize << s)) ^ (1usize << s) == i,
        ((i ^ (1usize << s)) & (1usize << s) != 0) <==> ((i & (1usize << s)) == 0),
{
    assert((i ^ (1usize << s)) < (1usize << n)) by (bit_vector)
        requires
            s < n,
            n < usize::BITS,
            i < (1usize << n),
    ;
    assert((i ^ (1usize << s)) ^ (1usize << s) == i) by (bit_vector);
    assert(((i ^ (1usize << s)) & (1usize << s) != 0) <==> ((i & (1usize << s)) == 0)) by (bit_vector)
        requires
            s < usize::BITS,
    ;
}

/// Flipping bit `s` leaves every other bit `t` as it was.
pub proof fn lemma_flip_keeps_other(i: usize, s: usize, t: usize)
    requires
        s < usize::BITS,
        t < usize::BITS,
        s != t,
    ensures
        ((i ^ (1usize << s)) & (1usize << t) != 0) <==> ((i & (1usize << t)) != 0),
{
    assert(((i ^ (1usize << s)) & (1usize << t) != 0) <==> ((i & (1usize << t)) != 0)) by (bit_vector)
        requires
            s < usize::BITS,
            t < usize::BITS,
            s != t,
    ;
}

/// The bitwise OR of the masks of the given qubits. An index `i` has all of
/// them set, `(i & r) == r`, exactly when every control qubit is 1 in `i`.
pub fn control_mask(nb_qbits: u8, control_qbits: &[u8]) -> (r: usize)
    requires
        fits(nb_qbits),
        all_below(control_qbits@, nb_qbits),
    ensures
        forall|i: usize| ((i & r) == r) <==> controls_hold(nb_qbits, control_qbits@, i),
{
    let mut result: usize = 0;
    let mut j: usize = 0;
    proof {
        assert forall|i: usize| ((i & result) == result) by {
            lemma_and_zero(i);
        }
    }
    while j < control_qbits.len()
        invariant
            fits(nb_qbits),
            all_below(control_qbits@, nb_qbits),
            j <= control_qbits@.len(),
            forall|i: usize|
                ((i & result) == result) <==> (forall|k: int|
                    0 <= k < j ==> #[trigger] qbit_is_one(nb_qbits, control_qbits@[k], i)),
        decreases control_qbits@.len() - j,
    {
        let q = control_qbits[j];
        let m = mask(nb_qbits, q);
        let ghost old_result = result;
        result = result | m;
        proof {
            assert forall|i: usize|
                ((i & result) == result) <==> (forall|k: int|
                    0 <= k < j + 1 ==> #[trigger] qbit_is_one(nb_qbits, control_qbits@[k], i)) by {
                lemma_and_or(i, old_result, m);
                lemma_single_bit(i, bit_position(nb_qbits, q));
                if (forall|k: int| 0 <= k < j + 1 ==> #[trigger] qbit_is_one(nb_qbits, control_qbits@[k], i)) {
                    assert(qbit_is_one(nb_qbits, control_qbits@[j as int], i));
                }
            }
        }
        j = j + 1;
    }
    result
}

} // verus!

verus! {

/// `2^nb_qbits` is the shift `1 << nb_qbits`, and fits a `usize`.
pub proof fn lemma_dimension(nb_qbits: u8)
    requires
        fits(nb_qbits),
    ensures
        dimension(nb_qbits) == (1usize << (nb_qbits as usize)),
        dimension(nb_qbits) <= usize::MAX,
{
    vstd::bits::lemma_usize_pow2_no_overflow(nb_qbits as nat);
    vstd::bits::lemma_usize_shl_is_mul(1, nb_qbits as usize);
}

/// Flipping the bit of a qubit keeps a basis index in range and is undone by flipping it again.
pub proof fn lemma_flip_qbit(nb_qbits: u8, qbit: u8, i: usize)
    requires
        fits(nb_qbits),
        qbit < nb_qbits,
        i < dimension(nb_qbits),
    ensures
        (i ^ mask_of(nb_qbits, qbit)) < dimension(nb_qbits),
        (i ^ mask_of(nb_qbits, qbit)) ^ mask_of(nb_qbits, qbit) == i,
        qbit_is_one(nb_qbits, qbit, i ^ mask_of(nb_qbits, qbit)) <==> !qbit_is_one(nb_qbits, qbit, i),
{
    lemma_dimension(nb_qbits);
    lemma_flip_in_range(i, bit_position(nb_qbits, qbit), nb_qbits as usize);
}

/// Flipping the bit of a qubit that is not a control keeps the controls as they were.
pub proof fn lemma_flip_keeps_controls(nb_qbits: u8, controls: Seq<u8>, qbit: u8, i: usize)
    requires
        fits(nb_qbits),
        all_below(controls, nb_qbits),
        qbit < nb_qbits,
        !controls.contains(qbit),
    ensures
        controls_hold(nb_qbits, controls, i ^ mask_of(nb_qbits, qbit)) <==> controls_hold(nb_qbits, controls, i),
{
    assert forall|k: int| 0 <= k < controls.len() implies #[trigger] qbit_is_one(nb_qbits, controls[k], i ^ mask_of(nb_qbits, qbit))
        <==> qbit_is_one(nb_qbits, controls[k], i) by {
        assert(controls[k] != qbit);
        lemma_flip_keeps_other(i, bit_position(nb_qbits, qbit), bit_position(nb_qbits, controls[k]));
    }
    if controls_hold(nb_qbits, controls, i) {
        assert forall|k: int| 0 <= k < controls.len() implies #[trigger] qbit_is_one(nb_qbits, controls[k], i ^ mask_of(nb_qbits, qbit)) by {
            assert(qbit_is_one(nb_qbits, controls[k], i));
        }
    }
    if controls_hold(nb_qbits, controls, i ^ mask_of(nb_qbits, qbit)) {
        assert forall|k: int| 0 <= k < controls.len() implies #[trigger] qbit_is_one(nb_qbits, controls[k], i) by {
            assert(qbit_is_one(nb_qbits, controls[k], i ^ mask_of(nb_qbits, qbit)));
        }
    }
}

} // verus!

verus! {

/// A vector holding the given qubit indices, in order.
pub fn qbits_to_vec(s: &[u8]) -> (r: Vec<u8>)
    ensures
        r@ == s@,
{
    let mut r: Vec<u8> = Vec::with_capacity(s.len());
    let mut i: usize = 0;
    while i < s.len()
        invariant
            i <= s@.len(),
            r@ == s@.subrange(0, i as int),
        decreases s@.len() - i,
    {
        r.push(s[i]);
        i = i + 1;
        assert(r@ =~= s@.subrange(0, i as int));
    }
    assert(r@ =~= s@);
    r
}

} // verus!
