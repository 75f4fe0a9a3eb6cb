use vstd::prelude::*;

use crate::gate_op::{is_mix, phase_times, Gaussian, Phase, Row};

verus! {

/// `f(0) + ... + f(k - 1)`.
pub open spec fn sum_to(f: spec_fn(int) -> int, k: int) -> int
    decreases k,
{
    if k <= 0 {
        0
    } else {
        sum_to(f, k - 1) + f(k - 1)
    }
}

/// The sum over indices whose bit `m` is clear of `f(i) + f(i ^ m)`: each pair of
/// indices that differ in bit `m` counted once.
pub open spec fn paired(f: spec_fn(int) -> int, m: usize) -> spec_fn(int) -> int {
    |i: int| if ((i as usize) & m) == 0 { f(i) + f(((i as usize) ^ m) as int) } else { 0 }
}

pub proof fn lemma_sum_ext(f: spec_fn(int) -> int, g: spec_fn(int) -> int, k: int)
    requires
        forall|i: int| 0 <= i < k ==> #[trigger] f(i) == g(i),
    ensures
        sum_to(f, k) == sum_to(g, k),
    decreases k,
{
    if k > 0 {
        lemma_sum_ext(f, g, k - 1);
    }
}

/// Sum of `f` over `[a, a + len)`.
pub open spec fn sum_range(f: spec_fn(int) -> int, a: int, len: int) -> int
    decreases len,
{
    if len <= 0 {
        0
    } else {
        sum_range(f, a, len - 1) + f(a + len - 1)
    }
}

proof fn lemma_sum_to_split(f: spec_fn(int) -> int, k: int, len: int)
    requires
        0 <= k,
        0 <= len,
    ensures
        sum_to(f, k + len) == sum_to(f, k) + sum_range(f, k, len),
    decreases len,
{
    if len > 0 {
        lemma_sum_to_split(f, k, len - 1);
    }
}

proof fn lemma_sum_range_split(f: spec_fn(int) -> int, a: int, l1: int, l2: int)
    requires
        0 <= l1,
        0 <= l2,
    ensures
        sum_range(f, a, l1 + l2) == sum_range(f, a, l1) + sum_range(f, a + l1, l2),
    decreases l2,
{
    if l2 > 0 {
        lemma_sum_range_split(f, a, l1, l2 - 1);
    }
}

proof fn lemma_sum_range_ext(f: spec_fn(int) -> int, a: int, g: spec_fn(int) -> int, b: int, len: int)
    requires
        0 <= len,
        forall|j: int| 0 <= j < len ==> #[trigger] f(a + j) == g(b + j),
    ensures
        sum_range(f, a, len) == sum_range(g, b, len),
    decreases len,
{
    if len > 0 {
        assert(f(a + (len - 1)) == g(b + (len - 1)));
        lemma_sum_range_ext(f, a, g, b, len - 1);
    }
}

proof fn lemma_sum_range_zero(f: spec_fn(int) -> int, a: int, len: int)
    requires
        0 <= len,
        forall|j: int| 0 <= j < len ==> #[trigger] f(a + j) == 0,
    ensures
        sum_range(f, a, len) == 0,
    decreases len,
{
    if len > 0 {
        assert(f(a + (len - 1)) == 0);
        lemma_sum_range_zero(f, a, len - 1);
    }
}

proof fn lemma_sum_range_add(f: spec_fn(int) -> int, g: spec_fn(int) -> int, h: spec_fn(int) -> int, a: int, b: int, c: int, len: int)
    requires
        0 <= len,
        forall|j: int| 0 <= j < len ==> #[trigger] h(c + j) == f(a + j) + g(b + j),
    ensures
        sum_range(h, c, len) == sum_range(f, a, len) + sum_range(g, b, len),
    decreases len,
{
    if len > 0 {
        assert(h(c + (len - 1)) == f(a + (len - 1)) + g(b + (len - 1)));
        lemma_sum_range_add(f, g, h, a, b, c, len - 1);
    }
}

proof fn lemma_block_bits(k: usize, j: usize, s: usize, n: usize)
    requires
        s < n,
        n < usize::BITS,
        k & (((2usize << s) - 1) as usize) == 0,
        k <= ((1usize << n) - (2usize << s)) as usize,
    ensures
        j < (1usize << s) ==> ((k + j) as usize & (1usize << s)) == 0 && ((k + j) as usize ^ (1usize << s)) == (k + j + (1usize << s)) as usize,
        (1usize << s) <= j < (2usize << s) ==> ((k + j) as usize & (1usize << s)) != 0,
{
    assert(j < (1usize << s) ==> ((k + j) as usize & (1usize << s)) == 0 && ((k + j) as usize ^ (1usize << s)) == (k + j + (1usize << s)) as usize)
        by (bit_vector)
        requires
            s < n,
            n < usize::BITS,
            k & (((2usize << s) - 1) as usize) == 0,
            k <= ((1usize << n) - (2usize << s)) as usize,
    ;
    assert((1usize << s) <= j < (2usize << s) ==> ((k + j) as usize & (1usize << s)) != 0) by (bit_vector)
        requires
            s < n,
            n < usize::BITS,
            k & (((2usize << s) - 1) as usize) == 0,
            k <= ((1usize << n) - (2usize << s)) as usize,
    ;
}

proof fn lemma_block_step(k: usize, s: usize, n: usize)
    requires
        s < n,
        n < usize::BITS,
        k & (((2usize << s) - 1) as usize) == 0,
        k <= (1usize << n),
        k > 0,
    ensures
        k >= (2usize << s),
        (2usize << s) > 0,
        ((k - (2usize << s)) as usize) & (((2usize << s) - 1) as usize) == 0,
        ((k - (2usize << s)) as usize) <= ((1usize << n) - (2usize << s)) as usize,
        (1usize << s) + (1usize << s) == (2usize << s),
{
    assert((2usize << s) > 0) by (bit_vector)
        requires
            s < n,
            n < usize::BITS,
    ;
    assert(k >= (2usize << s)) by (bit_vector)
        requires
            s < n,
            n < usize::BITS,
            k & (((2usize << s) - 1) as usize) == 0,
            k > 0,
    ;
    assert(((k - (2usize << s)) as usize) & (((2usize << s) - 1) as usize) == 0) by (bit_vector)
        requires
            s < n,
            n < usize::BITS,
            k & (((2usize << s) - 1) as usize) == 0,
            k >= (2usize << s),
    ;
    assert(((k - (2usize << s)) as usize) <= ((1usize << n) - (2usize << s)) as usize) by (bit_vector)
        requires
            s < n,
            n < usize::BITS,
            k <= (1usize << n),
            k >= (2usize << s),
    ;
    assert((1usize << s) + (1usize << s) == (2usize << s)) by (bit_vector)
        requires
            s < n,
            n < usize::BITS,
    ;
}

/// Summing `f` over `[0, k)` equals summing its pairing over bit `m = 2^s`,
/// for `k` a multiple of `2m`.
proof fn lemma_pairing_blocks(f: spec_fn(int) -> int, s: usize, n: usize, k: usize)
    requires
        s < n,
        n < usize::BITS,
        k & (((2usize << s) - 1) as usize) == 0,
        k <= (1usize << n),
    ensures
        sum_to(f, k as int) == sum_to(paired(f, 1usize << s), k as int),
    decreases k,
{
    if k > 0 {
        lemma_block_step(k, s, n);
        let m = 1usize << s;
        let b = 2usize << s;
        let k0 = (k - b) as usize;
        lemma_pairing_blocks(f, s, n, k0);
        let h = paired(f, m);
        lemma_sum_to_split(f, k0 as int, b as int);
        lemma_sum_to_split(h, k0 as int, b as int);
        lemma_sum_range_split(f, k0 as int, m as int, m as int);
        lemma_sum_range_split(h, k0 as int, m as int, m as int);
        assert forall|j: int| 0 <= j < m implies #[trigger] h(k0 + j) == f(k0 + j) + f(k0 + m + j) by {
            lemma_block_bits(k0, j as usize, s, n);
        }
        lemma_sum_range_add(f, f, h, k0 as int, k0 + m, k0 as int, m as int);
        assert forall|j: int| 0 <= j < m implies #[trigger] h(k0 + m + j) == 0 by {
            lemma_block_bits(k0, (m + j) as usize, s, n);
        }
        lemma_sum_range_zero(h, k0 + m, m as int);
    }
}

/// Summing `f` over the `2^n` basis indices equals summing its pairing over any
/// bit `m = 2^s` with `s < n`.
pub proof fn lemma_pairing(f: spec_fn(int) -> int, s: usize, n: usize)
    requires
        s < n,
        n < usize::BITS,
    ensures
        sum_to(f, (1usize << n) as int) == sum_to(paired(f, 1usize << s), (1usize << n) as int),
{
    assert((1usize << n) & (((2usize << s) - 1) as usize) == 0) by (bit_vector)
        requires
            s < n,
            n < usize::BITS,
    ;
    lemma_pairing_blocks(f, s, n, 1usize << n);
}

} // verus!

verus! {

/// Squared magnitude of an exact complex number.
pub open spec fn norm2(z: Gaussian) -> int {
    z.0 * z.0 + z.1 * z.1
}

/// Total squared magnitude of exact amplitudes: the probability mass, times
/// whatever scale the amplitudes carry.
pub open spec fn energy(v: Seq<Gaussian>) -> int {
    sum_to(|i: int| norm2(v[i]), v.len() as int)
}

/// Twice the squared magnitude of the output of a transform: a `Mix` row's value
/// leaves out a factor `1/sqrt(2)`, so its squared magnitude counts once, and
/// that of a `Single` row counts twice.
pub open spec fn output_energy(rows: Seq<Row>, w: Seq<Gaussian>) -> int {
    sum_to(|i: int| if is_mix(rows[i]) { norm2(w[i]) } else { 2 * norm2(w[i]) }, rows.len() as int)
}

pub proof fn lemma_sum_double(f: spec_fn(int) -> int, g: spec_fn(int) -> int, k: int)
    requires
        forall|i: int| 0 <= i < k ==> #[trigger] g(i) == 2 * f(i),
    ensures
        sum_to(g, k) == 2 * sum_to(f, k),
    decreases k,
{
    if k > 0 {
        lemma_sum_double(f, g, k - 1);
    }
}

pub proof fn lemma_phase_norm(p: Phase, z: Gaussian)
    ensures
        norm2(phase_times(p, z)) == norm2(z),
{
    assert((-z.0) * (-z.0) == z.0 * z.0) by (nonlinear_arith);
    assert((-z.1) * (-z.1) == z.1 * z.1) by (nonlinear_arith);
}

pub proof fn lemma_mix_norm(a: Gaussian, b: Gaussian)
    ensures
        norm2((a.0 + b.0, a.1 + b.1)) + norm2((a.0 - b.0, a.1 - b.1)) == 2 * norm2(a) + 2 * norm2(b),
{
    assert((a.0 + b.0) * (a.0 + b.0) + (a.0 - b.0) * (a.0 - b.0) == 2 * (a.0 * a.0) + 2 * (b.0 * b.0)) by (nonlinear_arith);
    assert((a.1 + b.1) * (a.1 + b.1) + (a.1 - b.1) * (a.1 - b.1) == 2 * (a.1 * a.1) + 2 * (b.1 * b.1)) by (nonlinear_arith);
}

} // verus!
