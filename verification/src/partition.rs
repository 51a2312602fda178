//! Where each worker of a fleet starts in the alphabet.
//!
//! Worker `i` of `n` starts at position `floor(i * 36 / n) mod 36`, which
//! spreads the starting points evenly around the cyclic alphabet.

use crate::alphabet::{lemma_symbols_distinct, lemma_symbols_layout, symbol_at, symbols, LEN};
use vstd::prelude::*;

verus! {

/// Alphabet position at which worker `i` of `n` starts.
pub open spec fn start_index(i: nat, n: nat) -> nat {
    ((i * 36) / n) % 36
}

/// Symbol at which worker `i` of `n` starts.
pub open spec fn start_offset(i: nat, n: nat) -> char {
    symbols()[start_index(i, n) as int]
}

/// Distance, walking forward around the alphabet, from the start of worker
/// `i` to the start of the worker after it; the last worker is followed by
/// the first, one full turn later.
pub open spec fn gap(i: nat, n: nat) -> int {
    if i + 1 < n {
        start_index(i + 1, n) - start_index(i, n)
    } else {
        start_index(0, n) + 36 - start_index(i, n)
    }
}

proof fn lemma_quotient_below(i: int, n: int)
    by (nonlinear_arith)
    requires
        0 <= i < n,
    ensures
        0 <= (i * 36) / n < 36,
{
}

proof fn lemma_quotient_step(a: int, n: int)
    by (nonlinear_arith)
    requires
        0 <= a,
        0 < n,
    ensures
        36int / n <= (a + 36) / n - a / n <= 36int / n + 1,
{
}

proof fn lemma_quotient_full(n: int)
    by (nonlinear_arith)
    requires
        0 < n,
    ensures
        (n * 36) / n == 36,
        (0int * 36) / n == 0,
{
}

proof fn lemma_quotient_grows(i: int, j: int, n: int)
    by (nonlinear_arith)
    requires
        0 <= i < j,
        0 < n <= 36,
    ensures
        (i * 36) / n < (j * 36) / n,
{
}

/// Within a fleet the start position is the plain quotient: it never wraps.
pub proof fn lemma_start_index_is_quotient(i: nat, n: nat)
    requires
        i < n,
    ensures
        start_index(i, n) == (i * 36) / n,
        start_index(i, n) < 36,
{
    lemma_quotient_below(i as int, n as int);
}

/// Every start position lies inside the alphabet.
pub proof fn lemma_start_index_in_range(i: nat, n: nat)
    requires
        n >= 1,
    ensures
        start_index(i, n) < 36,
{
}

/// Every gap is the whole part of `36 / n`, or one more.
pub proof fn lemma_gap_bounds(i: nat, n: nat)
    requires
        i < n,
    ensures
        36int / (n as int) <= gap(i, n) <= 36int / (n as int) + 1,
{
    lemma_start_index_is_quotient(i, n);
    lemma_quotient_step((i * 36) as int, n as int);
    assert((i + 1) * 36 == i * 36 + 36);
    if i + 1 < n {
        lemma_start_index_is_quotient(i + 1, n);
    } else {
        lemma_start_index_is_quotient(0, n);
        lemma_quotient_full(n as int);
    }
}

/// The starting points are evenly spaced: any two gaps between neighbouring
/// workers differ by at most one position.
pub proof fn lemma_gaps_even(i: nat, j: nat, n: nat)
    requires
        i < n,
        j < n,
    ensures
        -1 <= gap(i, n) - gap(j, n) <= 1,
{
    lemma_gap_bounds(i, n);
    lemma_gap_bounds(j, n);
}

/// A fleet no larger than the alphabet starts every worker at a different
/// symbol.
pub proof fn lemma_starts_distinct(i: nat, j: nat, n: nat)
    requires
        n <= 36,
        i < n,
        j < n,
        i != j,
    ensures
        start_index(i, n) != start_index(j, n),
        start_offset(i, n) != start_offset(j, n),
{
    lemma_start_index_is_quotient(i, n);
    lemma_start_index_is_quotient(j, n);
    if i < j {
        lemma_quotient_grows(i as int, j as int, n as int);
    } else {
        lemma_quotient_grows(j as int, i as int, n as int);
    }
    lemma_symbols_layout();
    lemma_symbols_distinct();
}

/// Alphabet position at which worker `i` of `n` starts.
pub fn initial_index(i: usize, n: usize) -> (r: usize)
    requires
        n >= 1,
    ensures
        r == start_index(i as nat, n as nat),
        r < LEN,
{
    let scaled: u128 = (i as u128) * 36;
    let quotient: u128 = scaled / (n as u128);
    let wrapped: u128 = quotient % 36;
    wrapped as usize
}

/// Symbol at which worker `i` of `n` starts.
pub fn initial_offset(i: usize, n: usize) -> (c: char)
    requires
        n >= 1,
    ensures
        c == start_offset(i as nat, n as nat),
        symbols().contains(c),
{
    symbol_at(initial_index(i, n))
}

/// The starting symbols of a fleet of `n` workers, in worker order.
pub fn initial_offsets(n: usize) -> (offsets: Vec<char>)
    ensures
        offsets.len() == n,
        forall|i: int| 0 <= i < n ==> #[trigger] offsets[i] == start_offset(i as nat, n as nat),
{
    let mut offsets: Vec<char> = Vec::new();
    let mut i: usize = 0;
    while i < n
        invariant
            i <= n,
            offsets.len() == i,
            forall|k: int| 0 <= k < i ==> #[trigger] offsets[k] == start_offset(k as nat, n as nat),
        decreases n - i,
    {
        offsets.push(initial_offset(i, n));
        i += 1;
    }
    offsets
}

} // verus!
