//! The cyclic cursor: one step forward in the alphabet, wrapping at the end.

use crate::alphabet::{
    index_of, is_symbol, lemma_index_of, lemma_symbols_layout, position, symbol_at, symbols, LEN,
};
use vstd::prelude::*;

verus! {

/// The symbol one step after `c`, wrapping from the last symbol to the first.
pub open spec fn advanced(c: char) -> char {
    symbols()[(index_of(c) + 1) % 36]
}

/// The symbol `steps` steps after `c`.
pub open spec fn advanced_by(c: char, steps: nat) -> char
    decreases steps,
{
    if steps == 0 {
        c
    } else {
        advanced(advanced_by(c, (steps - 1) as nat))
    }
}

/// A step from a symbol lands on a symbol, one position further on.
pub proof fn lemma_advanced(c: char)
    requires
        is_symbol(c),
    ensures
        is_symbol(advanced(c)),
        index_of(advanced(c)) == (index_of(c) + 1) % 36,
{
    lemma_symbols_layout();
    lemma_index_of(c);
    let k = (index_of(c) + 1) % 36;
    assert(symbols()[k] == advanced(c));
    lemma_index_of(advanced(c));
}

/// `steps` steps from a symbol land on the symbol `steps` positions further
/// on, counted around the cycle.
pub proof fn lemma_advanced_by(c: char, steps: nat)
    requires
        is_symbol(c),
    ensures
        is_symbol(advanced_by(c, steps)),
        index_of(advanced_by(c, steps)) == (index_of(c) + steps) % 36,
    decreases steps,
{
    lemma_index_of(c);
    if steps > 0 {
        let before = advanced_by(c, (steps - 1) as nat);
        lemma_advanced_by(c, (steps - 1) as nat);
        lemma_advanced(before);
    }
}

/// The cursor is cyclic: as many steps as the alphabet has symbols lead back
/// to the symbol they started from.
pub proof fn lemma_full_cycle(c: char)
    requires
        is_symbol(c),
    ensures
        advanced_by(c, 36) == c,
{
    lemma_advanced_by(c, 36);
    lemma_index_of(c);
    lemma_index_of(advanced_by(c, 36));
}

/// The cycle is no shorter than the alphabet: fewer steps, but at least one,
/// never lead back to the symbol they started from.
pub proof fn lemma_no_shorter_cycle(c: char, steps: nat)
    requires
        is_symbol(c),
        0 < steps < 36,
    ensures
        advanced_by(c, steps) != c,
{
    lemma_advanced_by(c, steps);
    lemma_index_of(c);
}

/// Moves the cursor one step forward.
pub fn advance(offset: char) -> (next: char)
    requires
        is_symbol(offset),
    ensures
        next == advanced(offset),
        is_symbol(next),
{
    proof {
        lemma_advanced(offset);
    }
    match position(offset) {
        Some(index) => symbol_at((index + 1) % LEN),
        None => offset,
    }
}

} // verus!
