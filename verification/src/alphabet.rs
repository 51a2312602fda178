//! The fixed, ordered alphabet that search prefixes are drawn from.

use vstd::prelude::*;

verus! {

/// Number of symbols in the alphabet.
pub const LEN: usize = 36;

/// The alphabet in order: the ten digits, then the lowercase Latin letters.
pub open spec fn symbols() -> Seq<char> {
    "0123456789abcdefghijklmnopqrstuvwxyz"@
}

/// Whether `c` is one of the alphabet's symbols.
pub open spec fn is_symbol(c: char) -> bool {
    symbols().contains(c)
}

/// The position of `c` in the alphabet; meaningful only for a symbol.
pub open spec fn index_of(c: char) -> int {
    choose|i: int| 0 <= i < symbols().len() && symbols()[i] == c
}

/// Code point of the symbol at position `i`.
pub open spec fn code_at(i: int) -> int {
    if i < 10 {
        48 + i
    } else {
        87 + i
    }
}

/// The alphabet has exactly `LEN` symbols, and the one at position `i` has
/// code point `code_at(i)`.
pub proof fn lemma_symbols_layout()
    ensures
        symbols().len() == LEN,
        forall|i: int| 0 <= i < 36 ==> (#[trigger] symbols()[i]) as int == code_at(i),
{
    reveal_strlit("0123456789abcdefghijklmnopqrstuvwxyz");
}

/// No symbol occurs twice in the alphabet.
pub proof fn lemma_symbols_distinct()
    ensures
        forall|i: int, j: int|
            0 <= i < 36 && 0 <= j < 36 && i != j ==> #[trigger] symbols()[i] != #[trigger] symbols()[j],
{
    lemma_symbols_layout();
}

/// `index_of` inverts indexing, and indexing inverts `index_of` on symbols.
pub proof fn lemma_index_of(c: char)
    requires
        is_symbol(c),
    ensures
        0 <= index_of(c) < 36,
        symbols()[index_of(c)] == c,
        forall|i: int| 0 <= i < 36 && symbols()[i] == c ==> i == index_of(c),
{
    lemma_symbols_layout();
    let w = choose|i: int| 0 <= i < symbols().len() && symbols()[i] == c;
    assert(0 <= w < symbols().len() && symbols()[w] == c);
    lemma_symbols_distinct();
}

/// The symbol at position `i`.
pub fn symbol_at(i: usize) -> (c: char)
    requires
        i < LEN,
    ensures
        c == symbols()[i as int],
        is_symbol(c),
{
    proof {
        lemma_symbols_layout();
    }
    let code: u8 = if i < 10 {
        48u8 + (i as u8)
    } else {
        87u8 + (i as u8)
    };
    let c = code as char;
    assert(c as int == code_at(i as int));
    assert(symbols()[i as int] as int == code_at(i as int));
    c
}

/// Finds `c` in the alphabet: its position, or `None` when it is no symbol.
pub fn position(c: char) -> (r: Option<usize>)
    ensures
        is_symbol(c) <==> r is Some,
        r matches Some(i) ==> i < LEN && symbols()[i as int] == c && i == index_of(c),
{
    proof {
        lemma_symbols_layout();
    }
    let mut i: usize = 0;
    while i < LEN
        invariant
            i <= LEN,
            symbols().len() == LEN,
            forall|j: int| 0 <= j < i ==> symbols()[j] != c,
        decreases LEN - i,
    {
        if symbol_at(i) == c {
            proof {
                lemma_index_of(c);
            }
            return Some(i);
        }
        i += 1;
    }
    None
}

} // verus!
