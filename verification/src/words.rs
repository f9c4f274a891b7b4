//! Random words over a fixed alphabet, used as lock values.
use crate::outside::random_below;
use vstd::prelude::*;

verus! {

/// The alphabet of the words that `random_char` draws.
pub const CHARSET: [u8; 73] = [
    'A' as u8, 'B' as u8, 'C' as u8, 'D' as u8, 'E' as u8, 'F' as u8, 'G' as u8, 'H' as u8, 'I' as u8,
    'J' as u8, 'K' as u8, 'L' as u8, 'M' as u8, 'N' as u8, 'O' as u8, 'P' as u8, 'Q' as u8, 'R' as u8,
    'S' as u8, 'T' as u8, 'U' as u8, 'V' as u8, 'W' as u8, 'X' as u8, 'Y' as u8, 'Z' as u8, 'a' as u8,
    'b' as u8, 'c' as u8, 'd' as u8, 'e' as u8, 'f' as u8, 'g' as u8, 'h' as u8, 'i' as u8, 'j' as u8,
    'k' as u8, 'l' as u8, 'm' as u8, 'n' as u8, 'o' as u8, 'p' as u8, 'q' as u8, 'r' as u8, 's' as u8,
    't' as u8, 'u' as u8, 'v' as u8, 'w' as u8, 'x' as u8, 'y' as u8, 'z' as u8, '0' as u8, '1' as u8,
    '2' as u8, '3' as u8, '4' as u8, '5' as u8, '6' as u8, '7' as u8, '8' as u8, '9' as u8, ')' as u8,
    '(' as u8, '*' as u8, '&' as u8, '^' as u8, '%' as u8, '$' as u8, '#' as u8, '@' as u8, '!' as u8,
    '~' as u8,
];

/// The length of a word when none, or zero, is asked for.
pub const DEFAULT_RANDOM_LEN: usize = 20;

/// The length of the word that `random_char(len)` returns.
pub open spec fn word_len(len: Option<usize>) -> nat {
    match len {
        Some(l) => if l > 0 { l as nat } else { DEFAULT_RANDOM_LEN as nat },
        None => DEFAULT_RANDOM_LEN as nat,
    }
}

/// The word spelled by a sequence of positions in the alphabet.
pub open spec fn spelled(draws: Seq<usize>) -> Seq<u8> {
    draws.map_values(|i: usize| CHARSET@[i as int])
}

/// Whether every position is one of the alphabet.
pub open spec fn in_alphabet(draws: Seq<usize>) -> bool {
    forall|k: int| 0 <= k < draws.len() ==> #[trigger] draws[k] < CHARSET@.len()
}

/// Spells the word whose letters sit at the given positions of the alphabet.
pub fn chars_from_draws(draws: &Vec<usize>) -> (words: Vec<u8>)
    requires
        in_alphabet(draws@),
    ensures
        words@ == spelled(draws@),
{
    let mut words: Vec<u8> = Vec::new();
    let mut k: usize = 0;
    while k < draws.len()
        invariant
            k <= draws.len(),
            in_alphabet(draws@),
            words@ == spelled(draws@.take(k as int)),
        decreases draws.len() - k,
    {
        let i: usize = draws[k];
        words.push(CHARSET[i]);
        k = k + 1;
        assert(spelled(draws@.take(k as int)) =~= spelled(draws@.take(k - 1)).push(CHARSET@[i as int]));
    }
    assert(draws@.take(k as int) =~= draws@);
    words
}

/// A random word of `len` letters of `CHARSET` (of `DEFAULT_RANDOM_LEN`
/// letters when `len` is `None` or zero).  Which letters come out is up to
/// the random generator.
pub fn random_char(len: Option<usize>) -> (words: Vec<u8>)
    ensures
        words@.len() == word_len(len),
        exists|draws: Seq<usize>| in_alphabet(draws) && words@ == spelled(draws),
        forall|k: int| 0 <= k < words@.len() ==> CHARSET@.contains(#[trigger] words@[k]),
{
    let length: usize = match len {
        Some(l) => if l > 0 { l } else { DEFAULT_RANDOM_LEN },
        None => DEFAULT_RANDOM_LEN,
    };
    let mut draws: Vec<usize> = Vec::new();
    while draws.len() < length
        invariant
            draws.len() <= length,
            in_alphabet(draws@),
        decreases length - draws.len(),
    {
        let i: usize = random_below(CHARSET.len());
        draws.push(i);
    }
    let words = chars_from_draws(&draws);
    assert forall|k: int| 0 <= k < words@.len() implies CHARSET@.contains(#[trigger] words@[k]) by {
        assert(words@[k] == CHARSET@[draws@[k] as int]);
    }
    words
}

} // verus!
