//! Reverse complement of a DNA string.
use vstd::prelude::*;
use crate::text::push_char;

verus! {

/// The complementary DNA base; any other character is kept.
pub open spec fn complement(c: char) -> char {
    match c {
        'A' => 'T',
        'T' => 'A',
        'C' => 'G',
        'G' => 'C',
        other => other,
    }
}

/// The reverse complement of a DNA string.
pub open spec fn reverse_complement_of(dna: Seq<char>) -> Seq<char> {
    Seq::new(dna.len(), |i: int| complement(dna[dna.len() - 1 - i]))
}

/// Reverses a DNA string and replaces each base with its complement.
pub fn reverse_complement(input_dna: &str) -> (r: String)
    ensures
        r@ == reverse_complement_of(input_dna@),
{
    let n = input_dna.unicode_len();
    let mut output = String::new();
    let mut i: usize = 0;
    while i < n
        invariant
            n == input_dna@.len(),
            i <= n,
            output@ == reverse_complement_of(input_dna@).subrange(0, i as int),
        decreases n - i,
    {
        let nucleotide = input_dna.get_char(n - 1 - i);
        let next_char = match nucleotide {
            'A' => 'T',
            'T' => 'A',
            'C' => 'G',
            'G' => 'C',
            other => other,
        };
        push_char(&mut output, next_char);
        proof {
            assert(output@ =~= reverse_complement_of(input_dna@).subrange(0, i + 1));
        }
        i = i + 1;
    }
    proof {
        assert(output@ =~= reverse_complement_of(input_dna@));
    }
    output
}

} // verus!
