//! Transcription of DNA into RNA.
use vstd::prelude::*;
use crate::text::push_char;

verus! {

/// The RNA base that stands for a DNA base: thymine becomes uracil, every
/// other character is kept.
pub open spec fn rna_base(c: char) -> char {
    if c == 'T' { 'U' } else { c }
}

/// The RNA transcript of a DNA string, character by character.
pub open spec fn rna_of(dna: Seq<char>) -> Seq<char> {
    dna.map_values(|c: char| rna_base(c))
}

/// Transcribes DNA into RNA by replacing each `T` with `U`.
pub fn transcribe_to_rna(input_dna: &str) -> (rna: String)
    ensures
        rna@ == rna_of(input_dna@),
{
    let n = input_dna.unicode_len();
    let mut rna = String::new();
    let mut i: usize = 0;
    while i < n
        invariant
            n == input_dna@.len(),
            i <= n,
            rna@ == rna_of(input_dna@.subrange(0, i as int)),
        decreases n - i,
    {
        let c = input_dna.get_char(i);
        let next_char = if c == 'T' { 'U' } else { c };
        push_char(&mut rna, next_char);
        proof {
            assert(input_dna@.subrange(0, i + 1) =~= input_dna@.subrange(0, i as int).push(c));
        }
        i = i + 1;
    }
    proof {
        assert(input_dna@.subrange(0, n as int) =~= input_dna@);
    }
    rna
}

} // verus!
