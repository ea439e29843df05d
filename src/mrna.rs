//! How many RNA strings could encode a protein, modulo one million.
use vstd::prelude::*;

verus! {

/// The modulus that keeps the count of RNA strings small.
pub const MODULUS: u64 = 1000000;

/// How many codons encode an amino acid; an unknown letter counts as one.
pub open spec fn codons_for(aa: char) -> u64 {
    match aa {
        'F' | 'Y' | 'C' | 'H' | 'Q' | 'N' | 'K' | 'D' | 'E' => 2,
        'L' | 'S' | 'R' => 6,
        'P' | 'T' | 'V' | 'A' | 'G' => 4,
        'I' => 3,
        _ => 1,
    }
}

/// The number of RNA strings, modulo one million, that translate to the
/// amino acids of `s` (stop codon not counted).
pub open spec fn rna_strings_mod(s: Seq<char>) -> nat
    decreases s.len(),
{
    if s.len() == 0 {
        1
    } else {
        (rna_strings_mod(s.drop_last()) * codons_for(s.last()) as nat) % (MODULUS as nat)
    }
}

/// The number of codons that encode an amino acid.
pub fn aa_to_n_rna_strings(aa: &char) -> (r: u64)
    ensures
        r == codons_for(*aa),
        1 <= r <= 6,
{
    match *aa {
        'F' | 'Y' | 'C' | 'H' | 'Q' | 'N' | 'K' | 'D' | 'E' => 2,
        'L' | 'S' | 'R' => 6,
        'P' | 'T' | 'V' | 'A' | 'G' => 4,
        'I' => 3,
        _ => 1,
    }
}

/// The number of RNA strings, modulo one million, from which a protein could
/// have been translated, counting the three stop codons.
pub fn compute_mrna_permutations_for_protein(protein: &String) -> (r: u64)
    ensures
        r == (rna_strings_mod(protein@) * 3) % (MODULUS as nat),
{
    let s = protein.as_str();
    let n = s.unicode_len();
    let mut acc: u64 = 1;
    let mut i: usize = 0;
    while i < n
        invariant
            n == protein@.len(),
            s@ == protein@,
            i <= n,
            acc == rna_strings_mod(protein@.subrange(0, i as int)),
            acc < MODULUS,
        decreases n - i,
    {
        proof {
            assert(protein@.subrange(0, i + 1).drop_last() =~= protein@.subrange(0, i as int));
        }
        let c = s.get_char(i);
        let k = aa_to_n_rna_strings(&c);
        acc = (acc * k) % MODULUS;
        i = i + 1;
    }
    proof {
        assert(protein@.subrange(0, n as int) =~= protein@);
    }
    (acc * 3) % MODULUS
}

} // verus!
