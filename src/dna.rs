//! Counting the bases of a DNA string.
use vstd::prelude::*;

verus! {

/// How many times `x` occurs in `s`.
pub open spec fn occurrences(s: Seq<char>, x: char) -> nat
    decreases s.len(),
{
    if s.len() == 0 {
        0
    } else {
        occurrences(s.drop_last(), x) + if s.last() == x { 1nat } else { 0nat }
    }
}

proof fn lemma_occurrences_bound(s: Seq<char>, x: char)
    ensures
        occurrences(s, x) <= s.len(),
    decreases s.len(),
{
    if s.len() > 0 {
        lemma_occurrences_bound(s.drop_last(), x);
    }
}

/// How many times each DNA base occurs in a string.
#[derive(Debug, Clone, Copy, PartialEq, Eq)]
pub struct NucleotideCount {
    pub a: u32,
    pub c: u32,
    pub g: u32,
    pub t: u32,
}

/// Counts the bases `A`, `C`, `G` and `T` of a DNA string; other characters are
/// ignored.
pub fn count(input_dna: &str) -> (r: NucleotideCount)
    requires
        input_dna@.len() <= u32::MAX,
    ensures
        r.a == occurrences(input_dna@, 'A'),
        r.c == occurrences(input_dna@, 'C'),
        r.g == occurrences(input_dna@, 'G'),
        r.t == occurrences(input_dna@, 'T'),
{
    let n = input_dna.unicode_len();
    let (mut a, mut c, mut g, mut t): (u32, u32, u32, u32) = (0, 0, 0, 0);
    let mut i: usize = 0;
    while i < n
        invariant
            n == input_dna@.len(),
            n <= u32::MAX,
            i <= n,
            a == occurrences(input_dna@.subrange(0, i as int), 'A'),
            c == occurrences(input_dna@.subrange(0, i as int), 'C'),
            g == occurrences(input_dna@.subrange(0, i as int), 'G'),
            t == occurrences(input_dna@.subrange(0, i as int), 'T'),
        decreases n - i,
    {
        let ghost prefix = input_dna@.subrange(0, i as int);
        proof {
            assert(input_dna@.subrange(0, i + 1).drop_last() =~= prefix);
            lemma_occurrences_bound(prefix, 'A');
            lemma_occurrences_bound(prefix, 'C');
            lemma_occurrences_bound(prefix, 'G');
            lemma_occurrences_bound(prefix, 'T');
        }
        match input_dna.get_char(i) {
            'A' => a = a + 1,
            'C' => c = c + 1,
            'G' => g = g + 1,
            'T' => t = t + 1,
            _ => {},
        }
        i = i + 1;
    }
    proof {
        assert(input_dna@.subrange(0, n as int) =~= input_dna@);
    }
    NucleotideCount { a, c, g, t }
}

} // verus!
