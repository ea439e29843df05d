//! Translation of RNA into protein by the standard genetic code.
use vstd::prelude::*;
use crate::text::push_char;

verus! {

/// One of the four RNA bases.
pub open spec fn is_base(c: char) -> bool {
    c == 'U' || c == 'C' || c == 'A' || c == 'G'
}

/// The codons that end a protein: `UAA`, `UAG` and `UGA`.
pub open spec fn is_stop(a: char, b: char, c: char) -> bool {
    a == 'U' && ((b == 'A' && (c == 'A' || c == 'G')) || (b == 'G' && c == 'A'))
}

/// The amino acid that a codon of three bases encodes, by the standard genetic
/// code; meaningful only for codons of bases that are not stop codons.
pub open spec fn amino_acid(a: char, b: char, c: char) -> char {
    let pyrimidine = c == 'U' || c == 'C';
    match (a, b) {
        ('U', 'U') => if pyrimidine { 'F' } else { 'L' },
        ('U', 'C') => 'S',
        ('U', 'A') => 'Y',
        ('U', 'G') => if pyrimidine { 'C' } else { 'W' },
        ('C', 'U') => 'L',
        ('C', 'C') => 'P',
        ('C', 'A') => if pyrimidine { 'H' } else { 'Q' },
        ('C', 'G') => 'R',
        ('A', 'U') => if c == 'G' { 'M' } else { 'I' },
        ('A', 'C') => 'T',
        ('A', 'A') => if pyrimidine { 'N' } else { 'K' },
        ('A', 'G') => if pyrimidine { 'S' } else { 'R' },
        ('G', 'U') => 'V',
        ('G', 'C') => 'A',
        ('G', 'A') => if pyrimidine { 'D' } else { 'E' },
        _ => 'G',
    }
}

/// What a codon that is not a stop codon adds to the protein: its amino acid,
/// or, for three characters that are not all bases, an error marker that
/// quotes them.
pub open spec fn codon_text(a: char, b: char, c: char) -> Seq<char> {
    if is_base(a) && is_base(b) && is_base(c) {
        seq![amino_acid(a, b, c)]
    } else {
        "<ERROR:"@ + seq![a, b, c] + ">"@
    }
}

/// The protein that an RNA string encodes: its codons are read three
/// characters at a time from the start, up to the first stop codon or the end.
pub open spec fn protein_of(rna: Seq<char>) -> Seq<char>
    decreases rna.len(),
{
    if rna.len() < 3 || is_stop(rna[0], rna[1], rna[2]) {
        Seq::empty()
    } else {
        codon_text(rna[0], rna[1], rna[2]) + protein_of(rna.subrange(3, rna.len() as int))
    }
}

/// Reading whole codons reaches a stop codon or the very end: no incomplete
/// codon is left to read.
pub open spec fn whole_codons(rna: Seq<char>) -> bool
    decreases rna.len(),
{
    if rna.len() == 0 {
        true
    } else if rna.len() < 3 {
        false
    } else {
        is_stop(rna[0], rna[1], rna[2]) || whole_codons(rna.subrange(3, rna.len() as int))
    }
}

fn is_base_exec(c: char) -> (r: bool)
    ensures
        r == is_base(c),
{
    c == 'U' || c == 'C' || c == 'A' || c == 'G'
}

fn amino_acid_exec(a: char, b: char, c: char) -> (r: char)
    ensures
        r == amino_acid(a, b, c),
{
    let pyrimidine = c == 'U' || c == 'C';
    match (a, b) {
        ('U', 'U') => if pyrimidine { 'F' } else { 'L' },
        ('U', 'C') => 'S',
        ('U', 'A') => 'Y',
        ('U', 'G') => if pyrimidine { 'C' } else { 'W' },
        ('C', 'U') => 'L',
        ('C', 'C') => 'P',
        ('C', 'A') => if pyrimidine { 'H' } else { 'Q' },
        ('C', 'G') => 'R',
        ('A', 'U') => if c == 'G' { 'M' } else { 'I' },
        ('A', 'C') => 'T',
        ('A', 'A') => if pyrimidine { 'N' } else { 'K' },
        ('A', 'G') => if pyrimidine { 'S' } else { 'R' },
        ('G', 'U') => 'V',
        ('G', 'C') => 'A',
        ('G', 'A') => if pyrimidine { 'D' } else { 'E' },
        _ => 'G',
    }
}

/// Translates an RNA string into a protein, one letter per codon, stopping at
/// the first stop codon. A codon that holds a character other than a base
/// adds `<ERROR:xyz>` instead of a letter.
pub fn protein_from_rna(input_rna: &str) -> (protein: String)
    requires
        whole_codons(input_rna@),
    ensures
        protein@ == protein_of(input_rna@),
{
    let ghost s = input_rna@;
    let n = input_rna.unicode_len();
    let mut protein = String::new();
    let mut index: usize = 0;
    let mut done = false;
    assert(s.subrange(0, n as int) =~= s);
    while index < n && !done
        invariant
            n == s.len(),
            s == input_rna@,
            index <= n,
            done ==> protein@ == protein_of(s),
            !done ==> protein@ + protein_of(s.subrange(index as int, n as int)) == protein_of(s),
            !done ==> whole_codons(s.subrange(index as int, n as int)),
        decreases n - index, if done { 0int } else { 1int },
    {
        let ghost rest = s.subrange(index as int, n as int);
        let a = input_rna.get_char(index);
        let b = input_rna.get_char(index + 1);
        let c = input_rna.get_char(index + 2);
        assert(rest[0] == a && rest[1] == b && rest[2] == c);
        if a == 'U' && ((b == 'A' && (c == 'A' || c == 'G')) || (b == 'G' && c == 'A')) {
            assert(protein@ + Seq::<char>::empty() =~= protein@);
            done = true;
        } else {
            let ghost before = protein@;
            if is_base_exec(a) && is_base_exec(b) && is_base_exec(c) {
                push_char(&mut protein, amino_acid_exec(a, b, c));
            } else {
                protein.append("<ERROR:");
                push_char(&mut protein, a);
                push_char(&mut protein, b);
                push_char(&mut protein, c);
                protein.append(">");
            }
            assert(protein@ =~= before + codon_text(a, b, c));
            assert(rest.subrange(3, rest.len() as int) =~= s.subrange(index + 3, n as int));
            assert(protein@ + protein_of(s.subrange(index + 3, n as int)) =~= before + protein_of(rest));
            index = index + 3;
        }
    }
    if !done {
        assert(s.subrange(index as int, n as int) =~= Seq::<char>::empty());
        assert(protein@ + Seq::<char>::empty() =~= protein@);
    }
    protein
}

/// Tells whether reading whole codons reaches a stop codon or the end, the
/// condition under which `protein_from_rna` can translate a string.
pub fn has_whole_codons(rna: &str) -> (r: bool)
    ensures
        r == whole_codons(rna@),
{
    let ghost s = rna@;
    let n = rna.unicode_len();
    let mut index: usize = 0;
    assert(s.subrange(0, n as int) =~= s);
    while index < n
        invariant
            n == s.len(),
            s == rna@,
            index <= n,
            whole_codons(s.subrange(index as int, n as int)) == whole_codons(s),
        decreases n - index,
    {
        let ghost rest = s.subrange(index as int, n as int);
        if n - index < 3 {
            return false;
        }
        let a = rna.get_char(index);
        let b = rna.get_char(index + 1);
        let c = rna.get_char(index + 2);
        assert(rest[0] == a && rest[1] == b && rest[2] == c);
        if a == 'U' && ((b == 'A' && (c == 'A' || c == 'G')) || (b == 'G' && c == 'A')) {
            return true;
        }
        assert(rest.subrange(3, rest.len() as int) =~= s.subrange(index + 3, n as int));
        index = index + 3;
    }
    assert(s.subrange(index as int, n as int) =~= Seq::<char>::empty());
    true
}

} // verus!
