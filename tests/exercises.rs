use rosalind::cli::filename_from_args;
use rosalind::dna::count;
use rosalind::fib_rabbit;
use rosalind::hamm::hamming_distance;
use rosalind::mortal_rabbits;
use rosalind::mrna::{aa_to_n_rna_strings, compute_mrna_permutations_for_protein};
use rosalind::prot::{has_whole_codons, protein_from_rna};
use rosalind::revc::reverse_complement;
use rosalind::rna::transcribe_to_rna;

#[test]
fn dna_given_case() {
    let sample_dataset = String::from(
        "AGCTTTTCATTCTGACTGCAACGGGCAATATGTCTCTGTGTGGATTAAAAAAAGAGTGTCTGATAGCAGC",
    );
    let r = count(&sample_dataset);
    assert_eq!("20 12 17 21", format!("{} {} {} {}", r.a, r.c, r.g, r.t));
}

#[test]
fn dna_count_ignores_other_characters() {
    let r = count("AxC\nGGT T");
    assert_eq!((1, 1, 2, 2), (r.a, r.c, r.g, r.t));
}

#[test]
fn fib_rabbit_given_case() {
    assert_eq!(19, fib_rabbit::simulate(5, 3));
}

#[test]
fn fib_rabbit_first_months() {
    assert_eq!(1, fib_rabbit::simulate(1, 3));
    assert_eq!(1, fib_rabbit::simulate(2, 3));
    assert_eq!(4, fib_rabbit::simulate(3, 3));
    assert_eq!(13, fib_rabbit::simulate_iter(2, 3, 5, 1));
}

#[test]
fn hamming_distance_same_length() {
    assert_eq!(2, hamming_distance("brain", "brown").unwrap());
}

#[test]
fn hamming_distance_given_dna_case() {
    assert_eq!(7, hamming_distance("GAGCCTACTAACGGGAT", "CATCGTAATGACGGCCT").unwrap());
}

#[test]
fn hamming_distance_same_string() {
    assert_eq!(0, hamming_distance("brain", "brain").unwrap());
}

#[test]
fn hamming_distance_one_char_string() {
    assert_eq!(1, hamming_distance("a", "b").unwrap());
}

#[test]
fn hamming_distance_same_char_string() {
    assert_eq!(0, hamming_distance("F", "F").unwrap());
}

#[test]
fn hamming_distance_empty_string() {
    assert_eq!(0, hamming_distance("", "").unwrap());
}

#[test]
fn hamming_distance_differnet_length_err() {
    assert!(hamming_distance("bbb", "bb").is_err());
}

#[test]
fn hamming_distance_error_names_both_strings() {
    assert_eq!(
        "Cannot compare hamming distance of strings of different lengths:\n  bbb\n  bb",
        hamming_distance("bbb", "bb").unwrap_err()
    );
}

#[test]
fn mortal_rabbits_given_case() {
    assert_eq!(4, mortal_rabbits::simulate(6, 3));
}

#[test]
fn mortal_rabbits_single_month() {
    assert_eq!(1, mortal_rabbits::simulate(1, 3));
    assert_eq!(0, mortal_rabbits::simulate(5, 1));
}

#[test]
fn mrna_given_case() {
    let sample_protein = String::from("MA");
    let result = compute_mrna_permutations_for_protein(&sample_protein);
    assert_eq!(12, result);
}

#[test]
fn empty_string() {
    let sample_protein = String::from("");
    let result = compute_mrna_permutations_for_protein(&sample_protein);
    assert_eq!(3, result);
}

#[test]
fn exhaust_valid_amino_acids() {
    let sample_protein = String::from("FLSYCWPHQRIMTNKVADEG");
    let result = compute_mrna_permutations_for_protein(&sample_protein);
    assert_eq!(215872, result);
}

#[test]
fn overflow_scale_test() {
    let sample_protein = String::from("SSSSSSSSSSSSSSSSSSSSSSSSSSSSSSSSSSSSSSSSSSSSSSSS");
    let result = compute_mrna_permutations_for_protein(&sample_protein);
    assert_eq!(24448, result);
}

#[test]
fn codon_counts_per_amino_acid() {
    assert_eq!(6, aa_to_n_rna_strings(&'L'));
    assert_eq!(3, aa_to_n_rna_strings(&'I'));
    assert_eq!(1, aa_to_n_rna_strings(&'W'));
    assert_eq!(1, aa_to_n_rna_strings(&'x'));
}

#[test]
fn given_rna_protein() {
    let sample_rna = String::from("AUGGCCAUGGCGCCCAGAACUGAGAUCAAUAGUACCCGUAUUAACGGGUGA");
    assert_eq!("MAMAPRTEINSTRING", protein_from_rna(&sample_rna));
}

#[test]
fn test_all_codons() {
    let rna = String::from(
        "UUUCUUAUUGUUUUCCUCAUCGUCUUACUAAUAGUAUUGCUGAUGGUGUCUCCUACUGCUUCCCCCACCGCCUCACCAACAGCAUCGCCGACGGCGUAUCAUAAUGAUUACCACAACGACCAAAAAGAACAGAAGGAGUGUCGUAGUGGUUGCCGCAGCGGCCGAAGAGGAUGGCGGAGGGGG",
    );
    let protein = protein_from_rna(&rna);
    assert_eq!("FLIVFLIVLLIVLLMVSPTASPTASPTASPTAYHNDYHNDQKEQKECRSGCRSGRRGWRRG", &protein);
    assert_eq!(64 - 3, protein.chars().count());
}

#[test]
fn test_stop_codons() {
    let rna_uaa = "UUUCCCUAACUU";
    assert_eq!("FP", protein_from_rna(&rna_uaa));
    let rna_uag = "GAGCCCUAGCUU";
    assert_eq!("EP", protein_from_rna(&rna_uag));
    let rna_uga = "GACCCCUGACUU";
    assert_eq!("DP", protein_from_rna(&rna_uga));
}

#[test]
fn unknown_codon_is_quoted() {
    assert_eq!("F<ERROR:UXU>L", protein_from_rna("UUUUXUCUG"));
}

#[test]
fn given_case_a() {
    let sample_dna = String::from("GTCA");
    assert_eq!("TGAC", reverse_complement(&sample_dna));
}

#[test]
fn given_case_b() {
    let sample_dna = String::from("AAAACCCGGT");
    assert_eq!("ACCGGGTTTT", reverse_complement(&sample_dna));
}

#[test]
fn rna_given_case() {
    let sample_dna = String::from("GATGGAACTTGACTACGTAAATT");
    assert_eq!("GAUGGAACUUGACUACGUAAAUU", transcribe_to_rna(&sample_dna));
}

#[test]
fn filename_is_second_argument() {
    let args = vec!["prog".to_string(), "/tmp/input.txt".to_string()];
    assert_eq!("/tmp/input.txt", filename_from_args(&args));
}

#[test]
fn checked_simulations_agree_and_detect_overflow() {
    assert_eq!(Some(19), fib_rabbit::simulate_checked(5, 3));
    assert_eq!(None, fib_rabbit::simulate_checked(200, 5));
    assert_eq!(Some(13), fib_rabbit::simulate_iter_checked(2, 3, 5, 1));
    assert_eq!(Some(4), mortal_rabbits::simulate_checked(6, 3));
    assert_eq!(None, mortal_rabbits::simulate_checked(6, 0));
    assert_eq!(None, mortal_rabbits::simulate_checked(200, 1000));
}

#[test]
fn whole_codon_check() {
    assert!(has_whole_codons("UUUCCC"));
    assert!(has_whole_codons("UUUUAAC"));
    assert!(has_whole_codons(""));
    assert!(!has_whole_codons("UUUC"));
    assert!(!has_whole_codons("UU"));
}
