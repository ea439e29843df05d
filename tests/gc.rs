use rosalind::fasta::{parse_fasta, Fasta};
use rosalind::gc::{calculate_gc_percentage, gc_content, gc_table, is_greater, max_gc, GcContent};

fn percent(g: GcContent) -> f64 {
    100f64 * (g.gc_count as f64) / (g.length as f64)
}

#[test]
fn gc_percentage() {
    let sample = Fasta { sequence: String::from("AGCTATAG"), id: String::from("doesnt matter") };
    assert_eq!(37.5, percent(calculate_gc_percentage(&sample)));
}

#[test]
fn gc_counts_exact() {
    let g = gc_content("AGCTATAG");
    assert_eq!(3, g.gc_count);
    assert_eq!(8, g.length);
    assert_eq!(GcContent { gc_count: 0, length: 4 }, gc_content("ATAT"));
    assert_eq!(GcContent { gc_count: 4, length: 4 }, gc_content("GCCG"));
}

#[test]
fn gc_invariant_under_reordering() {
    let a = gc_content("AGCTATAG");
    let b = gc_content("GATCAGTA");
    let c = gc_content("AAAGGTTC");
    assert_eq!(a, b);
    assert_eq!(a, c);
}

#[test]
fn gc_percentage_in_range() {
    for s in ["A", "C", "ACGT", "GGGG", "TTTTTTA", "CGCGCGAT"] {
        let p = percent(gc_content(s));
        assert!(0.0 <= p && p <= 100.0);
    }
}

#[test]
fn empty_sequence_has_undefined_percentage() {
    let text = String::from(">first\n>second\nACGT");
    let parsed = parse_fasta(&text).unwrap();
    let g = calculate_gc_percentage(&parsed[0]);
    assert_eq!(0, g.length);
    assert!(!g.defined());
    assert!(percent(g).is_nan());
}

#[test]
fn tie_keeps_first() {
    let x = GcContent { gc_count: 1, length: 2 };
    let y = GcContent { gc_count: 2, length: 4 };
    assert_eq!(Some(0), max_gc(&vec![x, y]));
}

#[test]
fn strictly_greater_replaces() {
    let gcs = vec![
        GcContent { gc_count: 1, length: 4 },
        GcContent { gc_count: 3, length: 4 },
        GcContent { gc_count: 2, length: 4 },
        GcContent { gc_count: 6, length: 8 },
    ];
    assert_eq!(Some(1), max_gc(&gcs));
    assert_eq!(None, max_gc(&Vec::new()));
}

#[test]
fn undefined_is_never_selected_over_defined() {
    let gcs = vec![GcContent { gc_count: 1, length: 4 }, GcContent { gc_count: 0, length: 0 }];
    assert_eq!(Some(0), max_gc(&gcs));
    assert!(!is_greater(&gcs[1], &gcs[0]));
    assert!(!is_greater(&gcs[0], &gcs[1]));
}

#[test]
fn largest_values_compare_exactly() {
    let a = GcContent { gc_count: usize::MAX - 1, length: usize::MAX };
    let b = GcContent { gc_count: usize::MAX - 2, length: usize::MAX - 1 };
    assert!(is_greater(&a, &b));
    assert!(!is_greater(&b, &a));
}

#[test]
fn highest_gc_of_sample() {
    let text = String::from(
">Rosalind_6404
CCTGCGGAAGATCGGCACTAGAATAGCCAGAACCGTTTCTCTGAGGCTTCCGGCCTTCCC
TCCCACTAATAATTCTGAGG
>Rosalind_5959
CCATCGGTAGCGCATCCTTAGTCCAATTAAGTCCCTATCCAGGCGCTCCGCCGAAGGTCT
ATATCCATTTGTCAGCAGACACGC
>Rosalind_0808
CCACCCTCGTGGTATGGCTAGGCATTCAGGAACCGGAGAACGCTTCAGACCAGCCCGGAC
TGGGAACCTGCGGGCAGTAGGTGGAAT",
    );
    let parsed = parse_fasta(&text).unwrap();
    let gcs = gc_table(&parsed);
    let best = max_gc(&gcs).unwrap();
    assert_eq!("Rosalind_0808", parsed[best].id);
    assert!((percent(gcs[best]) - 60.919540).abs() < 0.0001);
}

#[test]
fn tie_break_selects_first_label() {
    let records = vec![
        Fasta { id: String::from("x"), sequence: String::from("GA") },
        Fasta { id: String::from("y"), sequence: String::from("CT") },
    ];
    let gcs = gc_table(&records);
    assert_eq!(50.0, percent(gcs[0]));
    assert_eq!(50.0, percent(gcs[1]));
    assert_eq!("x", records[max_gc(&gcs).unwrap()].id);
}
