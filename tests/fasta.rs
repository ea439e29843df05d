use rosalind::fasta::{parse_fasta, Fasta, FastaError, FastaReader};
use rosalind::text::split_lines;

fn sample() -> String {
    String::from(
">Rosalind_6404
CCTGCGGAAGATCGGCACTAGAATAGCCAGAACCGTTTCTCTGAGGCTTCCGGCCTTCCC
TCCCACTAATAATTCTGAGG
>Rosalind_5959
CCATCGGTAGCGCATCCTTAGTCCAATTAAGTCCCTATCCAGGCGCTCCGCCGAAGGTCT
ATATCCATTTGTCAGCAGACACGC
>Rosalind_0808
CCACCCTCGTGGTATGGCTAGGCATTCAGGAACCGGAGAACGCTTCAGACCAGCCCGGAC
TGGGAACCTGCGGGCAGTAGGTGGAAT",
    )
}

#[test]
fn test_valid_id() {
    assert_eq!(true, Fasta::valid_id_line(&String::from(">Foo_bar")));
    assert_eq!(false, Fasta::valid_id_line(&String::from("Foo_bar")));
    assert_eq!(false, Fasta::valid_id_line(&String::from("")));
}

#[test]
fn fasta_parser() {
    let sample_raw_fastas = sample();
    let mut reader = FastaReader::new(&sample_raw_fastas);
    let parsed: Vec<Fasta> = reader.collect_records().unwrap();
    assert_eq!(3, parsed.len());
    assert_eq!("Rosalind_6404", parsed[0].id);
    assert_eq!("Rosalind_5959", parsed[1].id);
    assert_eq!("Rosalind_0808", parsed[2].id);
    assert_eq!("CCTGCGGAAGATCGGCACTAGAATAGCCAGAACCGTTTCTCTGAGGCTTCCGGCCTTCCCTCCCACTAATAATTCTGAGG", parsed[0].sequence);
    assert_eq!("CCATCGGTAGCGCATCCTTAGTCCAATTAAGTCCCTATCCAGGCGCTCCGCCGAAGGTCTATATCCATTTGTCAGCAGACACGC", parsed[1].sequence);
    assert_eq!("CCACCCTCGTGGTATGGCTAGGCATTCAGGAACCGGAGAACGCTTCAGACCAGCCCGGACTGGGAACCTGCGGGCAGTAGGTGGAAT", parsed[2].sequence);
}

#[test]
fn fasta_new_strips_marker() {
    let f = Fasta::new(String::from(">abc"), String::from("GATTACA"));
    assert_eq!("abc", f.id);
    assert_eq!("GATTACA", f.sequence);
}

#[test]
fn reader_yields_records_one_at_a_time() {
    let text = String::from(">a\nAC\nGT\n>b\nTT\n");
    let mut reader = FastaReader::new(&text);
    let first = reader.next().unwrap().unwrap();
    assert_eq!("a", first.id);
    assert_eq!("ACGT", first.sequence);
    let second = reader.next().unwrap().unwrap();
    assert_eq!("b", second.id);
    assert_eq!("TT", second.sequence);
    assert!(reader.next().unwrap().is_none());
    assert!(reader.next().unwrap().is_none());
}

#[test]
fn record_count_stops_at_blank_line() {
    let text = String::from(">a\nAC\n>b\nGG\n\n>c\nTT\n>d\nCC");
    let parsed = parse_fasta(&text).unwrap();
    assert_eq!(2, parsed.len());
    assert_eq!("a", parsed[0].id);
    assert_eq!("b", parsed[1].id);
    assert_eq!("GG", parsed[1].sequence);
}

#[test]
fn blank_first_line_gives_no_records() {
    let text = String::from("\n>a\nAC");
    assert_eq!(0, parse_fasta(&text).unwrap().len());
    assert_eq!(0, parse_fasta(&String::new()).unwrap().len());
}

#[test]
fn body_lines_are_joined_verbatim() {
    let text = String::from(">x\nac GT\n  N-n\nTTT");
    let parsed = parse_fasta(&text).unwrap();
    assert_eq!(1, parsed.len());
    assert_eq!("ac GT  N-nTTT", parsed[0].sequence);
}

#[test]
fn zero_body_lines_give_empty_sequence() {
    let text = String::from(">first\n>second\nACGT");
    let parsed = parse_fasta(&text).unwrap();
    assert_eq!(2, parsed.len());
    assert_eq!("first", parsed[0].id);
    assert_eq!("", parsed[0].sequence);
    assert_eq!("ACGT", parsed[1].sequence);
}

#[test]
fn malformed_label_is_an_error() {
    let text = String::from("Rosalind_1\nACGT");
    match parse_fasta(&text) {
        Err(FastaError::MalformedLabel(line)) => assert_eq!("Rosalind_1", line),
        Ok(_) => panic!("a line without the marker was accepted as an id line"),
    }
}

#[test]
fn reader_stops_after_error() {
    let text = String::from(">ok\nAC\n");
    let mut reader = FastaReader::new(&text);
    assert!(reader.next().unwrap().is_some());
    assert!(reader.next().unwrap().is_none());
    let bad = String::from("oops\n>a\nAC");
    let mut reader = FastaReader::new(&bad);
    assert!(reader.next().is_err());
    assert!(reader.next().unwrap().is_none());
}

#[test]
fn parsing_twice_gives_equal_records() {
    let text = sample();
    let a = parse_fasta(&text).unwrap();
    let b = parse_fasta(&text).unwrap();
    assert_eq!(a.len(), b.len());
    for i in 0..a.len() {
        assert_eq!(a[i].id, b[i].id);
        assert_eq!(a[i].sequence, b[i].sequence);
    }
}

#[test]
fn crlf_line_endings() {
    let text = String::from(">a\r\nAC\r\nGT\r\n");
    let parsed = parse_fasta(&text).unwrap();
    assert_eq!("a", parsed[0].id);
    assert_eq!("ACGT", parsed[0].sequence);
}

#[test]
fn split_lines_like_std() {
    let text = "foo\r\nbar\n\nbaz\r";
    let lines = split_lines(text);
    let expected: Vec<String> = text.lines().map(|l| l.to_string()).collect();
    assert_eq!(expected, lines);
    assert_eq!(vec!["a".to_string()], split_lines("a\n"));
    assert!(split_lines("").is_empty());
}
