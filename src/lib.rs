//! Small sequence-analysis routines over DNA, RNA and protein strings, with a
//! FASTA record reader and a GC-content analysis at their centre.
pub mod text;
pub mod fasta;
pub mod gc;
pub mod rna;
pub mod hamm;
pub mod fib_rabbit;
pub mod mortal_rabbits;
pub mod mrna;
pub mod revc;
pub mod dna;
pub mod cli;
pub mod prot;
pub mod iprb;
