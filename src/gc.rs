//! GC content of sequences as exact fractions, and the choice of the record
//! with the highest GC content.
use vstd::prelude::*;
use crate::fasta::Fasta;

verus! {

/// Guanine or cytosine.
pub open spec fn is_gc(c: char) -> bool {
    c == 'G' || c == 'C'
}

/// How many characters of `s` are `G` or `C`.
pub open spec fn gc_count(s: Seq<char>) -> nat
    decreases s.len(),
{
    if s.len() == 0 {
        0
    } else {
        gc_count(s.drop_last()) + if is_gc(s.last()) { 1nat } else { 0nat }
    }
}

/// The GC content of a sequence as an exact fraction: `100 * gc_count / length`
/// percent. With `length == 0` the percentage is undefined.
#[derive(Debug, Clone, Copy, PartialEq, Eq)]
pub struct GcContent {
    pub gc_count: usize,
    pub length: usize,
}

impl GcContent {
    /// The percentage is defined: the sequence is not empty.
    pub open spec fn is_defined(&self) -> bool {
        self.length > 0
    }

    /// Tells whether the percentage is defined.
    pub fn defined(&self) -> (r: bool)
        ensures
            r == self.is_defined(),
    {
        self.length > 0
    }
}

/// `a` has a strictly greater percentage than `b`. An undefined percentage is
/// neither greater nor smaller than any other.
pub open spec fn gc_greater(a: GcContent, b: GcContent) -> bool {
    a.is_defined() && b.is_defined() && (a.gc_count as int) * (b.length as int) > (b.gc_count as int)
        * (a.length as int)
}

proof fn lemma_product_fits(x: usize, y: usize)
    ensures
        (x as int) * (y as int) <= u128::MAX,
{
    let a = x as int;
    let b = y as int;
    assert(0 <= a <= 0xffff_ffff_ffff_ffff);
    assert(0 <= b <= 0xffff_ffff_ffff_ffff);
    assert(a * b <= 0xffff_ffff_ffff_ffff * 0xffff_ffff_ffff_ffffint) by (nonlinear_arith)
        requires
            0 <= a <= 0xffff_ffff_ffff_ffff,
            0 <= b <= 0xffff_ffff_ffff_ffff,
    ;
}

/// Compares two GC contents as percentages, without rounding.
pub fn is_greater(a: &GcContent, b: &GcContent) -> (r: bool)
    ensures
        r == gc_greater(*a, *b),
{
    if a.length == 0 || b.length == 0 {
        return false;
    }
    proof {
        lemma_product_fits(a.gc_count, b.length);
        lemma_product_fits(b.gc_count, a.length);
    }
    (a.gc_count as u128) * (b.length as u128) > (b.gc_count as u128) * (a.length as u128)
}

/// The GC content of a sequence.
pub fn gc_content(sequence: &str) -> (r: GcContent)
    ensures
        r.gc_count == gc_count(sequence@),
        r.length == sequence@.len(),
        r.gc_count <= r.length,
{
    let n = sequence.unicode_len();
    let mut gc: usize = 0;
    let mut i: usize = 0;
    while i < n
        invariant
            n == sequence@.len(),
            i <= n,
            gc == gc_count(sequence@.subrange(0, i as int)),
            gc <= i,
        decreases n - i,
    {
        let c = sequence.get_char(i);
        proof {
            assert(sequence@.subrange(0, i + 1).drop_last() =~= sequence@.subrange(0, i as int));
        }
        if c == 'G' || c == 'C' {
            gc = gc + 1;
        }
        i = i + 1;
    }
    proof {
        assert(sequence@.subrange(0, n as int) =~= sequence@);
    }
    GcContent { gc_count: gc, length: n }
}

/// The GC content of a record's sequence.
pub fn calculate_gc_percentage(fasta: &Fasta) -> (r: GcContent)
    ensures
        r.gc_count == gc_count(fasta.sequence@),
        r.length == fasta.sequence@.len(),
        r.gc_count <= r.length,
{
    gc_content(fasta.sequence.as_str())
}

/// The GC content of each record, in order.
pub fn gc_table(records: &Vec<Fasta>) -> (r: Vec<GcContent>)
    ensures
        r@.len() == records@.len(),
        forall|i: int|
            0 <= i < r@.len() ==> (#[trigger] r@[i]).gc_count == gc_count(records@[i].sequence@)
                && r@[i].length == records@[i].sequence@.len(),
{
    let mut out: Vec<GcContent> = Vec::new();
    let mut i: usize = 0;
    while i < records.len()
        invariant
            i <= records@.len(),
            out@.len() == i,
            forall|k: int|
                0 <= k < i ==> (#[trigger] out@[k]).gc_count == gc_count(records@[k].sequence@)
                    && out@[k].length == records@[k].sequence@.len(),
        decreases records@.len() - i,
    {
        out.push(calculate_gc_percentage(&records[i]));
        i = i + 1;
    }
    out
}

/// The index that a left-to-right scan keeps: it starts with the first entry
/// and moves only to a later entry with a strictly greater percentage.
pub open spec fn max_index(s: Seq<GcContent>) -> int
    decreases s.len(),
{
    if s.len() <= 1 {
        0
    } else {
        let w = max_index(s.drop_last());
        if gc_greater(s.last(), s[w]) {
            s.len() - 1
        } else {
            w
        }
    }
}

/// The entry with the greatest GC content, the first such one on ties;
/// `None` when there is no entry.
pub fn max_gc(gcs: &Vec<GcContent>) -> (r: Option<usize>)
    ensures
        gcs@.len() == 0 <==> r is None,
        r matches Some(i) ==> i < gcs@.len() && i == max_index(gcs@),
{
    if gcs.len() == 0 {
        return None;
    }
    let mut w: usize = 0;
    let mut i: usize = 1;
    while i < gcs.len()
        invariant
            1 <= i <= gcs@.len(),
            w < i,
            w == max_index(gcs@.subrange(0, i as int)),
        decreases gcs@.len() - i,
    {
        proof {
            assert(gcs@.subrange(0, i + 1).drop_last() =~= gcs@.subrange(0, i as int));
        }
        if is_greater(&gcs[i], &gcs[w]) {
            w = i;
        }
        i = i + 1;
    }
    proof {
        assert(gcs@.subrange(0, i as int) =~= gcs@);
    }
    Some(w)
}

/// The GC count read off the multiset of characters.
proof fn lemma_gc_count_multiset(s: Seq<char>)
    ensures
        gc_count(s) == s.to_multiset().count('G') + s.to_multiset().count('C'),
    decreases s.len(),
{
    broadcast use vstd::seq_lib::group_to_multiset_ensures, vstd::multiset::group_multiset_axioms;

    if s.len() > 0 {
        lemma_gc_count_multiset(s.drop_last());
        assert(s.drop_last().push(s.last()) =~= s);
    } else {
        assert(s.to_multiset() =~= vstd::multiset::Multiset::empty());
    }
}

/// The GC content depends only on which characters a sequence holds and how
/// often, not on their order: two sequences that are rearrangements of each
/// other have the same GC count and the same length.
pub proof fn lemma_gc_reorder(s: Seq<char>, t: Seq<char>)
    requires
        s.to_multiset() == t.to_multiset(),
    ensures
        gc_count(s) == gc_count(t),
        s.len() == t.len(),
{
    broadcast use vstd::seq_lib::group_to_multiset_ensures;

    lemma_gc_count_multiset(s);
    lemma_gc_count_multiset(t);
    vstd::seq_lib::to_multiset_len(s);
    vstd::seq_lib::to_multiset_len(t);
}

/// The GC count of a sequence is at most its length, so a defined percentage
/// lies between 0 and 100.
pub proof fn lemma_gc_percentage_range(s: Seq<char>)
    ensures
        0 <= gc_count(s) <= s.len(),
        s.len() > 0 ==> 0 <= 100 * gc_count(s) / s.len() <= 100,
    decreases s.len(),
{
    if s.len() > 0 {
        lemma_gc_percentage_range(s.drop_last());
        let g = gc_count(s) as int;
        let n = s.len() as int;
        assert(0 <= 100 * g / n <= 100) by (nonlinear_arith)
            requires
                0 <= g <= n,
                n > 0,
        ;
    }
}

/// A greater percentage stays greater against anything that is not above the
/// smaller one.
proof fn lemma_greater_trans(a: GcContent, b: GcContent, c: GcContent)
    requires
        a.is_defined(),
        b.is_defined(),
        c.is_defined(),
        gc_greater(a, b),
        !gc_greater(c, b),
    ensures
        gc_greater(a, c),
{
    let (ag, al) = (a.gc_count as int, a.length as int);
    let (bg, bl) = (b.gc_count as int, b.length as int);
    let (cg, cl) = (c.gc_count as int, c.length as int);
    assert(ag * bl * cl > bg * al * cl) by (nonlinear_arith)
        requires
            ag * bl > bg * al,
            cl > 0,
    ;
    assert(cg * bl * al <= bg * cl * al) by (nonlinear_arith)
        requires
            cg * bl <= bg * cl,
            al > 0,
    ;
    assert(ag * cl > cg * al) by (nonlinear_arith)
        requires
            ag * bl * cl > bg * al * cl,
            cg * bl * al <= bg * cl * al,
            bl > 0,
    ;
}

/// When every percentage is defined, the entry that the scan keeps has the
/// greatest percentage, and every entry before it has a strictly smaller one:
/// it is the first maximum.
pub proof fn lemma_max_index_first_maximum(s: Seq<GcContent>)
    requires
        s.len() > 0,
        forall|i: int| 0 <= i < s.len() ==> (#[trigger] s[i]).is_defined(),
    ensures
        0 <= max_index(s) < s.len(),
        forall|j: int| 0 <= j < s.len() ==> !gc_greater(#[trigger] s[j], s[max_index(s)]),
        forall|j: int| 0 <= j < max_index(s) ==> gc_greater(s[max_index(s)], #[trigger] s[j]),
    decreases s.len(),
{
    if s.len() > 1 {
        let t = s.drop_last();
        lemma_max_index_first_maximum(t);
        let w = max_index(t);
        let n = s.len() - 1;
        if gc_greater(s.last(), s[w]) {
            assert forall|j: int| 0 <= j < s.len() implies !gc_greater(#[trigger] s[j], s[n]) by {
                if j < n {
                    assert(t[j] == s[j]);
                    lemma_greater_trans(s[n], s[w], s[j]);
                }
            }
            assert forall|j: int| 0 <= j < n implies gc_greater(s[n], #[trigger] s[j]) by {
                assert(t[j] == s[j]);
                lemma_greater_trans(s[n], s[w], s[j]);
            }
        } else {
            assert forall|j: int| 0 <= j < s.len() implies !gc_greater(#[trigger] s[j], s[w]) by {
                if j < n {
                    assert(t[j] == s[j]);
                }
            }
            assert forall|j: int| 0 <= j < w implies gc_greater(s[w], #[trigger] s[j]) by {
                assert(t[j] == s[j]);
            }
        }
    }
}

} // verus!
