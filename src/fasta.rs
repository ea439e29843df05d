//! FASTA records and a reader that produces them one at a time from a text,
//! with one line of lookahead to find where each record ends.
use vstd::prelude::*;
use crate::text::{lines_of, split_lines, views};

verus! {

/// The character that opens the id line of a record.
pub const MARKER: char = '>';

/// A line that opens a record: its first character is the marker.
pub open spec fn is_id_line(l: Seq<char>) -> bool {
    l.len() > 0 && l[0] == MARKER
}

/// A line that belongs to the body of the record above it: it is neither
/// blank nor an id line.
pub open spec fn is_body_line(l: Seq<char>) -> bool {
    l.len() > 0 && l[0] != MARKER
}

/// The first index at or after `i` whose line does not belong to a body.
pub open spec fn body_end(lines: Seq<Seq<char>>, i: int) -> int
    decreases lines.len() - i,
{
    if i < 0 || i >= lines.len() || !is_body_line(lines[i]) {
        i
    } else {
        body_end(lines, i + 1)
    }
}

pub proof fn lemma_body_end(lines: Seq<Seq<char>>, i: int)
    requires
        0 <= i,
    ensures
        i <= body_end(lines, i),
        body_end(lines, i) <= lines.len() || body_end(lines, i) == i,
        forall|j: int| i <= j < body_end(lines, i) ==> is_body_line(#[trigger] lines[j]),
        body_end(lines, i) < lines.len() ==> !is_body_line(lines[body_end(lines, i)]),
    decreases lines.len() - i,
{
    if i < lines.len() && is_body_line(lines[i]) {
        lemma_body_end(lines, i + 1);
    }
}

/// A record as plain values: its label and its sequence.
pub type RecordView = (Seq<char>, Seq<char>);

/// The record whose id line is `lines[i]`: the label is the id line without
/// its marker, the sequence the body lines below it joined with nothing
/// between them.
pub open spec fn record_at(lines: Seq<Seq<char>>, i: int) -> RecordView {
    (lines[i].drop_first(), lines.subrange(i + 1, body_end(lines, i + 1)).flatten())
}

/// What reading the lines from index `i` on yields: the records, in order, up
/// to the end of the lines or to the first blank line where an id line is
/// due; or the first line that should open a record and does not.
pub open spec fn records_from(lines: Seq<Seq<char>>, i: int) -> Result<Seq<RecordView>, Seq<char>>
    decreases lines.len() - i,
    via records_from_decreases
{
    if i < 0 || i >= lines.len() || lines[i].len() == 0 {
        Ok(Seq::empty())
    } else if !is_id_line(lines[i]) {
        Err(lines[i])
    } else {
        cons_record(record_at(lines, i), records_from(lines, body_end(lines, i + 1)))
    }
}

/// A record placed before the records that follow it, or the error that
/// comes after it.
pub open spec fn cons_record(
    f: RecordView,
    rest: Result<Seq<RecordView>, Seq<char>>,
) -> Result<Seq<RecordView>, Seq<char>> {
    match rest {
        Ok(rs) => Ok(seq![f] + rs),
        Err(bad) => Err(bad),
    }
}

/// Records placed before what follows them, or the error that comes after them.
pub open spec fn prepend_records(
    rs: Seq<RecordView>,
    rest: Result<Seq<RecordView>, Seq<char>>,
) -> Result<Seq<RecordView>, Seq<char>> {
    match rest {
        Ok(more) => Ok(rs + more),
        Err(bad) => Err(bad),
    }
}

proof fn lemma_prepend_cons(
    rs: Seq<RecordView>,
    f: RecordView,
    rest: Result<Seq<RecordView>, Seq<char>>,
)
    ensures
        prepend_records(rs, cons_record(f, rest)) == prepend_records(rs.push(f), rest),
{
    if let Ok(more) = rest {
        assert(rs + (seq![f] + more) =~= rs.push(f) + more);
    }
}

/// The record views of a sequence of records.
pub open spec fn records_view(v: Seq<Fasta>) -> Seq<RecordView> {
    v.map_values(|f: Fasta| f.view_pair())
}

/// The end of a body found by a scan: all lines before `j` are body lines and
/// the line at `j`, if any, is not.
pub proof fn lemma_body_end_at(lines: Seq<Seq<char>>, i: int, j: int)
    requires
        0 <= i <= j <= lines.len(),
        forall|k: int| i <= k < j ==> is_body_line(#[trigger] lines[k]),
        j < lines.len() ==> !is_body_line(lines[j]),
    ensures
        body_end(lines, i) == j,
    decreases j - i,
{
    if i < j {
        lemma_body_end_at(lines, i + 1, j);
    }
}

fn is_body_line_exec(l: &str) -> (r: bool)
    ensures
        r == is_body_line(l@),
{
    l.unicode_len() > 0 && l.get_char(0) != MARKER
}

#[via_fn]
proof fn records_from_decreases(lines: Seq<Seq<char>>, i: int) {
    if i >= 0 {
        lemma_body_end(lines, i + 1);
    }
}

/// What reading a whole text yields.
pub open spec fn records_of(text: Seq<char>) -> Result<Seq<RecordView>, Seq<char>> {
    records_from(lines_of(text), 0)
}

/// A labelled biological sequence.
#[derive(Debug)]
pub struct Fasta {
    pub id: String,
    pub sequence: String,
}

impl Fasta {
    pub open spec fn view_pair(&self) -> RecordView {
        (self.id@, self.sequence@)
    }

    /// Makes a record from its id line and its sequence; the label is the id
    /// line without the marker.
    pub fn new(id: String, sequence: String) -> (f: Fasta)
        requires
            is_id_line(id@),
        ensures
            f.id@ == id@.drop_first(),
            f.sequence@ == sequence@,
    {
        let n = id.unicode_len();
        let label = String::from_str(id.as_str().substring_char(1, n));
        proof {
            assert(id@.subrange(1, n as int) =~= id@.drop_first());
        }
        Fasta { id: label, sequence }
    }

    /// Tells whether a line is an id line, that is, starts with the marker.
    pub fn valid_id_line(s: &str) -> (r: bool)
        ensures
            r == is_id_line(s@),
    {
        s.unicode_len() > 0 && s.get_char(0) == MARKER
    }
}

/// Why a text is not a well-formed sequence of records.
#[derive(Debug)]
pub enum FastaError {
    /// A line stands where an id line is due and does not start with the marker.
    MalformedLabel(String),
}

/// Reads records one at a time from the lines of a text, with one line of
/// lookahead to find where each record ends.
pub struct FastaReader {
    lines: Vec<String>,
    pos: usize,
    finished: bool,
}

impl FastaReader {
    /// The lines that the reader reads.
    pub closed spec fn lines(&self) -> Seq<Seq<char>> {
        views(self.lines@)
    }

    /// Index of the next line to read.
    pub closed spec fn pos(&self) -> int {
        self.pos as int
    }

    /// Whether the reader has stopped for good.
    pub closed spec fn finished(&self) -> bool {
        self.finished
    }

    pub closed spec fn wf(&self) -> bool {
        self.pos <= self.lines@.len()
    }

    /// Where the reader stands at the end: it has stopped, or no line is left,
    /// or the next line is blank.
    pub open spec fn at_end(&self) -> bool {
        self.finished() || self.pos() >= self.lines().len() || self.lines()[self.pos()].len() == 0
    }

    /// A measure that each record read makes smaller.
    pub closed spec fn measure(&self) -> nat {
        if self.finished {
            0
        } else {
            (self.lines@.len() - self.pos + 1) as nat
        }
    }

    /// What the reader has still to produce.
    pub open spec fn pending(&self) -> Result<Seq<RecordView>, Seq<char>> {
        if self.finished() {
            Ok(Seq::empty())
        } else {
            records_from(self.lines(), self.pos())
        }
    }

    /// A reader over the lines of a text, before its first record.
    pub fn new(raw_text: &String) -> (r: FastaReader)
        ensures
            r.wf(),
            r.lines() == lines_of(raw_text@),
            r.pos() == 0,
            !r.finished(),
            r.pending() == records_of(raw_text@),
    {
        let lines = split_lines(raw_text.as_str());
        FastaReader { lines, pos: 0, finished: false }
    }

    /// Reads the next record. At the end of the lines, or at a blank line where
    /// an id line is due, the reader stops and gives `None` from then on. A
    /// line that should open a record and does not start with the marker is an
    /// error, and the reader stops too. Otherwise the record is the id line and
    /// all the body lines below it, up to the next id line, blank line or the
    /// end.
    pub fn next(&mut self) -> (r: Result<Option<Fasta>, FastaError>)
        requires
            old(self).wf(),
        ensures
            final(self).wf(),
            final(self).lines() == old(self).lines(),
            old(self).at_end() <==> r == Ok::<Option<Fasta>, FastaError>(None),
            r is Err <==> !old(self).at_end() && !is_id_line(old(self).lines()[old(self).pos()]),
            r matches Ok(Some(f)) ==> f.view_pair() == record_at(old(self).lines(), old(self).pos())
                && final(self).pos() == body_end(old(self).lines(), old(self).pos() + 1)
                && !final(self).finished()
                && final(self).measure() < old(self).measure()
                && old(self).pending() == cons_record(f.view_pair(), final(self).pending()),
            r matches Err(FastaError::MalformedLabel(l)) ==> l@ == old(self).lines()[old(self).pos()]
                && old(self).pending() == Err::<Seq<RecordView>, Seq<char>>(l@),
            !(r matches Ok(Some(_))) ==> final(self).finished(),
    {
        if self.finished || self.pos >= self.lines.len() || self.lines[self.pos].as_str().is_empty() {
            self.finished = true;
            return Ok(None);
        }
        let id_line = self.lines[self.pos].clone();
        if !Fasta::valid_id_line(id_line.as_str()) {
            self.finished = true;
            return Err(FastaError::MalformedLabel(id_line));
        }
        let ghost lines = self.lines();
        let ghost p = self.pos();
        let n = self.lines.len();
        let mut sequence = String::new();
        let mut j = self.pos + 1;
        assert(lines.subrange(p + 1, j as int) =~= Seq::<Seq<char>>::empty());
        while j < n && is_body_line_exec(self.lines[j].as_str())
            invariant
                lines == self.lines(),
                n == self.lines@.len(),
                n == lines.len(),
                0 <= p,
                p + 1 <= j <= n,
                forall|k: int| p + 1 <= k < j ==> is_body_line(#[trigger] lines[k]),
                sequence@ == lines.subrange(p + 1, j as int).flatten(),
            decreases n - j,
        {
            proof {
                assert(j < lines.len());
                assert(lines.subrange(p + 1, j + 1) =~= lines.subrange(p + 1, j as int).push(lines[j as int]));
                lines.subrange(p + 1, j as int).lemma_flatten_push(lines[j as int]);
            }
            sequence.append(self.lines[j].as_str());
            j = j + 1;
        }
        proof {
            lemma_body_end_at(lines, p + 1, j as int);
        }
        self.pos = j;
        Ok(Some(Fasta::new(id_line, sequence)))
    }

    /// Reads all the records that are left, or stops at the first error.
    pub fn collect_records(&mut self) -> (r: Result<Vec<Fasta>, FastaError>)
        requires
            old(self).wf(),
        ensures
            final(self).wf(),
            final(self).finished(),
            match old(self).pending() {
                Ok(rs) => r matches Ok(v) && records_view(v@) == rs,
                Err(bad) => r matches Err(FastaError::MalformedLabel(l)) && l@ == bad,
            },
    {
        let mut out: Vec<Fasta> = Vec::new();
        assert(prepend_records(records_view(out@), self.pending()) =~= self.pending()) by {
            if let Ok(more) = self.pending() {
                assert(records_view(out@) + more =~= more);
            }
        }
        loop
            invariant
                self.wf(),
                old(self).pending() == prepend_records(records_view(out@), self.pending()),
            decreases self.measure(),
        {
            let ghost before = *self;
            match self.next() {
                Ok(Some(f)) => {
                    proof {
                        lemma_prepend_cons(records_view(out@), f.view_pair(), self.pending());
                        assert(records_view(out@.push(f)) =~= records_view(out@).push(f.view_pair()));
                    }
                    out.push(f);
                },
                Ok(None) => {
                    return Ok(out);
                },
                Err(e) => {
                    return Err(e);
                },
            }
        }
    }
}

/// Reads all the records of a text, or stops at the first line that should
/// open a record and does not.
pub fn parse_fasta(raw_text: &String) -> (r: Result<Vec<Fasta>, FastaError>)
    ensures
        match records_of(raw_text@) {
            Ok(rs) => r matches Ok(v) && records_view(v@) == rs,
            Err(bad) => r matches Err(FastaError::MalformedLabel(l)) && l@ == bad,
        },
{
    let mut reader = FastaReader::new(raw_text);
    reader.collect_records()
}

/// How many id lines come, from index `i` on, before the first blank line or
/// the end of the lines.
pub open spec fn count_markers(lines: Seq<Seq<char>>, i: int) -> nat
    decreases lines.len() - i,
{
    if i < 0 || i >= lines.len() || lines[i].len() == 0 {
        0
    } else {
        (if is_id_line(lines[i]) { 1nat } else { 0nat }) + count_markers(lines, i + 1)
    }
}

proof fn lemma_count_markers_skip_body(lines: Seq<Seq<char>>, i: int, j: int)
    requires
        0 <= i <= j <= lines.len(),
        forall|k: int| i <= k < j ==> is_body_line(#[trigger] lines[k]),
    ensures
        count_markers(lines, i) == count_markers(lines, j),
    decreases j - i,
{
    if i < j {
        lemma_count_markers_skip_body(lines, i + 1, j);
    }
}

proof fn lemma_records_from_count(lines: Seq<Seq<char>>, i: int)
    requires
        0 <= i,
        records_from(lines, i) is Ok,
    ensures
        records_from(lines, i)->Ok_0.len() == count_markers(lines, i),
    decreases lines.len() - i,
{
    if i < lines.len() && lines[i].len() != 0 {
        let e = body_end(lines, i + 1);
        lemma_body_end(lines, i + 1);
        lemma_records_from_count(lines, e);
        lemma_count_markers_skip_body(lines, i + 1, e);
    }
}

/// On a well-formed text, the number of records read equals the number of id
/// lines before the first blank line or the end of the text.
pub proof fn lemma_record_count(text: Seq<char>)
    requires
        records_of(text) is Ok,
    ensures
        records_of(text)->Ok_0.len() == count_markers(lines_of(text), 0),
{
    lemma_records_from_count(lines_of(text), 0);
}

/// Reading is deterministic: equal texts give equal records, or the same
/// error, on every run; a fresh reader over the same text yields the same
/// records again.
pub proof fn lemma_parse_deterministic(a: Seq<char>, b: Seq<char>)
    requires
        a == b,
    ensures
        records_of(a) == records_of(b),
        lines_of(a) == lines_of(b),
{
}

/// Every record that reading yields comes from one id line of the text: its
/// label is that line without the marker, and its sequence is the body lines
/// right below it joined in order with nothing inserted.
pub proof fn lemma_records_from_id_lines(lines: Seq<Seq<char>>, i: int)
    requires
        0 <= i,
        records_from(lines, i) is Ok,
    ensures
        forall|k: int|
            0 <= k < records_from(lines, i)->Ok_0.len() ==> exists|p: int|
                i <= p < lines.len() && is_id_line(lines[p])
                    && #[trigger] records_from(lines, i)->Ok_0[k] == (
                    lines[p].drop_first(),
                    lines.subrange(p + 1, body_end(lines, p + 1)).flatten(),
                ) && forall|q: int| p + 1 <= q < body_end(lines, p + 1) ==> is_body_line(#[trigger] lines[q]),
    decreases lines.len() - i,
{
    if i < lines.len() && lines[i].len() != 0 {
        let e = body_end(lines, i + 1);
        lemma_body_end(lines, i + 1);
        lemma_records_from_id_lines(lines, e);
        let rs = records_from(lines, i)->Ok_0;
        let rest = records_from(lines, e)->Ok_0;
        assert(rs == seq![record_at(lines, i)] + rest);
        assert forall|k: int| 0 <= k < rs.len() implies exists|p: int|
            i <= p < lines.len() && is_id_line(lines[p]) && #[trigger] rs[k] == (
                lines[p].drop_first(),
                lines.subrange(p + 1, body_end(lines, p + 1)).flatten(),
            ) && forall|q: int| p + 1 <= q < body_end(lines, p + 1) ==> is_body_line(#[trigger] lines[q]) by {
            if k == 0 {
                assert(rs[0] == record_at(lines, i));
            } else {
                assert(rs[k] == rest[k - 1]);
            }
        }
    }
}

/// The records of a well-formed text are those of its id lines, each with the
/// body lines below it joined in order.
pub proof fn lemma_record_bodies(text: Seq<char>)
    requires
        records_of(text) is Ok,
    ensures
        forall|k: int|
            0 <= k < records_of(text)->Ok_0.len() ==> exists|p: int|
                0 <= p < lines_of(text).len() && is_id_line(lines_of(text)[p])
                    && #[trigger] records_of(text)->Ok_0[k] == (
                    lines_of(text)[p].drop_first(),
                    lines_of(text).subrange(p + 1, body_end(lines_of(text), p + 1)).flatten(),
                ) && forall|q: int|
                    p + 1 <= q < body_end(lines_of(text), p + 1) ==> is_body_line(
                        #[trigger] lines_of(text)[q],
                    ),
{
    lemma_records_from_id_lines(lines_of(text), 0);
}

} // verus!
