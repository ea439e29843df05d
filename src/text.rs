//! Text helpers: cutting a text into lines, and appending a character.
use vstd::prelude::*;

verus! {

/// Appends one character to a string.
/// Relies on `String::push`: the character is added at the end, nothing else changes.
#[verifier::external_body]
pub(crate) fn push_char(s: &mut String, c: char)
    ensures
        final(s)@ == old(s)@.push(c),
{
    s.push(c)
}

/// The character views of a sequence of strings.
pub open spec fn views(v: Seq<String>) -> Seq<Seq<char>> {
    v.map_values(|s: String| s@)
}

/// Offset of the first `'\n'` in `t`, or `t.len()` when there is none.
pub open spec fn newline_offset(t: Seq<char>) -> nat
    decreases t.len(),
{
    if t.len() == 0 {
        0
    } else if t[0] == '\n' {
        0
    } else {
        1 + newline_offset(t.drop_first())
    }
}

pub proof fn lemma_newline_offset_bound(t: Seq<char>)
    ensures
        newline_offset(t) <= t.len(),
        newline_offset(t) < t.len() ==> t[newline_offset(t) as int] == '\n',
    decreases t.len(),
{
    if t.len() > 0 && t[0] != '\n' {
        lemma_newline_offset_bound(t.drop_first());
    }
}

/// `newline_offset` is the position of the first newline, found by a scan.
pub proof fn lemma_newline_offset_at(t: Seq<char>, k: int)
    requires
        0 <= k <= t.len(),
        k < t.len() ==> t[k] == '\n',
        forall|j: int| 0 <= j < k ==> t[j] != '\n',
    ensures
        newline_offset(t) == k,
    decreases k,
{
    if k > 0 {
        lemma_newline_offset_at(t.drop_first(), k - 1);
    }
}

/// The text of a line that ended with `'\n'`: a `'\r'` just before the newline
/// is part of the line ending, not of the line.
pub open spec fn strip_cr(l: Seq<char>) -> Seq<char> {
    if l.len() > 0 && l.last() == '\r' {
        l.drop_last()
    } else {
        l
    }
}

/// The lines of a text: it is cut at each `'\n'` (or `"\r\n"`), the line
/// endings are dropped, and a final line ending is optional.
pub open spec fn lines_of(t: Seq<char>) -> Seq<Seq<char>>
    decreases t.len(),
    via lines_of_decreases
{
    if t.len() == 0 {
        Seq::empty()
    } else {
        let k = newline_offset(t) as int;
        if k < t.len() {
            seq![strip_cr(t.subrange(0, k))] + lines_of(t.subrange(k + 1, t.len() as int))
        } else {
            seq![t]
        }
    }
}

#[via_fn]
proof fn lines_of_decreases(t: Seq<char>) {
    lemma_newline_offset_bound(t);
}

/// Cuts a text into its lines.
pub fn split_lines(text: &str) -> (lines: Vec<String>)
    ensures
        views(lines@) == lines_of(text@),
{
    let n = text.unicode_len();
    let mut lines: Vec<String> = Vec::new();
    let mut start: usize = 0;
    let mut i: usize = 0;
    assert(text@.subrange(0, n as int) =~= text@);
    assert(views(lines@) + lines_of(text@) =~= lines_of(text@));
    while i < n
        invariant
            n == text@.len(),
            start <= i <= n,
            forall|j: int| start <= j < i ==> text@[j] != '\n',
            views(lines@) + lines_of(text@.subrange(start as int, n as int)) == lines_of(text@),
        decreases n - i,
    {
        let c = text.get_char(i);
        if c == '\n' {
            let mut end = i;
            if end > start && text.get_char(end - 1) == '\r' {
                end = end - 1;
            }
            let line = String::from_str(text.substring_char(start, end));
            proof {
                let u = text@.subrange(start as int, n as int);
                let k = i - start;
                lemma_newline_offset_at(u, k);
                assert(u.subrange(k + 1, u.len() as int) =~= text@.subrange(i + 1, n as int));
                assert(line@ == strip_cr(u.subrange(0, k)));
                assert(views(lines@.push(line)) =~= views(lines@).push(line@));
                assert(views(lines@).push(line@) + lines_of(text@.subrange(i + 1, n as int))
                    =~= views(lines@) + lines_of(u));
            }
            lines.push(line);
            start = i + 1;
        }
        i = i + 1;
    }
    if start < n {
        let line = String::from_str(text.substring_char(start, n));
        proof {
            let u = text@.subrange(start as int, n as int);
            lemma_newline_offset_at(u, u.len() as int);
            assert(views(lines@.push(line)) =~= views(lines@).push(line@));
            assert(views(lines@).push(line@) =~= views(lines@) + lines_of(u));
        }
        lines.push(line);
    } else {
        assert(views(lines@) =~= views(lines@) + lines_of(text@.subrange(start as int, n as int)));
    }
    lines
}

} // verus!
