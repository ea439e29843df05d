//! Hamming distance between two strings.
use vstd::prelude::*;

verus! {

/// How many of the first `n` positions hold different characters in `a` and `b`.
pub open spec fn mismatches(a: Seq<char>, b: Seq<char>, n: int) -> nat
    decreases n,
{
    if n <= 0 {
        0
    } else {
        mismatches(a, b, n - 1) + if a[n - 1] != b[n - 1] { 1nat } else { 0nat }
    }
}

/// The Hamming distance of two strings: the number of positions, up to the end
/// of the shorter one, where they differ.
pub open spec fn hamming(a: Seq<char>, b: Seq<char>) -> nat {
    mismatches(a, b, if a.len() <= b.len() { a.len() as int } else { b.len() as int })
}

proof fn lemma_mismatches_bound(a: Seq<char>, b: Seq<char>, n: int)
    requires
        0 <= n,
    ensures
        mismatches(a, b, n) <= n,
    decreases n,
{
    if n > 0 {
        lemma_mismatches_bound(a, b, n - 1);
    }
}

/// The error text for two strings of different lengths.
pub open spec fn length_mismatch_message(a: Seq<char>, b: Seq<char>) -> Seq<char> {
    "Cannot compare hamming distance of strings of different lengths:\n  "@ + a + "\n  "@ + b
}

/// The Hamming distance of two strings of the same length in bytes; an error
/// that names both strings when their lengths differ.
pub fn hamming_distance(str1: &str, str2: &str) -> (r: Result<u32, String>)
    requires
        str1@.len() <= u32::MAX,
    ensures
        r is Ok <==> str1.len() == str2.len(),
        r matches Ok(d) ==> d == hamming(str1@, str2@),
        r matches Err(e) ==> e@ == length_mismatch_message(str1@, str2@),
{
    if str1.len() != str2.len() {
        let mut msg = String::from_str("Cannot compare hamming distance of strings of different lengths:\n  ");
        msg.append(str1);
        msg.append("\n  ");
        msg.append(str2);
        return Err(msg);
    }
    let n1 = str1.unicode_len();
    let n2 = str2.unicode_len();
    let n = if n1 <= n2 { n1 } else { n2 };
    let mut distance: u32 = 0;
    let mut i: usize = 0;
    while i < n
        invariant
            n1 == str1@.len(),
            n2 == str2@.len(),
            n <= n1,
            n <= n2,
            n1 <= u32::MAX,
            i <= n,
            distance == mismatches(str1@, str2@, i as int),
        decreases n - i,
    {
        proof {
            lemma_mismatches_bound(str1@, str2@, i as int);
        }
        if str1.get_char(i) != str2.get_char(i) {
            distance = distance + 1;
        }
        i = i + 1;
    }
    Ok(distance)
}

} // verus!
