//! Content policy: a yes/no scan for disallowed terms in post text.

use vstd::prelude::*;

verus! {

/// The needle occurs in the haystack as a contiguous run of characters.
pub open spec fn contains_term(h: Seq<char>, t: Seq<char>) -> bool {
    exists|i: int|
        0 <= i && i + t.len() <= h.len() && #[trigger] h.subrange(i, i + t.len() as int) == t
}

/// Some term of the list occurs in the text.
pub open spec fn contains_any(h: Seq<char>, terms: Seq<Seq<char>>) -> bool {
    exists|k: int| 0 <= k < terms.len() && contains_term(h, #[trigger] terms[k])
}

/// Whether the needle occurs in the haystack, by direct character scan.
pub fn find_term(h: &str, t: &str) -> (r: bool)
    ensures
        r == contains_term(h@, t@),
{
    let hn: usize = h.unicode_len();
    let tn: usize = t.unicode_len();
    if tn > hn {
        assert(!contains_term(h@, t@));
        return false;
    }
    if tn == 0 {
        assert(h@.subrange(0, 0 + t@.len() as int) =~= t@);
        return true;
    }
    let mut i: usize = 0;
    while i <= hn - tn
        invariant
            1 <= tn <= hn,
            hn == h@.len(),
            tn == t@.len(),
            i <= hn - tn + 1,
            forall|x: int| 0 <= x < i ==> #[trigger] h@.subrange(x, x + tn as int) != t@,
        decreases hn - tn - i + 1,
    {
        let mut j: usize = 0;
        let mut matched: bool = true;
        while j < tn
            invariant
                tn <= hn,
                hn == h@.len(),
                tn == t@.len(),
                i <= hn - tn,
                j <= tn,
                matched ==> forall|y: int| 0 <= y < j ==> h@[i + y] == t@[y],
                !matched ==> h@.subrange(i as int, i + tn as int) != t@,
            decreases tn - j,
        {
            let hc = h.get_char(i + j);
            let tc = t.get_char(j);
            if hc != tc {
                assert(h@.subrange(i as int, i + tn as int)[j as int] == h@[i + j]);
                matched = false;
                j = tn;
            } else {
                j = j + 1;
            }
        }
        if matched {
            assert(h@.subrange(i as int, i + tn as int) =~= t@);
            return true;
        }
        i = i + 1;
    }
    assert forall|x: int| 0 <= x && x + t@.len() <= h@.len()
        implies #[trigger] h@.subrange(x, x + t@.len() as int) != t@ by {
        assert(x < i);
    }
    false
}

/// Whether any term of the list occurs in the text.
pub fn has_disallowed(text: &str, terms: &Vec<String>) -> (r: bool)
    ensures
        r == contains_any(text@, terms@.map_values(|t: String| t@)),
{
    let ghost termviews = terms@.map_values(|t: String| t@);
    let mut k: usize = 0;
    while k < terms.len()
        invariant
            termviews == terms@.map_values(|t: String| t@),
            k <= terms.len(),
            forall|x: int| 0 <= x < k ==> !contains_term(text@, #[trigger] termviews[x]),
        decreases terms.len() - k,
    {
        if find_term(text, terms[k].as_str()) {
            assert(contains_term(text@, termviews[k as int]));
            return true;
        }
        k = k + 1;
    }
    false
}

} // verus!
