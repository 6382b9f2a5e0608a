//! Leftmost substring search over byte sequences, the primitive under the
//! section scanner.

use vstd::prelude::*;

verus! {

/// `pat` occurs in `text` starting at position `i`.
pub open spec fn occurs_at(text: Seq<u8>, pat: Seq<u8>, i: int) -> bool {
    &&& 0 <= i
    &&& i + pat.len() <= text.len()
    &&& text.subrange(i, i + pat.len() as int) == pat
}

/// `pat` occurs somewhere in `text`.
pub open spec fn occurs(text: Seq<u8>, pat: Seq<u8>) -> bool {
    exists|i: int| occurs_at(text, pat, i)
}

/// The leftmost occurrence of `pat` in `text` at or after position `i`.
pub open spec fn find_from(text: Seq<u8>, pat: Seq<u8>, i: int) -> Option<int>
    decreases text.len() - i,
{
    if i < 0 || i + pat.len() > text.len() {
        None
    } else if pat.len() == 0 {
        Some(i)
    } else if text.subrange(i, i + pat.len() as int) == pat {
        Some(i)
    } else {
        find_from(text, pat, i + 1)
    }
}

/// What `find_from` returns is an occurrence, and the leftmost one at or
/// after the start position.
pub proof fn lemma_find_from_some(text: Seq<u8>, pat: Seq<u8>, i: int, r: int)
    requires
        find_from(text, pat, i) == Some(r),
    ensures
        i <= r,
        occurs_at(text, pat, r),
        forall|k: int| i <= k < r ==> !occurs_at(text, pat, k),
    decreases text.len() - i,
{
    if i < 0 || i + pat.len() > text.len() {
    } else if pat.len() == 0 {
        assert(text.subrange(i, i) =~= pat);
    } else if text.subrange(i, i + pat.len() as int) == pat {
    } else {
        lemma_find_from_some(text, pat, i + 1, r);
    }
}

/// When `find_from` fails there is no occurrence at or after the start.
pub proof fn lemma_find_from_none(text: Seq<u8>, pat: Seq<u8>, i: int)
    requires
        find_from(text, pat, i) == None::<int>,
        0 <= i,
    ensures
        forall|k: int| i <= k ==> !occurs_at(text, pat, k),
    decreases text.len() - i,
{
    if i + pat.len() > text.len() {
        assert forall|k: int| i <= k implies !occurs_at(text, pat, k) by {}
    } else if pat.len() == 0 {
        assert(text.subrange(i, i) =~= pat);
    } else if text.subrange(i, i + pat.len() as int) == pat {
    } else {
        lemma_find_from_none(text, pat, i + 1);
    }
}

/// Not matching at the start position moves the leftmost search one to the
/// right.
proof fn lemma_find_from_step(text: Seq<u8>, pat: Seq<u8>, i: int)
    requires
        0 <= i,
        pat.len() > 0,
        !occurs_at(text, pat, i),
    ensures
        find_from(text, pat, i) == find_from(text, pat, i + 1),
{
    if i + pat.len() > text.len() {
        if i + 1 + pat.len() <= text.len() {
            assert(false);
        }
    }
}

/// Leftmost occurrence of `pat` in `text`, found by direct comparison at
/// every position from the left.
pub fn find_first(text: &[u8], pat: &[u8]) -> (r: Option<usize>)
    ensures
        match r {
            Some(p) => find_from(text@, pat@, 0) == Some(p as int),
            None => find_from(text@, pat@, 0) == None::<int>,
        },
{
    let tlen: usize = text.len();
    let plen: usize = pat.len();
    if plen > tlen {
        return None;
    }
    if plen == 0 {
        return Some(0);
    }
    let end: usize = tlen - plen;
    let mut i: usize = 0;
    loop
        invariant
            0 <= i <= end + 1,
            plen == pat@.len(),
            tlen == text@.len(),
            plen > 0,
            end == tlen - plen,
            find_from(text@, pat@, 0) == find_from(text@, pat@, i as int),
        decreases end + 1 - i,
    {
        if i > end {
            assert(find_from(text@, pat@, i as int) == None::<int>);
            return None;
        }
        let mut j: usize = 0;
        let mut matched = true;
        while j < plen
            invariant
                0 <= j <= plen,
                plen == pat@.len(),
                tlen == text@.len(),
                i + plen <= tlen,
                matched ==> text@.subrange(i as int, i + j as int) =~= pat@.subrange(0, j as int),
                !matched ==> !occurs_at(text@, pat@, i as int),
            decreases plen - j,
        {
            if matched && text[i + j] != pat[j] {
                proof {
                    if occurs_at(text@, pat@, i as int) {
                        assert(text@.subrange(i as int, i + pat@.len() as int)[j as int]
                            == pat@[j as int]);
                    }
                }
                matched = false;
            }
            proof {
                if matched {
                    assert(text@.subrange(i as int, i + (j + 1) as int) =~= text@.subrange(
                        i as int,
                        i + j as int,
                    ).push(text@[i + j]));
                    assert(pat@.subrange(0, (j + 1) as int) =~= pat@.subrange(0, j as int).push(
                        pat@[j as int],
                    ));
                }
            }
            j = j + 1;
        }
        if matched {
            proof {
                assert(text@.subrange(i as int, i + pat@.len() as int) =~= pat@.subrange(
                    0,
                    pat@.len() as int,
                ));
                assert(pat@.subrange(0, pat@.len() as int) =~= pat@);
            }
            return Some(i);
        }
        proof {
            lemma_find_from_step(text@, pat@, i as int);
        }
        i = i + 1;
    }
}

} // verus!
