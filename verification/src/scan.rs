//! Section scanner: locates each recognized keyword acting as a section
//! label inside the raw spec text, tolerating the whitespace variants the
//! front end may produce, and returns the locations sorted by offset.

use vstd::prelude::*;
use crate::keyword::{Keyword, keyword_bytes, keyword_text, scan_order, scan_order_list};
use crate::search::{find_from, find_first, occurs_at, lemma_find_from_some};
use crate::text::{bytes_of, push_str_bytes};

verus! {

/// The whitespace written before the keyword in search variant `k`.
pub open spec fn sep_before(k: int) -> Seq<u8> {
    if k % 2 == 0 {
        bytes_of("\n")
    } else {
        bytes_of(" ")
    }
}

/// The text between the keyword and its colon in search variant `k`.
pub open spec fn sep_colon(k: int) -> Seq<u8> {
    if k < 4 {
        bytes_of(" :")
    } else {
        bytes_of("\n:")
    }
}

/// The whitespace written after the colon in search variant `k`.
pub open spec fn sep_after(k: int) -> Seq<u8> {
    if k % 4 < 2 {
        bytes_of("\n")
    } else {
        bytes_of(" ")
    }
}

/// The number of tolerated whitespace variants of a section label.
pub open spec fn variant_count() -> int {
    8
}

/// Search variant `k` of the label of keyword `kw`: whitespace, the keyword,
/// whitespace and a colon, whitespace. The payload starts right after.
pub open spec fn label_pattern(kw: Keyword, k: int) -> Seq<u8> {
    sep_before(k) + keyword_bytes(kw) + sep_colon(k) + sep_after(k)
}

/// Builds search variant `k` of the label of `kw`.
fn build_pattern(kw: Keyword, k: usize) -> (v: Vec<u8>)
    requires
        0 <= k < variant_count(),
    ensures
        v@ == label_pattern(kw, k as int),
{
    let mut v: Vec<u8> = Vec::new();
    if k % 2 == 0 {
        push_str_bytes(&mut v, "\n");
    } else {
        push_str_bytes(&mut v, " ");
    }
    push_str_bytes(&mut v, keyword_text(kw));
    if k < 4 {
        push_str_bytes(&mut v, " :");
    } else {
        push_str_bytes(&mut v, "\n:");
    }
    if k % 4 < 2 {
        push_str_bytes(&mut v, "\n");
    } else {
        push_str_bytes(&mut v, " ");
    }
    v
}

/// The location of keyword `kw` as a label, trying the whitespace variants
/// from `k` on, in order; the first variant with any occurrence wins and
/// contributes its leftmost occurrence. Yields the label offset and the
/// offset where the payload starts.
pub open spec fn find_label_from(text: Seq<u8>, kw: Keyword, k: int) -> Option<(int, int)>
    decreases variant_count() - k,
{
    if k < 0 || k >= variant_count() {
        None
    } else {
        match find_from(text, label_pattern(kw, k), 0) {
            Some(i) => Some((i, i + label_pattern(kw, k).len() as int)),
            None => find_label_from(text, kw, k + 1),
        }
    }
}

/// The location of keyword `kw` as a section label in `text`.
pub open spec fn spec_find_label(text: Seq<u8>, kw: Keyword) -> Option<(int, int)> {
    find_label_from(text, kw, 0)
}

/// A located label is in bounds: the payload starts after the label and no
/// later than end of input.
pub proof fn lemma_find_label_bounds(text: Seq<u8>, kw: Keyword, k: int, o: int, p: int)
    requires
        find_label_from(text, kw, k) == Some((o, p)),
    ensures
        0 <= o <= p <= text.len(),
    decreases variant_count() - k,
{
    if 0 <= k < variant_count() {
        match find_from(text, label_pattern(kw, k), 0) {
            Some(i) => {
                lemma_find_from_some(text, label_pattern(kw, k), 0, i);
            },
            None => {
                lemma_find_label_bounds(text, kw, k + 1, o, p);
            },
        }
    }
}

/// Finds the first label of `kw` in `text`, trying the whitespace variants
/// in order.
pub fn find_label(text: &[u8], kw: Keyword) -> (r: Option<(usize, usize)>)
    ensures
        match r {
            Some((o, p)) => spec_find_label(text@, kw) == Some((o as int, p as int)) && o <= p
                <= text@.len(),
            None => spec_find_label(text@, kw) == None::<(int, int)>,
        },
{
    let mut k: usize = 0;
    while k < 8
        invariant
            0 <= k <= 8,
            variant_count() == 8,
            find_label_from(text@, kw, 0) == find_label_from(text@, kw, k as int),
        decreases 8 - k,
    {
        let pat = build_pattern(kw, k);
        match find_first(text, pat.as_slice()) {
            Some(i) => {
                proof {
                    lemma_find_from_some(text@, pat@, 0, i as int);
                }
                let tl: usize = text.len();
                assert(i + pat@.len() <= tl);
                let p: usize = i + pat.len();
                return Some((i, p));
            },
            None => {},
        }
        k = k + 1;
    }
    None
}

/// A located section: where its label starts, which keyword labels it, and
/// where its payload starts.
pub struct SectionLocation {
    pub offset: usize,
    pub keyword: Keyword,
    pub payload_start: usize,
}

impl SectionLocation {
    /// The mathematical location: offset, keyword, payload start.
    pub open spec fn model(&self) -> (int, Keyword, int) {
        (self.offset as int, self.keyword, self.payload_start as int)
    }
}

/// The models of a list of locations.
pub open spec fn loc_models(s: Seq<SectionLocation>) -> Seq<(int, Keyword, int)> {
    s.map_values(|loc: SectionLocation| loc.model())
}

/// A location lies within a text of length `len`: the payload starts at or
/// after the label, at or before end of input.
pub open spec fn loc_ok(x: (int, Keyword, int), len: int) -> bool {
    0 <= x.0 <= x.2 <= len
}

/// Every location lies within a text of length `len`.
pub open spec fn locs_in_bounds(s: Seq<(int, Keyword, int)>, len: int) -> bool {
    forall|i: int| 0 <= i < s.len() ==> loc_ok(#[trigger] s[i], len)
}

/// The sections found in `text` for the keywords in `kws`, in keyword-scan
/// order, before sorting.
pub open spec fn scan_list(text: Seq<u8>, kws: Seq<Keyword>) -> Seq<(int, Keyword, int)>
    decreases kws.len(),
{
    if kws.len() == 0 {
        Seq::empty()
    } else {
        (match spec_find_label(text, kws[0]) {
            Some((o, p)) => seq![(o, kws[0], p)],
            None => Seq::empty(),
        }) + scan_list(text, kws.drop_first())
    }
}

/// Inserts `x` into `s` (sorted by offset), after any entries with the same
/// offset, so that the sort below is stable.
pub open spec fn insert_sorted(s: Seq<(int, Keyword, int)>, x: (int, Keyword, int)) -> Seq<
    (int, Keyword, int),
>
    decreases s.len(),
{
    if s.len() == 0 {
        seq![x]
    } else if s.last().0 <= x.0 {
        s.push(x)
    } else {
        insert_sorted(s.drop_last(), x).push(s.last())
    }
}

/// Stable insertion sort of locations by offset.
pub open spec fn sort_locations(s: Seq<(int, Keyword, int)>) -> Seq<(int, Keyword, int)>
    decreases s.len(),
{
    if s.len() == 0 {
        Seq::empty()
    } else {
        insert_sorted(sort_locations(s.drop_last()), s.last())
    }
}

/// All the section locations of `text`: the synthetic `name` section at
/// offset zero, then every located keyword, sorted by offset.
pub open spec fn spec_locations(text: Seq<u8>) -> Seq<(int, Keyword, int)> {
    sort_locations(seq![(0int, Keyword::Name, 0int)] + scan_list(text, scan_order()))
}

/// Inserting into a list at the position found by scanning from the right
/// matches `insert_sorted`.
proof fn lemma_insert_sorted_at(s: Seq<(int, Keyword, int)>, x: (int, Keyword, int), j: int)
    requires
        0 <= j <= s.len(),
        forall|k: int| j <= k < s.len() ==> #[trigger] s[k].0 > x.0,
        j > 0 ==> s[j - 1].0 <= x.0,
    ensures
        insert_sorted(s, x) == s.subrange(0, j) + seq![x] + s.subrange(j, s.len() as int),
    decreases s.len(),
{
    if s.len() == 0 {
        assert(insert_sorted(s, x) =~= s.subrange(0, j) + seq![x] + s.subrange(
            j,
            s.len() as int,
        ));
    } else if s.last().0 <= x.0 {
        assert(j == s.len());
        assert(insert_sorted(s, x) =~= s.subrange(0, j) + seq![x] + s.subrange(
            j,
            s.len() as int,
        ));
    } else {
        assert(j < s.len());
        lemma_insert_sorted_at(s.drop_last(), x, j);
        assert(s.drop_last().subrange(0, j) =~= s.subrange(0, j));
        assert(s.drop_last().subrange(j, s.len() - 1) =~= s.subrange(j, s.len() - 1));
        assert((s.subrange(0, j) + seq![x] + s.subrange(j, s.len() - 1)).push(s.last()) =~= s
            .subrange(0, j) + seq![x] + s.subrange(j, s.len() as int));
    }
}

/// Inserts `x` into the offset-sorted vector `v`, keeping arrival order
/// among equal offsets.
fn insert_location(v: &mut Vec<SectionLocation>, x: SectionLocation)
    ensures
        loc_models(final(v)@) == insert_sorted(loc_models(old(v)@), x.model()),
{
    let mut j: usize = v.len();
    while j > 0 && v[j - 1].offset > x.offset
        invariant
            0 <= j <= v@.len(),
            forall|k: int| j <= k < v@.len() ==> #[trigger] v@[k].offset > x.offset,
        decreases j,
    {
        j = j - 1;
    }
    proof {
        lemma_insert_sorted_at(loc_models(v@), x.model(), j as int);
    }
    let ghost before = v@;
    v.insert(j, x);
    proof {
        assert(loc_models(v@) =~= loc_models(before).subrange(0, j as int) + seq![x.model()]
            + loc_models(before).subrange(j as int, before.len() as int));
    }
}

/// Scans `text` for every recognized section label and returns the located
/// sections sorted by offset, the synthetic `name` section first among
/// offset ties.
pub fn scan_sections(text: &[u8]) -> (r: Vec<SectionLocation>)
    ensures
        loc_models(r@) == spec_locations(text@),
        locs_in_bounds(loc_models(r@), text@.len() as int),
{
    let mut found: Vec<SectionLocation> = Vec::new();
    found.push(SectionLocation { offset: 0, keyword: Keyword::Name, payload_start: 0 });
    assert(loc_models(found@) =~= seq![(0int, Keyword::Name, 0int)]);
    let kws = scan_order_list();
    let ghost all = seq![(0int, Keyword::Name, 0int)] + scan_list(text@, scan_order());
    proof {
        assert(kws@.skip(0) =~= kws@);
    }
    let mut i: usize = 0;
    while i < kws.len()
        invariant
            0 <= i <= kws@.len(),
            kws@ == scan_order(),
            all == seq![(0int, Keyword::Name, 0int)] + scan_list(text@, scan_order()),
            loc_models(found@) + scan_list(text@, kws@.skip(i as int)) =~= all,
            locs_in_bounds(loc_models(found@), text@.len() as int),
        decreases kws@.len() - i,
    {
        let kw = kws[i];
        proof {
            assert(kws@.skip(i as int)[0] == kw);
            assert(kws@.skip(i as int).drop_first() =~= kws@.skip(i + 1 as int));
        }
        match find_label(text, kw) {
            Some((o, p)) => {
                let ghost prev = found@;
                found.push(SectionLocation { offset: o, keyword: kw, payload_start: p });
                proof {
                    assert(loc_models(found@) =~= loc_models(prev).push((o as int, kw, p as int)));
                    let lm = loc_models(found@);
                    assert forall|k: int| 0 <= k < lm.len() implies loc_ok(
                        #[trigger] lm[k],
                        text@.len() as int,
                    ) by {
                        if k < lm.len() - 1 {
                            assert(lm[k] == loc_models(prev)[k]);
                        }
                    }
                }
            },
            None => {},
        }
        i = i + 1;
    }
    proof {
        assert(kws@.skip(kws@.len() as int) =~= Seq::<Keyword>::empty());
        assert(loc_models(found@) =~= all);
    }
    let mut sorted: Vec<SectionLocation> = Vec::new();
    let mut i: usize = 0;
    while i < found.len()
        invariant
            0 <= i <= found@.len(),
            loc_models(sorted@) == sort_locations(loc_models(found@).subrange(0, i as int)),
            locs_in_bounds(loc_models(found@), text@.len() as int),
            locs_in_bounds(loc_models(sorted@), text@.len() as int),
        decreases found@.len() - i,
    {
        let x = SectionLocation {
            offset: found[i].offset,
            keyword: found[i].keyword,
            payload_start: found[i].payload_start,
        };
        assert(x.model() == loc_models(found@)[i as int]);
        insert_location(&mut sorted, x);
        proof {
            assert(loc_models(found@).subrange(0, i + 1 as int).drop_last() =~= loc_models(
                found@,
            ).subrange(0, i as int));
            assert(loc_models(found@).subrange(0, i + 1 as int).last() == x.model());
            lemma_insert_sorted_in_bounds(
                sort_locations(loc_models(found@).subrange(0, i as int)),
                x.model(),
                text@.len() as int,
            );
        }
        i = i + 1;
    }
    proof {
        assert(loc_models(found@).subrange(0, found@.len() as int) =~= loc_models(found@));
    }
    sorted
}

/// Insertion into a bounded list of a bounded element stays bounded.
proof fn lemma_insert_sorted_in_bounds(
    s: Seq<(int, Keyword, int)>,
    x: (int, Keyword, int),
    len: int,
)
    requires
        locs_in_bounds(s, len),
        0 <= x.0 <= x.2 <= len,
    ensures
        locs_in_bounds(insert_sorted(s, x), len),
    decreases s.len(),
{
    if s.len() == 0 {
    } else if s.last().0 <= x.0 {
    } else {
        assert(locs_in_bounds(s.drop_last(), len));
        lemma_insert_sorted_in_bounds(s.drop_last(), x, len);
    }
}

/// Every location the scanner contributes lies within the text.
proof fn lemma_scan_list_bounds(text: Seq<u8>, kws: Seq<Keyword>)
    ensures
        locs_in_bounds(scan_list(text, kws), text.len() as int),
    decreases kws.len(),
{
    if kws.len() == 0 {
    } else {
        lemma_scan_list_bounds(text, kws.drop_first());
        let rest = scan_list(text, kws.drop_first());
        match spec_find_label(text, kws[0]) {
            Some((o, p)) => {
                lemma_find_label_bounds(text, kws[0], 0, o, p);
                let head = seq![(o, kws[0], p)];
                assert forall|i: int| 0 <= i < (head + rest).len() implies loc_ok(
                    #[trigger] (head + rest)[i],
                    text.len() as int,
                ) by {
                    if i > 0 {
                        assert((head + rest)[i] == rest[i - 1]);
                    }
                }
            },
            None => {
                assert(Seq::<(int, Keyword, int)>::empty() + rest =~= rest);
            },
        }
    }
}

/// Inserting an element whose offset is no smaller than the head's leaves
/// the head in place.
proof fn lemma_insert_sorted_head(s: Seq<(int, Keyword, int)>, x: (int, Keyword, int))
    requires
        s.len() >= 1,
        s[0].0 <= x.0,
    ensures
        insert_sorted(s, x).len() == s.len() + 1,
        insert_sorted(s, x)[0] == s[0],
    decreases s.len(),
{
    if s.last().0 <= x.0 {
    } else {
        assert(s.len() >= 2);
        assert(s.drop_last()[0] == s[0]);
        lemma_insert_sorted_head(s.drop_last(), x);
    }
}

/// Sorting a list whose head is the synthetic `name` location keeps it at
/// the head: its offset is minimal and the sort is stable.
proof fn lemma_sort_keeps_name_head(s: Seq<(int, Keyword, int)>, len: int)
    requires
        s.len() >= 1,
        s[0] == (0int, Keyword::Name, 0int),
        locs_in_bounds(s, len),
    ensures
        sort_locations(s).len() == s.len(),
        sort_locations(s)[0] == s[0],
    decreases s.len(),
{
    if s.len() == 1 {
        assert(s.drop_last() =~= Seq::<(int, Keyword, int)>::empty());
        assert(sort_locations(s) =~= seq![s[0]]);
    } else {
        assert(s.drop_last()[0] == s[0]);
        assert forall|i: int| 0 <= i < s.drop_last().len() implies loc_ok(
            #[trigger] s.drop_last()[i],
            len,
        ) by {
            assert(s.drop_last()[i] == s[i]);
            assert(loc_ok(s[i], len));
        }
        lemma_sort_keeps_name_head(s.drop_last(), len);
        assert(loc_ok(s[s.len() - 1], len));
        lemma_insert_sorted_head(sort_locations(s.drop_last()), s.last());
    }
}

/// The locations are ordered by label offset.
pub open spec fn locs_sorted(s: Seq<(int, Keyword, int)>) -> bool {
    forall|i: int, j: int| 0 <= i < j < s.len() ==> (#[trigger] s[i]).0 <= (#[trigger] s[j]).0
}

/// Insertion yields the inserted element and the original ones, one more
/// in number.
proof fn lemma_insert_sorted_elems(s: Seq<(int, Keyword, int)>, x: (int, Keyword, int))
    ensures
        insert_sorted(s, x).len() == s.len() + 1,
        forall|k: int|
            0 <= k < insert_sorted(s, x).len() ==> (#[trigger] insert_sorted(s, x)[k] == x
                || s.contains(insert_sorted(s, x)[k])),
    decreases s.len(),
{
    if s.len() == 0 {
    } else if s.last().0 <= x.0 {
        assert forall|k: int| 0 <= k < insert_sorted(s, x).len() implies (
        #[trigger] insert_sorted(s, x)[k] == x || s.contains(insert_sorted(s, x)[k])) by {
            if k < s.len() {
                assert(insert_sorted(s, x)[k] == s[k]);
            }
        }
    } else {
        lemma_insert_sorted_elems(s.drop_last(), x);
        let r = insert_sorted(s.drop_last(), x).push(s.last());
        assert forall|k: int| 0 <= k < r.len() implies (#[trigger] r[k] == x || s.contains(
            r[k],
        )) by {
            if k < r.len() - 1 {
                assert(r[k] == insert_sorted(s.drop_last(), x)[k]);
                if insert_sorted(s.drop_last(), x)[k] != x {
                    let j = choose|j: int|
                        0 <= j < s.drop_last().len() && s.drop_last()[j] == insert_sorted(
                            s.drop_last(),
                            x,
                        )[k];
                    assert(s[j] == r[k]);
                }
            } else {
                assert(r[k] == s.last());
                assert(s[s.len() - 1] == s.last());
            }
        }
    }
}

/// Inserting into an offset-ordered list keeps it ordered.
proof fn lemma_insert_sorted_sorted(s: Seq<(int, Keyword, int)>, x: (int, Keyword, int))
    requires
        locs_sorted(s),
    ensures
        locs_sorted(insert_sorted(s, x)),
    decreases s.len(),
{
    if s.len() == 0 {
    } else if s.last().0 <= x.0 {
        let r = s.push(x);
        assert forall|i: int, j: int| 0 <= i < j < r.len() implies (#[trigger] r[i]).0 <= (
        #[trigger] r[j]).0 by {
            if j < s.len() {
            } else {
                if i < s.len() - 1 {
                    assert(s[i].0 <= s[s.len() - 1].0);
                }
            }
        }
    } else {
        assert(locs_sorted(s.drop_last())) by {
            assert(forall|i: int, j: int|
                0 <= i < j < s.drop_last().len() ==> (#[trigger] s.drop_last()[i]).0 <= (
                #[trigger] s.drop_last()[j]).0);
        }
        lemma_insert_sorted_sorted(s.drop_last(), x);
        lemma_insert_sorted_elems(s.drop_last(), x);
        let p = insert_sorted(s.drop_last(), x);
        let r = p.push(s.last());
        assert forall|i: int, j: int| 0 <= i < j < r.len() implies (#[trigger] r[i]).0 <= (
        #[trigger] r[j]).0 by {
            if j < p.len() {
            } else {
                assert(r[j] == s.last());
                assert(r[i] == p[i]);
                if p[i] == x {
                } else {
                    let k = choose|k: int| 0 <= k < s.drop_last().len() && s.drop_last()[k] == p[i];
                    assert(s[k].0 <= s[s.len() - 1].0);
                }
            }
        }
    }
}

/// Sorting yields an offset-ordered list.
proof fn lemma_sort_locations_sorted(s: Seq<(int, Keyword, int)>)
    ensures
        locs_sorted(sort_locations(s)),
    decreases s.len(),
{
    if s.len() == 0 {
    } else {
        lemma_sort_locations_sorted(s.drop_last());
        lemma_insert_sorted_sorted(sort_locations(s.drop_last()), s.last());
    }
}

/// Law: the section locations of any text stand in offset order.
pub proof fn lemma_locations_sorted(text: Seq<u8>)
    ensures
        locs_sorted(spec_locations(text)),
{
    lemma_sort_locations_sorted(seq![(0int, Keyword::Name, 0int)] + scan_list(text, scan_order()));
}

/// Law: the synthetic `name` section occupies position 0 of the sorted
/// locations of any text, with both its label offset and its payload start
/// at zero.
pub proof fn lemma_name_location_first(text: Seq<u8>)
    ensures
        spec_locations(text).len() >= 1,
        spec_locations(text)[0] == (0int, Keyword::Name, 0int),
{
    let name = (0int, Keyword::Name, 0int);
    let all = seq![name] + scan_list(text, scan_order());
    lemma_scan_list_bounds(text, scan_order());
    assert(all[0] == name);
    assert forall|i: int| 0 <= i < all.len() implies loc_ok(#[trigger] all[i], text.len() as int) by {
        if i > 0 {
            assert(all[i] == scan_list(text, scan_order())[i - 1]);
            assert(loc_ok(scan_list(text, scan_order())[i - 1], text.len() as int));
        }
    }
    lemma_sort_keeps_name_head(all, text.len() as int);
}

} // verus!
