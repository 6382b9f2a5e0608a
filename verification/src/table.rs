//! Attribute table: the ordered mapping from keyword to raw payload text,
//! sliced out of the spec text between consecutive section labels.

use vstd::prelude::*;
use crate::keyword::Keyword;
use crate::scan::{
    SectionLocation,
    loc_models,
    loc_ok,
    locs_in_bounds,
    spec_locations,
    scan_sections,
};
use crate::text::copy_range;

verus! {

/// The ordered table of sections: keyword and raw payload, in offset order,
/// the synthetic `name` section first.
pub struct AttributeTable {
    pub entries: Vec<(Keyword, Vec<u8>)>,
}

impl AttributeTable {
    /// The mathematical table: a sequence of keyword/payload pairs.
    pub open spec fn model(&self) -> Seq<(Keyword, Seq<u8>)> {
        Seq::new(self.entries@.len(), |i: int| (self.entries@[i].0, self.entries@[i].1@))
    }

    /// The payload of the first entry labelled `kw`, if the table has one.
    pub fn get(&self, kw: Keyword) -> (r: Option<&Vec<u8>>)
        ensures
            match r {
                Some(v) => table_has(self.model(), kw) && v@ == table_payload(self.model(), kw),
                None => !table_has(self.model(), kw),
            },
    {
        let mut i: usize = 0;
        while i < self.entries.len()
            invariant
                0 <= i <= self.entries@.len(),
                forall|j: int| 0 <= j < i ==> (#[trigger] self.model()[j]).0 != kw,
            decreases self.entries@.len() - i,
        {
            if keyword_eq(self.entries[i].0, kw) {
                proof {
                    lemma_table_payload_at(self.model(), kw, i as int);
                }
                return Some(&self.entries[i].1);
            }
            i = i + 1;
        }
        proof {
            if table_has(self.model(), kw) {
                let j = choose|j: int|
                    0 <= j < self.model().len() && (#[trigger] self.model()[j]).0 == kw;
                assert(self.model()[j].0 != kw);
            }
        }
        None
    }
}

/// Executable keyword equality.
pub fn keyword_eq(a: Keyword, b: Keyword) -> (r: bool)
    ensures
        r == (a == b),
{
    a == b
}

/// The table has an entry labelled `kw`.
pub open spec fn table_has(m: Seq<(Keyword, Seq<u8>)>, kw: Keyword) -> bool {
    exists|i: int| 0 <= i < m.len() && (#[trigger] m[i]).0 == kw
}

/// The payload of the first entry labelled `kw`; empty when there is none.
pub open spec fn table_payload(m: Seq<(Keyword, Seq<u8>)>, kw: Keyword) -> Seq<u8>
    decreases m.len(),
{
    if m.len() == 0 {
        Seq::empty()
    } else if m[0].0 == kw {
        m[0].1
    } else {
        table_payload(m.drop_first(), kw)
    }
}

/// If the first entry labelled `kw` stands at position `i`, the payload of
/// `kw` is that entry's payload.
pub proof fn lemma_table_payload_at(m: Seq<(Keyword, Seq<u8>)>, kw: Keyword, i: int)
    requires
        0 <= i < m.len(),
        m[i].0 == kw,
        forall|j: int| 0 <= j < i ==> (#[trigger] m[j]).0 != kw,
    ensures
        table_has(m, kw),
        table_payload(m, kw) == m[i].1,
    decreases i,
{
    if i == 0 {
    } else {
        assert(m.drop_first()[i - 1] == m[i]);
        assert(forall|j: int| 0 <= j < i - 1 ==> (#[trigger] m.drop_first()[j]).0 != kw);
        lemma_table_payload_at(m.drop_first(), kw, i - 1);
    }
}

/// A table without an entry labelled `kw` yields the empty payload.
pub proof fn lemma_table_payload_absent(m: Seq<(Keyword, Seq<u8>)>, kw: Keyword)
    requires
        !table_has(m, kw),
    ensures
        table_payload(m, kw) == Seq::<u8>::empty(),
    decreases m.len(),
{
    if m.len() == 0 {
    } else {
        assert(m[0].0 != kw);
        assert(forall|j: int|
            0 <= j < m.drop_first().len() ==> #[trigger] m.drop_first()[j] == m[j + 1]);
        lemma_table_payload_absent(m.drop_first(), kw);
    }
}

/// A keyword is in an appended table exactly when it is in one of the two
/// parts.
pub proof fn lemma_table_has_append(
    m: Seq<(Keyword, Seq<u8>)>,
    ext: Seq<(Keyword, Seq<u8>)>,
    kw: Keyword,
)
    ensures
        table_has(m + ext, kw) <==> (table_has(m, kw) || table_has(ext, kw)),
{
    if table_has(m, kw) {
        let i = choose|i: int| 0 <= i < m.len() && (#[trigger] m[i]).0 == kw;
        assert((m + ext)[i].0 == kw);
    }
    if table_has(ext, kw) {
        let i = choose|i: int| 0 <= i < ext.len() && (#[trigger] ext[i]).0 == kw;
        assert((m + ext)[m.len() + i].0 == kw);
    }
    if table_has(m + ext, kw) {
        let i = choose|i: int| 0 <= i < (m + ext).len() && (#[trigger] (m + ext)[i]).0 == kw;
        if i < m.len() {
            assert(m[i].0 == kw);
        } else {
            assert(ext[i - m.len()].0 == kw);
        }
    }
}

/// Appending entries never changes the payload of a keyword the first part
/// already has.
pub proof fn lemma_table_payload_prefix(
    m: Seq<(Keyword, Seq<u8>)>,
    ext: Seq<(Keyword, Seq<u8>)>,
    kw: Keyword,
)
    requires
        table_has(m, kw),
    ensures
        table_has(m + ext, kw),
        table_payload(m + ext, kw) == table_payload(m, kw),
    decreases m.len(),
{
    lemma_table_has_append(m, ext, kw);
    if m.len() == 0 {
    } else if m[0].0 == kw {
        assert((m + ext)[0] == m[0]);
    } else {
        assert((m + ext)[0] == m[0]);
        if !table_has(m.drop_first(), kw) {
            let i = choose|i: int| 0 <= i < m.len() && (#[trigger] m[i]).0 == kw;
            assert(m.drop_first()[i - 1].0 == kw);
        }
        lemma_table_payload_prefix(m.drop_first(), ext, kw);
        assert(m.drop_first() + ext =~= (m + ext).drop_first());
    }
}

/// Looking up a keyword the first part lacks reads the appended entries.
pub proof fn lemma_table_payload_skip(
    m: Seq<(Keyword, Seq<u8>)>,
    ext: Seq<(Keyword, Seq<u8>)>,
    kw: Keyword,
)
    requires
        !table_has(m, kw),
    ensures
        table_payload(m + ext, kw) == table_payload(ext, kw),
    decreases m.len(),
{
    if m.len() == 0 {
        assert(m + ext =~= ext);
    } else {
        assert(m[0].0 != kw);
        assert((m + ext)[0] == m[0]);
        assert(!table_has(m.drop_first(), kw)) by {
            if table_has(m.drop_first(), kw) {
                let i = choose|i: int|
                    0 <= i < m.drop_first().len() && (#[trigger] m.drop_first()[i]).0 == kw;
                assert(m[i + 1].0 == kw);
            }
        }
        lemma_table_payload_skip(m.drop_first(), ext, kw);
        assert(m.drop_first() + ext =~= (m + ext).drop_first());
    }
}

/// Clamps `i` into `[0, len]`.
pub open spec fn clip(i: int, len: int) -> int {
    if i < 0 {
        0
    } else if i > len {
        len
    } else {
        i
    }
}

/// The payload slice of `text` from `a` to `b`, both clamped into the text;
/// empty when the bounds cross.
pub open spec fn payload_slice(text: Seq<u8>, a: int, b: int) -> Seq<u8> {
    if clip(a, text.len() as int) <= clip(b, text.len() as int) {
        text.subrange(clip(a, text.len() as int), clip(b, text.len() as int))
    } else {
        Seq::empty()
    }
}

/// The table built from sorted locations: section `i`'s payload runs from
/// its payload start to the next section's label offset, the last one to
/// end of input.
pub open spec fn spec_build_table(text: Seq<u8>, locs: Seq<(int, Keyword, int)>) -> Seq<
    (Keyword, Seq<u8>),
> {
    Seq::new(
        locs.len(),
        |i: int|
            (
                locs[i].1,
                payload_slice(
                    text,
                    locs[i].2,
                    if i == locs.len() - 1 {
                        text.len() as int
                    } else {
                        locs[i + 1].0
                    },
                ),
            ),
    )
}

/// The attribute table of `text`: scan, sort, slice.
pub open spec fn spec_table(text: Seq<u8>) -> Seq<(Keyword, Seq<u8>)> {
    spec_build_table(text, spec_locations(text))
}

/// Slices the payload of every located section out of `text`.
pub fn build_table(text: &[u8], locs: &Vec<SectionLocation>) -> (r: AttributeTable)
    requires
        locs_in_bounds(loc_models(locs@), text@.len() as int),
    ensures
        r.model() == spec_build_table(text@, loc_models(locs@)),
{
    let mut entries: Vec<(Keyword, Vec<u8>)> = Vec::new();
    let n: usize = locs.len();
    let tlen: usize = text.len();
    let ghost m = spec_build_table(text@, loc_models(locs@));
    let mut i: usize = 0;
    while i < n
        invariant
            0 <= i <= n,
            n == locs@.len(),
            tlen == text@.len(),
            locs_in_bounds(loc_models(locs@), text@.len() as int),
            m == spec_build_table(text@, loc_models(locs@)),
            entries@.len() == i,
            forall|j: int|
                0 <= j < i ==> (entries@[j].0, (#[trigger] entries@[j].1)@) == m[j],
        decreases n - i,
    {
        assert(loc_models(locs@)[i as int] == locs@[i as int].model());
        assert(loc_ok(loc_models(locs@)[i as int], tlen as int));
        let start: usize = locs[i].payload_start;
        let end: usize = if i + 1 == n {
            tlen
        } else {
            assert(loc_models(locs@)[i + 1 as int] == locs@[i + 1 as int].model());
            assert(loc_ok(loc_models(locs@)[i + 1 as int], tlen as int));
            locs[i + 1].offset
        };
        let payload = if start <= end {
            copy_range(text, start, end)
        } else {
            Vec::new()
        };
        assert(payload@ == m[i as int].1);
        entries.push((locs[i].keyword, payload));
        i = i + 1;
    }
    let table = AttributeTable { entries };
    proof {
        assert(table.model() =~= m);
    }
    table
}

/// Law: the attribute table of any text holds the synthetic `name` section
/// at position 0.
pub proof fn lemma_table_name_first(text: Seq<u8>)
    ensures
        spec_table(text).len() >= 1,
        spec_table(text)[0].0 == Keyword::Name,
{
    crate::scan::lemma_name_location_first(text);
}

/// Scans `text` and builds its attribute table in one step.
pub fn table_of(text: &[u8]) -> (r: AttributeTable)
    ensures
        r.model() == spec_table(text@),
{
    let locs = scan_sections(text);
    build_table(text, &locs)
}

} // verus!
