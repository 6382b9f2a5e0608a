//! Feature classifier: derives the boolean feature record that selects
//! among the synthesis template's conditional fragments.

use vstd::prelude::*;
use crate::keyword::Keyword;
use crate::search::{find_from, find_first, occurs, lemma_find_from_some, lemma_find_from_none};
use crate::table::{AttributeTable, table_has, table_payload};
use crate::text::{bytes_of, str_to_vec};

verus! {

/// Whether an actor only consumes input, or also produces one reply per
/// handled message.
#[derive(Clone, Copy, PartialEq, Eq, Structural, Debug)]
pub enum Topology {
    InputOnly,
    RequestReply,
}

/// The feature record derived from an attribute table; never mutated after
/// derivation.
#[derive(Clone, Copy, PartialEq, Eq, Structural, Debug)]
pub struct Features {
    /// The `data` section was explicitly present.
    pub has_data: bool,
    /// The input variant list names a `Tick` variant as a comma-delimited
    /// element, so the loop dispatches a synthetic `Tick` message each
    /// iteration.
    pub accepts_tick: bool,
    /// Request/reply when a `sends` section exists, input-only otherwise.
    pub topology: Topology,
    /// The `spawner` section was explicitly present.
    pub has_custom_spawner: bool,
    /// The `input_derive` section was explicitly present.
    pub has_derive: bool,
    /// The `custom_code` section was explicitly present.
    pub has_custom_code: bool,
}

/// The topology of a table: request/reply exactly when `sends` is present.
pub open spec fn spec_topology(m: Seq<(Keyword, Seq<u8>)>) -> Topology {
    if table_has(m, Keyword::Sends) {
        Topology::RequestReply
    } else {
        Topology::InputOnly
    }
}

/// The input variant list: the `input` payload, or the `gets` payload when
/// only the alias is present.
pub open spec fn spec_input_payload(m: Seq<(Keyword, Seq<u8>)>) -> Seq<u8> {
    if table_has(m, Keyword::Input) {
        table_payload(m, Keyword::Input)
    } else {
        table_payload(m, Keyword::Gets)
    }
}

/// The marker that distinguishes a `Tick` variant inside the input variant
/// list.
pub open spec fn tick_marker() -> Seq<u8> {
    bytes_of(", Tick ,")
}

/// The features of a table, judged before defaults are filled in so that
/// explicit presence is still visible.
pub open spec fn spec_features(m: Seq<(Keyword, Seq<u8>)>) -> Features {
    Features {
        has_data: table_has(m, Keyword::Data),
        accepts_tick: occurs(spec_input_payload(m), tick_marker()),
        topology: spec_topology(m),
        has_custom_spawner: table_has(m, Keyword::Spawner),
        has_derive: table_has(m, Keyword::InputDerive),
        has_custom_code: table_has(m, Keyword::CustomCode),
    }
}

/// Whether `pat` occurs in `text`.
fn contains_bytes(text: &[u8], pat: &[u8]) -> (r: bool)
    ensures
        r == occurs(text@, pat@),
{
    match find_first(text, pat) {
        Some(i) => {
            proof {
                lemma_find_from_some(text@, pat@, 0, i as int);
            }
            true
        },
        None => {
            proof {
                lemma_find_from_none(text@, pat@, 0);
            }
            false
        },
    }
}

/// Derives the feature record of the (unresolved) table.
pub fn classify(t: &AttributeTable) -> (f: Features)
    ensures
        f == spec_features(t.model()),
{
    let marker = str_to_vec(", Tick ,");
    let empty: Vec<u8> = Vec::new();
    let accepts_tick = match t.get(Keyword::Input) {
        Some(p) => contains_bytes(p.as_slice(), marker.as_slice()),
        None => match t.get(Keyword::Gets) {
            Some(p) => contains_bytes(p.as_slice(), marker.as_slice()),
            None => {
                proof {
                    crate::table::lemma_table_payload_absent(t.model(), Keyword::Gets);
                    assert(spec_input_payload(t.model()) =~= empty@);
                }
                contains_bytes(empty.as_slice(), marker.as_slice())
            },
        },
    };
    let topology = if t.get(Keyword::Sends).is_some() {
        Topology::RequestReply
    } else {
        Topology::InputOnly
    };
    Features {
        has_data: t.get(Keyword::Data).is_some(),
        accepts_tick,
        topology,
        has_custom_spawner: t.get(Keyword::Spawner).is_some(),
        has_derive: t.get(Keyword::InputDerive).is_some(),
        has_custom_code: t.get(Keyword::CustomCode).is_some(),
    }
}

} // verus!
