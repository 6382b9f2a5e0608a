//! Spec validator: enforces presence of the mandatory sections before any
//! code is generated.

use vstd::prelude::*;
use crate::classify::Topology;
use crate::keyword::Keyword;
use crate::table::{AttributeTable, table_has};
use crate::text::bytes_of;

verus! {

/// The single generation-time failure: a mandatory section is absent. The
/// keyword names the section.
#[derive(Clone, Copy, PartialEq, Eq, Structural, Debug)]
pub enum GenError {
    MissingRequiredSection { keyword: Keyword },
}

/// The mandatory section absent from the table under the given topology:
/// every actor declares its input and its message handler, and a
/// request/reply actor declares what it sends back. The first absent one,
/// in that order.
pub open spec fn spec_missing_required(m: Seq<(Keyword, Seq<u8>)>, topology: Topology) -> Option<
    Keyword,
> {
    if !table_has(m, Keyword::Input) && !table_has(m, Keyword::Gets) {
        Some(Keyword::Input)
    } else if !table_has(m, Keyword::OnMessage) {
        Some(Keyword::OnMessage)
    } else if topology == Topology::RequestReply && !table_has(m, Keyword::Sends) {
        Some(Keyword::Sends)
    } else {
        None
    }
}

/// Checks the mandatory sections; fails naming exactly the missing keyword.
pub fn validate(t: &AttributeTable, topology: Topology) -> (r: Result<(), GenError>)
    ensures
        match r {
            Ok(()) => spec_missing_required(t.model(), topology) == None::<Keyword>,
            Err(GenError::MissingRequiredSection { keyword }) => spec_missing_required(
                t.model(),
                topology,
            ) == Some(keyword),
        },
{
    if t.get(Keyword::Input).is_none() && t.get(Keyword::Gets).is_none() {
        Err(GenError::MissingRequiredSection { keyword: Keyword::Input })
    } else if t.get(Keyword::OnMessage).is_none() {
        Err(GenError::MissingRequiredSection { keyword: Keyword::OnMessage })
    } else if matches!(topology, Topology::RequestReply) && t.get(Keyword::Sends).is_none() {
        Err(GenError::MissingRequiredSection { keyword: Keyword::Sends })
    } else {
        Ok(())
    }
}

impl GenError {
    /// A human-readable account of the failure, as the generator's caller
    /// reports it.
    pub fn describe(&self) -> (s: &'static str)
        ensures
            (match self {
                GenError::MissingRequiredSection { keyword } => match keyword {
                    Keyword::Input | Keyword::Gets => bytes_of(s) == bytes_of(
                        "Actor must accept some input (consider accepting Tick or Stop) - define enum types in `input`",
                    ),
                    Keyword::OnMessage => bytes_of(s) == bytes_of(
                        "Actor must have on_message handler",
                    ),
                    Keyword::Sends => bytes_of(s) == bytes_of(
                        "Actor must declare what it sends back - define enum types in `sends`",
                    ),
                    _ => bytes_of(s) == bytes_of("Actor spec is missing a required section"),
                },
            }),
    {
        match self {
            GenError::MissingRequiredSection { keyword } => match keyword {
                Keyword::Input | Keyword::Gets => "Actor must accept some input (consider accepting Tick or Stop) - define enum types in `input`",
                Keyword::OnMessage => "Actor must have on_message handler",
                Keyword::Sends => "Actor must declare what it sends back - define enum types in `sends`",
                _ => "Actor spec is missing a required section",
            },
        }
    }
}

} // verus!
