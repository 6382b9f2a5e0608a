//! Generator for actor runtimes: parses a compact keyword/value spec of an
//! actor and emits the source text of a concurrent state machine.
//!
//! The pipeline is a pure function of the spec text: scan the section
//! labels, slice the attribute table, validate the mandatory sections,
//! fill defaults for the optional ones, classify the features, and render
//! the generated module.

use vstd::prelude::*;

pub mod classify;
pub mod keyword;
pub mod render;
pub mod resolve;
pub mod scan;
pub mod search;
pub mod table;
pub mod text;
pub mod validate;

use crate::classify::{Features, classify, spec_features, spec_topology};
use crate::keyword::Keyword;
use crate::render::{render, spec_render};
use crate::resolve::{resolve, spec_resolve};
use crate::table::{AttributeTable, spec_table, table_has, table_of};
use crate::validate::{GenError, spec_missing_required, validate};

verus! {

/// What `generate` returns for a given spec text: the error naming the
/// first absent mandatory section, or the rendered module for the resolved
/// table and its features.
pub open spec fn spec_generate(text: Seq<u8>) -> Result<Seq<u8>, GenError> {
    let m = spec_table(text);
    match spec_missing_required(m, spec_topology(m)) {
        Some(kw) => Err(GenError::MissingRequiredSection { keyword: kw }),
        None => Ok(spec_render(spec_resolve(m), spec_features(m))),
    }
}

/// Runs the whole pipeline and also hands back the resolved attribute
/// table and the feature record, for callers that echo diagnostics.
pub fn generate_parts(text: &[u8]) -> (r: Result<(AttributeTable, Features, Vec<u8>), GenError>)
    ensures
        match r {
            Ok((t, f, v)) => {
                &&& t.model() == spec_resolve(spec_table(text@))
                &&& f == spec_features(spec_table(text@))
                &&& v@ == spec_render(spec_resolve(spec_table(text@)), spec_features(spec_table(text@)))
                &&& spec_generate(text@) == Ok::<Seq<u8>, GenError>(v@)
            },
            Err(e) => spec_generate(text@) == Err::<Seq<u8>, GenError>(e),
        },
{
    let t = table_of(text);
    let f = classify(&t);
    match validate(&t, f.topology) {
        Err(e) => Err(e),
        Ok(()) => {
            let resolved = resolve(t);
            let out = render(&resolved, f);
            Ok((resolved, f, out))
        },
    }
}

/// Generates the actor module for `text`, or fails naming the first absent
/// mandatory section. The result is a function of the spec text alone, so
/// two calls on identical text yield byte-identical output.
pub fn generate(text: &[u8]) -> (r: Result<Vec<u8>, GenError>)
    ensures
        match r {
            Ok(v) => spec_generate(text@) == Ok::<Seq<u8>, GenError>(v@),
            Err(e) => spec_generate(text@) == Err::<Seq<u8>, GenError>(e),
        },
{
    match generate_parts(text) {
        Ok((_t, _f, out)) => Ok(out),
        Err(e) => Err(e),
    }
}

/// Law: generation is deterministic — the outcome is a function of the
/// spec text's bytes alone, so two calls of `generate` on identical text
/// yield byte-identical generated source (and identical errors): both
/// results equal `spec_generate` of the same byte sequence.
pub proof fn lemma_generate_deterministic(a: Seq<u8>, b: Seq<u8>)
    requires
        a == b,
    ensures
        spec_generate(a) == spec_generate(b),
{
}

/// Law: generation fails exactly when a mandatory section is absent, and
/// the error names exactly that section — `input` when neither `input` nor
/// `gets` was located, otherwise `on_message` when it is absent. In
/// request/reply topology a `sends` section exists by definition of the
/// derived topology, so generation itself never fails naming `sends`; the
/// validator still enforces it for any requested topology.
pub proof fn lemma_generate_error_exact(text: Seq<u8>)
    ensures
        ({
            let m = spec_table(text);
            &&& (spec_generate(text) is Err <==> ((!table_has(m, Keyword::Input) && !table_has(
                m,
                Keyword::Gets,
            )) || !table_has(m, Keyword::OnMessage)))
            &&& ((!table_has(m, Keyword::Input) && !table_has(m, Keyword::Gets))
                ==> spec_generate(text) == Err::<Seq<u8>, GenError>(
                GenError::MissingRequiredSection { keyword: Keyword::Input },
            ))
            &&& (((table_has(m, Keyword::Input) || table_has(m, Keyword::Gets)) && !table_has(
                m,
                Keyword::OnMessage,
            )) ==> spec_generate(text) == Err::<Seq<u8>, GenError>(
                GenError::MissingRequiredSection { keyword: Keyword::OnMessage },
            ))
        }),
{
    let m = spec_table(text);
    if spec_topology(m) == crate::classify::Topology::RequestReply {
        assert(table_has(m, Keyword::Sends));
    }
}

} // verus!
