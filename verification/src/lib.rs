//! Order-processing core for a simulation: `apply` takes one serialized
//! order envelope, validates it, dispatches on its kind, and returns the
//! serialized outcome record.  Every failure is returned as data; no input
//! makes `apply` fail.

pub mod codec;
pub mod delta;
pub mod envelope;
pub mod json;

use vstd::prelude::*;
use crate::delta::{DeltaModel, spec_delta_json, spec_delta_of, delta_to_json, lemma_delta_round_trip};
use crate::envelope::{EnvelopeModel, spec_envelope, parse_envelope};
pub use crate::delta::Delta;
pub use crate::envelope::OrderEnvelope;

verus! {

/// The response to one order: the serialized outcome record.  A malformed
/// envelope reads `invalid envelope`; a well-formed one is applied when its
/// kind is exactly `move` and otherwise reads `unsupported kind`.
pub open spec fn spec_apply(s: Seq<char>) -> Seq<char> {
    match spec_envelope(s) {
        None => spec_delta_json(false, "invalid envelope"@),
        Some(env) => if env.kind == "move"@ {
            spec_delta_json(true, "moved one step"@)
        } else {
            spec_delta_json(false, "unsupported kind"@)
        },
    }
}

/// Processes one order: parse, dispatch, serialize, per `spec_apply`.
pub fn apply(order_json: &str) -> (res: String)
    ensures
        res@ == spec_apply(order_json@),
{
    let d = match parse_envelope(order_json) {
        None => Delta { applied: false, notes: String::from_str("invalid envelope") },
        Some(env) => {
            if env.kind == String::from_str("move") {
                Delta { applied: true, notes: String::from_str("moved one step") }
            } else {
                Delta { applied: false, notes: String::from_str("unsupported kind") }
            }
        },
    };
    delta_to_json(&d)
}

/// A malformed envelope is always answered with the `invalid envelope`
/// record, never with a fault.
pub proof fn lemma_invalid_envelope(s: Seq<char>)
    requires
        spec_envelope(s) is None,
    ensures
        spec_apply(s) == spec_delta_json(false, "invalid envelope"@),
{
}

/// A well-formed envelope of any kind but exactly `move` is answered with
/// the `unsupported kind` record, whatever its payload.
pub proof fn lemma_unsupported_kind(s: Seq<char>, env: EnvelopeModel)
    requires
        spec_envelope(s) == Some(env),
        env.kind != "move"@,
    ensures
        spec_apply(s) == spec_delta_json(false, "unsupported kind"@),
{
}

/// A well-formed envelope whose kind is exactly `move` is applied, whatever
/// its payload, absent or null included.
pub proof fn lemma_move_applied(s: Seq<char>, env: EnvelopeModel)
    requires
        spec_envelope(s) == Some(env),
        env.kind == "move"@,
    ensures
        spec_apply(s) == spec_delta_json(true, "moved one step"@),
{
}

/// Every response parses back under the same wire format: reading the text
/// that `apply` returns yields exactly the applied flag and the notes that
/// were written, whatever the input was.
pub proof fn lemma_response_round_trip(s: Seq<char>)
    ensures
        spec_delta_of(spec_apply(s)) == (match spec_envelope(s) {
            None => Some((DeltaModel { applied: false, notes: "invalid envelope"@ })),
            Some(env) => if env.kind == "move"@ {
                Some((DeltaModel { applied: true, notes: "moved one step"@ }))
            } else {
                Some((DeltaModel { applied: false, notes: "unsupported kind"@ }))
            },
        }),
{
    reveal_strlit("invalid envelope");
    reveal_strlit("moved one step");
    reveal_strlit("unsupported kind");
    lemma_delta_round_trip(false, "invalid envelope"@);
    lemma_delta_round_trip(true, "moved one step"@);
    lemma_delta_round_trip(false, "unsupported kind"@);
}

/// `apply` is a function of its input alone: two calls on the same input
/// yield the same text.  Each call's result equals `spec_apply` of the
/// input, so any two results agree.
pub proof fn lemma_apply_deterministic(s: Seq<char>, out1: Seq<char>, out2: Seq<char>)
    requires
        out1 == spec_apply(s),
        out2 == spec_apply(s),
    ensures
        out1 == out2,
{
}

} // verus!
