//! The order envelope: a JSON object carrying a `kind` tag and an optional
//! `payload` value.  This module reads the wire form into a plain record.

use vstd::prelude::*;
use crate::json::{spec_ws_end, spec_members, spec_find_named, ws_end, members};
use crate::codec::{spec_decode_range, decode_range};

verus! {

/// An order envelope as read off the wire: the kind tag with its escapes
/// decoded, and the payload as the raw text of its JSON value.
pub struct OrderEnvelope {
    pub kind: String,
    pub payload: String,
}

/// What a well-formed envelope holds, at the specification level.
pub struct EnvelopeModel {
    pub kind: Seq<char>,
    pub payload: Seq<char>,
}

/// The envelope denoted by `s`, or `None` where `s` is not a well-formed
/// envelope.  Well-formed means: one JSON object, surrounded by nothing but
/// whitespace, holding a member named `kind` whose value is a string that
/// decodes.  The reader is lenient: members other than `kind` and `payload`
/// are ignored, of several members with one name the last wins, and an
/// absent `payload` member reads as `null`.
pub open spec fn spec_envelope(s: Seq<char>) -> Option<EnvelopeModel> {
    let p0 = spec_ws_end(s, 0);
    if p0 < s.len() && s[p0] == '{' {
        let p1 = spec_ws_end(s, p0 + 1);
        if p1 < s.len() && s[p1] == '}' {
            None
        } else {
            match spec_members(s, p1) {
                None => None,
                Some(me) => {
                    if spec_ws_end(s, me.1) == s.len() {
                        match spec_find_named(me.0, "kind"@) {
                            None => None,
                            Some(mk) => {
                                if mk.lo < s.len() && s[mk.lo] == '"' {
                                    match spec_decode_range(s, mk.lo + 1, mk.hi - 1, Seq::empty()) {
                                        None => None,
                                        Some(k) => Some(
                                            (EnvelopeModel {
                                                kind: k,
                                                payload: match spec_find_named(me.0, "payload"@) {
                                                    None => "null"@,
                                                    Some(mp) => s.subrange(mp.lo, mp.hi),
                                                },
                                            }),
                                        ),
                                    }
                                } else {
                                    None
                                }
                            },
                        }
                    } else {
                        None
                    }
                },
            }
        }
    } else {
        None
    }
}

/// Reads one order envelope, per `spec_envelope`.
pub fn parse_envelope(raw: &str) -> (r: Option<OrderEnvelope>)
    ensures
        match r {
            Some(env) => spec_envelope(raw@) == Some(
                (EnvelopeModel { kind: env.kind@, payload: env.payload@ }),
            ),
            None => spec_envelope(raw@) is None,
        },
{
    let n = raw.unicode_len();
    let p0 = ws_end(raw, n, 0);
    if p0 >= n {
        return None;
    }
    if raw.get_char(p0) != '{' {
        return None;
    }
    let p1 = ws_end(raw, n, p0 + 1);
    if p1 < n && raw.get_char(p1) == '}' {
        return None;
    }
    let f = match members(raw, n, p1) {
        None => {
            return None;
        },
        Some(f) => f,
    };
    if ws_end(raw, n, f.end) != n {
        return None;
    }
    let sp = match f.kind {
        None => {
            return None;
        },
        Some(sp) => sp,
    };
    let (klo, khi) = sp;
    if raw.get_char(klo) != '"' {
        return None;
    }
    let kind = match decode_range(raw, n, klo + 1, khi - 1) {
        None => {
            return None;
        },
        Some(t) => t,
    };
    let payload = match f.payload {
        None => String::from_str("null"),
        Some(pp) => String::from_str(raw.substring_char(pp.0, pp.1)),
    };
    Some(OrderEnvelope { kind: kind, payload: payload })
}

} // verus!
