//! The outcome record and its wire form: what `apply` hands back, with a
//! serializer proved to write exactly the specified text, and a reading
//! specification used to state that every response parses back.

use vstd::prelude::*;
use crate::codec::{
    spec_escape,
    spec_escape_from,
    spec_escape_char,
    lemma_escape_from_acc,
    hex_digit,
    push_char,
    spec_decode_range,
    plain_char,
    plain_text,
    lemma_escape_plain,
};
use crate::json::{spec_ws_end, spec_members, spec_find_named, spec_string_end, spec_value_end, Member};

verus! {

/// The outcome record: whether the order was applied, and a human-readable
/// reason.
pub struct Delta {
    pub applied: bool,
    pub notes: String,
}

/// The serialized form of an outcome record.
pub open spec fn spec_delta_json(applied: bool, notes: Seq<char>) -> Seq<char> {
    "{\"applied\":"@ + (if applied {
        "true"@
    } else {
        "false"@
    }) + ",\"notes\":\""@ + spec_escape(notes) + "\"}"@
}

/// Writes an outcome record, per `spec_delta_json`.
pub fn delta_to_json(d: &Delta) -> (r: String)
    ensures
        r@ == spec_delta_json(d.applied, d.notes@),
{
    let mut out = String::from_str("{\"applied\":");
    if d.applied {
        out.append("true");
    } else {
        out.append("false");
    }
    out.append(",\"notes\":\"");
    let ghost prefix = out@;
    let notes = d.notes.as_str();
    let m = notes.unicode_len();
    let mut i: usize = 0;
    while i < m
        invariant
            i <= m,
            m == notes@.len(),
            notes@ == d.notes@,
            spec_escape_from(notes@, 0, prefix) == spec_escape_from(notes@, i as int, out@),
        decreases m - i,
    {
        let c = notes.get_char(i);
        let ghost before = out@;
        if c == '"' {
            out.append("\\\"");
            proof {
                reveal_strlit("\\\"");
                assert(out@ =~= before + spec_escape_char(c));
            }
        } else if c == '\\' {
            out.append("\\\\");
            proof {
                reveal_strlit("\\\\");
                assert(out@ =~= before + spec_escape_char(c));
            }
        } else if (c as u32) < 32 {
            let v = c as u32;
            out.append("\\u00");
            push_char(&mut out, hex_digit(v / 16));
            push_char(&mut out, hex_digit(v % 16));
            proof {
                reveal_strlit("\\u00");
                assert(out@ =~= before + spec_escape_char(c));
            }
        } else {
            push_char(&mut out, c);
            proof {
                assert(out@ =~= before + spec_escape_char(c));
            }
        }
        i = i + 1;
    }
    out.append("\"}");
    proof {
        lemma_escape_from_acc(d.notes@, 0, prefix);
        assert(out@ =~= spec_delta_json(d.applied, d.notes@));
    }
    out
}

/// What a reader of a serialized outcome record sees.
pub struct DeltaModel {
    pub applied: bool,
    pub notes: Seq<char>,
}

/// The outcome record denoted by `s`, read with the same lenient rules as
/// the envelope: one JSON object surrounded by nothing but whitespace, whose
/// last `applied` member is the literal `true` or `false` and whose last
/// `notes` member is a string that decodes.
pub open spec fn spec_delta_of(s: Seq<char>) -> Option<DeltaModel> {
    let p0 = spec_ws_end(s, 0);
    if p0 < s.len() && s[p0] == '{' {
        let p1 = spec_ws_end(s, p0 + 1);
        if p1 < s.len() && s[p1] == '}' {
            None
        } else {
            match spec_members(s, p1) {
                None => None,
                Some(me) => {
                    if spec_ws_end(s, me.1) == s.len() {
                        match spec_find_named(me.0, "applied"@) {
                            None => None,
                            Some(ma) => {
                                let av = s.subrange(ma.lo, ma.hi);
                                if av == "true"@ || av == "false"@ {
                                    match spec_find_named(me.0, "notes"@) {
                                        None => None,
                                        Some(mn) => {
                                            if mn.lo < s.len() && s[mn.lo] == '"' {
                                                match spec_decode_range(
                                                    s,
                                                    mn.lo + 1,
                                                    mn.hi - 1,
                                                    Seq::empty(),
                                                ) {
                                                    None => None,
                                                    Some(t) => Some(
                                                        (DeltaModel {
                                                            applied: av == "true"@,
                                                            notes: t,
                                                        }),
                                                    ),
                                                }
                                            } else {
                                                None
                                            }
                                        },
                                    }
                                } else {
                                    None
                                }
                            },
                        }
                    } else {
                        None
                    }
                },
            }
        }
    } else {
        None
    }
}


/// One case of the round trip: the record with `applied` true reads back
/// as itself for plain notes.
#[verifier::rlimit(100)]
proof fn lemma_delta_round_trip_true(notes: Seq<char>)
    requires
        plain_text(notes),
    ensures
        spec_delta_of(spec_delta_json(true, notes)) == Some(
            (DeltaModel { applied: true, notes: notes }),
        ),
{
    reveal_strlit("{\"applied\":");
    reveal_strlit("true");
    reveal_strlit(",\"notes\":\"");
    reveal_strlit("\"}");
    reveal_strlit("applied");
    reveal_strlit("notes");
    let aa = "{\"applied\":"@;
    let bb = ",\"notes\":\""@;
    let cc = "\"}"@;
    let k = notes.len() as int;
    lemma_escape_plain(notes, 0, Seq::empty());
    assert(Seq::<char>::empty() + notes.subrange(0, k) =~= notes);
    let o = spec_delta_json(true, notes);
    assert(o == aa + "true"@ + bb + notes + cc);
    assert(o.len() == 27 + k);
    assert(o[0] == '{');
    assert(o[1] == '"');
    assert(o[9] == '"');
    assert(o[10] == ':');
    assert(o[11] == 't');
    assert(o[15] == ',');
    assert(o[16] == '"');
    assert(o[22] == '"');
    assert(o[23] == ':');
    assert(o[24] == '"');
    assert(o[25 + k] == '"');
    assert(o[26 + k] == '}');
    assert forall|j: int| 2 <= j < 9 implies plain_char(o[j]) by {
        assert(o[j] == aa[j]);
    }
    assert forall|j: int| 17 <= j < 22 implies plain_char(o[j]) by {
        assert(o[j] == bb[j - 15]);
    }
    assert forall|j: int| 25 <= j < 25 + k implies plain_char(o[j]) by {
        assert(o[j] == notes[j - 25]);
    }
    crate::json::lemma_body_end_plain(o, 2, 9);
    assert(spec_string_end(o, 1) == Some(10int));
    crate::codec::lemma_decode_plain(o, 2, 9, Seq::empty());
    assert(Seq::<char>::empty() + o.subrange(2, 9) =~= "applied"@);
    assert(spec_ws_end(o, 10) == 10);
    assert(spec_ws_end(o, 11) == 11);
    assert(spec_value_end(o, 11) == Some(15int));
    assert(spec_ws_end(o, 15) == 15);
    assert(spec_ws_end(o, 16) == 16);
    crate::json::lemma_body_end_plain(o, 17, 22);
    assert(spec_string_end(o, 16) == Some(23int));
    crate::codec::lemma_decode_plain(o, 17, 22, Seq::empty());
    assert(Seq::<char>::empty() + o.subrange(17, 22) =~= "notes"@);
    assert(spec_ws_end(o, 23) == 23);
    assert(spec_ws_end(o, 24) == 24);
    crate::json::lemma_body_end_plain(o, 25, 25 + k);
    assert(spec_string_end(o, 24) == Some(26 + k));
    assert(spec_value_end(o, 24) == Some(26 + k));
    crate::codec::lemma_decode_plain(o, 25, 25 + k, Seq::empty());
    assert(Seq::<char>::empty() + o.subrange(25, 25 + k) =~= notes);
    assert(spec_ws_end(o, 26 + k) == 26 + k);
    assert(spec_ws_end(o, 27 + k) == 27 + k);
    let m1 = Member { name: spec_decode_range(o, 2, 9, Seq::empty()), lo: 11, hi: 15 };
    let m2 = Member {
        name: spec_decode_range(o, 17, 22, Seq::empty()),
        lo: 24,
        hi: 26 + k,
    };
    assert(spec_members(o, 16) == Some((seq![m2], 27 + k)));
    assert(spec_members(o, 1) == Some((seq![m1] + seq![m2], 27 + k)));
    let ms = seq![m1] + seq![m2];
    assert(ms.drop_first() =~= seq![m2]);
    assert(ms[0] == m1);
    assert(seq![m2].drop_first() =~= Seq::<Member>::empty());
    assert(seq![m2][0] == m2);
    assert(spec_find_named(Seq::<Member>::empty(), "applied"@) is None);
    assert(spec_find_named(Seq::<Member>::empty(), "notes"@) is None);
    assert(m2.name == Some("notes"@));
    assert(m1.name == Some("applied"@));
    assert("notes"@ != "applied"@);
    assert(spec_find_named(seq![m2], "applied"@) is None);
    assert(spec_find_named(ms, "applied"@) == Some(m1));
    assert(spec_find_named(seq![m2], "notes"@) == Some(m2));
    assert(spec_find_named(ms, "notes"@) == Some(m2));
    assert(o.subrange(11, 15) =~= "true"@);
    assert("true"@ != "false"@) by {
        reveal_strlit("true");
        reveal_strlit("false");
    }
    assert(spec_ws_end(o, 0) == 0);
    assert(spec_ws_end(o, 1) == 1);
    assert(spec_delta_of(o) == Some((DeltaModel { applied: true, notes: notes })));
}

/// One case of the round trip: the record with `applied` false reads back
/// as itself for plain notes.
#[verifier::rlimit(100)]
proof fn lemma_delta_round_trip_false(notes: Seq<char>)
    requires
        plain_text(notes),
    ensures
        spec_delta_of(spec_delta_json(false, notes)) == Some(
            (DeltaModel { applied: false, notes: notes }),
        ),
{
    reveal_strlit("{\"applied\":");
    reveal_strlit("false");
    reveal_strlit(",\"notes\":\"");
    reveal_strlit("\"}");
    reveal_strlit("applied");
    reveal_strlit("notes");
    let aa = "{\"applied\":"@;
    let bb = ",\"notes\":\""@;
    let cc = "\"}"@;
    let k = notes.len() as int;
    lemma_escape_plain(notes, 0, Seq::empty());
    assert(Seq::<char>::empty() + notes.subrange(0, k) =~= notes);
    let o = spec_delta_json(false, notes);
    assert(o == aa + "false"@ + bb + notes + cc);
    assert(o.len() == 28 + k);
    assert(o[0] == '{');
    assert(o[1] == '"');
    assert(o[9] == '"');
    assert(o[10] == ':');
    assert(o[11] == 'f');
    assert(o[16] == ',');
    assert(o[17] == '"');
    assert(o[23] == '"');
    assert(o[24] == ':');
    assert(o[25] == '"');
    assert(o[26 + k] == '"');
    assert(o[27 + k] == '}');
    assert forall|j: int| 2 <= j < 9 implies plain_char(o[j]) by {
        assert(o[j] == aa[j]);
    }
    assert forall|j: int| 18 <= j < 23 implies plain_char(o[j]) by {
        assert(o[j] == bb[j - 16]);
    }
    assert forall|j: int| 26 <= j < 26 + k implies plain_char(o[j]) by {
        assert(o[j] == notes[j - 26]);
    }
    crate::json::lemma_body_end_plain(o, 2, 9);
    assert(spec_string_end(o, 1) == Some(10int));
    crate::codec::lemma_decode_plain(o, 2, 9, Seq::empty());
    assert(Seq::<char>::empty() + o.subrange(2, 9) =~= "applied"@);
    assert(spec_ws_end(o, 10) == 10);
    assert(spec_ws_end(o, 11) == 11);
    assert(spec_value_end(o, 11) == Some(16int));
    assert(spec_ws_end(o, 16) == 16);
    assert(spec_ws_end(o, 17) == 17);
    crate::json::lemma_body_end_plain(o, 18, 23);
    assert(spec_string_end(o, 17) == Some(24int));
    crate::codec::lemma_decode_plain(o, 18, 23, Seq::empty());
    assert(Seq::<char>::empty() + o.subrange(18, 23) =~= "notes"@);
    assert(spec_ws_end(o, 24) == 24);
    assert(spec_ws_end(o, 25) == 25);
    crate::json::lemma_body_end_plain(o, 26, 26 + k);
    assert(spec_string_end(o, 25) == Some(27 + k));
    assert(spec_value_end(o, 25) == Some(27 + k));
    crate::codec::lemma_decode_plain(o, 26, 26 + k, Seq::empty());
    assert(Seq::<char>::empty() + o.subrange(26, 26 + k) =~= notes);
    assert(spec_ws_end(o, 27 + k) == 27 + k);
    assert(spec_ws_end(o, 28 + k) == 28 + k);
    let m1 = Member { name: spec_decode_range(o, 2, 9, Seq::empty()), lo: 11, hi: 16 };
    let m2 = Member {
        name: spec_decode_range(o, 18, 23, Seq::empty()),
        lo: 25,
        hi: 27 + k,
    };
    assert(spec_members(o, 17) == Some((seq![m2], 28 + k)));
    assert(spec_members(o, 1) == Some((seq![m1] + seq![m2], 28 + k)));
    let ms = seq![m1] + seq![m2];
    assert(ms.drop_first() =~= seq![m2]);
    assert(ms[0] == m1);
    assert(seq![m2].drop_first() =~= Seq::<Member>::empty());
    assert(seq![m2][0] == m2);
    assert(spec_find_named(Seq::<Member>::empty(), "applied"@) is None);
    assert(spec_find_named(Seq::<Member>::empty(), "notes"@) is None);
    assert(m2.name == Some("notes"@));
    assert(m1.name == Some("applied"@));
    assert("notes"@ != "applied"@);
    assert(spec_find_named(seq![m2], "applied"@) is None);
    assert(spec_find_named(ms, "applied"@) == Some(m1));
    assert(spec_find_named(seq![m2], "notes"@) == Some(m2));
    assert(spec_find_named(ms, "notes"@) == Some(m2));
    assert(o.subrange(11, 16) =~= "false"@);
    assert("true"@ != "false"@) by {
        reveal_strlit("true");
        reveal_strlit("false");
    }
    assert(spec_ws_end(o, 0) == 0);
    assert(spec_ws_end(o, 1) == 1);
    assert(spec_delta_of(o) == Some((DeltaModel { applied: false, notes: notes })));
}

/// A written outcome record reads back as itself: for plain notes (no
/// quote, backslash or control character), the serialized record denotes
/// exactly the applied flag and the notes that were written.
pub proof fn lemma_delta_round_trip(applied: bool, notes: Seq<char>)
    requires
        plain_text(notes),
    ensures
        spec_delta_of(spec_delta_json(applied, notes)) == Some(
            (DeltaModel { applied: applied, notes: notes }),
        ),
{
    if applied {
        lemma_delta_round_trip_true(notes);
    } else {
        lemma_delta_round_trip_false(notes);
    }
}

} // verus!
