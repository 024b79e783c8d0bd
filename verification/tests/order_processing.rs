use sim_core::apply;
use sim_core::Delta;
use sim_core::delta::delta_to_json;
use sim_core::envelope::parse_envelope;

#[test]
fn scenario_move_applied() {
    assert_eq!(
        apply("{\"kind\":\"move\",\"payload\":{}}"),
        "{\"applied\":true,\"notes\":\"moved one step\"}"
    );
}

#[test]
fn scenario_jump_unsupported() {
    assert_eq!(
        apply("{\"kind\":\"jump\",\"payload\":null}"),
        "{\"applied\":false,\"notes\":\"unsupported kind\"}"
    );
}

#[test]
fn scenario_not_json() {
    assert_eq!(
        apply("not json at all"),
        "{\"applied\":false,\"notes\":\"invalid envelope\"}"
    );
}

#[test]
fn scenario_missing_kind() {
    assert_eq!(
        apply("{\"payload\":{}}"),
        "{\"applied\":false,\"notes\":\"invalid envelope\"}"
    );
}

#[test]
fn scenario_missing_payload_accepted() {
    // the documented lenient choice: an absent payload member reads as null
    assert_eq!(
        apply("{\"kind\":\"move\"}"),
        "{\"applied\":true,\"notes\":\"moved one step\"}"
    );
}

#[test]
fn empty_kind_unsupported() {
    assert_eq!(
        apply("{\"kind\":\"\",\"payload\":null}"),
        "{\"applied\":false,\"notes\":\"unsupported kind\"}"
    );
}

#[test]
fn kind_matching_is_exact() {
    for k in ["Move", "MOVE", " move", "move ", "mov", "movee"] {
        let input = format!("{{\"kind\":\"{}\",\"payload\":null}}", k);
        assert_eq!(
            apply(&input),
            "{\"applied\":false,\"notes\":\"unsupported kind\"}"
        );
    }
}

#[test]
fn kind_must_be_a_string() {
    for input in [
        "{\"kind\":1,\"payload\":{}}",
        "{\"kind\":null,\"payload\":{}}",
        "{\"kind\":[\"move\"],\"payload\":{}}",
        "{\"kind\":{\"a\":\"move\"},\"payload\":{}}",
    ] {
        assert_eq!(
            apply(input),
            "{\"applied\":false,\"notes\":\"invalid envelope\"}"
        );
    }
}

#[test]
fn malformed_inputs_rejected() {
    for input in [
        "",
        "   ",
        "{",
        "{}",
        "{ }",
        "null",
        "{\"kind\":\"move\",",
        "{\"kind\":\"move\"",
        "[1,2]",
        "42",
        "\"move\"",
        "true",
        "{\"kind\":\"move\",\"payload\":}",
        "{\"kind\":\"move\",\"payload\":01}",
        "{\"kind\":\"move\",\"payload\":null} x",
        "{\"kind\":\"move\",\"payload\":null}{}",
        "{\"kind\":\"move\" \"payload\":null}",
        "{\"kind\":\"a\u{0}b\",\"payload\":null}",
    ] {
        assert_eq!(
            apply(input),
            "{\"applied\":false,\"notes\":\"invalid envelope\"}",
            "input: {:?}",
            input
        );
    }
}

#[test]
fn escaped_kind_decodes() {
    // \u006d is m: the decoded kind is exactly "move"
    assert_eq!(
        apply("{\"kind\":\"\\u006dove\",\"payload\":null}"),
        "{\"applied\":true,\"notes\":\"moved one step\"}"
    );
    assert_eq!(
        apply("{\"kind\":\"mov\\u0065\",\"payload\":null}"),
        "{\"applied\":true,\"notes\":\"moved one step\"}"
    );
}

#[test]
fn lone_surrogate_in_kind_rejected() {
    assert_eq!(
        apply("{\"kind\":\"\\uD800\",\"payload\":null}"),
        "{\"applied\":false,\"notes\":\"invalid envelope\"}"
    );
}

#[test]
fn surrogate_pair_in_kind_is_one_character() {
    // a pair denotes one supplementary-plane character, so the kind is not "move"
    assert_eq!(
        apply("{\"kind\":\"\\uD83D\\uDE00\",\"payload\":null}"),
        "{\"applied\":false,\"notes\":\"unsupported kind\"}"
    );
}

#[test]
fn duplicate_member_last_wins() {
    assert_eq!(
        apply("{\"kind\":\"jump\",\"kind\":\"move\",\"payload\":0}"),
        "{\"applied\":true,\"notes\":\"moved one step\"}"
    );
    assert_eq!(
        apply("{\"kind\":\"move\",\"kind\":\"jump\",\"payload\":0}"),
        "{\"applied\":false,\"notes\":\"unsupported kind\"}"
    );
}

#[test]
fn extra_members_ignored() {
    assert_eq!(
        apply("{\"kind\":\"move\",\"payload\":1,\"extra\":[1,2],\"more\":\"x\"}"),
        "{\"applied\":true,\"notes\":\"moved one step\"}"
    );
}

#[test]
fn whitespace_tolerated() {
    assert_eq!(
        apply("  {\t\"kind\" :\n \"move\" ,\r\n \"payload\" : null }  "),
        "{\"applied\":true,\"notes\":\"moved one step\"}"
    );
}

#[test]
fn nested_payload_accepted() {
    assert_eq!(
        apply("{\"kind\":\"move\",\"payload\":{\"a\":[1,-2.5e+3,{\"b\":\"c\\n\"}],\"d\":[[]],\"e\":{}}}"),
        "{\"applied\":true,\"notes\":\"moved one step\"}"
    );
}

#[test]
fn apply_is_idempotent() {
    for input in [
        "{\"kind\":\"move\",\"payload\":{}}",
        "{\"kind\":\"jump\",\"payload\":null}",
        "garbage",
    ] {
        let first = apply(input);
        let second = apply(input);
        assert_eq!(first, second);
    }
}

#[test]
fn responses_parse_back_as_deltas() {
    for (input, applied, notes) in [
        ("{\"kind\":\"move\",\"payload\":{}}", true, "moved one step"),
        ("{\"kind\":\"jump\",\"payload\":null}", false, "unsupported kind"),
        ("not json at all", false, "invalid envelope"),
    ] {
        let out = apply(input);
        let v: serde_json::Value = serde_json::from_str(&out).unwrap();
        let obj = v.as_object().unwrap();
        assert_eq!(obj.len(), 2);
        assert_eq!(obj.get("applied").unwrap().as_bool().unwrap(), applied);
        assert_eq!(obj.get("notes").unwrap().as_str().unwrap(), notes);
    }
}

#[test]
fn agreement_with_reference_reader() {
    // on a spread of inputs, acceptance agrees with an independent JSON reader
    let inputs = [
        "{\"kind\":\"move\",\"payload\":{}}",
        "{\"kind\":\"move\",\"payload\":[null,true,false,0.5,\"s\"]}",
        "{\"kind\":\"move\",\"payload\":--1}",
        "{\"kind\":\"move\",\"payload\":\"\\q\"}",
        "{\"kind\":\"move\",\"payload\":nulll}",
        "{\"kind\":\"move\",\"payload\":[1,]}",
        "{\"kind\":\"move\",\"payload\":{\"a\":1,}}",
    ] ;
    for input in inputs {
        let ours_valid = !apply(input).contains("invalid envelope");
        let reference: Result<serde_json::Value, _> = serde_json::from_str(input);
        let theirs_valid = match &reference {
            Ok(v) => v.get("kind").map(|k| k.is_string()).unwrap_or(false),
            Err(_) => false,
        };
        assert_eq!(ours_valid, theirs_valid, "input: {:?}", input);
    }
}

#[test]
fn parse_envelope_reads_fields() {
    let env = parse_envelope("{\"kind\":\"x\",\"payload\":[1, 2]}").unwrap();
    assert_eq!(env.kind, "x");
    assert_eq!(env.payload, "[1, 2]");
    let env = parse_envelope("{\"kind\":\"x\"}").unwrap();
    assert_eq!(env.payload, "null");
    assert!(parse_envelope("{\"payload\":[]}").is_none());
}

#[test]
fn delta_serialization_escapes_notes() {
    let d = Delta {
        applied: false,
        notes: "a\"b\\c\nd\te\u{1}f".to_string(),
    };
    let out = delta_to_json(&d);
    let v: serde_json::Value = serde_json::from_str(&out).unwrap();
    assert_eq!(v.get("notes").unwrap().as_str().unwrap(), "a\"b\\c\nd\te\u{1}f");
    assert_eq!(v.get("applied").unwrap().as_bool().unwrap(), false);
}
