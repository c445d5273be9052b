use patch_batch::setup_payload::{is_full_refresh, is_refresh_only_full, JsonMember};

#[test]
fn payloads_are_read() {
    // {"refresh_only":true}
    assert!(is_refresh_only_full("eyJyZWZyZXNoX29ubHkiOnRydWV9"));
    // {"refresh_only":true,"mode":"full"}
    assert!(is_refresh_only_full("eyJyZWZyZXNoX29ubHkiOnRydWUsIm1vZGUiOiJmdWxsIn0="));
    // {"refresh_only":true,"mode":"part"}
    assert!(!is_refresh_only_full("eyJyZWZyZXNoX29ubHkiOnRydWUsIm1vZGUiOiJwYXJ0In0="));
    // {"refresh_only":false}
    assert!(!is_refresh_only_full("eyJyZWZyZXNoX29ubHkiOmZhbHNlfQ=="));
    // {"refresh_only":true,"mode":1}
    assert!(is_refresh_only_full("eyJyZWZyZXNoX29ubHkiOnRydWUsIm1vZGUiOjF9"));
    // []
    assert!(!is_refresh_only_full("W10="));
}

#[test]
fn payloads_that_cannot_be_read_ask_for_nothing() {
    assert!(!is_refresh_only_full("{\"refresh_only\":true}"));
    assert!(!is_refresh_only_full(""));
    // {"refresh_only":true
    assert!(!is_refresh_only_full("eyJyZWZyZXNoX29ubHkiOnRydWU="));
}

#[test]
fn members_decide() {
    let full = JsonMember::Text("full".to_string());
    let part = JsonMember::Text("part".to_string());
    assert!(is_full_refresh(&JsonMember::Bool(true), &full));
    assert!(is_full_refresh(&JsonMember::Bool(true), &JsonMember::Absent));
    assert!(is_full_refresh(&JsonMember::Bool(true), &JsonMember::Other));
    assert!(!is_full_refresh(&JsonMember::Bool(true), &part));
    assert!(!is_full_refresh(&JsonMember::Bool(false), &full));
    assert!(!is_full_refresh(&JsonMember::Absent, &full));
    assert!(!is_full_refresh(&JsonMember::Other, &full));
    assert!(!is_full_refresh(&JsonMember::Text("true".to_string()), &full));
}
