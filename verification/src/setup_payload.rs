//! The payload that sandbox setup is started with: base64 text of a JSON document.

use vstd::prelude::*;

use crate::base64_codec::{base64_bytes, decode_base64};

verus! {

/// A member of a JSON object, as far as it matters.
#[derive(Debug)]
pub enum JsonMember {
    /// There is no such member, or the document is no object.
    Absent,
    Bool(bool),
    Text(String),
    /// A value of another type.
    Other,
}

/// What a [`JsonMember`] says.
pub enum JsonMemberView {
    Absent,
    Bool(bool),
    Text(Seq<char>),
    Other,
}

impl View for JsonMember {
    type V = JsonMemberView;

    open spec fn view(&self) -> JsonMemberView {
        match self {
            JsonMember::Absent => JsonMemberView::Absent,
            JsonMember::Bool(value) => JsonMemberView::Bool(*value),
            JsonMember::Text(text) => JsonMemberView::Text(text@),
            JsonMember::Other => JsonMemberView::Other,
        }
    }
}

/// The member `key` of `document`, as `serde_json` reads it; `None` where the document is no JSON.
pub uninterp spec fn json_member_of(document: Seq<u8>, key: Seq<char>) -> Option<JsonMemberView>;

/// Calls `serde_json::from_slice` for a `Value`, and takes the member `key` of it. The result depends
/// on the document and the key alone.
#[verifier::external_body]
fn json_member(document: &Vec<u8>, key: &str) -> (member: Option<JsonMember>)
    ensures
        member is Some == json_member_of(document@, key@) is Some,
        member is Some ==> member->0@ == json_member_of(document@, key@)->0,
{
    let value = serde_json::from_slice::<serde_json::Value>(document.as_slice()).ok()?;
    Some(match value.get(key) {
        None => JsonMember::Absent,
        Some(serde_json::Value::Bool(value)) => JsonMember::Bool(*value),
        Some(serde_json::Value::String(text)) => JsonMember::Text(text.clone()),
        Some(serde_json::Value::Null) => JsonMember::Other,
        Some(serde_json::Value::Number(_)) => JsonMember::Other,
        Some(serde_json::Value::Array(_)) => JsonMember::Other,
        Some(serde_json::Value::Object(_)) => JsonMember::Other,
    })
}

/// Whether these members ask for a full refresh and nothing else: the refresh is asked for, and the
/// mode, if it is a text, is `full`.
pub open spec fn asks_full_refresh(refresh_only: JsonMemberView, mode: JsonMemberView) -> bool {
    &&& refresh_only == JsonMemberView::Bool(true)
    &&& mode matches JsonMemberView::Text(mode) ==> mode == "full"@
}

/// Whether these members of a payload ask for a full refresh and nothing else.
pub fn is_full_refresh(refresh_only: &JsonMember, mode: &JsonMember) -> (full: bool)
    ensures
        full == asks_full_refresh(refresh_only@, mode@),
{
    let refresh_only = match refresh_only {
        JsonMember::Bool(value) => *value,
        _ => false,
    };
    let full = match mode {
        JsonMember::Text(mode) => *mode == "full".to_owned(),
        _ => true,
    };
    refresh_only && full
}

/// Whether a payload asks for a full refresh and nothing else. One that cannot be read does not.
pub fn is_refresh_only_full(payload_b64: &str) -> (full: bool)
    ensures
        full == match base64_bytes(payload_b64@) {
            Ok(document) => match (
                json_member_of(document, "refresh_only"@),
                json_member_of(document, "mode"@),
            ) {
                (Some(refresh_only), Some(mode)) => asks_full_refresh(refresh_only, mode),
                _ => false,
            },
            Err(_) => false,
        },
{
    match decode_base64(payload_b64) {
        Ok(document) => match (
            json_member(&document, "refresh_only"),
            json_member(&document, "mode"),
        ) {
            (Some(refresh_only), Some(mode)) => is_full_refresh(&refresh_only, &mode),
            _ => false,
        },
        Err(_) => false,
    }
}

/// A full refresh is asked for only where a refresh is. A mode that is no text counts as `full`, and
/// any other text does not.
pub proof fn law_refresh_is_full_unless_another_mode_is_named(
    refresh_only: JsonMemberView,
    mode: JsonMemberView,
)
    ensures
        asks_full_refresh(refresh_only, mode) ==> refresh_only == JsonMemberView::Bool(true),
        refresh_only == JsonMemberView::Bool(true) ==> {
            &&& !(mode is Text) ==> asks_full_refresh(refresh_only, mode)
            &&& mode matches JsonMemberView::Text(named) ==> (asks_full_refresh(refresh_only, mode)
                <==> named == "full"@)
        },
{
}

} // verus!
