//! Bytes as base64 text, by the `base64` crate.

use base64::Engine;
use vstd::prelude::*;

verus! {

/// The text that `base64::engine::general_purpose::STANDARD` encodes `bytes` as.
pub uninterp spec fn base64_text(bytes: Seq<u8>) -> Seq<char>;

/// What `base64::engine::general_purpose::STANDARD` decodes `text` to: the bytes, or what its error
/// says.
pub uninterp spec fn base64_bytes(text: Seq<char>) -> Result<Seq<u8>, Seq<char>>;

/// The number of bytes whose encoding fits into one allocation: four characters for each three
/// bytes begun.
pub open spec fn is_encodable(length: nat) -> bool {
    length <= (isize::MAX as int / 4) * 3
}

/// Calls `Engine::encode` of the standard engine. The result depends on the bytes alone, and the
/// same engine decodes it to them: alphabet and padding are those that it decodes. The call
/// allocates the whole text at once, so the length is bounded.
#[verifier::external_body]
pub(crate) fn encode_base64(bytes: &Vec<u8>) -> (text: String)
    requires
        is_encodable(bytes@.len()),
    ensures
        text@ == base64_text(bytes@),
        base64_bytes(text@) is Ok && base64_bytes(text@)->Ok_0 == bytes@,
{
    base64::engine::general_purpose::STANDARD.encode(bytes)
}

/// Calls `Engine::decode` of the standard engine, and renders its error. The result depends on the
/// text alone.
#[verifier::external_body]
pub(crate) fn decode_base64(text: &str) -> (bytes: Result<Vec<u8>, String>)
    ensures
        bytes is Ok == base64_bytes(text@) is Ok,
        bytes is Ok ==> bytes->Ok_0@ == base64_bytes(text@)->Ok_0,
        bytes is Err ==> bytes->Err_0@ == base64_bytes(text@)->Err_0,
{
    base64::engine::general_purpose::STANDARD.decode(text).map_err(|error| error.to_string())
}

} // verus!
