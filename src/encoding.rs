//! Base64 transfer encoding of container bytes between the shell's front
//! end and the library.
use vstd::prelude::*;
use vstd::string::*;
use base64::Engine as _;

verus! {

/// The standard, padded base64 text of some bytes.
pub uninterp spec fn base64_of(b: Seq<u8>) -> Seq<char>;

/// The bytes a text decodes to under standard, padded base64, if it is
/// valid.
pub uninterp spec fn base64_decoded(s: Seq<char>) -> Option<Seq<u8>>;

#[verifier::external_type_specification]
#[verifier::external_body]
pub struct ExDecodeError(base64::DecodeError);

/// Relies on `base64::Engine::encode` with the `STANDARD` engine: padded
/// output of four characters for every started group of three bytes. It
/// panics only when that length overflows `usize`.
#[verifier::external_body]
fn base64_encode(bytes: &[u8]) -> (r: String)
    requires
        bytes@.len() <= usize::MAX / 2,
    ensures
        r@ == base64_of(bytes@),
        r@.len() == 4 * ((bytes@.len() + 2) / 3),
{
    base64::engine::general_purpose::STANDARD.encode(bytes)
}

/// Relies on `base64::Engine::decode` with the `STANDARD` engine.
#[verifier::external_body]
fn base64_decode(text: &str) -> (r: Result<Vec<u8>, base64::DecodeError>)
    ensures
        r is Ok <==> base64_decoded(text@) is Some,
        r matches Ok(v) ==> base64_decoded(text@) == Some(v@),
{
    base64::engine::general_purpose::STANDARD.decode(text)
}

/// Relies on the `Display` impl of `base64::DecodeError`: its message.
#[verifier::external_body]
fn decode_error_text(e: &base64::DecodeError) -> (r: String) {
    e.to_string()
}

/// Encodes audio bytes for transfer.
pub fn encode_audio_base64(audio_bytes: &[u8]) -> (r: String)
    requires
        audio_bytes@.len() <= usize::MAX / 2,
    ensures
        r@ == base64_of(audio_bytes@),
        r@.len() == 4 * ((audio_bytes@.len() + 2) / 3),
{
    base64_encode(audio_bytes)
}

/// Decodes transferred audio bytes; an invalid text gives an error message
/// that starts with "Failed to decode audio: ".
pub fn decode_audio_base64(audio_data: &str) -> (r: Result<Vec<u8>, String>)
    ensures
        r is Ok <==> base64_decoded(audio_data@) is Some,
        r matches Ok(v) ==> base64_decoded(audio_data@) == Some(v@),
        r matches Err(m) ==> m@.len() >= 24 && m@.subrange(0, 24) == "Failed to decode audio: "@,
{
    match base64_decode(audio_data) {
        Ok(v) => Ok(v),
        Err(e) => {
            let detail = decode_error_text(&e);
            let mut msg = String::from_str("Failed to decode audio: ");
            msg.append(detail.as_str());
            proof {
                reveal_strlit("Failed to decode audio: ");
                assert(msg@.subrange(0, 24) =~= "Failed to decode audio: "@);
            }
            Err(msg)
        },
    }
}

} // verus!
