//! Framing of encoded surface deltas as base64 text.

use base64::Engine;
use vstd::prelude::*;
use crate::text::{decimal_text, push_decimal};
use super::surface_wire::MAX_FRAME_SIZE;

verus! {

/// The standard-alphabet base64 text of `bytes`, without padding.
pub uninterp spec fn base64_no_pad_encoding(bytes: Seq<u8>) -> Seq<char>;

/// The bytes that unpadded standard-alphabet base64 text stands for, or
/// `None` when the text is not such base64.
pub uninterp spec fn base64_no_pad_decoding(text: Seq<char>) -> Option<Seq<u8>>;

/// The bytes that padded standard-alphabet base64 text stands for, or
/// `None` when the text is not such base64.
pub uninterp spec fn base64_padded_decoding(text: Seq<char>) -> Option<Seq<u8>>;

/// Encodes with `base64::engine::general_purpose::STANDARD_NO_PAD`. Claims
/// that the text is the named encoding of the bytes, holds no `=` (the engine
/// adds no padding and `=` is not in the alphabet), and decodes with the same
/// engine to the same bytes.
#[verifier::external_body]
fn encode_no_pad(bytes: &Vec<u8>) -> (r: String)
    ensures
        r@ == base64_no_pad_encoding(bytes@),
        forall|i: int| 0 <= i < r@.len() ==> r@[i] != '=',
        base64_no_pad_decoding(r@) == Some(bytes@),
{
    base64::engine::general_purpose::STANDARD_NO_PAD.encode(bytes)
}

/// Decodes with `base64::engine::general_purpose::STANDARD_NO_PAD`. Claims
/// that the result is the named decoding of the text; a decode error carries
/// the crate's message.
#[verifier::external_body]
fn decode_no_pad(text: &str) -> (r: Result<Vec<u8>, String>)
    ensures
        match base64_no_pad_decoding(text@) {
            Some(b) => r matches Ok(v) && v@ == b,
            None => r is Err,
        },
{
    base64::engine::general_purpose::STANDARD_NO_PAD.decode(text).map_err(|e| e.to_string())
}

/// Decodes with `base64::engine::general_purpose::STANDARD`. Claims that the
/// result is the named decoding of the text; a decode error carries the
/// crate's message.
#[verifier::external_body]
pub(crate) fn decode_padded(text: &str) -> (r: Result<Vec<u8>, String>)
    ensures
        match base64_padded_decoding(text@) {
            Some(b) => r matches Ok(v) && v@ == b,
            None => r is Err,
        },
{
    base64::engine::general_purpose::STANDARD.decode(text).map_err(|e| e.to_string())
}

/// Frames the encoded bytes of a surface delta as unpadded base64, refusing
/// more than `MAX_FRAME_SIZE` bytes. The text unframes to the same bytes.
pub fn frame_surface_delta(bytes: &Vec<u8>) -> (r: Result<String, String>)
    ensures
        r is Err <==> bytes@.len() > MAX_FRAME_SIZE,
        r matches Ok(t) ==> t@ == base64_no_pad_encoding(bytes@)
            && base64_no_pad_decoding(t@) == Some(bytes@)
            && forall|i: int| 0 <= i < t@.len() ==> t@[i] != '=',
        r matches Err(e) ==> e@ == "surface delta bincode "@ + decimal_text(bytes@.len()) + " exceeds MAX_FRAME_SIZE "@
            + decimal_text(MAX_FRAME_SIZE as nat),
{
    if bytes.len() > MAX_FRAME_SIZE {
        let mut msg = String::from_str("surface delta bincode ");
        push_decimal(&mut msg, bytes.len() as u64);
        msg.append(" exceeds MAX_FRAME_SIZE ");
        push_decimal(&mut msg, MAX_FRAME_SIZE as u64);
        return Err(msg);
    }
    Ok(encode_no_pad(bytes))
}

/// The encoded bytes of a framed surface delta: the text is read as unpadded
/// base64, or else as padded base64.
pub fn unframe_surface_delta(data: &str) -> (r: Result<Vec<u8>, String>)
    ensures
        match (base64_no_pad_decoding(data@), base64_padded_decoding(data@)) {
            (Some(b), _) => r matches Ok(v) && v@ == b,
            (None, Some(b)) => r matches Ok(v) && v@ == b,
            (None, None) => r is Err,
        },
        r matches Err(e) ==> e@.len() >= 30 && e@.subrange(0, 30) == "invalid surface delta base64: "@,
{
    match decode_no_pad(data) {
        Ok(bytes) => Ok(bytes),
        Err(_) => match decode_padded(data) {
            Ok(bytes) => Ok(bytes),
            Err(e) => {
                let mut msg = String::from_str("invalid surface delta base64: ");
                proof {
                    reveal_strlit("invalid surface delta base64: ");
                }
                let ghost prefix = msg@;
                msg.append(e.as_str());
                assert(msg@.subrange(0, 30) =~= prefix);
                Err(msg)
            },
        },
    }
}

/// Refuses a decoded surface delta that left bytes unread.
pub fn check_surface_delta_consumed(consumed_len: usize, total_len: usize) -> (r: Result<(), String>)
    ensures
        r is Ok <==> consumed_len == total_len,
        r matches Err(e) ==> e@ == "surface delta trailing unconsumed bytes: consumed "@ + decimal_text(consumed_len as nat)
            + " of "@ + decimal_text(total_len as nat),
{
    if consumed_len != total_len {
        let mut msg = String::from_str("surface delta trailing unconsumed bytes: consumed ");
        push_decimal(&mut msg, consumed_len as u64);
        msg.append(" of ");
        push_decimal(&mut msg, total_len as u64);
        return Err(msg);
    }
    Ok(())
}

} // verus!
