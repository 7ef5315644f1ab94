use vstd::prelude::*;
use vstd::bytes::{spec_u64_from_le_bytes, spec_u64_to_le_bytes};
use vstd::utf8::{decode_utf8, encode_utf8, valid_utf8};
use vstd::string::StringSliceAdditionalSpecFns;

verus! {

/// Size of every message exchanged between the reconstruction server and its clients.
pub const MESSAGE_SIZE: usize = 600000;

/// Size of every message read by the single-process prototype server.
pub const PROTOTYPE_MESSAGE_SIZE: usize = 200;

/// A payload made into a message of exactly `size` bytes: cut to `size` bytes, or
/// padded with zero bytes up to `size`.
pub open spec fn spec_frame(payload: Seq<u8>, size: nat) -> Seq<u8> {
    if payload.len() >= size {
        payload.take(size as int)
    } else {
        payload + Seq::new((size - payload.len()) as nat, |i: int| 0u8)
    }
}

/// The bytes under which a text is sent: its UTF-8 length as a little-endian
/// 64-bit number, then its UTF-8 bytes.
pub open spec fn spec_text_bytes(text: Seq<char>) -> Seq<u8> {
    spec_u64_to_le_bytes(encode_utf8(text).len() as u64) + encode_utf8(text)
}

/// The text that a message carries, if it carries one: the first 8 bytes give
/// the text's length `n` in bytes (little-endian), and the next `n` bytes must be
/// valid UTF-8. Bytes after the text are ignored.
pub open spec fn spec_read_text(message: Seq<u8>) -> Option<Seq<char>> {
    if message.len() < 8 {
        None
    } else {
        let n = spec_u64_from_le_bytes(message.take(8));
        if 8 + n > message.len() {
            None
        } else if !valid_utf8(message.subrange(8, 8 + n)) {
            None
        } else {
            Some(decode_utf8(message.subrange(8, 8 + n)))
        }
    }
}

/// `bincode::ErrorKind`, the error `bincode` reports.
#[verifier::external_type_specification]
#[verifier::external_body]
pub struct ExBincodeErrorKind(bincode::ErrorKind);

/// `bincode::serialize` of a string: with bincode's default options (fixed-width
/// little-endian integers, no size limit) a string is written as its byte length
/// as a `u64` followed by its UTF-8 bytes, and writing into a `Vec` cannot fail.
#[verifier::external_body]
fn bincode_serialize_str(text: &str) -> (encoded: Result<Vec<u8>, Box<bincode::ErrorKind>>)
    ensures
        encoded is Ok,
        encoded matches Ok(bytes) ==> bytes@ == spec_u64_to_le_bytes(text.spec_bytes().len() as u64) + text.spec_bytes(),
{
    bincode::serialize(text)
}

/// `bincode::deserialize::<String>`: reads a `u64` length `n` (little-endian), then
/// `n` bytes that must be valid UTF-8; it fails when fewer bytes are there or
/// they are not UTF-8, and ignores any bytes that follow.
#[verifier::external_body]
fn bincode_deserialize_string(message: &[u8]) -> (decoded: Option<String>)
    ensures
        decoded matches Some(text) ==> spec_read_text(message@) == Some(text@),
        decoded is None ==> spec_read_text(message@) is None,
{
    bincode::deserialize::<String>(message).ok()
}

/// Makes `payload` into a message of exactly `size` bytes: longer payloads are
/// cut, shorter ones padded with zero bytes.
pub fn frame_message(payload: Vec<u8>, size: usize) -> (message: Vec<u8>)
    ensures
        message@ == spec_frame(payload@, size as nat),
        message@.len() == size,
{
    let mut message = payload;
    message.resize(size, 0u8);
    proof {
        assert(message@ =~= spec_frame(payload@, size as nat));
    }
    message
}

/// The message of `size` bytes that carries `text`.
pub fn text_message(text: &str, size: usize) -> (message: Vec<u8>)
    ensures
        message@ == spec_frame(spec_text_bytes(text@), size as nat),
{
    let encoded = bincode_serialize_str(text);
    let bytes = match encoded {
        Ok(bytes) => bytes,
        Err(_) => Vec::new(),
    };
    frame_message(bytes, size)
}

/// The text that `message` carries, or `None` when it carries none.
pub fn read_text_message(message: &[u8]) -> (text: Option<String>)
    ensures
        text matches Some(t) ==> spec_read_text(message@) == Some(t@),
        text is None ==> spec_read_text(message@) is None,
{
    bincode_deserialize_string(message)
}

/// The text with which the server tells a client its request was queued.
pub open spec fn spec_queued_notice() -> Seq<char> {
    "Adicionado a fila de prioridades"@
}

/// The message with which the server tells a client its request was queued.
pub fn queued_notice_message() -> (message: Vec<u8>)
    ensures
        message@ == spec_frame(spec_text_bytes(spec_queued_notice()), MESSAGE_SIZE as nat),
{
    text_message("Adicionado a fila de prioridades", MESSAGE_SIZE)
}

/// Every message has the agreed size, and a payload that fits comes back
/// unchanged at its start, followed by zero bytes.
pub proof fn frame_keeps_payload(payload: Seq<u8>, size: nat)
    ensures
        spec_frame(payload, size).len() == size,
        payload.len() <= size ==> spec_frame(payload, size).take(payload.len() as int) == payload,
        payload.len() <= size ==> forall|i: int| payload.len() <= i < size
            ==> #[trigger] spec_frame(payload, size)[i] == 0u8,
{
    if payload.len() <= size {
        assert(spec_frame(payload, size).take(payload.len() as int) =~= payload);
    }
}

/// Framing a message again changes nothing.
pub proof fn frame_idempotent(payload: Seq<u8>, size: nat)
    ensures
        spec_frame(spec_frame(payload, size), size) == spec_frame(payload, size),
{
    assert(spec_frame(spec_frame(payload, size), size) =~= spec_frame(payload, size));
}

/// A text sent in a message that holds it whole is read back unchanged.
pub proof fn text_round_trip(text: Seq<char>, size: usize)
    requires
        spec_text_bytes(text).len() <= size,
    ensures
        spec_read_text(spec_frame(spec_text_bytes(text), size as nat)) == Some(text),
{
    let size = size as nat;
    let bytes = encode_utf8(text);
    let encoded = spec_text_bytes(text);
    let message = spec_frame(encoded, size);
    vstd::bytes::lemma_auto_spec_u64_to_from_le_bytes();
    vstd::utf8::encode_utf8_valid_utf8(text);
    vstd::utf8::encode_utf8_decode_utf8(text);
    frame_keeps_payload(encoded, size);
    let len_bytes = spec_u64_to_le_bytes(bytes.len() as u64);
    assert(len_bytes.len() == 8);
    assert(message.take(8) =~= len_bytes) by {
        assert(encoded.take(8) =~= len_bytes);
        assert(message.take(encoded.len() as int).take(8) =~= message.take(8));
    }
    assert(spec_u64_from_le_bytes(message.take(8)) == bytes.len());
    assert(message.subrange(8, 8 + bytes.len() as int) =~= bytes) by {
        assert(encoded.subrange(8, 8 + bytes.len() as int) =~= bytes);
        assert forall|i: int| 0 <= i < bytes.len() implies #[trigger] message[8 + i] == encoded[8 + i] by {
            assert(message.take(encoded.len() as int)[8 + i] == encoded[8 + i]);
        }
    }
}

} // verus!
