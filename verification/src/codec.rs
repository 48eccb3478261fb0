use vstd::prelude::*;
use vstd::bytes::{lemma_auto_spec_u64_to_from_le_bytes, spec_u64_from_le_bytes, spec_u64_to_le_bytes};
use vstd::utf8::{decode_utf8, encode_utf8, encode_utf8_decode_utf8, encode_utf8_valid_utf8, valid_utf8};
use crate::server_error::ServerError;

verus! {

/// Width in bytes of a challenge and of a solution on the wire.
pub const BLOCK_SIZE: usize = 16;

/// Width in bytes of the length field in front of a text.
pub const LENGTH_FIELD_SIZE: usize = 8;

/// What went wrong inside `bincode`. Opaque: the library only maps it to one
/// of its own error kinds.
#[verifier::external_type_specification]
#[verifier::external_body]
pub struct ExErrorKind(bincode::ErrorKind);

/// The wire form of a sixteen-byte block: the bytes themselves, with no
/// length in front.
pub open spec fn block_frame(block: Seq<u8>) -> Seq<u8> {
    block
}

/// The block that a buffer starts with, if it holds at least sixteen bytes.
/// Bytes behind the block are ignored.
pub open spec fn parse_block(buffer: Seq<u8>) -> Option<Seq<u8>> {
    if buffer.len() >= BLOCK_SIZE {
        Some(buffer.subrange(0, BLOCK_SIZE as int))
    } else {
        None
    }
}

/// The wire form of a text: the byte length of its UTF-8 form as eight
/// little-endian bytes, then the UTF-8 bytes.
pub open spec fn text_frame(text: Seq<char>) -> Seq<u8> {
    spec_u64_to_le_bytes(encode_utf8(text).len() as u64) + encode_utf8(text)
}

/// The length that the first eight bytes of a buffer announce.
pub open spec fn announced_length(buffer: Seq<u8>) -> int {
    spec_u64_from_le_bytes(buffer.subrange(0, LENGTH_FIELD_SIZE as int)) as int
}

/// The bytes of a buffer that follow the length field, as many as it
/// announces.
pub open spec fn payload(buffer: Seq<u8>) -> Seq<u8> {
    buffer.subrange(LENGTH_FIELD_SIZE as int, LENGTH_FIELD_SIZE + announced_length(buffer))
}

/// The text that a buffer starts with: there is one when the buffer holds a
/// length field, at least as many bytes behind it as the field announces,
/// and those bytes are valid UTF-8. Bytes behind the text are ignored.
pub open spec fn parse_text(buffer: Seq<u8>) -> Option<Seq<char>> {
    if buffer.len() >= LENGTH_FIELD_SIZE && announced_length(buffer) <= buffer.len()
        - LENGTH_FIELD_SIZE && valid_utf8(payload(buffer)) {
        Some(decode_utf8(payload(buffer)))
    } else {
        None
    }
}

/// Calls `bincode::serialize` on a sixteen-byte array. Trusted: it succeeds,
/// since the default configuration sets no size limit and the bytes are
/// written to a `Vec`, and it writes an array as its elements in order, a
/// `u8` as itself.
#[verifier::external_body]
fn serialize_block(block: &[u8; 16]) -> (outcome: Result<Vec<u8>, Box<bincode::ErrorKind>>)
    ensures
        outcome is Ok,
        outcome matches Ok(bytes) ==> bytes@ == block_frame(block@),
{
    bincode::serialize(block)
}

/// Calls `bincode::deserialize` for a sixteen-byte array. Trusted: it reads
/// sixteen single bytes from the front of the buffer, fails when the buffer
/// runs out before that, and accepts bytes left over.
#[verifier::external_body]
fn deserialize_block(buffer: &[u8]) -> (outcome: Result<[u8; 16], Box<bincode::ErrorKind>>)
    ensures
        outcome is Ok <==> parse_block(buffer@) is Some,
        outcome matches Ok(block) ==> parse_block(buffer@) == Some(block@),
{
    bincode::deserialize::<[u8; 16]>(buffer)
}

/// Calls `bincode::serialize` on a string slice. Trusted: it succeeds, as
/// for a block, and writes the byte length as a fixed-width little-endian
/// `u64`, then the string's bytes.
#[verifier::external_body]
fn serialize_text(text: &str) -> (outcome: Result<Vec<u8>, Box<bincode::ErrorKind>>)
    ensures
        outcome is Ok,
        outcome matches Ok(bytes) ==> bytes@ == text_frame(text@),
{
    bincode::serialize(text)
}

/// Calls `bincode::deserialize` for a borrowed string slice. Trusted: it
/// reads a fixed-width little-endian `u64` length, then that many bytes,
/// which must be valid UTF-8; it fails when the buffer is too short for
/// either, and accepts bytes left over.
#[verifier::external_body]
fn deserialize_text<'a>(buffer: &'a [u8]) -> (outcome: Result<&'a str, Box<bincode::ErrorKind>>)
    ensures
        outcome is Ok <==> parse_text(buffer@) is Some,
        outcome matches Ok(text) ==> parse_text(buffer@) == Some(text@),
{
    bincode::deserialize::<&str>(buffer)
}

/// Encodes a challenge or a solution for the wire. What comes out decodes
/// to the same block.
pub fn encode_block(block: &[u8; 16]) -> (outcome: Result<Vec<u8>, ServerError>)
    ensures
        outcome matches Ok(bytes) && bytes@ == block_frame(block@) && parse_block(bytes@) == Some(
            block@,
        ),
{
    match serialize_block(block) {
        Ok(bytes) => {
            proof {
                lemma_block_round_trip(block@);
            }
            Ok(bytes)
        },
        Err(_) => Err(ServerError::Serialize),
    }
}

/// Decodes a challenge or a solution from received bytes.
pub fn decode_block(buffer: &[u8]) -> (outcome: Result<[u8; 16], ServerError>)
    ensures
        match outcome {
            Ok(block) => parse_block(buffer@) == Some(block@),
            Err(error) => parse_block(buffer@) is None && error == ServerError::Deserialize,
        },
{
    match deserialize_block(buffer) {
        Ok(block) => Ok(block),
        Err(_) => Err(ServerError::Deserialize),
    }
}

/// Encodes a response text for the wire. What comes out decodes to the same
/// text.
pub fn encode_text(text: &str) -> (outcome: Result<Vec<u8>, ServerError>)
    ensures
        outcome matches Ok(bytes) && bytes@ == text_frame(text@) && parse_text(bytes@) == Some(
            text@,
        ),
{
    match serialize_text(text) {
        Ok(bytes) => {
            let length: usize = bytes.len();
            proof {
                lemma_auto_spec_u64_to_from_le_bytes();
                assert(encode_utf8(text@).len() + LENGTH_FIELD_SIZE == length);
                lemma_text_round_trip(text@);
            }
            Ok(bytes)
        },
        Err(_) => Err(ServerError::Serialize),
    }
}

/// Decodes a response text from received bytes.
pub fn decode_text(buffer: &[u8]) -> (outcome: Result<String, ServerError>)
    ensures
        match outcome {
            Ok(text) => parse_text(buffer@) == Some(text@),
            Err(error) => parse_text(buffer@) is None && error == ServerError::Deserialize,
        },
{
    match deserialize_text(buffer) {
        Ok(text) => Ok(String::from_str(text)),
        Err(_) => Err(ServerError::Deserialize),
    }
}

/// Encoding a sixteen-byte block and decoding the result gives the block
/// back.
pub proof fn lemma_block_round_trip(block: Seq<u8>)
    requires
        block.len() == BLOCK_SIZE,
    ensures
        parse_block(block_frame(block)) == Some(block),
{
    assert(block.subrange(0, BLOCK_SIZE as int) =~= block);
}

/// Encoding a text and decoding the result gives the text back, the empty
/// text included.
pub proof fn lemma_text_round_trip(text: Seq<char>)
    requires
        encode_utf8(text).len() <= u64::MAX,
    ensures
        parse_text(text_frame(text)) == Some(text),
{
    let body = encode_utf8(text);
    let length = body.len() as u64;
    let frame = text_frame(text);
    lemma_auto_spec_u64_to_from_le_bytes();
    assert(spec_u64_to_le_bytes(length).len() == 8);
    assert(frame.subrange(0, LENGTH_FIELD_SIZE as int) =~= spec_u64_to_le_bytes(length));
    assert(announced_length(frame) == body.len());
    assert(payload(frame) =~= body);
    encode_utf8_valid_utf8(text);
    encode_utf8_decode_utf8(text);
}

} // verus!
