//! The message format of the asynchronous TCP protocol.
//!
//! A message is `total` (4 bytes, big endian), `json_length` (4 bytes, big
//! endian), the JSON text, then `total - json_length` bytes of data.
use vstd::prelude::*;
use vstd::string::StringSliceAdditionalSpecFns;
use vstd::utf8::{decode_utf8, valid_utf8};
use crate::codec::{
    be_bytes, be_value, copy_range, lemma_str_bytes_decode, push_bytes,
    push_u32_be, read_u32_be, utf8_decode_lossy, utf8_lossy,
};
use crate::network::{header_bytes, header_consistent, lemma_header_roundtrip, FrameError};

pub mod server;
pub mod worker;

verus! {

/// A message as read from the wire.
#[derive(Debug, Clone)]
pub struct RawMessage {
    pub message_length: u32,
    pub json_length: u32,
    pub json_message: String,
    pub data: Vec<u8>,
}

/// The abstract content of a raw message.
pub struct RawMessageView {
    pub message_length: u32,
    pub json_length: u32,
    pub json_message: Seq<char>,
    pub data: Seq<u8>,
}

impl View for RawMessage {
    type V = RawMessageView;

    open spec fn view(&self) -> RawMessageView {
        RawMessageView {
            message_length: self.message_length,
            json_length: self.json_length,
            json_message: self.json_message@,
            data: self.data@,
        }
    }
}

/// The size field that a length `n` is written as (`n as u32`).
pub open spec fn size_field(n: nat) -> u32 {
    (n % 0x1_0000_0000) as u32
}

/// The bytes of a message with JSON text `json` and optional `data`.
pub open spec fn message_frame_bytes(json: Seq<u8>, data: Seq<u8>) -> Seq<u8> {
    header_bytes((size_field(json.len()) + size_field(data.len())) as u32, size_field(json.len()))
        + json + data
}

/// The bytes of a length-prefixed JSON text.
pub open spec fn json_frame_bytes(json: Seq<u8>) -> Seq<u8> {
    be_bytes(size_field(json.len())) + json
}

/// The bytes of a result message: total size, then the length-prefixed JSON
/// text, the signature and the binary data.
pub open spec fn result_frame_bytes(json: Seq<u8>, binary_data: Seq<u8>, signature: Seq<u8>) -> Seq<
    u8,
> {
    be_bytes(size_field(json.len() + binary_data.len() + signature.len())) + json_frame_bytes(json)
        + signature + binary_data
}

/// The text that bytes read as, with invalid UTF-8 replaced.
pub open spec fn lossy_text(bytes: Seq<u8>) -> Seq<char> {
    if valid_utf8(bytes) {
        decode_utf8(bytes)
    } else {
        utf8_lossy(bytes)
    }
}

/// What reading a raw message from `s` gives.
pub open spec fn raw_message_outcome(s: Seq<u8>) -> Result<RawMessageView, FrameError> {
    if s.len() < 8 {
        Err(FrameError::UnexpectedEof)
    } else {
        let total = be_value(s, 0);
        let json_length = be_value(s, 4);
        if s.len() < 8 + json_length {
            Err(FrameError::UnexpectedEof)
        } else if s.len() < 8 + total {
            Err(FrameError::UnexpectedEof)
        } else {
            Ok(
                RawMessageView {
                    message_length: total,
                    json_length,
                    json_message: lossy_text(s.subrange(8, 8 + json_length)),
                    data: s.subrange(8 + json_length, 8 + total),
                },
            )
        }
    }
}

/// The view of a read result.
pub open spec fn view_raw(r: Result<RawMessage, FrameError>) -> Result<RawMessageView, FrameError> {
    match r {
        Ok(m) => Ok(m@),
        Err(e) => Err(e),
    }
}

/// The 32-bit size field that a length is written as (`len as u32`).
fn size_field_of(len: usize) -> (f: u32)
    ensures
        f == size_field(len as nat),
{
    ((len as u64) % 0x1_0000_0000) as u32
}

/// The bytes of a message carrying `json_message` and, when given, `data`.
pub fn message_frame(json_message: &[u8], data: Option<&[u8]>) -> (buffer: Vec<u8>)
    requires
        size_field(json_message@.len()) + size_field(
            match data {
                Some(d) => d@.len(),
                None => 0,
            },
        ) <= u32::MAX,
    ensures
        buffer@ == message_frame_bytes(
            json_message@,
            match data {
                Some(d) => d@,
                None => Seq::empty(),
            },
        ),
{
    let json_message_size = size_field_of(json_message.len());
    let data_size: u32 = match data {
        Some(d) => size_field_of(d.len()),
        None => 0,
    };
    let ghost data_bytes = match data {
        Some(d) => d@,
        None => Seq::<u8>::empty(),
    };
    assert(json_message_size == size_field(json_message@.len()));
    assert(data_size == size_field(data_bytes.len()));
    let total_message_size = json_message_size + data_size;
    let mut buffer: Vec<u8> = Vec::new();
    push_u32_be(&mut buffer, total_message_size);
    push_u32_be(&mut buffer, json_message_size);
    push_bytes(&mut buffer, json_message);
    if let Some(d) = data {
        push_bytes(&mut buffer, d);
    }
    assert(buffer@ =~= message_frame_bytes(json_message@, data_bytes));
    buffer
}

/// The bytes of `json_message` preceded by its length.
pub fn json_message_frame(json_message: &str) -> (buffer: Vec<u8>)
    ensures
        buffer@ == json_frame_bytes(json_message.spec_bytes()),
{
    let message_bytes = json_message.as_bytes();
    let message_length = size_field_of(message_bytes.len());
    let mut buffer: Vec<u8> = Vec::new();
    push_u32_be(&mut buffer, message_length);
    push_bytes(&mut buffer, message_bytes);
    assert(buffer@ =~= json_frame_bytes(json_message.spec_bytes()));
    buffer
}

/// The bytes of a result message carrying `json_message`, then `signature`,
/// then `binary_data`.
pub fn result_frame(json_message: &str, binary_data: &[u8], signature: &[u8]) -> (buffer: Vec<u8>)
    requires
        json_message.spec_bytes().len() + binary_data@.len() + signature@.len() <= usize::MAX,
    ensures
        buffer@ == result_frame_bytes(json_message.spec_bytes(), binary_data@, signature@),
{
    let json_bytes = json_message.as_bytes();
    let total_message_size = size_field_of(json_bytes.len() + binary_data.len() + signature.len());
    let mut buffer: Vec<u8> = Vec::new();
    push_u32_be(&mut buffer, total_message_size);
    let json_part = json_message_frame(json_message);
    push_bytes(&mut buffer, json_part.as_slice());
    let ghost head = buffer@;
    push_bytes(&mut buffer, signature);
    push_bytes(&mut buffer, binary_data);
    assert(buffer@ =~= head + signature@ + binary_data@);
    buffer
}

/// Whether, once the JSON text announced by the header of `s` is there, the
/// JSON size does not exceed the total size (the data size is their
/// difference).
pub open spec fn json_within_total(s: Seq<u8>) -> bool {
    s.len() >= 8 && s.len() >= 8 + be_value(s, 4) ==> be_value(s, 4) <= be_value(s, 0)
}

/// Reads a raw message: the total size, the JSON size, the JSON text (with
/// invalid UTF-8 replaced) and the data that follows it.
pub fn read_message_raw(bytes: &[u8]) -> (r: Result<RawMessage, FrameError>)
    requires
        json_within_total(bytes@),
    ensures
        view_raw(r) == raw_message_outcome(bytes@),
{
    if bytes.len() < 8 {
        return Err(FrameError::UnexpectedEof);
    }
    let message_length = read_u32_be(bytes, 0);
    let json_length = read_u32_be(bytes, 4);
    let available = bytes.len() - 8;
    if available < json_length as usize {
        return Err(FrameError::UnexpectedEof);
    }
    let json_bytes = copy_range(bytes, 8, json_length as usize);
    let json_message = utf8_decode_lossy(json_bytes.as_slice());
    let binary_data_length = message_length - json_length;
    if available - (json_length as usize) < binary_data_length as usize {
        return Err(FrameError::UnexpectedEof);
    }
    let data = copy_range(bytes, 8 + json_length as usize, binary_data_length as usize);
    Ok(RawMessage { message_length, json_length, json_message, data })
}

/// A header announcing `json` and `data`, followed by them, reads back as
/// them.
proof fn lemma_framed_outcome(json: Seq<u8>, data: Seq<u8>)
    requires
        json.len() + data.len() <= u32::MAX,
    ensures
        header_consistent(
            header_bytes((json.len() + data.len()) as u32, json.len() as u32) + json + data,
        ),
        raw_message_outcome(
            header_bytes((json.len() + data.len()) as u32, json.len() as u32) + json + data,
        ) == Ok::<RawMessageView, FrameError>(
            RawMessageView {
                message_length: (json.len() + data.len()) as u32,
                json_length: json.len() as u32,
                json_message: lossy_text(json),
                data,
            },
        ),
{
    let total = (json.len() + data.len()) as u32;
    let s = header_bytes(total, json.len() as u32) + json + data;
    lemma_header_roundtrip(total, json.len() as u32, json + data);
    assert(s =~= header_bytes(total, json.len() as u32) + (json + data));
    assert(s.subrange(8, (8 + json.len()) as int) =~= json);
    assert(s.subrange((8 + json.len()) as int, 8 + total) =~= data);
}

/// Reading back a message gives its JSON text (as the lossy decoding of its
/// bytes) and its data, whenever its sizes fit the 32-bit length fields.
pub proof fn lemma_message_frame_roundtrip(json: Seq<u8>, data: Seq<u8>)
    requires
        json.len() + data.len() <= u32::MAX,
    ensures
        header_consistent(message_frame_bytes(json, data)),
        json_within_total(message_frame_bytes(json, data)),
        raw_message_outcome(message_frame_bytes(json, data)) == Ok::<RawMessageView, FrameError>(
            RawMessageView {
                message_length: (json.len() + data.len()) as u32,
                json_length: json.len() as u32,
                json_message: lossy_text(json),
                data,
            },
        ),
{
    assert(size_field(json.len()) == json.len());
    assert(size_field(data.len()) == data.len());
    lemma_framed_outcome(json, data);
}

/// Reading back a result message gives its JSON text and, as data, its
/// signature followed by its binary data, whenever its size fits in 32 bits.
pub proof fn lemma_result_frame_roundtrip(json_message: &str, binary_data: Seq<u8>, signature: Seq<u8>)
    requires
        json_message.spec_bytes().len() + binary_data.len() + signature.len() <= u32::MAX,
    ensures
        header_consistent(result_frame_bytes(json_message.spec_bytes(), binary_data, signature)),
        json_within_total(result_frame_bytes(json_message.spec_bytes(), binary_data, signature)),
        raw_message_outcome(result_frame_bytes(json_message.spec_bytes(), binary_data, signature))
            == Ok::<RawMessageView, FrameError>(
            RawMessageView {
                message_length: (json_message.spec_bytes().len() + binary_data.len()
                    + signature.len()) as u32,
                json_length: json_message.spec_bytes().len() as u32,
                json_message: json_message@,
                data: signature + binary_data,
            },
        ),
{
    let json = json_message.spec_bytes();
    let data = signature + binary_data;
    assert(size_field(json.len()) == json.len());
    assert(size_field((json.len() + binary_data.len() + signature.len()) as nat) == (json.len()
        + data.len()));
    assert(result_frame_bytes(json, binary_data, signature) =~= header_bytes(
        (json.len() + data.len()) as u32,
        json.len() as u32,
    ) + json + data);
    lemma_framed_outcome(json, data);
    lemma_str_bytes_decode(json_message);
}

/// A raw message read back carries the sizes its header announces and
/// exactly `message_length - json_length` bytes of data, those right after
/// the JSON text, whatever follows them.
pub proof fn lemma_raw_data_is_announced(s: Seq<u8>)
    requires
        json_within_total(s),
    ensures
        raw_message_outcome(s) matches Ok(m) ==> {
            &&& s.len() >= 8 + m.message_length
            &&& m.message_length == be_value(s, 0)
            &&& m.json_length == be_value(s, 4)
            &&& m.json_length <= m.message_length
            &&& m.data.len() == m.message_length - m.json_length
            &&& m.data == s.subrange(8 + m.json_length, 8 + m.message_length)
            &&& m.json_message == lossy_text(s.subrange(8, 8 + m.json_length))
        },
{
}

/// A message followed by other bytes reads back as the message alone: its
/// sizes, its JSON text and its data, and nothing of what follows.
pub proof fn lemma_message_frame_roundtrip_with_rest(json: Seq<u8>, data: Seq<u8>, rest: Seq<u8>)
    requires
        json.len() + data.len() <= u32::MAX,
    ensures
        json_within_total(message_frame_bytes(json, data) + rest),
        raw_message_outcome(message_frame_bytes(json, data) + rest) == Ok::<
            RawMessageView,
            FrameError,
        >(
            RawMessageView {
                message_length: (json.len() + data.len()) as u32,
                json_length: json.len() as u32,
                json_message: lossy_text(json),
                data,
            },
        ),
{
    let total = (json.len() + data.len()) as u32;
    assert(size_field(json.len()) == json.len());
    assert(size_field(data.len()) == data.len());
    let s = message_frame_bytes(json, data) + rest;
    assert(s =~= header_bytes(total, json.len() as u32) + (json + data + rest));
    lemma_header_roundtrip(total, json.len() as u32, json + data + rest);
    assert(s.subrange(8, (8 + json.len()) as int) =~= json);
    assert(s.subrange((8 + json.len()) as int, 8 + total) =~= data);
}

} // verus!
