//! The length-prefixed message format of the blocking TCP protocol.
//!
//! A message is `total` (4 bytes, big endian), `json_len` (4 bytes, big
//! endian), the JSON text, then the optional source data and the optional
//! data, where `total` counts the JSON text and both data blocks.
use vstd::prelude::*;
use vstd::string::StringSliceAdditionalSpecFns;
use vstd::utf8::{decode_utf8, valid_utf8};
use crate::codec::{
    be_bytes, be_value, copy_range, lemma_be_roundtrip, lemma_str_bytes_decode, push_bytes,
    push_u32_be, read_u32_be, str_equals, utf8_decode,
};

verus! {

/// Why a message could not be framed or read back.
#[derive(Debug, Clone, Copy, PartialEq, Eq, Structural)]
pub enum FrameError {
    /// The bytes end before the message does.
    UnexpectedEof,
    /// The JSON text is not valid UTF-8.
    InvalidUtf8,
    /// The message does not fit the 32-bit length field.
    MessageTooBig,
}

/// The bytes that an optional block contributes.
pub open spec fn opt_bytes(block: Option<Vec<u8>>) -> Seq<u8> {
    match block {
        Some(v) => v@,
        None => Seq::empty(),
    }
}

/// The size header: the total size, then the JSON size, both big endian.
pub open spec fn header_bytes(total: u32, json_size: u32) -> Seq<u8> {
    be_bytes(total) + be_bytes(json_size)
}

/// What reading a size header from `s` gives.
pub open spec fn header_outcome(s: Seq<u8>) -> Result<(u32, u32), FrameError> {
    if s.len() < 8 {
        Err(FrameError::UnexpectedEof)
    } else {
        Ok((be_value(s, 0), be_value(s, 4)))
    }
}

/// What reading `json_size` bytes of JSON text and then `data_size` bytes of
/// data from `s` gives.
pub open spec fn payload_outcome(s: Seq<u8>, json_size: nat, data_size: nat) -> Result<
    (Seq<char>, Seq<u8>),
    FrameError,
> {
    if s.len() < json_size {
        Err(FrameError::UnexpectedEof)
    } else if !valid_utf8(s.subrange(0, json_size as int)) {
        Err(FrameError::InvalidUtf8)
    } else if s.len() < json_size + data_size {
        Err(FrameError::UnexpectedEof)
    } else {
        Ok(
            (
                decode_utf8(s.subrange(0, json_size as int)),
                s.subrange(json_size as int, (json_size + data_size) as int),
            ),
        )
    }
}

/// A header whose JSON size does not exceed its total size.
pub open spec fn header_consistent(s: Seq<u8>) -> bool {
    s.len() >= 8 ==> be_value(s, 4) <= be_value(s, 0)
}

/// What reading a whole message from `s` gives.
pub open spec fn message_outcome(s: Seq<u8>) -> Result<(Seq<char>, Seq<u8>), FrameError> {
    match header_outcome(s) {
        Err(e) => Err(e),
        Ok((total, json_size)) => payload_outcome(
            s.subrange(8, s.len() as int),
            json_size as nat,
            (total - json_size) as nat,
        ),
    }
}

/// The view of a read result.
pub open spec fn view_read(r: Result<(String, Vec<u8>), FrameError>) -> Result<
    (Seq<char>, Seq<u8>),
    FrameError,
> {
    match r {
        Ok((text, data)) => Ok((text@, data@)),
        Err(e) => Err(e),
    }
}

/// The total size that a message with these parts announces.
pub open spec fn message_total(json: Seq<u8>, src_data: Seq<u8>, data: Seq<u8>) -> int {
    (json.len() + src_data.len() + data.len()) as int
}

/// The bytes of a whole message: header, JSON text, source data, data.
pub open spec fn message_bytes(json: Seq<u8>, src_data: Seq<u8>, data: Seq<u8>) -> Seq<u8> {
    header_bytes(message_total(json, src_data, data) as u32, json.len() as u32) + json + src_data
        + data
}

/// Writes the size header of a message.
pub fn send_message_size(buffer: &mut Vec<u8>, total: u32, payload_size: u32)
    ensures
        final(buffer)@ == old(buffer)@ + header_bytes(total, payload_size),
{
    push_u32_be(buffer, total);
    push_u32_be(buffer, payload_size);
    assert(final(buffer)@ =~= old(buffer)@ + header_bytes(total, payload_size));
}

/// Writes the body of a message: the JSON text, then the source data, then
/// the data.
pub fn send_message_payload(
    buffer: &mut Vec<u8>,
    payload: &str,
    src_data: Option<Vec<u8>>,
    data: Option<Vec<u8>>,
)
    ensures
        final(buffer)@ == old(buffer)@ + payload.spec_bytes() + opt_bytes(src_data) + opt_bytes(
            data,
        ),
{
    push_bytes(buffer, payload.as_bytes());
    let ghost after_payload = buffer@;
    if let Some(src) = &src_data {
        push_bytes(buffer, src.as_slice());
    }
    assert(buffer@ =~= after_payload + opt_bytes(src_data));
    let ghost after_src = buffer@;
    if let Some(d) = &data {
        push_bytes(buffer, d.as_slice());
    }
    assert(buffer@ =~= after_src + opt_bytes(data));
}

/// Writes a whole message whose JSON text is `serialized_message`; fails,
/// writing nothing, when its total size does not fit in 32 bits.
pub fn send_message(
    buffer: &mut Vec<u8>,
    serialized_message: &str,
    data: Option<Vec<u8>>,
    src_data: Option<Vec<u8>>,
) -> (r: Result<(), FrameError>)
    ensures
        r is Err <==> message_total(
            serialized_message.spec_bytes(),
            opt_bytes(src_data),
            opt_bytes(data),
        ) > u32::MAX,
        r is Err ==> r == Err::<(), FrameError>(FrameError::MessageTooBig) && final(buffer)@
            == old(buffer)@,
        r is Ok ==> final(buffer)@ == old(buffer)@ + message_bytes(
            serialized_message.spec_bytes(),
            opt_bytes(src_data),
            opt_bytes(data),
        ),
{
    let json_msg_size = serialized_message.as_bytes().len();
    let ghost total_spec = message_total(
        serialized_message.spec_bytes(),
        opt_bytes(src_data),
        opt_bytes(data),
    );
    if json_msg_size > 0xffff_ffff {
        return Err(FrameError::MessageTooBig);
    }
    let mut total_message_size: usize = json_msg_size;
    assert(json_msg_size == serialized_message.spec_bytes().len());
    if let Some(d) = &data {
        assert(d@ == opt_bytes(data));
        if d.len() > 0xffff_ffff - total_message_size {
            return Err(FrameError::MessageTooBig);
        }
        total_message_size = total_message_size + d.len();
    }
    assert(total_message_size == json_msg_size + opt_bytes(data).len());
    if let Some(s) = &src_data {
        assert(s@ == opt_bytes(src_data));
        if s.len() > 0xffff_ffff - total_message_size {
            return Err(FrameError::MessageTooBig);
        }
        total_message_size = total_message_size + s.len();
    }
    assert(total_message_size == total_spec);
    let ghost start = buffer@;
    send_message_size(buffer, total_message_size as u32, json_msg_size as u32);
    send_message_payload(buffer, serialized_message, src_data, data);
    assert(buffer@ =~= start + message_bytes(
        serialized_message.spec_bytes(),
        opt_bytes(src_data),
        opt_bytes(data),
    ));
    Ok(())
}

/// Reads the size header: the total size and the JSON size.
pub fn receive_message_size(buffer: &[u8]) -> (r: Result<(u32, u32), FrameError>)
    ensures
        r == header_outcome(buffer@),
{
    if buffer.len() < 8 {
        return Err(FrameError::UnexpectedEof);
    }
    let total = read_u32_be(buffer, 0);
    let json_size = read_u32_be(buffer, 4);
    Ok((total, json_size))
}

/// Reads the JSON text and the data that start at `start`.
fn read_payload_at(buffer: &[u8], start: usize, json_size: u32, data_size: u32) -> (r: Result<
    (String, Vec<u8>),
    FrameError,
>)
    requires
        start <= buffer@.len(),
    ensures
        view_read(r) == payload_outcome(
            buffer@.subrange(start as int, buffer@.len() as int),
            json_size as nat,
            data_size as nat,
        ),
{
    let ghost s = buffer@.subrange(start as int, buffer@.len() as int);
    let available = buffer.len() - start;
    let json_len = json_size as usize;
    if available < json_len {
        return Err(FrameError::UnexpectedEof);
    }
    let json_bytes = copy_range(buffer, start, json_len);
    assert(json_bytes@ =~= s.subrange(0, json_len as int));
    let json_message = match utf8_decode(json_bytes) {
        Some(text) => text,
        None => return Err(FrameError::InvalidUtf8),
    };
    let data_len = data_size as usize;
    if available - json_len < data_len {
        return Err(FrameError::UnexpectedEof);
    }
    let data = copy_range(buffer, start + json_len, data_len);
    assert(data@ =~= s.subrange(json_len as int, json_len + data_len));
    Ok((json_message, data))
}

/// Reads the JSON text (`json_message_size` bytes, which must be UTF-8) and
/// then `data_size` bytes of data.
pub fn receive_message_payload(buffer: &[u8], json_message_size: u32, data_size: u32) -> (r:
    Result<(String, Vec<u8>), FrameError>)
    ensures
        view_read(r) == payload_outcome(buffer@, json_message_size as nat, data_size as nat),
{
    let r = read_payload_at(buffer, 0, json_message_size, data_size);
    assert(buffer@.subrange(0, buffer@.len() as int) =~= buffer@);
    r
}

/// Reads a whole message: the header, then the JSON text and the data that
/// the header announces.
pub fn receive_message(buffer: &[u8]) -> (r: Result<(String, Vec<u8>), FrameError>)
    requires
        header_consistent(buffer@),
    ensures
        view_read(r) == message_outcome(buffer@),
{
    let (message_size, json_message_size) = match receive_message_size(buffer) {
        Ok(sizes) => sizes,
        Err(e) => return Err(e),
    };
    read_payload_at(buffer, 8, json_message_size, message_size - json_message_size)
}

/// A size header reads back as the two sizes it was written with.
pub proof fn lemma_header_roundtrip(total: u32, json_size: u32, rest: Seq<u8>)
    ensures
        header_outcome(header_bytes(total, json_size) + rest) == Ok::<(u32, u32), FrameError>(
            (total, json_size),
        ),
{
    let s = header_bytes(total, json_size) + rest;
    lemma_be_roundtrip(total);
    lemma_be_roundtrip(json_size);
    assert(s.subrange(0, 4) =~= be_bytes(total));
    assert(s.subrange(4, 8) =~= be_bytes(json_size));
    assert(be_value(s, 0) == be_value(be_bytes(total), 0));
    assert(be_value(s, 4) == be_value(be_bytes(json_size), 0));
}

/// A body reads back as its JSON text followed by all of its data, when the
/// data size given is that of the source data and the data together.
pub proof fn lemma_payload_roundtrip(payload: &str, src_data: Seq<u8>, data: Seq<u8>)
    ensures
        payload_outcome(
            payload.spec_bytes() + src_data + data,
            payload.spec_bytes().len(),
            src_data.len() + data.len(),
        ) == Ok::<(Seq<char>, Seq<u8>), FrameError>((payload@, src_data + data)),
{
    let json = payload.spec_bytes();
    let s = json + src_data + data;
    lemma_str_bytes_decode(payload);
    assert(s.subrange(0, json.len() as int) =~= json);
    assert(s.subrange(json.len() as int, (json.len() + src_data.len() + data.len()) as int) =~= src_data
        + data);
}

/// A message reads back as its JSON text followed by its source data and
/// its data, whenever it fits the 32-bit length field.
pub proof fn lemma_message_roundtrip(payload: &str, src_data: Seq<u8>, data: Seq<u8>)
    requires
        message_total(payload.spec_bytes(), src_data, data) <= u32::MAX,
    ensures
        header_consistent(message_bytes(payload.spec_bytes(), src_data, data)),
        message_outcome(message_bytes(payload.spec_bytes(), src_data, data)) == Ok::<
            (Seq<char>, Seq<u8>),
            FrameError,
        >((payload@, src_data + data)),
{
    let json = payload.spec_bytes();
    let total = message_total(json, src_data, data) as u32;
    let body = json + src_data + data;
    let s = message_bytes(json, src_data, data);
    assert(s =~= header_bytes(total, json.len() as u32) + body);
    lemma_header_roundtrip(total, json.len() as u32, body);
    assert(s.subrange(8, s.len() as int) =~= body);
    lemma_payload_roundtrip(payload, src_data, data);
}

/// A message read back carries exactly the data its header announces:
/// `total - json_size` bytes, those right after the JSON text, whatever
/// follows them; its text is the decoding of the `json_size` bytes after the
/// header.
pub proof fn lemma_message_data_is_announced(s: Seq<u8>)
    requires
        header_consistent(s),
    ensures
        message_outcome(s) matches Ok((text, data)) ==> {
            &&& s.len() >= 8 + be_value(s, 0)
            &&& data.len() == be_value(s, 0) - be_value(s, 4)
            &&& data == s.subrange(8 + be_value(s, 4), 8 + be_value(s, 0))
            &&& valid_utf8(s.subrange(8, 8 + be_value(s, 4)))
            &&& text == decode_utf8(s.subrange(8, 8 + be_value(s, 4)))
        },
{
    if s.len() >= 8 {
        let body = s.subrange(8, s.len() as int);
        let total = be_value(s, 0);
        let json_size = be_value(s, 4);
        if body.len() >= json_size {
            assert(body.subrange(0, json_size as int) =~= s.subrange(8, 8 + json_size));
            if body.len() >= total {
                assert(body.subrange(json_size as int, total as int) =~= s.subrange(
                    8 + json_size,
                    8 + total,
                ));
            }
        }
    }
}

/// A message followed by other bytes reads back as the message alone: its
/// JSON text, then its source data and its data, and nothing of what
/// follows.
pub proof fn lemma_message_roundtrip_with_rest(
    payload: &str,
    src_data: Seq<u8>,
    data: Seq<u8>,
    rest: Seq<u8>,
)
    requires
        message_total(payload.spec_bytes(), src_data, data) <= u32::MAX,
    ensures
        header_consistent(message_bytes(payload.spec_bytes(), src_data, data) + rest),
        message_outcome(message_bytes(payload.spec_bytes(), src_data, data) + rest) == Ok::<
            (Seq<char>, Seq<u8>),
            FrameError,
        >((payload@, src_data + data)),
{
    let json = payload.spec_bytes();
    let total = message_total(json, src_data, data) as u32;
    let body = json + src_data + data;
    let s = message_bytes(json, src_data, data) + rest;
    assert(s =~= header_bytes(total, json.len() as u32) + (body + rest));
    lemma_header_roundtrip(total, json.len() as u32, body + rest);
    assert(s.subrange(8, s.len() as int) =~= body + rest);
    lemma_str_bytes_decode(payload);
    assert((body + rest).subrange(0, json.len() as int) =~= json);
    assert((body + rest).subrange(json.len() as int, total as int) =~= src_data + data);
}

/// The kinds of message the protocol carries.
#[derive(Debug, Clone, Copy, PartialEq, Eq, Structural)]
pub enum FragmentKind {
    Task,
    Result,
    Request,
}

/// The key that a message of a kind is wrapped under in its JSON text.
pub open spec fn fragment_key(kind: FragmentKind) -> Seq<char> {
    match kind {
        FragmentKind::Task => "FragmentTask"@,
        FragmentKind::Result => "FragmentResult"@,
        FragmentKind::Request => "FragmentRequest"@,
    }
}

/// The kind of message that a JSON key announces, if any.
pub open spec fn kind_of_key(key: Seq<char>) -> Option<FragmentKind> {
    if key == "FragmentTask"@ {
        Some(FragmentKind::Task)
    } else if key == "FragmentRequest"@ {
        Some(FragmentKind::Request)
    } else if key == "FragmentResult"@ {
        Some(FragmentKind::Result)
    } else {
        None
    }
}

impl FragmentKind {
    /// The key that a message of this kind is wrapped under.
    pub fn key(&self) -> (k: &'static str)
        ensures
            k@ == fragment_key(*self),
    {
        match self {
            FragmentKind::Task => "FragmentTask",
            FragmentKind::Result => "FragmentResult",
            FragmentKind::Request => "FragmentRequest",
        }
    }

    /// The kind of message that the JSON key `key` announces, if any.
    pub fn from_key(key: &str) -> (kind: Option<FragmentKind>)
        ensures
            kind == kind_of_key(key@),
    {
        if str_equals(key, "FragmentTask") {
            Some(FragmentKind::Task)
        } else if str_equals(key, "FragmentRequest") {
            Some(FragmentKind::Request)
        } else if str_equals(key, "FragmentResult") {
            Some(FragmentKind::Result)
        } else {
            None
        }
    }
}

/// The key of each kind announces that kind again.
pub proof fn lemma_fragment_key_roundtrip(kind: FragmentKind)
    ensures
        kind_of_key(fragment_key(kind)) == Some(kind),
{
    reveal_strlit("FragmentTask");
    reveal_strlit("FragmentResult");
    reveal_strlit("FragmentRequest");
    if kind == FragmentKind::Result {
        assert("FragmentResult"@[8] != "FragmentTask"@[8]);
        assert("FragmentResult"@[10] != "FragmentRequest"@[10]);
    }
    if kind == FragmentKind::Request {
        assert("FragmentRequest"@.len() != "FragmentTask"@.len());
    }
}

} // verus!
