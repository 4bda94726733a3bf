//! Reading the task identifier that a worker's result carries.
use vstd::prelude::*;
use vstd::utf8::{decode_utf8, valid_utf8};
use crate::codec::{copy_range, utf8_decode};
use crate::network::FrameError;
use crate::structs::u8data::U8Data;

verus! {

/// The bytes that reading `count` bytes at `offset` of `data` gives, if
/// there are that many.
pub open spec fn slice_at(data: Seq<u8>, offset: int, count: int) -> Option<Seq<u8>> {
    let start = if offset <= data.len() { offset } else { data.len() as int };
    if data.len() - start < count {
        None
    } else {
        Some(data.subrange(start, start + count))
    }
}

/// Reading `count` bytes at `offset` gives exactly `count` bytes: those at
/// `offset` when the offset lies within the data. It succeeds whenever that
/// many bytes follow the offset.
pub proof fn lemma_slice_at_exact(data: Seq<u8>, offset: int, count: int)
    requires
        0 <= offset,
        0 <= count,
    ensures
        slice_at(data, offset, count) matches Some(b) ==> b.len() == count && (offset
            <= data.len() ==> b == data.subrange(offset, offset + count)),
        offset + count <= data.len() ==> slice_at(data, offset, count) == Some(
            data.subrange(offset, offset + count),
        ),
{
}

/// The task identifier that `id` locates in `src_data`: `id.count` bytes at
/// `id.offset`, which must be there and be UTF-8.
pub fn read_task_id(src_data: &[u8], id: &U8Data) -> (task_id: Result<String, FrameError>)
    ensures
        slice_at(src_data@, id.offset as int, id.count as int) is None ==> task_id
            == Err::<String, FrameError>(FrameError::UnexpectedEof),
        slice_at(src_data@, id.offset as int, id.count as int) matches Some(bytes) ==> if valid_utf8(
            bytes,
        ) {
            task_id matches Ok(t) && t@ == decode_utf8(bytes)
        } else {
            task_id == Err::<String, FrameError>(FrameError::InvalidUtf8)
        },
{
    let start = if (id.offset as usize) <= src_data.len() {
        id.offset as usize
    } else {
        src_data.len()
    };
    if src_data.len() - start < id.count as usize {
        return Err(FrameError::UnexpectedEof);
    }
    let bytes = copy_range(src_data, start, id.count as usize);
    match utf8_decode(bytes) {
        Some(text) => Ok(text),
        None => Err(FrameError::InvalidUtf8),
    }
}

} // verus!
