//! The pixel block of a fragment result: per pixel, two 32-bit words (the
//! bit patterns of the `zn` and `count` intensities), big endian.
use vstd::prelude::*;
use crate::codec::{be_bytes, be_value, lemma_be_roundtrip, push_u32_be, read_u32_be};
use crate::models::pixel::pixel_data::PixelData;
use crate::models::resolution::Resolution;
use crate::models::u8_data::U8Data;

verus! {

/// The bytes of a sequence of pixel words.
pub open spec fn words_bytes(words: Seq<(u32, u32)>) -> Seq<u8>
    decreases words.len(),
{
    if words.len() == 0 {
        Seq::empty()
    } else {
        words_bytes(words.drop_last()) + be_bytes(words.last().0) + be_bytes(words.last().1)
    }
}

/// The pixel words that whole 8-byte groups of `data` hold; trailing bytes
/// that do not fill a group are ignored.
pub open spec fn bytes_words(data: Seq<u8>) -> Seq<(u32, u32)> {
    Seq::new(data.len() / 8, |i: int| (be_value(data, 8 * i), be_value(data, 8 * i + 4)))
}

/// The bytes of the pixel words `words`.
pub fn encode_intensity_words(words: &[(u32, u32)]) -> (data: Vec<u8>)
    ensures
        data@ == words_bytes(words@),
{
    let mut data: Vec<u8> = Vec::new();
    let mut i: usize = 0;
    while i < words.len()
        invariant
            i <= words@.len(),
            data@ == words_bytes(words@.take(i as int)),
        decreases words@.len() - i,
    {
        let (zn, count) = words[i];
        push_u32_be(&mut data, zn);
        push_u32_be(&mut data, count);
        assert(words@.take(i + 1).drop_last() =~= words@.take(i as int));
        i = i + 1;
    }
    assert(words@.take(words@.len() as int) =~= words@);
    data
}

/// The pixel words of `data`, ignoring trailing bytes that do not fill a
/// whole pixel.
pub fn decode_intensity_words(data: &[u8]) -> (words: Vec<(u32, u32)>)
    ensures
        words@ == bytes_words(data@),
{
    let mut words: Vec<(u32, u32)> = Vec::new();
    let n = data.len() / 8;
    let mut i: usize = 0;
    while i < n
        invariant
            n == data@.len() / 8,
            data@.len() == data.len(),
            i <= n,
            words@ == bytes_words(data@).take(i as int),
        decreases n - i,
    {
        assert(8 * (i as int) + 8 <= data@.len()) by (nonlinear_arith)
            requires
                i < n,
                n == data@.len() / 8,
        ;
        let zn = read_u32_be(data, 8 * i);
        let count = read_u32_be(data, 8 * i + 4);
        words.push((zn, count));
        i = i + 1;
        assert(words@ =~= bytes_words(data@).take(i as int));
    }
    assert(bytes_words(data@).take(n as int) =~= bytes_words(data@));
    words
}

/// The pixel words that follow `offset` in `data`, or `None` when the bytes
/// after `offset` do not split into whole pixels.
pub fn pixel_words_after(data: &[u8], offset: usize) -> (words: Option<Vec<(u32, u32)>>)
    requires
        offset <= data@.len(),
    ensures
        words is None <==> (data@.len() - offset) % 8 != 0,
        words matches Some(w) ==> w@ == bytes_words(data@.subrange(offset as int, data@.len() as int)),
{
    if (data.len() - offset) % 8 != 0 {
        return None;
    }
    let rest = crate::codec::copy_range(data, offset, data.len() - offset);
    Some(decode_intensity_words(rest.as_slice()))
}

/// The first pixel word of `bytes`, or `None` when they hold fewer than 8
/// bytes.
pub fn intensity_word(bytes: &[u8]) -> (word: Option<(u32, u32)>)
    ensures
        word is None <==> bytes@.len() < 8,
        word matches Some(w) ==> w == (be_value(bytes@, 0), be_value(bytes@, 4)),
{
    if bytes.len() < 8 {
        return None;
    }
    Some((read_u32_be(bytes, 0), read_u32_be(bytes, 4)))
}

/// The pixel block of a task: it starts where the task's identifier ends and
/// holds one entry per pixel of the resolution.
pub fn pixel_data_for(id: &U8Data, resolution: &Resolution) -> (pixels: PixelData)
    ensures
        pixels.offset == id.count,
        pixels.count == resolution.nx as int * resolution.ny as int,
{
    let width = resolution.nx as u32;
    let height = resolution.ny as u32;
    assert(width * height <= 0xffff * 0xffff) by (nonlinear_arith)
        requires
            width <= 0xffff,
            height <= 0xffff,
    ;
    PixelData::new(id.count, width * height)
}

/// The bytes of pixel words are eight per word, the two words of each pixel
/// in order.
pub proof fn lemma_words_bytes_layout(words: Seq<(u32, u32)>)
    ensures
        words_bytes(words).len() == 8 * words.len(),
        forall|i: int|
            0 <= i < words.len() ==> #[trigger] words_bytes(words).subrange(8 * i, 8 * i + 8)
                == be_bytes(words[i].0) + be_bytes(words[i].1),
    decreases words.len(),
{
    if words.len() > 0 {
        let rest = words.drop_last();
        lemma_words_bytes_layout(rest);
        let b = words_bytes(words);
        let rb = words_bytes(rest);
        assert forall|i: int| 0 <= i < words.len() implies #[trigger] b.subrange(8 * i, 8 * i + 8)
            == be_bytes(words[i].0) + be_bytes(words[i].1) by {
            if i < rest.len() {
                assert(b.subrange(8 * i, 8 * i + 8) =~= rb.subrange(8 * i, 8 * i + 8));
            } else {
                assert(b.subrange(8 * i, 8 * i + 8) =~= be_bytes(words.last().0) + be_bytes(
                    words.last().1,
                ));
            }
        }
    }
}

/// Decoding the bytes of pixel words gives the words back.
pub proof fn lemma_words_roundtrip(words: Seq<(u32, u32)>)
    ensures
        bytes_words(words_bytes(words)) == words,
{
    lemma_words_bytes_layout(words);
    let b = words_bytes(words);
    let d = bytes_words(b);
    assert(d.len() == words.len());
    assert forall|i: int| 0 <= i < words.len() implies #[trigger] d[i] == words[i] by {
        let g = b.subrange(8 * i, 8 * i + 8);
        assert(g == be_bytes(words[i].0) + be_bytes(words[i].1));
        lemma_be_roundtrip(words[i].0);
        lemma_be_roundtrip(words[i].1);
        assert(be_value(b, 8 * i) == be_value(g, 0));
        assert(be_value(b, 8 * i + 4) == be_value(g, 4));
        assert(be_value(g, 0) == be_value(be_bytes(words[i].0), 0));
        assert(be_value(g, 4) == be_value(be_bytes(words[i].1), 0));
    }
    assert(d =~= words);
}

/// A result's data block (an identifier block followed by the bytes of its
/// pixel words) reads back, after the identifier block, as exactly those
/// words.
pub proof fn lemma_pixel_block_roundtrip(prefix: Seq<u8>, words: Seq<(u32, u32)>)
    ensures
        ((prefix + words_bytes(words)).len() - prefix.len()) % 8 == 0,
        bytes_words(
            (prefix + words_bytes(words)).subrange(
                prefix.len() as int,
                (prefix + words_bytes(words)).len() as int,
            ),
        ) == words,
{
    lemma_words_bytes_layout(words);
    let all = prefix + words_bytes(words);
    assert(all.subrange(prefix.len() as int, all.len() as int) =~= words_bytes(words));
    lemma_words_roundtrip(words);
}

} // verus!
