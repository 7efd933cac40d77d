//! Audio for demos and tests: typed text, and raw files.
use vstd::prelude::*;
use vstd::utf8::encode_utf8;

use crate::text::{
    concatenated, concatenated_of_push, copy_bytes, encode_of_sum, fragments,
    fragments_preserve_text, split_inclusive, utf8_of, views, views_of_push,
};
use crate::voice::{AudioChunk, AudioChunkView};

verus! {

/// The pieces of typed text as audio: a word at a time, 40 ms apart.
pub open spec fn typed_audio(words: Seq<Seq<char>>) -> Seq<AudioChunkView> {
    words.map(
        |i: int, word: Seq<char>|
            AudioChunkView {
                bytes: encode_utf8(word),
                elapsed_ms: (40 * (i + 1)) as u128,
                is_speech: None,
            },
    )
}

/// Typed text as audio: cut after each space, 40 ms apart.
pub fn fake_audio_chunks(text: &str) -> (chunks: Vec<AudioChunk>)
    ensures
        views(chunks@) == typed_audio(fragments(text@, ' ')),
{
    let words = split_inclusive(text, ' ');
    let ghost all = views(words@);
    let mut chunks: Vec<AudioChunk> = Vec::new();
    let mut i: usize = 0;
    while i < words.len()
        invariant
            i <= words@.len(),
            all == views(words@),
            views(chunks@) == typed_audio(all).take(i as int),
        decreases words@.len() - i,
    {
        let ghost before = chunks@;
        let elapsed_ms: u128 = 40 * (i as u128 + 1);
        let chunk = AudioChunk::new(utf8_of(words[i].as_str())).with_elapsed_ms(elapsed_ms);
        chunks.push(chunk);
        i = i + 1;
        proof {
            views_of_push(before, chunk);
            assert(all[i - 1] == words@[i - 1]@);
            assert(views(chunks@) =~= typed_audio(all).take(i as int));
        }
    }
    assert(typed_audio(all).take(i as int) =~= typed_audio(all));
    chunks
}

/// The number of bytes in a piece of a raw file.
pub const RAW_CHUNK_BYTES: usize = 3_200;

/// The pieces of a raw file as audio: 3200 bytes at a time, 100 ms apart.
pub open spec fn raw_audio(bytes: Seq<u8>) -> Seq<AudioChunkView> {
    let n = RAW_CHUNK_BYTES as int;
    Seq::new(
        ((bytes.len() + n - 1) / n) as nat,
        |i: int|
            AudioChunkView {
                bytes: bytes.subrange(
                    n * i,
                    if n * (i + 1) <= bytes.len() {
                        n * (i + 1)
                    } else {
                        bytes.len() as int
                    },
                ),
                elapsed_ms: (100 * (i + 1)) as u128,
                is_speech: None,
            },
    )
}

/// The bytes of a raw file as audio.
pub fn raw_pcm_audio_chunks(bytes: &[u8]) -> (chunks: Vec<AudioChunk>)
    ensures
        views(chunks@) == raw_audio(bytes@),
{
    let mut chunks: Vec<AudioChunk> = Vec::new();
    let mut start: usize = 0;
    let mut elapsed_ms: u128 = 0;
    while start < bytes.len()
        invariant
            start <= bytes@.len(),
            start == RAW_CHUNK_BYTES * chunks@.len() || start == bytes@.len(),
            chunks@.len() == (start + RAW_CHUNK_BYTES - 1) / RAW_CHUNK_BYTES as int,
            elapsed_ms == 100 * chunks@.len(),
            views(chunks@) =~= raw_audio(bytes@).take(chunks@.len() as int),
            chunks@.len() <= raw_audio(bytes@).len(),
        decreases bytes@.len() - start,
    {
        let ghost before = chunks@;
        let ghost i = chunks@.len() as int;
        let end: usize = if bytes.len() - start > RAW_CHUNK_BYTES {
            start + RAW_CHUNK_BYTES
        } else {
            bytes.len()
        };
        elapsed_ms = elapsed_ms + 100;
        let piece = vstd::slice::slice_subrange(bytes, start, end);
        let chunk = AudioChunk::new(copy_bytes(piece)).with_elapsed_ms(elapsed_ms);
        chunks.push(chunk);
        start = end;
        proof {
            views_of_push(before, chunk);
            assert(chunk@ =~= raw_audio(bytes@)[i]);
            assert(views(chunks@) =~= raw_audio(bytes@).take(i + 1));
        }
    }
    assert(raw_audio(bytes@).take(chunks@.len() as int) =~= raw_audio(bytes@));
    chunks
}

/// The bytes of pieces of audio, one after the other.
pub open spec fn all_bytes(chunks: Seq<AudioChunkView>) -> Seq<u8> {
    concatenated(chunks.map_values(|chunk: AudioChunkView| chunk.bytes))
}

proof fn encode_of_parts(parts: Seq<Seq<char>>)
    ensures
        concatenated(parts.map_values(|part: Seq<char>| encode_utf8(part))) == encode_utf8(
            concatenated(parts),
        ),
    decreases parts.len(),
{
    let bytes = parts.map_values(|part: Seq<char>| encode_utf8(part));
    if parts.len() == 0 {
        assert(concatenated(bytes) =~= encode_utf8(concatenated(parts)));
    } else {
        encode_of_parts(parts.drop_first());
        assert(bytes.drop_first() =~= parts.drop_first().map_values(
            |part: Seq<char>| encode_utf8(part),
        ));
        encode_of_sum(parts[0], concatenated(parts.drop_first()));
    }
}

/// Typed text loses nothing as audio: the bytes of its pieces, one after the other, are the text.
pub proof fn typed_audio_preserves_text(text: Seq<char>)
    ensures
        all_bytes(typed_audio(fragments(text, ' '))) == encode_utf8(text),
{
    let words = fragments(text, ' ');
    fragments_preserve_text(text, ' ');
    encode_of_parts(words);
    assert(typed_audio(words).map_values(|chunk: AudioChunkView| chunk.bytes)
        =~= words.map_values(|part: Seq<char>| encode_utf8(part)));
}

proof fn raw_audio_prefix(bytes: Seq<u8>, k: int)
    requires
        0 <= k <= raw_audio(bytes).len(),
    ensures
        ({
            let n = RAW_CHUNK_BYTES as int;
            all_bytes(raw_audio(bytes).take(k)) == bytes.take(
                if n * k <= bytes.len() {
                    n * k
                } else {
                    bytes.len() as int
                },
            )
        }),
    decreases k,
{
    let n = RAW_CHUNK_BYTES as int;
    let pick = |chunk: AudioChunkView| chunk.bytes;
    if k == 0 {
        assert(raw_audio(bytes).take(0).map_values(pick) =~= Seq::<Seq<u8>>::empty());
        assert(all_bytes(raw_audio(bytes).take(0)) =~= bytes.take(0));
    } else {
        raw_audio_prefix(bytes, k - 1);
        let before = raw_audio(bytes).take(k - 1).map_values(pick);
        let last = raw_audio(bytes)[k - 1].bytes;
        assert(raw_audio(bytes).take(k).map_values(pick) =~= before.push(last));
        concatenated_of_push(before, last);
        assert(all_bytes(raw_audio(bytes).take(k)) =~= bytes.take(
            if n * k <= bytes.len() {
                n * k
            } else {
                bytes.len() as int
            },
        ));
    }
}

/// A raw file loses nothing as audio: the bytes of its pieces, one after the other, are the file;
/// and all pieces but the last are full.
pub proof fn raw_audio_preserves_bytes(bytes: Seq<u8>)
    ensures
        all_bytes(raw_audio(bytes)) == bytes,
        forall|i: int|
            0 <= i < raw_audio(bytes).len() - 1 ==> (#[trigger] raw_audio(bytes)[i]).bytes.len()
                == RAW_CHUNK_BYTES,
{
    let k = raw_audio(bytes).len() as int;
    raw_audio_prefix(bytes, k);
    assert(raw_audio(bytes).take(k) =~= raw_audio(bytes));
    assert(bytes.take(bytes.len() as int) =~= bytes);
}

/// A raw file is cut into pieces of 3200 bytes, the last of which may be shorter but is not empty;
/// typed text is cut into words. The pieces of either are told to end 100 ms, or 40 ms, apart.
pub proof fn pieces_come_at_a_steady_pace(bytes: Seq<u8>, text: Seq<char>, i: int)
    ensures
        ({
            let raw = raw_audio(bytes);
            let words = typed_audio(fragments(text, ' '));
            &&& 0 <= i < raw.len() - 1 ==> raw[i].bytes.len() == 3200
            &&& 0 <= i < raw.len() ==> 0 < raw[i].bytes.len() <= 3200
            &&& 0 <= i < raw.len() && 100 * (i + 1) <= u128::MAX ==> raw[i].elapsed_ms == 100 * (i
                + 1)
            &&& 0 <= i < words.len() ==> words[i].bytes == encode_utf8(fragments(text, ' ')[i])
            &&& 0 <= i < words.len() && 40 * (i + 1) <= u128::MAX ==> words[i].elapsed_ms == 40 * (
            i + 1)
        }),
{
    let n = RAW_CHUNK_BYTES as int;
    let raw = raw_audio(bytes);
    if 0 <= i < raw.len() {
        assert(n * i < bytes.len());
        if i < raw.len() - 1 {
            assert(n * (i + 1) < bytes.len());
        }
    }
}

} // verus!
