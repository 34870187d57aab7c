//! The chunk codec: a large payload is cut into fixed-size slices, each
//! slice over the compression threshold is gzip-compressed on its own, and
//! every slice is written as standard base64 text. Decoding reverses this.

use crate::error::ClipboardError;
use crate::model::{
    chunks_view, opt_text_view, ChunkView, ChunkedContent, ClipboardFormat, FormatView,
};
use base64::engine::general_purpose::STANDARD;
use base64::{DecodeError, Engine};
use flate2::read::GzDecoder;
use flate2::write::GzEncoder;
use flate2::Compression;
use std::io::{Read, Write};
use vstd::prelude::*;
use vstd::slice::{slice_subrange, slice_to_vec};

verus! {

/// The number of payload bytes one chunk carries at most.
pub const CHUNK_SIZE: usize = 1048576;

/// A slice longer than this many bytes is compressed.
pub const COMPRESSION_THRESHOLD: usize = 102400;

/// The standard base64 text (with padding) of a byte sequence.
pub uninterp spec fn base64_text(data: Seq<u8>) -> Seq<char>;

/// The bytes that a text stands for as standard base64, where it is valid.
pub uninterp spec fn base64_bytes(text: Seq<char>) -> Option<Seq<u8>>;

/// The gzip stream produced for a byte sequence at the default level, where
/// the compressor succeeds.
pub uninterp spec fn gzip_bytes(data: Seq<u8>) -> Option<Seq<u8>>;

/// The bytes recovered from a gzip stream: everything the decoder yields
/// before the stream ends or turns out to be damaged.
pub uninterp spec fn gunzip(data: Seq<u8>) -> Seq<u8>;

#[verifier::external_type_specification]
#[verifier::external_body]
pub struct ExDecodeError(DecodeError);

/// `Engine::encode` of base64's `STANDARD` engine. Trusted: the text is a
/// function of the bytes alone, and decoding that text with the same engine
/// gives the bytes back. The engine gives up only where four thirds of the
/// length does not fit a `usize`, which no slice held in memory reaches.
#[verifier::external_body]
pub(crate) fn base64_encode(data: &[u8]) -> (text: String)
    ensures
        text@ == base64_text(data@),
        base64_bytes(text@) == Some(data@),
{
    STANDARD.encode(data)
}

/// `Engine::decode` of base64's `STANDARD` engine. Trusted: whether the
/// text is accepted, and the bytes it gives, depend on the text alone. The
/// error that says why a text was refused is passed on unread.
#[verifier::external_body]
pub(crate) fn base64_decode(text: &str) -> (decoded: Result<Vec<u8>, DecodeError>)
    ensures
        match decoded {
            Ok(bytes) => base64_bytes(text@) == Some(bytes@),
            Err(_) => base64_bytes(text@) is None,
        },
{
    STANDARD.decode(text)
}

/// flate2's `GzEncoder` over a `Vec`, at `Compression::default()`: all of
/// `data` is written and the stream finished. `None` when either step
/// reports an error. Trusted: the outcome is a function of the bytes alone,
/// and a stream that was produced decompresses to exactly `data`.
#[verifier::external_body]
fn gzip(data: &[u8]) -> (stream: Option<Vec<u8>>)
    ensures
        match stream {
            Some(bytes) => gzip_bytes(data@) == Some(bytes@) && gunzip(bytes@) == data@,
            None => gzip_bytes(data@) is None,
        },
{
    let mut encoder = GzEncoder::new(Vec::new(), Compression::default());
    match encoder.write_all(data) {
        Ok(()) => encoder.finish().ok(),
        Err(_) => None,
    }
}

/// flate2's `GzDecoder` read to its end. A damaged or truncated stream is
/// no error here: what was decoded before the damage is returned. Trusted:
/// the result is a function of the bytes alone.
#[verifier::external_body]
pub(crate) fn decompress_data(data: &[u8]) -> (plain: Vec<u8>)
    ensures
        plain@ == gunzip(data@),
{
    let mut decoder = GzDecoder::new(data);
    let mut plain = Vec::new();
    decoder.read_to_end(&mut plain).unwrap_or_default();
    plain
}

/// What compressing `data` yields: its gzip stream, or `data` itself where
/// the compressor fails.
pub open spec fn compressed_or_raw(data: Seq<u8>) -> Seq<u8> {
    match gzip_bytes(data) {
        Some(stream) => stream,
        None => data,
    }
}

/// Compresses `data` as one gzip stream, which decompresses to `data`
/// again. Where the compressor reports an error the bytes come back
/// unchanged.
pub fn compress_data(data: &[u8]) -> (packed: Vec<u8>)
    ensures
        packed@ == compressed_or_raw(data@),
        gzip_bytes(data@) is Some ==> gunzip(packed@) == data@,
{
    match gzip(data) {
        Some(stream) => stream,
        None => slice_to_vec(data),
    }
}

/// The number of chunks a payload of `len` bytes is cut into.
pub open spec fn chunk_count(len: nat) -> nat {
    (len + CHUNK_SIZE - 1) as nat / (CHUNK_SIZE as nat)
}

/// The bytes of `data` that chunk `index` carries.
pub open spec fn chunk_slice(data: Seq<u8>, index: int) -> Seq<u8> {
    data.subrange(
        index * CHUNK_SIZE,
        if (index + 1) * CHUNK_SIZE <= data.len() {
            (index + 1) * CHUNK_SIZE
        } else {
            data.len() as int
        },
    )
}

/// Whether a slice is stored compressed: it is over the threshold and the
/// compressor produced a stream for it.
pub open spec fn stored_compressed(slice: Seq<u8>) -> bool {
    slice.len() > COMPRESSION_THRESHOLD && gzip_bytes(slice) is Some
}

/// The bytes stored for a slice, before they are written as text.
pub open spec fn stored_bytes(slice: Seq<u8>) -> Seq<u8> {
    if stored_compressed(slice) {
        gzip_bytes(slice)->0
    } else {
        slice
    }
}

/// The payload bytes a chunk stands for: its text read as base64 and,
/// where the chunk is flagged compressed, decompressed. `None` where the
/// text is not base64.
pub open spec fn chunk_bytes(chunk: ChunkView) -> Option<Seq<u8>> {
    match base64_bytes(chunk.data) {
        Some(stored) => Some(
            if chunk.compressed {
                gunzip(stored)
            } else {
                stored
            },
        ),
        None => None,
    }
}

/// Whether `chunk` is chunk number `index` of the encoding of `data`.
pub open spec fn chunk_encodes(data: Seq<u8>, index: int, chunk: ChunkView) -> bool {
    let slice = chunk_slice(data, index);
    &&& chunk.chunk_index == index
    &&& chunk.total_chunks == chunk_count(data.len())
    &&& chunk.complete == (index == chunk_count(data.len()) - 1)
    &&& chunk.compressed == stored_compressed(slice)
    &&& chunk.data == base64_text(stored_bytes(slice))
    &&& chunk_bytes(chunk) == Some(slice)
}

/// Whether `chunks` is the encoding of `data`: one chunk per slice, in
/// order, each as `chunk_encodes` describes.
pub open spec fn encoded_as(data: Seq<u8>, chunks: Seq<ChunkView>) -> bool {
    &&& chunks.len() == chunk_count(data.len())
    &&& forall|i: int| 0 <= i < chunks.len() ==> chunk_encodes(data, i, #[trigger] chunks[i])
}

/// The number of chunks for a payload of `len` bytes.
pub fn count_chunks(len: usize) -> (count: usize)
    ensures
        count == chunk_count(len as nat),
        count * CHUNK_SIZE >= len,
        count > 0 ==> (count - 1) * CHUNK_SIZE < len,
{
    let whole: usize = len / CHUNK_SIZE;
    if len % CHUNK_SIZE == 0 {
        whole
    } else {
        whole + 1
    }
}

/// Encodes chunk number `index` of `data`.
pub fn encode_chunk(data: &[u8], index: usize) -> (chunk: ChunkedContent)
    requires
        index < chunk_count(data@.len()),
    ensures
        chunk_encodes(data@, index as int, chunk@),
{
    let total: usize = count_chunks(data.len());
    let start: usize = index * CHUNK_SIZE;
    let end: usize = if data.len() - start > CHUNK_SIZE {
        start + CHUNK_SIZE
    } else {
        data.len()
    };
    let slice = slice_subrange(data, start, end);
    assert(slice@ == chunk_slice(data@, index as int));
    let packed: Option<Vec<u8>> = if slice.len() > COMPRESSION_THRESHOLD {
        gzip(slice)
    } else {
        None
    };
    let (text, compressed) = match packed {
        Some(stream) => (base64_encode(stream.as_slice()), true),
        None => (base64_encode(slice), false),
    };
    ChunkedContent {
        chunk_index: index,
        total_chunks: total,
        data: text,
        complete: index == total - 1,
        compressed,
    }
}

/// Cuts `data` into chunks of `CHUNK_SIZE` bytes and encodes each: a slice
/// over `COMPRESSION_THRESHOLD` bytes is gzip-compressed by itself, and every
/// slice is written as base64 text. The last chunk, and only it, is marked
/// complete. An empty payload has no chunks.
pub fn chunk_data(data: &[u8]) -> (chunks: Vec<ChunkedContent>)
    ensures
        encoded_as(data@, chunks_view(chunks@)),
{
    let total: usize = count_chunks(data.len());
    let mut chunks: Vec<ChunkedContent> = Vec::new();
    let mut index: usize = 0;
    while index < total
        invariant
            index <= total,
            total == chunk_count(data@.len()),
            chunks.len() == index,
            forall|i: int| 0 <= i < index ==> chunk_encodes(data@, i, #[trigger] chunks[i]@),
        decreases total - index,
    {
        chunks.push(encode_chunk(data, index));
        index += 1;
    }
    chunks
}

/// Whether some chunk of the sequence carries the given index.
pub open spec fn index_present(chunks: Seq<ChunkView>, index: int) -> bool {
    exists|p: int| 0 <= p < chunks.len() && (#[trigger] chunks[p]).chunk_index == index
}

/// Whether a chunk sequence describes one whole payload: each chunk names
/// the sequence's length as its total, every index from zero up to that
/// length occurs, none occurs twice, and the chunk with the last index, and
/// only it, is marked complete. The chunks may stand in any order.
pub open spec fn well_formed_chunks(chunks: Seq<ChunkView>) -> bool {
    &&& forall|p: int|
        0 <= p < chunks.len() ==> {
            &&& (#[trigger] chunks[p]).total_chunks == chunks.len()
            &&& chunks[p].chunk_index < chunks.len()
            &&& chunks[p].complete == (chunks[p].chunk_index == chunks.len() - 1)
        }
    &&& forall|i: int| 0 <= i < chunks.len() ==> #[trigger] index_present(chunks, i)
    &&& forall|p: int, q: int|
        0 <= p < q < chunks.len() ==> (#[trigger] chunks[p]).chunk_index != (
        #[trigger] chunks[q]).chunk_index
}

/// Whether the text of every chunk is base64.
pub open spec fn all_decodable(chunks: Seq<ChunkView>) -> bool {
    forall|p: int| 0 <= p < chunks.len() ==> chunk_bytes(#[trigger] chunks[p]) is Some
}

/// Where in the sequence the chunk with the given index stands.
pub open spec fn position_of(chunks: Seq<ChunkView>, index: int) -> int {
    choose|p: int| 0 <= p < chunks.len() && (#[trigger] chunks[p]).chunk_index == index
}

/// The payload bytes of each chunk, by index.
pub open spec fn payload_parts(chunks: Seq<ChunkView>) -> Seq<Seq<u8>> {
    Seq::new(chunks.len(), |i: int| chunk_bytes(chunks[position_of(chunks, i)])->0)
}

/// The parts put one after another.
pub open spec fn joined(parts: Seq<Seq<u8>>) -> Seq<u8>
    decreases parts.len(),
{
    if parts.len() == 0 {
        Seq::empty()
    } else {
        joined(parts.drop_last()) + parts.last()
    }
}

/// The payload a well-formed chunk sequence stands for: the payload bytes
/// of its chunks, joined in index order.
pub open spec fn decoded_bytes(chunks: Seq<ChunkView>) -> Seq<u8> {
    joined(payload_parts(chunks))
}

/// Checks that `chunks` is well formed and finds, for each index, the
/// position of the chunk that carries it.
fn chunk_order(chunks: &Vec<ChunkedContent>) -> (order: Option<Vec<usize>>)
    ensures
        match order {
            Some(order) => {
                &&& well_formed_chunks(chunks_view(chunks@))
                &&& order.len() == chunks.len()
                &&& forall|i: int|
                    0 <= i < order.len() ==> #[trigger] order[i] == position_of(
                        chunks_view(chunks@),
                        i,
                    )
            },
            None => !well_formed_chunks(chunks_view(chunks@)),
        },
{
    let n: usize = chunks.len();
    let ghost views = chunks_view(chunks@);
    let mut order: Vec<usize> = Vec::new();
    let mut k: usize = 0;
    while k < n
        invariant
            k <= n,
            order.len() == k,
            forall|i: int| 0 <= i < k ==> order[i] == n,
        decreases n - k,
    {
        order.push(n);
        k += 1;
    }
    let mut p: usize = 0;
    while p < n
        invariant
            p <= n,
            n == chunks.len(),
            views == chunks_view(chunks@),
            order.len() == n,
            forall|q: int|
                0 <= q < p ==> {
                    &&& (#[trigger] views[q]).total_chunks == n
                    &&& views[q].chunk_index < n
                    &&& views[q].complete == (views[q].chunk_index == n - 1)
                    &&& order[views[q].chunk_index as int] == q
                },
            forall|i: int|
                0 <= i < n ==> #[trigger] order[i] == n || (0 <= order[i] < p
                    && views[order[i] as int].chunk_index == i),
        decreases n - p,
    {
        let chunk = &chunks[p];
        assert(chunk@ == views[p as int]);
        if chunk.total_chunks != n || chunk.chunk_index >= n || chunk.complete != (
        chunk.chunk_index == n - 1) {
            return None;
        }
        let index: usize = chunk.chunk_index;
        if order[index] != n {
            let ghost earlier = order[index as int] as int;
            assert(views[earlier].chunk_index == views[p as int].chunk_index);
            return None;
        }
        order.set(index, p);
        p += 1;
    }
    let mut i: usize = 0;
    while i < n
        invariant
            i <= n,
            n == chunks.len(),
            views == chunks_view(chunks@),
            order.len() == n,
            forall|q: int|
                0 <= q < n ==> {
                    &&& (#[trigger] views[q]).total_chunks == n
                    &&& views[q].chunk_index < n
                    &&& views[q].complete == (views[q].chunk_index == n - 1)
                    &&& order[views[q].chunk_index as int] == q
                },
            forall|j: int|
                0 <= j < n ==> #[trigger] order[j] == n || (0 <= order[j] < n
                    && views[order[j] as int].chunk_index == j),
            forall|j: int| 0 <= j < i ==> #[trigger] order[j] != n,
        decreases n - i,
    {
        if order[i] == n {
            assert(forall|q: int| 0 <= q < n ==> (#[trigger] views[q]).chunk_index != i);
            assert(!index_present(views, i as int));
            return None;
        }
        i += 1;
    }
    proof {
        assert forall|j: int| 0 <= j < n implies #[trigger] index_present(views, j) by {
            let q = order[j] as int;
            assert(views[q].chunk_index == j);
        }
        assert forall|a: int, b: int| 0 <= a < b < views.len() implies (#[trigger] views[a]).chunk_index
            != (#[trigger] views[b]).chunk_index by {
            assert(order[views[a].chunk_index as int] == a);
            assert(order[views[b].chunk_index as int] == b);
        }
        assert(well_formed_chunks(views));
        assert forall|j: int| 0 <= j < order.len() implies #[trigger] order[j] == position_of(
            views,
            j,
        ) by {
            let q = order[j] as int;
            assert(0 <= q < views.len() && views[q].chunk_index == j);
            let c = position_of(views, j);
            assert(0 <= c < views.len() && views[c].chunk_index == j);
            assert(order[views[c].chunk_index as int] == c);
        }
    }
    Some(order)
}

/// Reads one chunk's payload: its text as base64, decompressed where the
/// chunk is flagged compressed. `None` where the text is not base64.
pub fn decode_chunk(chunk: &ChunkedContent) -> (payload: Option<Vec<u8>>)
    ensures
        match payload {
            Some(bytes) => chunk_bytes(chunk@) == Some(bytes@),
            None => chunk_bytes(chunk@) is None,
        },
{
    match base64_decode(chunk.data.as_str()) {
        Ok(stored) => if chunk.compressed {
            Some(decompress_data(stored.as_slice()))
        } else {
            Some(stored)
        },
        Err(_) => None,
    }
}

/// Reassembles the payload of a chunk sequence: each chunk's payload is
/// read and the payloads are joined in index order, whatever order the
/// chunks stand in. An empty sequence gives an empty payload. The sequence
/// is refused as malformed exactly when it is not well formed or the text
/// of some chunk is not base64.
pub fn decode_chunks(chunks: &Vec<ChunkedContent>) -> (decoded: Result<Vec<u8>, ClipboardError>)
    ensures
        match decoded {
            Ok(bytes) => {
                &&& well_formed_chunks(chunks_view(chunks@))
                &&& all_decodable(chunks_view(chunks@))
                &&& bytes@ == decoded_bytes(chunks_view(chunks@))
            },
            Err(error) => {
                &&& error == ClipboardError::MalformedChunkSequence
                &&& !(well_formed_chunks(chunks_view(chunks@)) && all_decodable(
                    chunks_view(chunks@),
                ))
            },
        },
{
    let ghost views = chunks_view(chunks@);
    let order = match chunk_order(chunks) {
        Some(order) => order,
        None => {
            return Err(ClipboardError::MalformedChunkSequence);
        },
    };
    let n: usize = chunks.len();
    let mut bytes: Vec<u8> = Vec::new();
    let mut i: usize = 0;
    while i < n
        invariant
            i <= n,
            n == chunks.len(),
            order.len() == n,
            views == chunks_view(chunks@),
            well_formed_chunks(views),
            forall|j: int| 0 <= j < n ==> #[trigger] order[j] == position_of(views, j),
            forall|j: int| 0 <= j < i ==> chunk_bytes(views[position_of(views, j)]) is Some,
            bytes@ == joined(payload_parts(views).take(i as int)),
        decreases n - i,
    {
        let at: usize = order[i];
        assert(0 <= at < n) by {
            assert(index_present(views, i as int));
        }
        let chunk = &chunks[at];
        assert(chunk@ == views[at as int]);
        let mut payload = match decode_chunk(chunk) {
            Some(payload) => payload,
            None => {
                return Err(ClipboardError::MalformedChunkSequence);
            },
        };
        proof {
            let parts = payload_parts(views);
            assert(parts.take(i + 1).drop_last() =~= parts.take(i as int));
            assert(parts.take(i + 1).last() == payload@);
        }
        bytes.append(&mut payload);
        i += 1;
    }
    proof {
        assert(payload_parts(views).take(n as int) =~= payload_parts(views));
        assert forall|p: int| 0 <= p < views.len() implies chunk_bytes(
            #[trigger] views[p],
        ) is Some by {
            let j = views[p].chunk_index as int;
            let c = position_of(views, j);
            assert(0 <= c < views.len() && views[c].chunk_index == j);
            assert(c == p);
        }
    }
    Ok(bytes)
}

/// Joining the first `k` slices of `data` gives the bytes of `data` that
/// come before slice `k`.
proof fn lemma_joined_slices(data: Seq<u8>, parts: Seq<Seq<u8>>, k: int)
    requires
        parts.len() == chunk_count(data.len()),
        forall|i: int| 0 <= i < parts.len() ==> #[trigger] parts[i] == chunk_slice(data, i),
        0 <= k <= parts.len(),
    ensures
        joined(parts.take(k)) == data.subrange(
            0,
            if k * CHUNK_SIZE <= data.len() {
                k * CHUNK_SIZE
            } else {
                data.len() as int
            },
        ),
    decreases k,
{
    if k == 0 {
        assert(joined(parts.take(0)) =~= data.subrange(0, 0));
    } else {
        lemma_joined_slices(data, parts, k - 1);
        assert(parts.take(k).drop_last() =~= parts.take(k - 1));
        assert(parts.take(k).last() == chunk_slice(data, k - 1));
        assert((k - 1) * CHUNK_SIZE < data.len());
        assert(joined(parts.take(k)) =~= data.subrange(
            0,
            if k * CHUNK_SIZE <= data.len() {
                k * CHUNK_SIZE
            } else {
                data.len() as int
            },
        ));
    }
}

/// Decoding inverts encoding: whatever `chunk_data` returns for a payload,
/// of any length, is a well-formed sequence of readable chunks, and the
/// payload it stands for is `data` itself. So `decode_chunks` on it
/// succeeds and returns the bytes that were encoded.
pub proof fn lemma_decode_inverts_encode(data: Seq<u8>, chunks: Seq<ChunkView>)
    requires
        encoded_as(data, chunks),
    ensures
        well_formed_chunks(chunks),
        all_decodable(chunks),
        decoded_bytes(chunks) == data,
{
    assert forall|i: int| 0 <= i < chunks.len() implies #[trigger] index_present(chunks, i) by {
        assert(chunks[i].chunk_index == i);
    }
    assert(well_formed_chunks(chunks));
    let parts = payload_parts(chunks);
    assert forall|i: int| 0 <= i < parts.len() implies #[trigger] parts[i] == chunk_slice(
        data,
        i,
    ) by {
        assert(chunks[i].chunk_index == i);
        let c = position_of(chunks, i);
        assert(0 <= c < chunks.len() && chunks[c].chunk_index == i);
        assert(c == i);
    }
    lemma_joined_slices(data, parts, parts.len() as int);
    assert(parts.take(parts.len() as int) =~= parts);
    assert(data.subrange(0, data.len() as int) =~= data);
}

/// The complete marker: the encoding of a non-empty payload has at least
/// one chunk, its last chunk is marked complete, and no other chunk is.
pub proof fn lemma_one_complete_chunk(data: Seq<u8>, chunks: Seq<ChunkView>)
    requires
        encoded_as(data, chunks),
        data.len() > 0,
    ensures
        chunks.len() > 0,
        chunks.last().complete,
        forall|i: int| 0 <= i < chunks.len() - 1 ==> !(#[trigger] chunks[i]).complete,
{
    assert(chunks[chunks.len() - 1].chunk_index == chunks.len() - 1);
}

/// `tree_magic_mini::from_u8`: the media type that the bytes look like, by
/// the magic-number definitions found on this machine. Nothing is claimed
/// of the text: it depends on those definitions. No input makes the call
/// panic; a malformed definition file on the machine does.
#[verifier::external_body]
fn sniff_mime(data: &[u8]) -> (mime: String) {
    tree_magic_mini::from_u8(data).to_string()
}

/// The media type of a payload, judged by its bytes and never by a file
/// name, recorded as `recorded_mime` says. A type is always given; which
/// one depends on the definitions installed on the machine.
pub fn detect_mime_type(data: &[u8]) -> (mime: Option<String>)
    ensures
        mime is Some,
{
    recorded_mime(sniff_mime(data))
}

/// The media type to record for a payload, given what its bytes were
/// judged to be: that judgement, letter for letter.
pub fn recorded_mime(sniffed: String) -> (mime: Option<String>)
    ensures
        mime == Some(sniffed),
{
    Some(sniffed)
}

/// How far the chunking of one payload has come.
#[derive(Debug)]
pub struct ProgressInfo {
    pub operation: String,
    /// Chunks produced so far; the fraction complete is this over
    /// `total_chunks`.
    pub completed_chunks: usize,
    pub total_chunks: usize,
    pub bytes_processed: usize,
    pub total_bytes: usize,
}

/// The payload bytes covered once chunk `index` is produced.
pub open spec fn bytes_through(index: int, total_bytes: nat) -> int {
    if (index + 1) * CHUNK_SIZE <= total_bytes {
        (index + 1) * CHUNK_SIZE
    } else {
        total_bytes as int
    }
}

/// The progress to report once chunk `index` of a payload of `total_bytes`
/// bytes is produced.
pub fn chunk_progress(index: usize, total_bytes: usize) -> (progress: ProgressInfo)
    requires
        index < chunk_count(total_bytes as nat),
    ensures
        progress.operation@ == "Chunking"@,
        progress.completed_chunks == index + 1,
        progress.total_chunks == chunk_count(total_bytes as nat),
        progress.bytes_processed == bytes_through(index as int, total_bytes as nat),
        progress.total_bytes == total_bytes,
{
    let total: usize = count_chunks(total_bytes);
    let start: usize = index * CHUNK_SIZE;
    let processed: usize = if total_bytes - start > CHUNK_SIZE {
        start + CHUNK_SIZE
    } else {
        total_bytes
    };
    ProgressInfo {
        operation: "Chunking".to_owned(),
        completed_chunks: index + 1,
        total_chunks: total,
        bytes_processed: processed,
        total_bytes,
    }
}

/// Whether some chunk of the sequence is stored compressed.
pub open spec fn any_compressed(chunks: Seq<ChunkView>) -> bool {
    exists|i: int| 0 <= i < chunks.len() && (#[trigger] chunks[i]).compressed
}

/// Whether a value is sound: for a file content, its chunks form one whole
/// readable payload whose length is the recorded total size. Every other
/// kind is sound as it is.
pub open spec fn payload_well_formed(format: FormatView) -> bool {
    format matches FormatView::FileContent { chunks, total_size, .. } ==> {
        &&& well_formed_chunks(chunks)
        &&& all_decodable(chunks)
        &&& decoded_bytes(chunks).len() == total_size
    }
}

/// Whether a value is the file content made of `data` read from
/// `original_path`.
pub open spec fn file_content_of(
    format: FormatView,
    data: Seq<u8>,
    original_path: Option<Seq<char>>,
) -> bool {
    &&& format matches FormatView::FileContent {
        chunks,
        original_path: path,
        mime_type,
        total_size,
        compressed,
    }
    &&& encoded_as(data, chunks)
    &&& path == original_path
    &&& mime_type is Some
    &&& total_size == data.len()
    &&& compressed == any_compressed(chunks)
}

/// Whether some chunk is stored compressed.
fn has_compressed_chunk(chunks: &Vec<ChunkedContent>) -> (found: bool)
    ensures
        found == any_compressed(chunks_view(chunks@)),
{
    let mut i: usize = 0;
    while i < chunks.len()
        invariant
            i <= chunks.len(),
            forall|j: int| 0 <= j < i ==> !(#[trigger] chunks_view(chunks@)[j]).compressed,
        decreases chunks.len() - i,
    {
        if chunks[i].compressed {
            assert(chunks_view(chunks@)[i as int].compressed);
            return true;
        }
        assert(chunks_view(chunks@)[i as int] == chunks[i as int]@);
        i += 1;
    }
    false
}

/// Packs the bytes of a file as a file content value: the bytes cut into
/// chunks, the media type judged by the bytes, the length, and whether any
/// chunk is stored compressed. The value is sound.
pub fn file_content(data: &[u8], original_path: Option<String>) -> (format: ClipboardFormat)
    ensures
        file_content_of(format@, data@, opt_text_view(original_path)),
        payload_well_formed(format@),
{
    let chunks = chunk_data(data);
    let compressed = has_compressed_chunk(&chunks);
    proof {
        lemma_decode_inverts_encode(data@, chunks_view(chunks@));
    }
    ClipboardFormat::FileContent {
        chunks,
        original_path,
        mime_type: detect_mime_type(data),
        total_size: data.len(),
        compressed,
    }
}

} // verus!
