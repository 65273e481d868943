//! Chunked transfer: a file goes to a client as a run of binary frames, each
//! a four-byte big-endian length, a small JSON header of that length and a
//! chunk of the file.

use vstd::prelude::*;
use vstd::slice::slice_subrange;
use vstd::string::StringExecFns;
use vstd::string::StringSliceAdditionalSpecFns;
use vstd::utf8::encode_utf8;
use crate::content::ContentKind;
use crate::json::{json_quoted, quote};
use crate::text::{lemma_utf8_concat, lemma_utf8_len_bound};

verus! {

/// The most bytes of a file that one frame carries.
pub const CHUNK_SZ: usize = 65_536;

/// The number of chunks that a file of `len` bytes is cut into.
pub open spec fn total_chunks_of(len: int) -> int {
    (len + CHUNK_SZ - 1) / (CHUNK_SZ as int)
}

/// The chunk with the index `i` of a file: `CHUNK_SZ` bytes, or what is
/// left of the file where that is less.
pub open spec fn chunk_of(data: Seq<u8>, i: int) -> Seq<u8> {
    let end = if (i + 1) * CHUNK_SZ <= data.len() {
        (i + 1) * CHUNK_SZ
    } else {
        data.len() as int
    };
    data.subrange(i * CHUNK_SZ, end)
}

/// The header of a chunk as JSON text.
pub open spec fn chunk_header_text(id: Seq<char>, kind: ContentKind, is_last: bool) -> Seq<char> {
    "{\"type\":\"file_chunk\",\"id\":"@ + json_quoted(id) + ",\"fileType\":\""@ + kind.name()
        + "\",\"isLast\":"@ + (if is_last {
        "true"@
    } else {
        "false"@
    }) + "}"@
}

/// The four bytes that write `n` with the most significant byte first.
pub open spec fn be32(n: int) -> Seq<u8> {
    seq![
        (n / 0x100_0000 % 0x100) as u8,
        (n / 0x1_0000 % 0x100) as u8,
        (n / 0x100 % 0x100) as u8,
        (n % 0x100) as u8,
    ]
}

/// The number that four bytes write, the most significant byte first.
pub open spec fn be32_value(bytes: Seq<u8>) -> int {
    bytes[0] * 0x100_0000 + bytes[1] * 0x1_0000 + bytes[2] * 0x100 + bytes[3]
}

/// A frame: the length of the header, the header, the chunk.
pub open spec fn frame_of(header: Seq<u8>, chunk: Seq<u8>) -> Seq<u8> {
    be32(header.len() as int) + header + chunk
}

/// The header that a frame carries.
pub open spec fn frame_header(frame: Seq<u8>) -> Seq<u8> {
    frame.subrange(4, 4 + be32_value(frame.take(4)))
}

/// The chunk that a frame carries.
pub open spec fn frame_payload(frame: Seq<u8>) -> Seq<u8> {
    frame.skip(4 + be32_value(frame.take(4)))
}

/// The header of the chunk with the index `i` of a file, as the bytes that
/// go into its frame. Only the last chunk is marked as the last.
pub open spec fn header_of(id: Seq<char>, kind: ContentKind, data: Seq<u8>, i: int) -> Seq<u8> {
    encode_utf8(chunk_header_text(id, kind, i == total_chunks_of(data.len() as int) - 1))
}

/// Whether every header of a transfer can state its length in four bytes.
pub open spec fn headers_fit(id: Seq<char>, kind: ContentKind, data: Seq<u8>) -> bool {
    forall|i: int|
        0 <= i < total_chunks_of(data.len() as int) ==> (#[trigger] header_of(id, kind, data, i)).len()
            <= u32::MAX
}

/// The frames of a transfer, in the order in which they are sent.
pub open spec fn frames_of(id: Seq<char>, kind: ContentKind, data: Seq<u8>) -> Seq<Seq<u8>> {
    Seq::new(
        total_chunks_of(data.len() as int) as nat,
        |i: int| frame_of(header_of(id, kind, data, i), chunk_of(data, i)),
    )
}

/// The bytes of each frame of a list.
pub open spec fn frame_bytes(list: Seq<Vec<u8>>) -> Seq<Seq<u8>> {
    Seq::new(list.len(), |i: int| list[i]@)
}

/// What a client puts together from frames: their chunks, one after another.
pub open spec fn reassembled(frames: Seq<Seq<u8>>) -> Seq<u8>
    decreases frames.len(),
{
    if frames.len() == 0 {
        Seq::empty()
    } else {
        reassembled(frames.drop_last()) + frame_payload(frames.last())
    }
}

/// The number of chunks that a file of `len` bytes is cut into.
pub fn total_chunks(len: usize) -> (n: usize)
    ensures
        n == total_chunks_of(len as int),
{
    if len % CHUNK_SZ == 0 {
        len / CHUNK_SZ
    } else {
        len / CHUNK_SZ + 1
    }
}

/// The most bytes that the header of a chunk of the content `id` takes: six
/// for each byte of the identifier, and 246 for the rest.
pub open spec fn header_room(id: Seq<char>) -> int {
    6 * (encode_utf8(id).len() as int) + 246
}

/// A header whose quoted identifier keeps to six bytes for each byte of the
/// identifier, and two more, keeps to its room.
proof fn lemma_header_room(id: Seq<char>, kind: ContentKind, is_last: bool)
    requires
        encode_utf8(json_quoted(id)).len() <= 6 * encode_utf8(id).len() + 2,
    ensures
        encode_utf8(chunk_header_text(id, kind, is_last)).len() <= header_room(id),
{
    reveal_strlit("{\"type\":\"file_chunk\",\"id\":");
    reveal_strlit(",\"fileType\":\"");
    reveal_strlit("patch");
    reveal_strlit("sheet");
    reveal_strlit("\",\"isLast\":");
    reveal_strlit("true");
    reveal_strlit("false");
    reveal_strlit("}");
    let a = "{\"type\":\"file_chunk\",\"id\":"@;
    let q = json_quoted(id);
    let b = ",\"fileType\":\""@;
    let c = kind.name();
    let d = "\",\"isLast\":"@;
    let e = if is_last {
        "true"@
    } else {
        "false"@
    };
    let f = "}"@;
    lemma_utf8_len_bound(a);
    lemma_utf8_len_bound(b);
    lemma_utf8_len_bound(c);
    lemma_utf8_len_bound(d);
    lemma_utf8_len_bound(e);
    lemma_utf8_len_bound(f);
    lemma_utf8_concat(a, q);
    lemma_utf8_concat(a + q, b);
    lemma_utf8_concat(a + q + b, c);
    lemma_utf8_concat(a + q + b + c, d);
    lemma_utf8_concat(a + q + b + c + d, e);
    lemma_utf8_concat(a + q + b + c + d + e, f);
    assert(chunk_header_text(id, kind, is_last) == a + q + b + c + d + e + f);
}

/// Writes the header of a chunk.
pub fn chunk_header(id: &str, kind: ContentKind, is_last: bool) -> (header: String)
    ensures
        header@ == chunk_header_text(id@, kind, is_last),
        encode_utf8(header@).len() <= header_room(id@),
{
    let quoted = quote(id);
    proof {
        lemma_header_room(id@, kind, is_last);
    }
    let mut header = String::from_str("{\"type\":\"file_chunk\",\"id\":");
    header.append(quoted.as_str());
    header.append(",\"fileType\":\"");
    header.append(kind.name_text());
    header.append("\",\"isLast\":");
    if is_last {
        header.append("true");
    } else {
        header.append("false");
    }
    header.append("}");
    header
}

/// Reading the length back gives the length that was written.
pub proof fn lemma_be32_round_trip(n: int)
    requires
        0 <= n <= u32::MAX,
    ensures
        be32(n).len() == 4,
        be32_value(be32(n)) == n,
{
}

/// A frame gives back the header and the chunk it was made of.
pub proof fn lemma_frame_round_trip(header: Seq<u8>, chunk: Seq<u8>)
    requires
        header.len() <= u32::MAX,
    ensures
        frame_header(frame_of(header, chunk)) == header,
        frame_payload(frame_of(header, chunk)) == chunk,
{
    let frame = frame_of(header, chunk);
    lemma_be32_round_trip(header.len() as int);
    assert(frame.take(4) =~= be32(header.len() as int));
    assert(frame_header(frame) =~= header);
    assert(frame_payload(frame) =~= chunk);
}

/// Builds one frame. There is none where the header is too long for its
/// length to be written in four bytes.
pub fn frame(header: &str, chunk: &[u8]) -> (built: Option<Vec<u8>>)
    ensures
        match built {
            Some(bytes) => header.spec_bytes().len() <= u32::MAX && bytes@ == frame_of(
                header.spec_bytes(),
                chunk@,
            ),
            None => header.spec_bytes().len() > u32::MAX,
        },
{
    let text = header.as_bytes();
    let n = text.len();
    if n > 0xffff_ffff {
        return None;
    }
    let mut bytes: Vec<u8> = Vec::new();
    bytes.push((n / 0x100_0000 % 0x100) as u8);
    bytes.push((n / 0x1_0000 % 0x100) as u8);
    bytes.push((n / 0x100 % 0x100) as u8);
    bytes.push((n % 0x100) as u8);
    assert(bytes@ =~= be32(n as int));
    bytes.extend_from_slice(text);
    assert(bytes@ =~= be32(n as int) + text@);
    bytes.extend_from_slice(chunk);
    assert(bytes@ =~= frame_of(text@, chunk@));
    Some(bytes)
}

/// Cuts a file into chunks and frames each. There are no frames where a
/// header is too long for its length to be written in four bytes, which no
/// identifier does whose room for a header fits in four bytes; an empty file
/// has an empty run of frames.
pub fn file_frames(id: &str, kind: ContentKind, data: &[u8]) -> (frames: Option<Vec<Vec<u8>>>)
    ensures
        match frames {
            Some(list) => headers_fit(id@, kind, data@) && frame_bytes(list@) == frames_of(
                id@,
                kind,
                data@,
            ),
            None => !headers_fit(id@, kind, data@),
        },
        header_room(id@) <= u32::MAX ==> frames is Some,
{
    let total = total_chunks(data.len());
    let inner = chunk_header(id, kind, false);
    let last = chunk_header(id, kind, true);
    let mut frames: Vec<Vec<u8>> = Vec::new();
    let mut i: usize = 0;
    while i < total
        invariant
            i <= total,
            data@.len() <= usize::MAX,
            total == total_chunks_of(data@.len() as int),
            inner@ == chunk_header_text(id@, kind, false),
            last@ == chunk_header_text(id@, kind, true),
            encode_utf8(inner@).len() <= header_room(id@),
            encode_utf8(last@).len() <= header_room(id@),
            frames@.len() == i,
            forall|j: int|
                0 <= j < i ==> (#[trigger] header_of(id@, kind, data@, j)).len() <= u32::MAX,
            forall|j: int|
                0 <= j < i ==> (#[trigger] frames@[j])@ == frame_of(
                    header_of(id@, kind, data@, j),
                    chunk_of(data@, j),
                ),
        decreases total - i,
    {
        assert(i * CHUNK_SZ < data@.len());
        let start = i * CHUNK_SZ;
        let end = if data.len() - start >= CHUNK_SZ {
            start + CHUNK_SZ
        } else {
            data.len()
        };
        let chunk = slice_subrange(data, start, end);
        assert(chunk@ == chunk_of(data@, i as int));
        let header = if i + 1 == total {
            &last
        } else {
            &inner
        };
        assert(header@ == chunk_header_text(id@, kind, i == total - 1));
        match frame(header.as_str(), chunk) {
            Some(bytes) => {
                frames.push(bytes);
            },
            None => {
                assert(header_of(id@, kind, data@, i as int).len() > u32::MAX);
                return None;
            },
        }
        i += 1;
    }
    assert(frame_bytes(frames@) =~= frames_of(id@, kind, data@));
    Some(frames)
}

/// The first `k` chunks of a file, one after another, are its first bytes.
proof fn lemma_chunks_join(id: Seq<char>, kind: ContentKind, data: Seq<u8>, k: int)
    requires
        0 <= k <= total_chunks_of(data.len() as int),
        headers_fit(id, kind, data),
    ensures
        reassembled(frames_of(id, kind, data).take(k)) == data.take(
            if k * CHUNK_SZ <= data.len() {
                k * CHUNK_SZ
            } else {
                data.len() as int
            },
        ),
    decreases k,
{
    let frames = frames_of(id, kind, data);
    if k == 0 {
        assert(frames.take(0) =~= Seq::empty());
        assert(data.take(0) =~= Seq::empty());
    } else {
        lemma_chunks_join(id, kind, data, k - 1);
        assert(frames.take(k).drop_last() =~= frames.take(k - 1));
        assert(frames.take(k).last() == frames[k - 1]);
        assert(header_of(id, kind, data, k - 1).len() <= u32::MAX);
        lemma_frame_round_trip(header_of(id, kind, data, k - 1), chunk_of(data, k - 1));
        let end = if k * CHUNK_SZ <= data.len() {
            k * CHUNK_SZ
        } else {
            data.len() as int
        };
        assert((k - 1) * CHUNK_SZ <= data.len());
        assert(data.take((k - 1) * CHUNK_SZ) + chunk_of(data, k - 1) =~= data.take(end));
    }
}

/// A transfer carries the file whole: it has one frame for each chunk, only
/// the header of the last frame says that it is the last, and the chunks of
/// the frames, put together in the order of sending, are the file.
pub proof fn lemma_transfer_is_whole(id: Seq<char>, kind: ContentKind, data: Seq<u8>)
    requires
        headers_fit(id, kind, data),
    ensures
        frames_of(id, kind, data).len() == total_chunks_of(data.len() as int),
        forall|i: int|
            0 <= i < frames_of(id, kind, data).len() ==> frame_header(
                #[trigger] frames_of(id, kind, data)[i],
            ) == encode_utf8(
                chunk_header_text(id, kind, i == frames_of(id, kind, data).len() - 1),
            ),
        forall|i: int|
            0 <= i < frames_of(id, kind, data).len() ==> frame_payload(
                #[trigger] frames_of(id, kind, data)[i],
            ) == chunk_of(data, i),
        chunk_header_text(id, kind, true) != chunk_header_text(id, kind, false),
        reassembled(frames_of(id, kind, data)) == data,
{
    let frames = frames_of(id, kind, data);
    let total = total_chunks_of(data.len() as int);
    assert forall|i: int| 0 <= i < frames.len() implies frame_header(#[trigger] frames[i])
        == encode_utf8(chunk_header_text(id, kind, i == frames.len() - 1)) && frame_payload(
        frames[i],
    ) == chunk_of(data, i) by {
        assert(header_of(id, kind, data, i).len() <= u32::MAX);
        lemma_frame_round_trip(header_of(id, kind, data, i), chunk_of(data, i));
    }
    lemma_chunks_join(id, kind, data, total);
    assert(frames.take(total) =~= frames);
    assert(data.take(data.len() as int) =~= data);
    lemma_headers_differ(id, kind);
}

/// The header of a last chunk is not the header of any other.
proof fn lemma_headers_differ(id: Seq<char>, kind: ContentKind)
    ensures
        chunk_header_text(id, kind, true) != chunk_header_text(id, kind, false),
{
    reveal_strlit("true");
    reveal_strlit("false");
    reveal_strlit("}");
    let a = chunk_header_text(id, kind, true);
    let b = chunk_header_text(id, kind, false);
    assert(a.len() + 1 == b.len());
}

} // verus!
