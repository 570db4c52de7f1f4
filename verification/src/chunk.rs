//! Chunks of a RIFF container: an identifier, a length and a payload that may
//! itself be a list of chunks.
//!
//! The model of a container is the byte buffer itself. A chunk is a position in
//! it together with the identifier and the length found there; everything else
//! is read from the buffer again when it is asked for.
//!
//! A chunk is framed soundly where the buffer holds its header and the whole
//! payload that the header declares, and where the payload ends inside the
//! chunk that holds it. The children of a chunk fill its payload after the
//! type tag.

use crate::bytes::{get_u32_le, io_error_kind, le_u32, IoErrorKind};
use vstd::prelude::*;

verus! {

/// A four-byte chunk identifier, also known as a FourCC.
#[derive(Clone, Copy, Debug, PartialEq, Eq, Hash, Structural)]
pub struct ChunkId {
    pub b0: u8,
    pub b1: u8,
    pub b2: u8,
    pub b3: u8,
}

impl ChunkId {
    /// The identifier made of the four given bytes.
    pub fn new(value: [u8; 4]) -> (id: ChunkId)
        ensures
            id == (ChunkId { b0: value[0], b1: value[1], b2: value[2], b3: value[3] }),
    {
        ChunkId { b0: value[0], b1: value[1], b2: value[2], b3: value[3] }
    }

    /// The four bytes of the identifier, in order.
    pub fn value(&self) -> (value: [u8; 4])
        ensures
            value@ == self.bytes(),
    {
        let value = [self.b0, self.b1, self.b2, self.b3];
        assert(value@ =~= self.bytes());
        value
    }

    /// The four bytes of the identifier as a sequence.
    pub open spec fn bytes(&self) -> Seq<u8> {
        seq![self.b0, self.b1, self.b2, self.b3]
    }
}

/// The identifier `RIFF` of the root chunk.
pub open spec fn spec_riff_id() -> ChunkId {
    ChunkId { b0: 0x52, b1: 0x49, b2: 0x46, b3: 0x46 }
}

/// The identifier `LIST` of a chunk that holds chunks.
pub open spec fn spec_list_id() -> ChunkId {
    ChunkId { b0: 0x4C, b1: 0x49, b2: 0x53, b3: 0x54 }
}

/// The identifier found in the four bytes from `bytes[at]` on.
pub open spec fn id_at(bytes: Seq<u8>, at: int) -> ChunkId {
    ChunkId { b0: bytes[at], b1: bytes[at + 1], b2: bytes[at + 2], b3: bytes[at + 3] }
}

/// The header of a chunk: where it starts, its identifier and the declared
/// length of its payload. The payload starts eight bytes after `pos`.
#[derive(Clone, Copy, Debug, PartialEq, Eq, Structural)]
pub struct Chunk {
    pub pos: u64,
    pub id: ChunkId,
    pub len: u32,
}

/// The chunk header that starts at `pos`, if the buffer holds its eight bytes.
pub open spec fn chunk_at(bytes: Seq<u8>, pos: int) -> Option<Chunk> {
    if 0 <= pos && pos + 8 <= bytes.len() && pos <= u64::MAX {
        Some(Chunk { pos: pos as u64, id: id_at(bytes, pos), len: le_u32(bytes, pos + 4) })
    } else {
        None
    }
}

/// The type tag of the chunk that starts at `pos`: the four bytes after its
/// header, if the buffer holds them.
pub open spec fn type_at(bytes: Seq<u8>, pos: int) -> Option<ChunkId> {
    if 0 <= pos && pos + 12 <= bytes.len() {
        Some(id_at(bytes, pos + 8))
    } else {
        None
    }
}

/// The payload of the chunk that starts at `pos`, if the buffer holds the
/// header and as many bytes after it as the header declares.
pub open spec fn contents_at(bytes: Seq<u8>, pos: int) -> Option<Seq<u8>> {
    if 0 <= pos && pos + 8 <= bytes.len() && pos + 8 + le_u32(bytes, pos + 4) <= bytes.len() {
        Some(bytes.subrange(pos + 8, pos + 8 + le_u32(bytes, pos + 4)))
    } else {
        None
    }
}

/// Whether the buffer holds the whole payload that a chunk declares.
pub open spec fn payload_fits(bytes: Seq<u8>, chunk: Chunk) -> bool {
    chunk.pos + 8 + chunk.len <= bytes.len()
}

/// The chunks that stand between `cur` and `end`, in order: a header is read
/// at `cur`, the next one after its payload (and after one byte of padding
/// where the payload's length is odd), until the position has reached `end`.
/// A header that the buffer does not hold, and a payload that is declared to
/// run past `end` or past the end of the buffer, is an error.
pub open spec fn chunks_between(bytes: Seq<u8>, cur: int, end: int) -> Result<
    Seq<Chunk>,
    IoErrorKind,
>
    decreases (if cur < end { end - cur } else { 0 }),
{
    if cur >= end {
        Ok(Seq::empty())
    } else {
        match chunk_at(bytes, cur) {
            None => Err(IoErrorKind::UnexpectedEof),
            Some(chunk) => if cur + 8 + chunk.len > end || cur + 8 + chunk.len > bytes.len() {
                Err(IoErrorKind::UnexpectedEof)
            } else {
                match chunks_between(
                    bytes,
                    cur + 8 + chunk.len as int + chunk.len as int % 2,
                    end,
                ) {
                    Ok(rest) => Ok(seq![chunk] + rest),
                    Err(kind) => Err(kind),
                }
            },
        }
    }
}

/// The children of a chunk that holds chunks: they stand after the parent's
/// header and type tag and fill the rest of its payload. A parent whose
/// payload has no room for the type tag, or is declared to run past the end of
/// the buffer, is an error.
pub open spec fn children_of(bytes: Seq<u8>, parent: Chunk) -> Result<Seq<Chunk>, IoErrorKind> {
    if parent.len < 4 || !payload_fits(bytes, parent) {
        Err(IoErrorKind::UnexpectedEof)
    } else {
        chunks_between(bytes, parent.pos + 12, parent.pos + 8 + parent.len)
    }
}

/// The type tag of a chunk that holds chunks: the first four bytes of its
/// payload, where the payload has room for them and the buffer holds it.
pub open spec fn list_type_of(bytes: Seq<u8>, list: Chunk) -> Option<ChunkId> {
    if list.len < 4 || !payload_fits(bytes, list) {
        None
    } else {
        Some(id_at(bytes, list.pos + 8))
    }
}

/// The first fault in the framing of the chunks between `cur` and `end`, at
/// every level: each header must be held by the buffer, each payload must end
/// before `end` and before the end of the buffer, and the payload of each
/// `LIST` chunk must hold a type tag and, after it, chunks that are framed in
/// the same way.
pub open spec fn tree_error(bytes: Seq<u8>, cur: int, end: int) -> Option<IoErrorKind>
    decreases (if cur < end { end - cur } else { 0 }),
{
    if cur >= end {
        None
    } else {
        match chunk_at(bytes, cur) {
            None => Some(IoErrorKind::UnexpectedEof),
            Some(chunk) => {
                let stop = cur + 8 + chunk.len;
                if stop > end || stop > bytes.len() {
                    Some(IoErrorKind::UnexpectedEof)
                } else if chunk.id != spec_list_id() {
                    tree_error(bytes, stop + chunk.len % 2, end)
                } else if chunk.len < 4 {
                    Some(IoErrorKind::UnexpectedEof)
                } else if tree_error(bytes, cur + 12, stop).is_some() {
                    tree_error(bytes, cur + 12, stop)
                } else {
                    tree_error(bytes, stop + chunk.len % 2, end)
                }
            },
        }
    }
}

/// The first fault in the framing of a chunk that holds chunks, and of all
/// that stands in it: its payload must hold a type tag and be held by the
/// buffer, and the chunks after the tag must be framed soundly at every level.
pub open spec fn list_error(bytes: Seq<u8>, list: Chunk) -> Option<IoErrorKind> {
    if list.len < 4 || !payload_fits(bytes, list) {
        Some(IoErrorKind::UnexpectedEof)
    } else {
        tree_error(bytes, list.pos + 12, list.pos + 8 + list.len)
    }
}

/// The first fault in the framing of the chunks between `cur` and `end`, and
/// then of the chunks that are still to be looked at when these are done:
/// `rest` holds, innermost last, where to go on and up to where.
spec fn pending_error(bytes: Seq<u8>, cur: int, end: int, rest: Seq<(u64, u64)>) -> Option<
    IoErrorKind,
>
    decreases rest.len(),
{
    if tree_error(bytes, cur, end).is_some() {
        tree_error(bytes, cur, end)
    } else if rest.len() == 0 {
        None
    } else {
        pending_error(bytes, rest.last().0 as int, rest.last().1 as int, rest.drop_last())
    }
}

/// Whether the places to go on at lie in order: each one at or after the end
/// of what stands inside it, and before its own end.
spec fn is_ordered(rest: Seq<(u64, u64)>, end: int, len: int) -> bool {
    &&& forall|i: int| 0 <= i < rest.len() ==> (#[trigger] rest[i]).0 <= rest[i].1 <= len
    &&& forall|i: int| 0 <= i < rest.len() - 1 ==> (#[trigger] rest[i]).0 >= rest[i + 1].1
    &&& rest.len() > 0 ==> rest.last().0 >= end
}

/// Chunks that are framed soundly at every level can be walked at the first.
pub proof fn lemma_sound_tree_is_walked(bytes: Seq<u8>, cur: int, end: int)
    requires
        tree_error(bytes, cur, end).is_none(),
    ensures
        chunks_between(bytes, cur, end).is_ok(),
    decreases (if cur < end { end - cur } else { 0 }),
{
    if cur < end {
        let chunk = chunk_at(bytes, cur).unwrap();
        lemma_sound_tree_is_walked(bytes, cur + 8 + chunk.len + chunk.len % 2, end);
    }
}

/// In a walk that succeeds, the payload of every chunk lies inside the
/// buffer: a declared size that runs past what is left of the buffer is never
/// passed over.
pub proof fn lemma_walked_chunks_fit(bytes: Seq<u8>, cur: int, end: int, i: int)
    requires
        chunks_between(bytes, cur, end).is_ok(),
        0 <= i < chunks_between(bytes, cur, end).unwrap().len(),
    ensures
        payload_fits(bytes, chunks_between(bytes, cur, end).unwrap()[i]),
    decreases (if cur < end { end - cur } else { 0 }),
{
    if cur < end {
        let chunk = chunk_at(bytes, cur).unwrap();
        if i > 0 {
            lemma_walked_chunks_fit(
                bytes,
                cur + 8 + chunk.len + chunk.len % 2,
                end,
                i - 1,
            );
        }
    }
}

/// The constant `riff::RIFF_ID`: the bytes of `RIFF`.
#[verifier::external_body]
pub(crate) fn riff_root_id() -> (id: ChunkId)
    ensures
        id == spec_riff_id(),
{
    ChunkId::new(riff::RIFF_ID.value)
}

/// The constant `riff::LIST_ID`: the bytes of `LIST`.
#[verifier::external_body]
pub(crate) fn riff_list_id() -> (id: ChunkId)
    ensures
        id == spec_list_id(),
{
    ChunkId::new(riff::LIST_ID.value)
}

/// Reads a chunk header with `riff::Chunk::read` from a cursor over `bytes`.
/// The call seeks to `pos` and reads four bytes of identifier and four of
/// little-endian length: it gives them when the buffer holds all eight, and
/// fails with `UnexpectedEof` when it ends before.
#[verifier::external_body]
pub(crate) fn read_chunk_header(bytes: &[u8], pos: u64) -> (r: Result<Chunk, IoErrorKind>)
    ensures
        r == match chunk_at(bytes@, pos as int) {
            Some(chunk) => Ok::<Chunk, IoErrorKind>(chunk),
            None => Err::<Chunk, IoErrorKind>(IoErrorKind::UnexpectedEof),
        },
{
    let mut stream = std::io::Cursor::new(bytes);
    match riff::Chunk::read(&mut stream, pos) {
        Ok(chunk) => Ok(
            Chunk { pos: chunk.offset(), id: ChunkId::new(chunk.id().value), len: chunk.len() },
        ),
        Err(error) => Err(io_error_kind(&error)),
    }
}

/// Reads the type tag of the chunk at `pos` with `riff::Chunk::read_type`, on
/// the chunk that `riff::Chunk::read` gives there. The call seeks to eight
/// bytes after `pos` and reads four: it gives them when the buffer holds the
/// header and the tag, and fails with `UnexpectedEof` when it ends before.
#[verifier::external_body]
pub(crate) fn read_chunk_type(bytes: &[u8], pos: u64) -> (r: Result<ChunkId, IoErrorKind>)
    ensures
        r == match type_at(bytes@, pos as int) {
            Some(id) => Ok::<ChunkId, IoErrorKind>(id),
            None => Err::<ChunkId, IoErrorKind>(IoErrorKind::UnexpectedEof),
        },
{
    let mut stream = std::io::Cursor::new(bytes);
    let chunk = match riff::Chunk::read(&mut stream, pos) {
        Ok(chunk) => chunk,
        Err(error) => return Err(io_error_kind(&error)),
    };
    match chunk.read_type(&mut stream) {
        Ok(id) => Ok(ChunkId::new(id.value)),
        Err(error) => Err(io_error_kind(&error)),
    }
}

/// Reads the payload of the chunk at `pos` with `riff::Chunk::read_contents`,
/// on the chunk that `riff::Chunk::read` gives there. The call seeks to eight
/// bytes after `pos` and reads as many bytes as the header declares: it gives
/// them when the buffer holds them all, and fails with `UnexpectedEof` when it
/// ends before. It makes room for the declared length before it reads, so it
/// is called only where the buffer holds that many bytes.
#[verifier::external_body]
pub(crate) fn read_chunk_contents(bytes: &[u8], pos: u64) -> (r: Result<Vec<u8>, IoErrorKind>)
    requires
        contents_at(bytes@, pos as int).is_some(),
    ensures
        match r {
            Ok(contents) => contents_at(bytes@, pos as int) == Some(contents@),
            Err(kind) => contents_at(bytes@, pos as int).is_none() && kind
                == IoErrorKind::UnexpectedEof,
        },
{
    let mut stream = std::io::Cursor::new(bytes);
    let chunk = match riff::Chunk::read(&mut stream, pos) {
        Ok(chunk) => chunk,
        Err(error) => return Err(io_error_kind(&error)),
    };
    match chunk.read_contents(&mut stream) {
        Ok(contents) => Ok(contents),
        Err(error) => Err(io_error_kind(&error)),
    }
}

impl Chunk {
    /// Reads the header of the chunk that starts at `pos`.
    pub fn read(bytes: &[u8], pos: u64) -> (r: Result<Chunk, IoErrorKind>)
        ensures
            r == match chunk_at(bytes@, pos as int) {
                Some(chunk) => Ok::<Chunk, IoErrorKind>(chunk),
                None => Err::<Chunk, IoErrorKind>(IoErrorKind::UnexpectedEof),
            },
    {
        read_chunk_header(bytes, pos)
    }

    /// The identifier of this chunk.
    pub fn id(&self) -> (id: ChunkId)
        ensures
            id == self.id,
    {
        self.id
    }

    /// The declared number of bytes in this chunk's payload.
    pub fn len(&self) -> (len: u32)
        ensures
            len == self.len,
    {
        self.len
    }

    /// The offset of this chunk from the start of the buffer.
    pub fn offset(&self) -> (pos: u64)
        ensures
            pos == self.pos,
    {
        self.pos
    }

    /// Reads the type tag that follows this chunk's header in `bytes`.
    pub fn read_type(&self, bytes: &[u8]) -> (r: Result<ChunkId, IoErrorKind>)
        ensures
            r == match type_at(bytes@, self.pos as int) {
                Some(id) => Ok::<ChunkId, IoErrorKind>(id),
                None => Err::<ChunkId, IoErrorKind>(IoErrorKind::UnexpectedEof),
            },
    {
        read_chunk_type(bytes, self.pos)
    }

    /// Reads the payload that `bytes` holds for the chunk at this chunk's
    /// position, with the length that the header there declares.
    pub fn read_contents(&self, bytes: &[u8]) -> (r: Result<Vec<u8>, IoErrorKind>)
        ensures
            match r {
                Ok(contents) => contents_at(bytes@, self.pos as int) == Some(contents@),
                Err(kind) => contents_at(bytes@, self.pos as int).is_none() && kind
                    == IoErrorKind::UnexpectedEof,
            },
    {
        let len = bytes.len() as u128;
        let start = self.pos as u128 + 8;
        if start > len {
            return Err(IoErrorKind::UnexpectedEof);
        }
        let declared = match get_u32_le(bytes, (self.pos + 4) as usize) {
            Some(declared) => declared,
            None => {
                return Err(IoErrorKind::UnexpectedEof);
            },
        };
        if start + declared as u128 > len {
            return Err(IoErrorKind::UnexpectedEof);
        }
        read_chunk_contents(bytes, self.pos)
    }

    /// Reads the type tag of this chunk as a chunk that holds chunks: the
    /// first four bytes of its payload.
    pub fn read_list_type(&self, bytes: &[u8]) -> (r: Result<ChunkId, IoErrorKind>)
        ensures
            r == match list_type_of(bytes@, *self) {
                Some(id) => Ok::<ChunkId, IoErrorKind>(id),
                None => Err::<ChunkId, IoErrorKind>(IoErrorKind::UnexpectedEof),
            },
    {
        if self.len < 4 || !self.fits(bytes) {
            return Err(IoErrorKind::UnexpectedEof);
        }
        read_chunk_type(bytes, self.pos)
    }

    /// Tells whether the buffer holds the whole payload that this chunk
    /// declares.
    pub fn fits(&self, bytes: &[u8]) -> (r: bool)
        ensures
            r == payload_fits(bytes@, *self),
    {
        self.pos as u128 + 8 + self.len as u128 <= bytes.len() as u128
    }

    /// Reads the headers of this chunk's children, in the order in which they
    /// stand in `bytes`.
    pub fn read_children(&self, bytes: &[u8]) -> (r: Result<Vec<Chunk>, IoErrorKind>)
        ensures
            match r {
                Ok(chunks) => children_of(bytes@, *self) == Ok::<Seq<Chunk>, IoErrorKind>(chunks@),
                Err(kind) => children_of(bytes@, *self) == Err::<Seq<Chunk>, IoErrorKind>(kind),
            },
    {
        let len: u64 = bytes.len() as u64;
        if self.len < 4 || !self.fits(bytes) {
            return Err(IoErrorKind::UnexpectedEof);
        }
        let start: u64 = self.pos + 12;
        let end: u64 = self.pos + 8 + self.len as u64;
        let mut chunks: Vec<Chunk> = Vec::new();
        let mut cur: u64 = start;
        while cur < end
            invariant
                len == bytes@.len(),
                end <= len,
                start <= cur,
                start == self.pos + 12,
                end == self.pos + 8 + self.len,
                self.len >= 4,
                payload_fits(bytes@, *self),
                match chunks_between(bytes@, cur as int, end as int) {
                    Ok(rest) => chunks_between(bytes@, start as int, end as int) == Ok::<
                        Seq<Chunk>,
                        IoErrorKind,
                    >(chunks@ + rest),
                    Err(kind) => chunks_between(bytes@, start as int, end as int) == Err::<
                        Seq<Chunk>,
                        IoErrorKind,
                    >(kind),
                },
            decreases (if cur < end { end - cur } else { 0 }),
        {
            let chunk = match read_chunk_header(bytes, cur) {
                Ok(chunk) => chunk,
                Err(kind) => {
                    return Err(kind);
                },
            };
            if end - cur < 8 || chunk.len as u64 > end - cur - 8 {
                return Err(IoErrorKind::UnexpectedEof);
            }
            let stop: u64 = cur + 8 + chunk.len as u64;
            proof {
                let next = cur as int + 8 + chunk.len as int + chunk.len as int % 2;
                match chunks_between(bytes@, next, end as int) {
                    Ok(rest) => {
                        assert(chunks@ + (seq![chunk] + rest) =~= chunks@.push(chunk) + rest);
                    },
                    Err(_) => {},
                }
            }
            chunks.push(chunk);
            cur = if stop >= end {
                end
            } else {
                stop + (chunk.len % 2) as u64
            };
        }
        proof {
            assert(chunks@ + Seq::<Chunk>::empty() =~= chunks@);
        }
        Ok(chunks)
    }

    /// Tells the first fault in the framing of this chunk as a chunk that
    /// holds chunks, and of all that stands in it, if there is one.
    pub fn framing_error(&self, bytes: &[u8]) -> (r: Option<IoErrorKind>)
        ensures
            r == list_error(bytes@, *self),
    {
        let total = bytes.len();
        if self.len < 4 || !self.fits(bytes) {
            return Some(IoErrorKind::UnexpectedEof);
        }
        check_tree(bytes, self.pos + 12, self.pos + 8 + self.len as u64)
    }
}

/// Tells the first fault in the framing of the chunks between `start` and
/// `end`, at every level, if there is one. The chunks inside a `LIST` chunk
/// are looked at before those that follow it; where to go on afterwards is
/// kept in a list, so that lists inside one another cost no more than their
/// bytes.
fn check_tree(bytes: &[u8], start: u64, last: u64) -> (r: Option<IoErrorKind>)
    requires
        start <= last <= bytes@.len(),
    ensures
        r == tree_error(bytes@, start as int, last as int),
{
    let len: u64 = bytes.len() as u64;
    let list_id = riff_list_id();
    let mut rest: Vec<(u64, u64)> = Vec::new();
    let mut cur: u64 = start;
    let mut end: u64 = last;
    while cur < end || rest.len() > 0
        invariant
            len == bytes@.len(),
            list_id == spec_list_id(),
            cur <= end <= len,
            is_ordered(rest@, end as int, len as int),
            tree_error(bytes@, start as int, last as int) == pending_error(
                bytes@,
                cur as int,
                end as int,
                rest@,
            ),
        decreases 2 * (len - cur) + rest@.len(),
    {
        if cur >= end {
            let ghost before = rest@;
            assert(tree_error(bytes@, cur as int, end as int).is_none());
            assert(pending_error(bytes@, cur as int, end as int, before) == pending_error(
                bytes@,
                before.last().0 as int,
                before.last().1 as int,
                before.drop_last(),
            ));
            let (next, parent_end) = rest.pop().unwrap();
            assert(rest@ == before.drop_last());
            cur = next;
            end = parent_end;
        } else {
            let chunk = match read_chunk_header(bytes, cur) {
                Ok(chunk) => chunk,
                Err(kind) => {
                    return Some(kind);
                },
            };
            if end - cur < 8 || chunk.len as u64 > end - cur - 8 {
                return Some(IoErrorKind::UnexpectedEof);
            }
            let stop: u64 = cur + 8 + chunk.len as u64;
            let next: u64 = if stop >= end {
                end
            } else {
                stop + (chunk.len % 2) as u64
            };
            proof {
                let unclamped = stop as int + chunk.len as int % 2;
                if stop >= end {
                    assert(tree_error(bytes@, unclamped, end as int).is_none());
                    assert(tree_error(bytes@, next as int, end as int).is_none());
                }
                assert(tree_error(bytes@, unclamped, end as int) == tree_error(
                    bytes@,
                    next as int,
                    end as int,
                ));
            }
            if chunk.id == list_id {
                if chunk.len < 4 {
                    return Some(IoErrorKind::UnexpectedEof);
                }
                proof {
                    let pushed = rest@.push((next, end));
                    let inner = tree_error(bytes@, cur as int + 12, stop as int);
                    assert(pushed.drop_last() =~= rest@);
                    assert(pushed.last() == (next, end));
                    assert(pending_error(bytes@, cur as int + 12, stop as int, pushed) == (if inner.is_some() {
                        inner
                    } else {
                        pending_error(bytes@, next as int, end as int, rest@)
                    }));
                    assert(tree_error(bytes@, cur as int, end as int) == (if inner.is_some() {
                        inner
                    } else {
                        tree_error(bytes@, next as int, end as int)
                    }));
                    assert(pending_error(bytes@, cur as int, end as int, rest@) == pending_error(
                        bytes@,
                        cur as int + 12,
                        stop as int,
                        pushed,
                    ));
                }
                rest.push((next, end));
                cur = cur + 12;
                end = stop;
            } else {
                proof {
                    assert(tree_error(bytes@, cur as int, end as int) == tree_error(
                        bytes@,
                        next as int,
                        end as int,
                    ));
                    assert(pending_error(bytes@, cur as int, end as int, rest@) == pending_error(
                        bytes@,
                        next as int,
                        end as int,
                        rest@,
                    ));
                }
                cur = next;
            }
        }
    }
    None
}

} // verus!
