//! The decoder for ANI files: a RIFF container of type `ACON` with a header
//! chunk and a list of frames.

use crate::ani::{metadata_of, AnimatedCursor, AnimatedCursorMetadata, AnimatedCursorView};
use crate::bytes::IoErrorKind;
use crate::chunk::{
    chunk_at, children_of, contents_at, id_at, list_error, list_type_of, riff_list_id,
    riff_root_id, spec_list_id, spec_riff_id, Chunk, ChunkId,
};
use crate::icon::{spec_read, IconDir, IconDirView};
use vstd::prelude::*;

verus! {

/// Why an ANI file could not be decoded.
#[derive(Clone, Copy, Debug, PartialEq, Eq, Structural)]
pub enum DecodeError {
    /// The buffer ended inside a chunk, a chunk declares a size that runs
    /// past what is left for it, or a frame is not a valid directory.
    IoError(IoErrorKind),
    /// The root chunk is not a `RIFF` chunk.
    UnsupportedRootChunkId(ChunkId),
    /// The root chunk is not of type `ACON`.
    UnsupportedRootType(ChunkId),
    /// There is no header chunk (`anih`).
    MissingHeaderChunk,
    /// There is no list chunk at all.
    MissingFramesChunk,
    /// There are list chunks, but none is of type `fram`; the type of the
    /// first of them.
    UnsupportedFramesType(ChunkId),
    /// The list of frames does not hold as many chunks as the header says.
    FrameCountMismatch { expected: u32, found: usize },
    /// A chunk in the list of frames is not an `icon` chunk.
    UnsupportedFrameChunkId(ChunkId),
}

/// The type `ACON` of the root chunk of an animated cursor.
pub open spec fn spec_acon_id() -> ChunkId {
    ChunkId { b0: 0x41, b1: 0x43, b2: 0x4f, b3: 0x4e }
}

/// The identifier `anih` of the header chunk.
pub open spec fn spec_anih_id() -> ChunkId {
    ChunkId { b0: 0x61, b1: 0x6e, b2: 0x69, b3: 0x68 }
}

/// The type `fram` of the list of frames.
pub open spec fn spec_fram_id() -> ChunkId {
    ChunkId { b0: 0x66, b1: 0x72, b2: 0x61, b3: 0x6d }
}

/// The identifier `icon` of a frame chunk.
pub open spec fn spec_icon_id() -> ChunkId {
    ChunkId { b0: 0x69, b1: 0x63, b2: 0x6f, b3: 0x6e }
}

/// The type `ACON` of the root chunk of an animated cursor.
pub fn acon_id() -> (id: ChunkId)
    ensures
        id == spec_acon_id(),
{
    ChunkId::new([0x41, 0x43, 0x4f, 0x4e])
}

/// The identifier `anih` of the header chunk.
pub fn anih_id() -> (id: ChunkId)
    ensures
        id == spec_anih_id(),
{
    ChunkId::new([0x61, 0x6e, 0x69, 0x68])
}

/// The type `fram` of the list of frames.
pub fn fram_id() -> (id: ChunkId)
    ensures
        id == spec_fram_id(),
{
    ChunkId::new([0x66, 0x72, 0x61, 0x6d])
}

/// The identifier `icon` of a frame chunk.
pub fn icon_id() -> (id: ChunkId)
    ensures
        id == spec_icon_id(),
{
    ChunkId::new([0x69, 0x63, 0x6f, 0x6e])
}

/// The first chunk with the given identifier among `chunks[from..]`.
pub open spec fn find_chunk(chunks: Seq<Chunk>, id: ChunkId, from: int) -> Option<Chunk>
    decreases chunks.len() - from,
{
    if from < 0 || from >= chunks.len() {
        None
    } else if chunks[from].id == id {
        Some(chunks[from])
    } else {
        find_chunk(chunks, id, from + 1)
    }
}

/// The chunks of the root: the buffer must start with a `RIFF` chunk, all
/// that stands in it must be framed soundly at every level, and its type must
/// be `ACON`; its children are then the chunks of the root.
pub open spec fn root_chunks(bytes: Seq<u8>) -> Result<Seq<Chunk>, DecodeError> {
    match chunk_at(bytes, 0) {
        None => Err(DecodeError::IoError(IoErrorKind::UnexpectedEof)),
        Some(root) => if root.id != spec_riff_id() {
            Err(DecodeError::UnsupportedRootChunkId(root.id))
        } else {
            match list_error(bytes, root) {
                Some(kind) => Err(DecodeError::IoError(kind)),
                None => if id_at(bytes, 8) != spec_acon_id() {
                    Err(DecodeError::UnsupportedRootType(id_at(bytes, 8)))
                } else {
                    match children_of(bytes, root) {
                        Err(kind) => Err(DecodeError::IoError(kind)),
                        Ok(chunks) => Ok(chunks),
                    }
                },
            }
        },
    }
}

/// The header of the animation: the payload of the first `anih` chunk among
/// the chunks of the root.
pub open spec fn header_of(bytes: Seq<u8>, chunks: Seq<Chunk>) -> Result<
    AnimatedCursorMetadata,
    DecodeError,
> {
    match find_chunk(chunks, spec_anih_id(), 0) {
        None => Err(DecodeError::MissingHeaderChunk),
        Some(chunk) => match contents_at(bytes, chunk.pos as int) {
            None => Err(DecodeError::IoError(IoErrorKind::UnexpectedEof)),
            Some(contents) => match metadata_of(contents) {
                None => Err(DecodeError::IoError(IoErrorKind::UnexpectedEof)),
                Some(metadata) => Ok(metadata),
            },
        },
    }
}

/// The list of frames among `chunks[from..]`: the first `LIST` chunk whose
/// type tag is `fram`. A `LIST` chunk of another type is passed over, and
/// `other` keeps the type of the first that was. Where no list of frames is
/// found, the error says whether there was a `LIST` chunk at all.
pub open spec fn find_frame_list(
    bytes: Seq<u8>,
    chunks: Seq<Chunk>,
    from: int,
    other: Option<ChunkId>,
) -> Result<Chunk, DecodeError>
    decreases chunks.len() - from,
{
    if from < 0 || from >= chunks.len() {
        match other {
            Some(list_type) => Err(DecodeError::UnsupportedFramesType(list_type)),
            None => Err(DecodeError::MissingFramesChunk),
        }
    } else if chunks[from].id != spec_list_id() {
        find_frame_list(bytes, chunks, from + 1, other)
    } else {
        match list_type_of(bytes, chunks[from]) {
            None => Err(DecodeError::IoError(IoErrorKind::UnexpectedEof)),
            Some(list_type) => if list_type == spec_fram_id() {
                Ok(chunks[from])
            } else {
                find_frame_list(
                    bytes,
                    chunks,
                    from + 1,
                    if other.is_some() {
                        other
                    } else {
                        Some(list_type)
                    },
                )
            },
        }
    }
}

/// The chunks of the list of frames: the children of the first `LIST` chunk
/// of type `fram` among the chunks of the root.
pub open spec fn frame_chunks(bytes: Seq<u8>, chunks: Seq<Chunk>) -> Result<
    Seq<Chunk>,
    DecodeError,
> {
    match find_frame_list(bytes, chunks, 0, None) {
        Err(error) => Err(error),
        Ok(list) => match children_of(bytes, list) {
            Err(kind) => Err(DecodeError::IoError(kind)),
            Ok(kids) => Ok(kids),
        },
    }
}

/// The list of frames that is found is a `LIST` chunk of type `fram`, and no
/// `LIST` chunk before it is of that type.
pub proof fn lemma_frame_list_is_of_type_fram(
    bytes: Seq<u8>,
    chunks: Seq<Chunk>,
    from: int,
    other: Option<ChunkId>,
)
    requires
        0 <= from,
        find_frame_list(bytes, chunks, from, other).is_ok(),
    ensures
        ({
            let list = find_frame_list(bytes, chunks, from, other).unwrap();
            exists|at: int|
                {
                    &&& from <= at < chunks.len()
                    &&& #[trigger] chunks[at] == list
                    &&& list.id == spec_list_id()
                    &&& list_type_of(bytes, list) == Some(spec_fram_id())
                    &&& forall|i: int|
                        from <= i < at && (#[trigger] chunks[i]).id == spec_list_id()
                            ==> list_type_of(bytes, chunks[i]).is_some() && list_type_of(
                            bytes,
                            chunks[i],
                        ) != Some(spec_fram_id())
                }
        }),
    decreases chunks.len() - from,
{
    let list = find_frame_list(bytes, chunks, from, other).unwrap();
    if chunks[from].id == spec_list_id() && list_type_of(bytes, chunks[from]) == Some(
        spec_fram_id(),
    ) {
        assert(chunks[from] == list);
    } else {
        let next = if chunks[from].id != spec_list_id() || other.is_some() {
            other
        } else {
            list_type_of(bytes, chunks[from])
        };
        lemma_frame_list_is_of_type_fram(bytes, chunks, from + 1, next);
        let at = choose|at: int|
            {
                &&& from + 1 <= at < chunks.len()
                &&& #[trigger] chunks[at] == list
                &&& list.id == spec_list_id()
                &&& list_type_of(bytes, list) == Some(spec_fram_id())
                &&& forall|i: int|
                    from + 1 <= i < at && (#[trigger] chunks[i]).id == spec_list_id()
                        ==> list_type_of(bytes, chunks[i]).is_some() && list_type_of(
                        bytes,
                        chunks[i],
                    ) != Some(spec_fram_id())
            };
        assert(chunks[at] == list);
    }
}

/// A `LIST` chunk of type `fram` whose type tag the buffer holds is found as
/// the list of frames where no `LIST` chunk before it is of that type, whatever
/// other lists stand before it.
pub proof fn lemma_frame_list_after_other_lists(
    bytes: Seq<u8>,
    chunks: Seq<Chunk>,
    from: int,
    at: int,
    other: Option<ChunkId>,
)
    requires
        0 <= from <= at < chunks.len(),
        chunks[at].id == spec_list_id(),
        list_type_of(bytes, chunks[at]) == Some(spec_fram_id()),
        forall|i: int|
            from <= i < at && (#[trigger] chunks[i]).id == spec_list_id() ==> list_type_of(
                bytes,
                chunks[i],
            ).is_some() && list_type_of(bytes, chunks[i]) != Some(spec_fram_id()),
    ensures
        find_frame_list(bytes, chunks, from, other) == Ok::<Chunk, DecodeError>(chunks[at]),
    decreases at - from,
{
    if from < at {
        let next = if chunks[from].id != spec_list_id() || other.is_some() {
            other
        } else {
            list_type_of(bytes, chunks[from])
        };
        lemma_frame_list_after_other_lists(bytes, chunks, from + 1, at, next);
    }
}

/// The directories of the frames `kids[from..]`, in order: each chunk must be
/// an `icon` chunk whose payload is a directory. The first chunk that is not
/// ends the decoding with its error.
pub open spec fn frames_from(bytes: Seq<u8>, kids: Seq<Chunk>, from: int) -> Result<
    Seq<IconDirView>,
    DecodeError,
>
    decreases kids.len() - from,
{
    if from < 0 || from >= kids.len() {
        Ok(Seq::empty())
    } else if kids[from].id != spec_icon_id() {
        Err(DecodeError::UnsupportedFrameChunkId(kids[from].id))
    } else {
        match contents_at(bytes, kids[from].pos as int) {
            None => Err(DecodeError::IoError(IoErrorKind::UnexpectedEof)),
            Some(contents) => match spec_read(contents) {
                Err(kind) => Err(DecodeError::IoError(kind)),
                Ok(dir) => match frames_from(bytes, kids, from + 1) {
                    Err(error) => Err(error),
                    Ok(rest) => Ok(seq![dir] + rest),
                },
            },
        }
    }
}

/// What decoding an ANI file gives: the header and the frames, where the
/// container is sound, holds a header and a list of frames, and the list has
/// as many chunks as the header says; else the error of the first rule that is
/// broken.
#[verifier::opaque]
pub open spec fn spec_decode(bytes: Seq<u8>) -> Result<AnimatedCursorView, DecodeError> {
    match root_chunks(bytes) {
        Err(error) => Err(error),
        Ok(chunks) => match header_of(bytes, chunks) {
            Err(error) => Err(error),
            Ok(metadata) => match frame_chunks(bytes, chunks) {
                Err(error) => Err(error),
                Ok(kids) => if kids.len() != metadata.frame_count {
                    Err(
                        DecodeError::FrameCountMismatch {
                            expected: metadata.frame_count,
                            found: kids.len() as usize,
                        },
                    )
                } else {
                    match frames_from(bytes, kids, 0) {
                        Err(error) => Err(error),
                        Ok(frames) => Ok(AnimatedCursorView { metadata, frames }),
                    }
                },
            },
        },
    }
}

/// A buffer whose first chunk is not a `RIFF` chunk gives the error that
/// carries the identifier found there, and nothing else.
pub proof fn lemma_root_that_is_not_riff(bytes: Seq<u8>)
    requires
        bytes.len() >= 8,
        id_at(bytes, 0) != spec_riff_id(),
    ensures
        spec_decode(bytes) == Err::<AnimatedCursorView, DecodeError>(
            DecodeError::UnsupportedRootChunkId(id_at(bytes, 0)),
        ),
{
    reveal(spec_decode);
}

/// A buffer that starts with a `RIFF` chunk in which a chunk at any level is
/// cut short, or declares a size that runs past what is left for it, gives an
/// I/O error.
pub proof fn lemma_unsound_framing(bytes: Seq<u8>)
    requires
        chunk_at(bytes, 0).is_some(),
        chunk_at(bytes, 0).unwrap().id == spec_riff_id(),
        list_error(bytes, chunk_at(bytes, 0).unwrap()).is_some(),
    ensures
        spec_decode(bytes) == Err::<AnimatedCursorView, DecodeError>(
            DecodeError::IoError(list_error(bytes, chunk_at(bytes, 0).unwrap()).unwrap()),
        ),
{
    reveal(spec_decode);
}

/// A buffer of fewer than 12 bytes gives an I/O error, or the error for a
/// root that is not a `RIFF` chunk where it holds the eight bytes of one.
pub proof fn lemma_short_buffer(bytes: Seq<u8>)
    requires
        bytes.len() < 12,
    ensures
        spec_decode(bytes) == Err::<AnimatedCursorView, DecodeError>(
            DecodeError::IoError(IoErrorKind::UnexpectedEof),
        ) || (bytes.len() >= 8 && spec_decode(bytes) == Err::<AnimatedCursorView, DecodeError>(
            DecodeError::UnsupportedRootChunkId(id_at(bytes, 0)),
        )),
{
    reveal(spec_decode);
}

/// Every frame list that decodes has as many frames as it has chunks.
pub proof fn lemma_frames_len(bytes: Seq<u8>, kids: Seq<Chunk>, from: int)
    requires
        0 <= from <= kids.len(),
        frames_from(bytes, kids, from).is_ok(),
    ensures
        frames_from(bytes, kids, from).unwrap().len() == kids.len() - from,
    decreases kids.len() - from,
{
    if from < kids.len() {
        lemma_frames_len(bytes, kids, from + 1);
    }
}

/// A decoded animated cursor has exactly as many frames as its header says.
pub proof fn lemma_frame_count(bytes: Seq<u8>)
    requires
        spec_decode(bytes).is_ok(),
    ensures
        spec_decode(bytes).unwrap().frames.len() == spec_decode(bytes).unwrap().metadata.frame_count,
{
    reveal(spec_decode);
    let chunks = root_chunks(bytes).unwrap();
    let kids = frame_chunks(bytes, chunks).unwrap();
    lemma_frames_len(bytes, kids, 0);
}

/// Finds the first chunk with the given identifier.
fn find_first(chunks: &Vec<Chunk>, id: ChunkId) -> (r: Option<Chunk>)
    ensures
        r == find_chunk(chunks@, id, 0),
{
    let mut i: usize = 0;
    while i < chunks.len()
        invariant
            i <= chunks@.len(),
            find_chunk(chunks@, id, 0) == find_chunk(chunks@, id, i as int),
        decreases chunks@.len() - i,
    {
        if chunks[i].id == id {
            return Some(chunks[i]);
        }
        i += 1;
    }
    None
}

/// Finds the list of frames: the first `LIST` chunk of type `fram`.
fn find_frames(bytes: &[u8], chunks: &Vec<Chunk>) -> (r: Result<Chunk, DecodeError>)
    ensures
        r == find_frame_list(bytes@, chunks@, 0, None),
{
    let list_id = riff_list_id();
    let fram = fram_id();
    let mut other: Option<ChunkId> = None;
    let mut i: usize = 0;
    while i < chunks.len()
        invariant
            i <= chunks@.len(),
            list_id == spec_list_id(),
            fram == spec_fram_id(),
            find_frame_list(bytes@, chunks@, 0, None) == find_frame_list(
                bytes@,
                chunks@,
                i as int,
                other,
            ),
        decreases chunks@.len() - i,
    {
        if chunks[i].id == list_id {
            let list_type = match chunks[i].read_list_type(bytes) {
                Ok(list_type) => list_type,
                Err(kind) => {
                    return Err(DecodeError::IoError(kind));
                },
            };
            if list_type == fram {
                return Ok(chunks[i]);
            }
            if other.is_none() {
                other = Some(list_type);
            }
        }
        i += 1;
    }
    match other {
        Some(list_type) => Err(DecodeError::UnsupportedFramesType(list_type)),
        None => Err(DecodeError::MissingFramesChunk),
    }
}

/// A decoder for ANI files held in memory.
pub struct Decoder {
    reader: Vec<u8>,
}

impl View for Decoder {
    type V = Seq<u8>;

    closed spec fn view(&self) -> Seq<u8> {
        self.reader@
    }
}

impl Decoder {
    /// A decoder for the given contents of an ANI file.
    pub fn new(reader: Vec<u8>) -> (decoder: Decoder)
        ensures
            decoder@ == reader@,
    {
        Decoder { reader }
    }

    /// Reads the chunks of the root.
    fn read_root_chunks(&self) -> (r: Result<Vec<Chunk>, DecodeError>)
        ensures
            match r {
                Ok(chunks) => root_chunks(self@) == Ok::<Seq<Chunk>, DecodeError>(chunks@),
                Err(error) => root_chunks(self@) == Err::<Seq<Chunk>, DecodeError>(error),
            },
    {
        let bytes = self.reader.as_slice();
        let root = match Chunk::read(bytes, 0) {
            Ok(root) => root,
            Err(kind) => {
                return Err(DecodeError::IoError(kind));
            },
        };
        if root.id() != riff_root_id() {
            return Err(DecodeError::UnsupportedRootChunkId(root.id()));
        }
        match root.framing_error(bytes) {
            Some(kind) => {
                return Err(DecodeError::IoError(kind));
            },
            None => {},
        }
        let root_type = match root.read_list_type(bytes) {
            Ok(root_type) => root_type,
            Err(kind) => {
                return Err(DecodeError::IoError(kind));
            },
        };
        if root_type != acon_id() {
            return Err(DecodeError::UnsupportedRootType(root_type));
        }
        match root.read_children(bytes) {
            Ok(chunks) => Ok(chunks),
            Err(kind) => Err(DecodeError::IoError(kind)),
        }
    }

    /// Reads the header of the animation.
    fn read_header(&self, chunks: &Vec<Chunk>) -> (r: Result<AnimatedCursorMetadata, DecodeError>)
        ensures
            r == header_of(self@, chunks@),
    {
        let bytes = self.reader.as_slice();
        let chunk = match find_first(chunks, anih_id()) {
            Some(chunk) => chunk,
            None => {
                return Err(DecodeError::MissingHeaderChunk);
            },
        };
        let contents = match chunk.read_contents(bytes) {
            Ok(contents) => contents,
            Err(kind) => {
                return Err(DecodeError::IoError(kind));
            },
        };
        match AnimatedCursorMetadata::read(contents.as_slice()) {
            Ok(metadata) => Ok(metadata),
            Err(kind) => Err(DecodeError::IoError(kind)),
        }
    }

    /// Reads the chunks of the list of frames.
    fn read_frame_chunks(&self, chunks: &Vec<Chunk>) -> (r: Result<Vec<Chunk>, DecodeError>)
        ensures
            match r {
                Ok(kids) => frame_chunks(self@, chunks@) == Ok::<Seq<Chunk>, DecodeError>(kids@),
                Err(error) => frame_chunks(self@, chunks@) == Err::<Seq<Chunk>, DecodeError>(
                    error,
                ),
            },
    {
        let bytes = self.reader.as_slice();
        let list = match find_frames(bytes, chunks) {
            Ok(list) => list,
            Err(error) => {
                return Err(error);
            },
        };
        match list.read_children(bytes) {
            Ok(kids) => Ok(kids),
            Err(kind) => Err(DecodeError::IoError(kind)),
        }
    }

    /// Reads the directory of each frame.
    fn read_frames(&self, kids: &Vec<Chunk>) -> (r: Result<Vec<IconDir>, DecodeError>)
        ensures
            match r {
                Ok(frames) => frames_from(self@, kids@, 0) == Ok::<Seq<IconDirView>, DecodeError>(
                    frames@.map_values(|frame: IconDir| frame@),
                ),
                Err(error) => frames_from(self@, kids@, 0) == Err::<Seq<IconDirView>, DecodeError>(
                    error,
                ),
            },
    {
        let bytes = self.reader.as_slice();
        let icon = icon_id();
        let mut frames: Vec<IconDir> = Vec::new();
        let mut i: usize = 0;
        while i < kids.len()
            invariant
                i <= kids@.len(),
                bytes@ == self@,
                icon == spec_icon_id(),
                match frames_from(self@, kids@, i as int) {
                    Ok(rest) => frames_from(self@, kids@, 0) == Ok::<Seq<IconDirView>, DecodeError>(
                        frames@.map_values(|frame: IconDir| frame@) + rest,
                    ),
                    Err(error) => frames_from(self@, kids@, 0) == Err::<
                        Seq<IconDirView>,
                        DecodeError,
                    >(error),
                },
            decreases kids@.len() - i,
        {
            let kid = kids[i];
            if kid.id() != icon {
                return Err(DecodeError::UnsupportedFrameChunkId(kid.id()));
            }
            let contents = match kid.read_contents(bytes) {
                Ok(contents) => contents,
                Err(kind) => {
                    return Err(DecodeError::IoError(kind));
                },
            };
            let dir = match IconDir::read(contents.as_slice()) {
                Ok(dir) => dir,
                Err(kind) => {
                    return Err(DecodeError::IoError(kind));
                },
            };
            proof {
                let views = frames@.map_values(|frame: IconDir| frame@);
                match frames_from(self@, kids@, i + 1) {
                    Ok(rest) => {
                        assert(views + (seq![dir@] + rest) =~= frames@.push(dir).map_values(
                            |frame: IconDir| frame@,
                        ) + rest);
                    },
                    Err(_) => {},
                }
            }
            frames.push(dir);
            i += 1;
        }
        proof {
            let views = frames@.map_values(|frame: IconDir| frame@);
            assert(views + Seq::<IconDirView>::empty() =~= views);
        }
        Ok(frames)
    }

    /// Decodes the ANI file.
    ///
    /// On success the cursor holds the header and one directory for each
    /// chunk of the list of frames, and their number is the header's
    /// `frame_count`.
    pub fn decode(&self) -> (r: Result<AnimatedCursor, DecodeError>)
        ensures
            match r {
                Ok(cursor) => spec_decode(self@) == Ok::<AnimatedCursorView, DecodeError>(cursor@)
                    && cursor.frames@.len() == cursor.metadata.frame_count,
                Err(error) => spec_decode(self@) == Err::<AnimatedCursorView, DecodeError>(error),
            },
    {
        reveal(spec_decode);
        let chunks = match self.read_root_chunks() {
            Ok(chunks) => chunks,
            Err(error) => {
                return Err(error);
            },
        };
        let metadata = match self.read_header(&chunks) {
            Ok(metadata) => metadata,
            Err(error) => {
                return Err(error);
            },
        };
        let kids = match self.read_frame_chunks(&chunks) {
            Ok(kids) => kids,
            Err(error) => {
                return Err(error);
            },
        };
        if kids.len() as u64 != metadata.frame_count as u64 {
            return Err(
                DecodeError::FrameCountMismatch {
                    expected: metadata.frame_count,
                    found: kids.len(),
                },
            );
        }
        let frames = match self.read_frames(&kids) {
            Ok(frames) => frames,
            Err(error) => {
                return Err(error);
            },
        };
        proof {
            lemma_frames_len(self@, kids@, 0);
        }
        Ok(AnimatedCursor { metadata, frames })
    }
}

} // verus!
