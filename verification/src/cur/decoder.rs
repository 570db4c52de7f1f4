//! The decoder for CUR files.

use crate::bytes::IoErrorKind;
use crate::cur::StaticCursor;
use crate::icon::{spec_read, IconDir, IconDirView};
use vstd::prelude::*;

verus! {

/// Why a CUR file could not be decoded.
#[derive(Clone, Copy, Debug, PartialEq, Eq, Structural)]
pub enum DecodeError {
    /// The buffer is truncated or is not a valid directory.
    IoError(IoErrorKind),
}

/// What decoding a CUR file gives: the directory that the buffer holds.
pub open spec fn spec_decode(bytes: Seq<u8>) -> Result<IconDirView, DecodeError> {
    match spec_read(bytes) {
        Ok(dir) => Ok(dir),
        Err(kind) => Err(DecodeError::IoError(kind)),
    }
}

/// A decoder for CUR files held in memory.
pub struct Decoder {
    reader: Vec<u8>,
}

impl View for Decoder {
    type V = Seq<u8>;

    closed spec fn view(&self) -> Seq<u8> {
        self.reader@
    }
}

impl Decoder {
    /// A decoder for the given contents of a CUR file.
    pub fn new(reader: Vec<u8>) -> (decoder: Decoder)
        ensures
            decoder@ == reader@,
    {
        Decoder { reader }
    }

    /// Decodes the CUR file.
    pub fn decode(&self) -> (r: Result<StaticCursor, DecodeError>)
        ensures
            match r {
                Ok(cursor) => spec_decode(self@) == Ok::<IconDirView, DecodeError>(cursor@),
                Err(error) => spec_decode(self@) == Err::<IconDirView, DecodeError>(error),
            },
    {
        match IconDir::read(self.reader.as_slice()) {
            Ok(dir) => Ok(StaticCursor(dir)),
            Err(kind) => Err(DecodeError::IoError(kind)),
        }
    }
}

} // verus!
