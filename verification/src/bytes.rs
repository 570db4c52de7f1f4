//! Little-endian integers in a byte buffer, and the ways a read from a buffer
//! can fail.

use vstd::prelude::*;

verus! {

/// Why a read from an in-memory buffer failed.
#[derive(Clone, Copy, Debug, PartialEq, Eq, Structural)]
pub enum IoErrorKind {
    /// The buffer ended before the value was complete.
    UnexpectedEof,
    /// The bytes were there but do not form a valid value.
    InvalidData,
    /// Any other failure reported by a reader.
    Other,
}

/// The little-endian `u16` held in `bytes[at]` and `bytes[at + 1]`.
pub open spec fn le_u16(bytes: Seq<u8>, at: int) -> u16 {
    (bytes[at] as int + 256 * (bytes[at + 1] as int)) as u16
}

/// The little-endian `u32` held in the four bytes from `bytes[at]` on.
pub open spec fn le_u32(bytes: Seq<u8>, at: int) -> u32 {
    (bytes[at] as int + 256 * (bytes[at + 1] as int) + 65536 * (bytes[at + 2] as int) + 16777216
        * (bytes[at + 3] as int)) as u32
}

/// The four bytes that hold `value` in little-endian order.
pub open spec fn u32_le_bytes(value: u32) -> Seq<u8> {
    seq![
        (value as int % 256) as u8,
        (value as int / 256 % 256) as u8,
        (value as int / 65536 % 256) as u8,
        (value as int / 16777216) as u8,
    ]
}

/// Writing a `u32` in little-endian order and reading it back gives the
/// same value.
pub proof fn lemma_u32_le_round_trip(value: u32)
    ensures
        u32_le_bytes(value).len() == 4,
        le_u32(u32_le_bytes(value), 0) == value,
{
}

/// Reads the little-endian `u16` at `at`, if the buffer holds it.
pub fn get_u16_le(bytes: &[u8], at: usize) -> (r: Option<u16>)
    ensures
        r == (if at + 2 <= bytes@.len() {
            Some(le_u16(bytes@, at as int))
        } else {
            None
        }),
{
    if at > bytes.len() || bytes.len() - at < 2 {
        return None;
    }
    let low: u16 = bytes[at] as u16;
    let high: u16 = bytes[at + 1] as u16;
    Some(low + 256 * high)
}

/// Reads the little-endian `u32` at `at`, if the buffer holds it.
pub fn get_u32_le(bytes: &[u8], at: usize) -> (r: Option<u32>)
    ensures
        r == (if at + 4 <= bytes@.len() {
            Some(le_u32(bytes@, at as int))
        } else {
            None
        }),
{
    if at > bytes.len() || bytes.len() - at < 4 {
        return None;
    }
    let b0: u32 = bytes[at] as u32;
    let b1: u32 = bytes[at + 1] as u32;
    let b2: u32 = bytes[at + 2] as u32;
    let b3: u32 = bytes[at + 3] as u32;
    Some(b0 + 256 * b1 + 65536 * b2 + 16777216 * b3)
}

/// `std::io::Error`, carried from a reader to the point where its kind is
/// taken; nothing is known of a value of it.
#[verifier::external_type_specification]
#[verifier::external_body]
pub struct ExIoError(std::io::Error);

/// Takes the kind of an I/O error with `std::io::Error::kind` and keeps the
/// two kinds that reading from memory produces; every other kind becomes
/// `Other`. Nothing is claimed of the result.
#[verifier::external_body]
pub(crate) fn io_error_kind(error: &std::io::Error) -> IoErrorKind {
    match error.kind() {
        std::io::ErrorKind::UnexpectedEof => IoErrorKind::UnexpectedEof,
        std::io::ErrorKind::InvalidData => IoErrorKind::InvalidData,
        _ => IoErrorKind::Other,
    }
}

/// Reads a little-endian `u32` with `byteorder::ReadBytesExt::read_u32` from
/// a cursor placed at `at`. The read takes exactly four bytes: it gives their
/// little-endian value when the buffer holds them, and fails with
/// `UnexpectedEof` when it ends before.
#[verifier::external_body]
pub(crate) fn read_u32_le(bytes: &[u8], at: u64) -> (r: Result<u32, IoErrorKind>)
    ensures
        r == (if at + 4 <= bytes@.len() {
            Ok::<u32, IoErrorKind>(le_u32(bytes@, at as int))
        } else {
            Err::<u32, IoErrorKind>(IoErrorKind::UnexpectedEof)
        }),
{
    let mut cursor = std::io::Cursor::new(bytes);
    cursor.set_position(at);
    match byteorder::ReadBytesExt::read_u32::<byteorder::LittleEndian>(&mut cursor) {
        Ok(value) => Ok(value),
        Err(error) => Err(io_error_kind(&error)),
    }
}

} // verus!
