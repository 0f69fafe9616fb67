//! What the header of a frame declares: the size of the content and the
//! dictionary that decompression needs.
//!
//! Reading the header is the codec's work. This module asks the codec
//! and, where the codec cannot read the header, tells a header that was
//! cut short from bytes that hold no good header.

use vstd::prelude::*;
use zstd::zstd_safe::get_dict_id_from_frame;
use zstd::zstd_safe::get_frame_content_size;
use crate::error::Error;
use crate::error::ErrorKind;

verus! {

/// The length of the longest frame header.
pub const HEADER_MAX: usize = 18;

/// The four bytes that every frame starts with.
pub const FRAME_MAGIC: [u8; 4] = [0x28, 0xB5, 0x2F, 0xFD];

/// What a frame's header declares.
#[derive(Clone, Copy, Debug, PartialEq, Eq, Structural)]
pub struct FrameParameters {
    /// The size of the content, if the header gives it. A frame that was
    /// written as a stream does not know its size when it starts.
    pub content_size: Option<u64>,
    /// The identifier of the dictionary that is needed, zero if none is.
    pub dictionary_id: u32,
}

/// What the codec reads as the content size in the header at the start of
/// `bytes`: `None` where it cannot read a header, `Some(None)` where the
/// header gives no size.
pub uninterp spec fn declared_content_size(bytes: Seq<u8>) -> Option<Option<u64>>;

/// What the codec reads as the dictionary identifier in the header at the
/// start of `bytes`: zero where the header names none or cannot be read.
pub uninterp spec fn declared_dictionary(bytes: Seq<u8>) -> u32;

/// Whether `bytes` begin as every frame does: with the magic number, or
/// with as much of it as there are bytes.
pub open spec fn starts_like_a_frame(bytes: Seq<u8>) -> bool {
    forall|i: int| 0 <= i < bytes.len() && i < 4 ==> bytes[i] == FRAME_MAGIC[i]
}

/// What is made of the codec's reading of a header. Where the codec read
/// the header, its findings stand. Where it could not, the bytes decide:
/// if they begin as a frame does and are fewer than the longest header
/// has, the header was cut short (`TruncatedInput`); if not, they are no
/// frame, or hold a header that is whole and bad (`CorruptData`).
pub open spec fn spec_frame_parameters(
    bytes: Seq<u8>,
    size: Option<Option<u64>>,
    dictionary_id: u32,
) -> Result<FrameParameters, Error> {
    match size {
        Some(content_size) => Ok(FrameParameters { content_size, dictionary_id }),
        None => Err(
            Error {
                kind: if starts_like_a_frame(bytes) && bytes.len() < HEADER_MAX {
                    ErrorKind::TruncatedInput
                } else {
                    ErrorKind::CorruptData
                },
                offset: 0,
            },
        ),
    }
}

/// Whether `bytes` begin as every frame does.
pub fn begins_frame(bytes: &[u8]) -> (yes: bool)
    ensures
        yes == starts_like_a_frame(bytes@),
{
    let mut i: usize = 0;
    while i < bytes.len() && i < 4
        invariant
            i <= 4,
            i <= bytes@.len(),
            forall|j: int| 0 <= j < i ==> bytes@[j] == FRAME_MAGIC[j],
        decreases 4 - i,
    {
        if bytes[i] != FRAME_MAGIC[i] {
            return false;
        }
        i = i + 1;
    }
    true
}

/// Makes the parameters, or the failure, of what the codec read in the
/// header of `bytes`.
pub fn describe_frame(bytes: &[u8], size: Option<Option<u64>>, dictionary_id: u32) -> (r: Result<
    FrameParameters,
    Error,
>)
    ensures
        r == spec_frame_parameters(bytes@, size, dictionary_id),
{
    match size {
        Some(content_size) => Ok(FrameParameters { content_size, dictionary_id }),
        None => {
            if bytes.len() < HEADER_MAX && begins_frame(bytes) {
                Err(Error::new(ErrorKind::TruncatedInput, 0))
            } else {
                Err(Error::new(ErrorKind::CorruptData, 0))
            }
        },
    }
}

/// Reads what the header of the frame at the start of `bytes` declares.
pub fn frame_parameters(bytes: &[u8]) -> (r: Result<FrameParameters, Error>)
    ensures
        r == spec_frame_parameters(
            bytes@,
            declared_content_size(bytes@),
            declared_dictionary(bytes@),
        ),
{
    let size = read_content_size(bytes);
    let dictionary_id = read_dictionary(bytes);
    describe_frame(bytes, size, dictionary_id)
}

/// `zstd_safe::get_frame_content_size`. Its result depends on the bytes
/// alone; it is given the name `declared_content_size`, with the error of
/// the binding, which carries nothing, as `None`.
#[verifier::external_body]
fn read_content_size(bytes: &[u8]) -> (r: Option<Option<u64>>)
    ensures
        r == declared_content_size(bytes@),
{
    match get_frame_content_size(bytes) {
        Ok(size) => Some(size),
        Err(_) => None,
    }
}

/// `zstd_safe::get_dict_id_from_frame`. Its result depends on the bytes
/// alone; it is given the name `declared_dictionary`, with the binding's
/// `None`, which stands for the codec's zero, as zero again.
#[verifier::external_body]
fn read_dictionary(bytes: &[u8]) -> (r: u32)
    ensures
        r == declared_dictionary(bytes@),
{
    match get_dict_id_from_frame(bytes) {
        Some(id) => id.get(),
        None => 0,
    }
}

} // verus!
