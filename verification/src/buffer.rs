//! The buffer bridge: borrowed views of a caller's bytes, and owned copies
//! of output for the caller.
//!
//! A view borrows: it lives no longer than the scope that holds the
//! caller's buffer in place, and the rules of borrowing see to that. What
//! is left to check is the buffer's shape.

use vstd::prelude::*;
use crate::error::Error;
use crate::error::ErrorKind;

verus! {

/// How a caller's buffer is laid out.
#[derive(Clone, Copy, Debug, PartialEq, Eq, Structural)]
pub struct BufferShape {
    /// Whether the items lie one behind the other in memory.
    pub contiguous: bool,
    /// The size of one item in bytes.
    pub item_size: usize,
    /// The number of dimensions.
    pub dimensions: usize,
}

/// Whether a buffer of the shape is a contiguous sequence of bytes.
pub open spec fn is_byte_sequence(shape: BufferShape) -> bool {
    shape.contiguous && shape.item_size == 1 && shape.dimensions <= 1
}

/// A borrowed look into a caller's buffer.
#[derive(Clone, Copy, Debug)]
pub struct BufferView<'a> {
    bytes: &'a [u8],
}

impl<'a> View for BufferView<'a> {
    type V = Seq<u8>;

    closed spec fn view(&self) -> Seq<u8> {
        self.bytes@
    }
}

impl<'a> BufferView<'a> {
    /// The bytes in view.
    pub fn as_slice(&self) -> (bytes: &'a [u8])
        ensures
            bytes@ == self@,
    {
        self.bytes
    }

    /// How many bytes are in view.
    pub fn len(&self) -> (n: usize)
        ensures
            n == self@.len(),
    {
        self.bytes.len()
    }
}

/// Borrows a view of a caller's buffer. A buffer that is not a contiguous
/// sequence of bytes is refused with `TypeError`.
pub fn borrow<'a>(shape: BufferShape, bytes: &'a [u8]) -> (r: Result<BufferView<'a>, Error>)
    ensures
        r is Ok <==> is_byte_sequence(shape),
        r matches Ok(view) ==> view@ == bytes@,
        r matches Err(e) ==> e == (Error { kind: ErrorKind::TypeError, offset: 0 }),
{
    if shape.contiguous && shape.item_size == 1 && shape.dimensions <= 1 {
        Ok(BufferView { bytes })
    } else {
        Err(Error::new(ErrorKind::TypeError, 0))
    }
}

/// Copies bytes into a buffer of their own for the caller. The memory is
/// asked for before anything is copied; if it cannot be had, the failure
/// is `ResourceExhausted`.
pub fn materialize(native: &[u8]) -> (r: Result<Vec<u8>, Error>)
    ensures
        r matches Ok(owned) ==> owned@ == native@,
        r matches Err(e) ==> e == (Error { kind: ErrorKind::ResourceExhausted, offset: 0 }),
{
    let mut owned: Vec<u8> = Vec::new();
    if owned.try_reserve(native.len()).is_err() {
        return Err(Error::new(ErrorKind::ResourceExhausted, 0));
    }
    owned.extend_from_slice(native);
    assert(owned@ =~= native@);
    Ok(owned)
}

} // verus!
