//! Dictionary training: the call into the codec's dictionary builder, and
//! what is made of what it leaves.

use vstd::prelude::*;
use zstd::zstd_safe::train_from_buffer;
use crate::codec::ROOM_MAX;
use crate::dictionary::Dictionary;
use crate::error::kind_of_native;
use crate::error::native_number;
use crate::error::Error;
use crate::error::ErrorKind;

verus! {

/// The lengths of all samples together.
pub open spec fn total(sizes: Seq<usize>) -> int
    decreases sizes.len(),
{
    if sizes.len() == 0 {
        0
    } else {
        total(sizes.drop_last()) + sizes.last()
    }
}

/// What the codec's dictionary builder leaves when it is run on samples
/// that lie one behind the other in `samples`, with their lengths in
/// `sizes`, and a zeroed buffer of `capacity` bytes: the buffer, and its
/// result, which is the number of bytes of the buffer that are the
/// dictionary, or a native code. The builder works from its arguments
/// alone; only a shortage of memory can make it answer otherwise.
pub uninterp spec fn built(samples: Seq<u8>, sizes: Seq<usize>, capacity: usize) -> (
    Seq<u8>,
    Result<usize, usize>,
);

/// Whether a result of the builder says that memory was short.
pub open spec fn out_of_memory(code: Result<usize, usize>) -> bool {
    code matches Err(c) && kind_of_native(native_number(c)) == ErrorKind::ResourceExhausted
}

/// What becomes of the dictionary builder's result: the part of the
/// buffer that the builder says is the dictionary; `InvalidParameter` if
/// it claims more than the buffer holds; and for a native failure
/// `ResourceExhausted` where memory was short and `InvalidParameter`
/// otherwise, since what the builder rejects are the samples.
pub open spec fn spec_trained(buffer: Seq<u8>, code: Result<usize, usize>) -> Result<
    Seq<u8>,
    Error,
> {
    match code {
        Ok(n) => if n <= buffer.len() {
            Ok(buffer.take(n as int))
        } else {
            Err(Error { kind: ErrorKind::InvalidParameter, offset: 0 })
        },
        Err(c) => Err(
            Error {
                kind: if kind_of_native(native_number(c)) == ErrorKind::ResourceExhausted {
                    ErrorKind::ResourceExhausted
                } else {
                    ErrorKind::InvalidParameter
                },
                offset: 0,
            },
        ),
    }
}

/// What the codec's dictionary builder left behind.
pub struct RawTraining {
    /// The buffer that the builder wrote into, at its full size.
    pub buffer: Vec<u8>,
    /// The builder's result: how many bytes of the buffer are the
    /// dictionary, or a native code.
    pub code: Result<usize, usize>,
}

/// The result of training, with the dictionary as its content.
pub open spec fn trained_view(r: Result<Dictionary, Error>) -> Result<Seq<u8>, Error> {
    match r {
        Ok(d) => Ok(d@),
        Err(e) => Err(e),
    }
}

/// Makes the dictionary, or the failure, of what the builder left (see
/// `spec_trained`).
pub fn trained(raw: RawTraining) -> (r: Result<Dictionary, Error>)
    ensures
        trained_view(r) == spec_trained(raw.buffer@, raw.code),
{
    let RawTraining { buffer, code } = raw;
    match code {
        Ok(n) => {
            if n <= buffer.len() {
                let mut content = buffer;
                content.truncate(n);
                Ok(Dictionary::new(content))
            } else {
                Err(Error::new(ErrorKind::InvalidParameter, 0))
            }
        },
        Err(c) => Err(Error::from_setup(c)),
    }
}

/// `zstd_safe::train_from_buffer`, on the samples, which lie one behind
/// the other in `samples` with their lengths in `sizes`, and a fresh,
/// zeroed buffer of `capacity` bytes. The binding panics unless the
/// lengths add up to the length of `samples`, and passes their number on
/// as 32 bits; `requires` keeps to both. Assumed: the buffer comes back at
/// the size it was made with; and, unless the builder reports that memory
/// was short, what comes back is what the builder makes of these
/// arguments, which is given the name `built`.
#[verifier::external_body]
pub(crate) fn zdict_train(samples: &[u8], sizes: &[usize], capacity: usize) -> (r: RawTraining)
    requires
        total(sizes@) == samples@.len(),
        sizes@.len() <= u32::MAX,
        capacity <= ROOM_MAX,
    ensures
        r.buffer@.len() == capacity,
        !out_of_memory(r.code) ==> (r.buffer@, r.code) == built(samples@, sizes@, capacity),
{
    let mut buffer = vec![0u8; capacity];
    let code = train_from_buffer(&mut buffer[..], samples, sizes);
    RawTraining { buffer, code }
}

} // verus!
