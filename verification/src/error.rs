//! The error surface: six classes of failure, and the class that each of the
//! codec's native result codes falls into.

use vstd::prelude::*;

verus! {

/// The class of a failure.
#[derive(Clone, Copy, Debug, PartialEq, Eq, Structural)]
pub enum ErrorKind {
    /// A configuration value is outside what the codec supports.
    InvalidParameter,
    /// The operation does not fit the state of the stream or handle.
    InvalidState,
    /// Compressed input ended in the middle of a frame.
    TruncatedInput,
    /// Compressed input is not a well-formed frame.
    CorruptData,
    /// Memory, or room for output, could not be had.
    ResourceExhausted,
    /// A caller's buffer is not a contiguous sequence of bytes.
    TypeError,
}

/// What is said of each class of failure.
pub open spec fn kind_text(kind: ErrorKind) -> Seq<char> {
    match kind {
        ErrorKind::InvalidParameter => "invalid parameter"@,
        ErrorKind::InvalidState => "operation on a closed or exhausted stream"@,
        ErrorKind::TruncatedInput => "compressed input ended in the middle of a frame"@,
        ErrorKind::CorruptData => "compressed input is corrupt"@,
        ErrorKind::ResourceExhausted => "out of memory"@,
        ErrorKind::TypeError => "a contiguous sequence of bytes is required"@,
    }
}

impl ErrorKind {
    /// What is said of this class of failure.
    pub fn text(&self) -> (text: &'static str)
        ensures
            text@ == kind_text(*self),
    {
        match self {
            ErrorKind::InvalidParameter => "invalid parameter",
            ErrorKind::InvalidState => "operation on a closed or exhausted stream",
            ErrorKind::TruncatedInput => "compressed input ended in the middle of a frame",
            ErrorKind::CorruptData => "compressed input is corrupt",
            ErrorKind::ResourceExhausted => "out of memory",
            ErrorKind::TypeError => "a contiguous sequence of bytes is required",
        }
    }
}

/// A failure, with the number of input bytes that had been taken when it
/// was noticed.
#[derive(Clone, Copy, Debug, PartialEq, Eq, Structural)]
pub struct Error {
    pub kind: ErrorKind,
    pub offset: u64,
}

/// The native error number that a raw result code stands for: the codec
/// reports failure `n` as the machine word `0 - n`.
pub open spec fn native_number(code: usize) -> int {
    usize::MAX - code + 1
}

/// The class of each native error number.
pub open spec fn kind_of_native(number: int) -> ErrorKind {
    if number == 10 || number == 12 || number == 14 || number == 20 || number == 22 || number
        == 24 {
        ErrorKind::CorruptData
    } else if number == 16 || number == 64 || number == 66 || number == 70 {
        ErrorKind::ResourceExhausted
    } else if number == 30 || number == 32 || number == 34 || (40 <= number <= 48) {
        ErrorKind::InvalidParameter
    } else if number == 72 {
        ErrorKind::TruncatedInput
    } else {
        ErrorKind::InvalidState
    }
}

/// The result of an operation that hands out bytes, with the bytes as a
/// sequence.
pub open spec fn outcome(r: Result<Vec<u8>, Error>) -> Result<Seq<u8>, Error> {
    match r {
        Ok(bytes) => Ok(bytes@),
        Err(e) => Err(e),
    }
}

/// The class of a native error number that the codec reports while it is
/// at work. It is the class of the number, but for the numbers that stand
/// for a bad parameter: of these, the ones about the dictionary mean that
/// the input cannot be decoded with the dictionary at hand
/// (`CorruptData`), and the others that the codec is not in a state to go
/// on (`InvalidState`).
pub open spec fn kind_at_use(number: int) -> ErrorKind {
    if kind_of_native(number) == ErrorKind::InvalidParameter {
        if number == 30 || number == 32 || number == 34 {
            ErrorKind::CorruptData
        } else {
            ErrorKind::InvalidState
        }
    } else {
        kind_of_native(number)
    }
}

/// The class of a failure of making a context when it comes up in the
/// middle of an operation rather than when the caller makes something:
/// `InvalidParameter` is kept for the making, so it becomes
/// `InvalidState`; every other class stays.
pub open spec fn kind_later(kind: ErrorKind) -> ErrorKind {
    if kind == ErrorKind::InvalidParameter {
        ErrorKind::InvalidState
    } else {
        kind
    }
}

/// A byte count as an offset: counts beyond the range of `u64` stay at its
/// upper end.
pub open spec fn clip(count: nat) -> u64 {
    if count > u64::MAX {
        u64::MAX
    } else {
        count as u64
    }
}

impl Error {
    /// A failure of the given class at the given offset.
    pub fn new(kind: ErrorKind, offset: u64) -> (e: Error)
        ensures
            e == (Error { kind, offset }),
    {
        Error { kind, offset }
    }

    /// The failure to report when the codec fails at work. A bad parameter
    /// is a failure of making a context and of nothing later, so what the
    /// codec reports under that class once it is at work is given the
    /// class that fits the moment (see `kind_at_use`).
    pub fn from_use(code: usize, offset: u64) -> (e: Error)
        ensures
            e == (Error { kind: kind_at_use(native_number(code)), offset }),
            e.kind != ErrorKind::InvalidParameter,
            e.kind != ErrorKind::TypeError,
    {
        let below: usize = usize::MAX - code;
        let kind = match classify(code) {
            ErrorKind::InvalidParameter => if below == 29 || below == 31 || below == 33 {
                ErrorKind::CorruptData
            } else {
                ErrorKind::InvalidState
            },
            kind => kind,
        };
        Error { kind, offset }
    }

    /// The same failure as it is reported by an operation that had to make
    /// a context of its own long after the parameters were made: what
    /// would be a bad parameter is by then a bad state (see `kind_later`).
    pub fn later(self) -> (e: Error)
        ensures
            e == (Error { kind: kind_later(self.kind), offset: self.offset }),
            e.kind != ErrorKind::InvalidParameter,
    {
        match self.kind {
            ErrorKind::InvalidParameter => Error { kind: ErrorKind::InvalidState, offset: self.offset },
            _ => self,
        }
    }

    /// The failure to report when setting up a context was refused: a
    /// shortage of memory stays one, anything else is a bad parameter.
    pub fn from_setup(code: usize) -> (e: Error)
        ensures
            e.offset == 0,
            e.kind == if kind_of_native(native_number(code)) == ErrorKind::ResourceExhausted {
                ErrorKind::ResourceExhausted
            } else {
                ErrorKind::InvalidParameter
            },
    {
        match classify(code) {
            ErrorKind::ResourceExhausted => Error { kind: ErrorKind::ResourceExhausted, offset: 0 },
            _ => Error { kind: ErrorKind::InvalidParameter, offset: 0 },
        }
    }
}

/// The class of the failure that a native result code stands for.
pub fn classify(code: usize) -> (kind: ErrorKind)
    ensures
        kind == kind_of_native(native_number(code)),
{
    // `below` is the native number less one, which always fits.
    let below: usize = usize::MAX - code;
    if below == 9 || below == 11 || below == 13 || below == 19 || below == 21 || below == 23 {
        ErrorKind::CorruptData
    } else if below == 15 || below == 63 || below == 65 || below == 69 {
        ErrorKind::ResourceExhausted
    } else if below == 29 || below == 31 || below == 33 || (39 <= below && below <= 47) {
        ErrorKind::InvalidParameter
    } else if below == 71 {
        ErrorKind::TruncatedInput
    } else {
        ErrorKind::InvalidState
    }
}

/// Adds a byte count to an offset, staying at the upper end of `u64` once
/// it is reached.
pub fn advance(offset: u64, by: usize) -> (r: u64)
    ensures
        r == if offset + by > u64::MAX { u64::MAX } else { (offset + by) as u64 },
{
    let step: u64 = by as u64;
    if offset > u64::MAX - step {
        u64::MAX
    } else {
        offset + step
    }
}

/// Advancing the clipped count of `n` bytes by `by` gives the clipped
/// count of `n + by` bytes.
pub proof fn lemma_advance_clip(n: nat, by: usize)
    ensures
        clip(n + by as nat) == if clip(n) + by > u64::MAX { u64::MAX } else { (clip(n) + by) as u64 },
{
}

} // verus!
