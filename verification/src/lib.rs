//! A streaming bridge to the Zstandard codec.
//!
//! The codec compresses; this library sees to everything around it:
//! parameters that are checked when they are made, dictionaries, codec
//! contexts that are released once, and the ways of putting bytes through
//! a context: in one shot, by writing to a stream, by reading from one,
//! in chunks, and in batches whose outputs keep the order of the inputs.
//!
//! The library is verified with Verus, the codec is not. Each context
//! keeps a record of the bytes that the codec has taken and given, and the
//! contracts say how the caller's bytes relate to that record: nothing is
//! dropped, doubled or reordered on the way in or out, streams end when
//! they should and stay ended, and input that stops inside a frame is
//! reported. That the codec gives back on decompression what it took on
//! compression is the codec's promise, not this library's.
//!
//! - `params`, `dictionary`, `training`: the settings of a context, and
//!   dictionaries made by the codec.
//! - `codec`: contexts, the single step, and the calls into the codec.
//! - `engine`: runs of steps, and one-shot processing.
//! - `writer`, `reader`, `chunker`: the push, pull and chunked modes.
//! - `batch`: many inputs, shared out among workers.
//! - `compressor`, `decompressor`: the two directions, with all modes.
//! - `frame`: what the header of a frame declares.
//! - `buffer`: views of a caller's bytes.
//! - `instance`: what an interpreter gets when it loads the module.
//! - `error`: the classes of failure.

pub mod batch;
pub mod buffer;
pub mod chunker;
pub mod codec;
pub mod compressor;
pub mod decompressor;
pub mod dictionary;
pub mod engine;
pub mod error;
pub mod frame;
pub mod instance;
pub mod params;
pub mod reader;
pub mod training;
pub mod writer;

pub use crate::compressor::Compressor;
pub use crate::decompressor::Decompressor;
pub use crate::dictionary::train_dictionary;
pub use crate::dictionary::Dictionary;
pub use crate::error::Error;
pub use crate::error::ErrorKind;
pub use crate::instance::capabilities;
pub use crate::params::Parameters;
